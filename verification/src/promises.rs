//! What each call does, told from its arguments, its result and the history of the
//! codec behind it.

use vstd::prelude::*;

use crate::codec::{Flush, Status};
use crate::error::{ExceptionClass, Failure};
use crate::module::{Class, Function, Member};

verus! {

use crate::checksum::{
    adler_checksum, crc_checksum, crc_shifted, crc_updated, word, AdlerSums,
};
use crate::codec::{
    decodes_to, deflate_reply, inflate_reply, zlib_encoded, DeflateStream, InflateStream,
};
use crate::compress::{
    compress_promises, flush_promises, object_level, valid_level, CompressView,
};
use crate::decompress::{
    feed_promises, flush_step, inflate_opened, one_shot_promises, output_limit, step_or_default,
    DecompressView,
};
use crate::deflate::{lemma_feed_overflow, lemma_finish_overflow};
use crate::feeding::{announcement, chunk_len, room_for};
use crate::inflate::{inflate_run, starved_request};
use crate::inflate_lemmas::{answer, lemma_feed_explained, lemma_starved_explained};
use crate::module::members;
use crate::window::{valid_window, wants_header, window_size};

////////// arguments

/// A window argument asks for a zlib header just if it is positive, and its
/// magnitude is the window size. Its sign makes no difference to the size. Windows
/// of 9 to 15 are valid, and the default is 15, with a header.
pub proof fn law_window_argument(bits: i8)
    requires
        bits != i8::MIN,
    ensures
        wants_header(Some(bits)) <==> bits > 0,
        bits >= 0 ==> window_size(Some(bits)) == bits,
        bits <= 0 ==> window_size(Some(bits)) == -bits,
        window_size(Some(bits)) == window_size(Some((-bits) as i8)),
        bits != 0 ==> wants_header(Some(bits)) != wants_header(Some((-bits) as i8)),
        valid_window(Some(bits)) <==> 9 <= bits <= 15 || -15 <= bits <= -9,
        wants_header(None) == wants_header(Some(15)),
        window_size(None) == window_size(Some(15)),
        valid_window(None),
{
}

/// A decompressor is opened for the header and the window size that the window
/// argument asks for.
pub proof fn law_decompressor_opened(bits: i8)
    requires
        bits != i8::MIN,
    ensures
        inflate_opened(Some(bits)).header <==> bits > 0,
        bits >= 0 ==> inflate_opened(Some(bits)).window_bits == bits,
        bits <= 0 ==> inflate_opened(Some(bits)).window_bits == -bits,
        inflate_opened(Some(bits)).dictionary is None,
        inflate_opened(Some(bits)).log.len() == 0,
        inflate_opened(None) == inflate_opened(Some(15)),
{
}

/// The levels are those from 0 to 9, and -1, which is the default. A compressor
/// object hands zlib the very level that it is made with, and the default as a
/// number that zlib reads as -1.
pub proof fn law_object_level(n: i32)
    ensures
        valid_level(Some(n)) <==> -1 <= n <= 9,
        valid_level(None),
        0 <= n <= 9 ==> object_level(Some(n)) == n,
        n == -1 ==> object_level(Some(n)) == 0xffff_ffff,
        object_level(None) == 0xffff_ffff,
{
}

/// A new compressor object has the level, the header and the window size that its
/// arguments ask for. It has not been asked anything, and nothing is left.
pub proof fn law_compressor_opened(n: i32, bits: i8)
    requires
        -1 <= n <= 9,
        bits != i8::MIN,
    ensures
        ({
            let object = CompressView::around(
                DeflateStream::opened(
                    object_level(Some(n)),
                    wants_header(Some(bits)),
                    window_size(Some(bits)) as u8,
                ),
            );
            &&& object.stream.level == if n == -1 {
                0xffff_ffff
            } else {
                n as int
            }
            &&& object.stream.header <==> bits > 0
            &&& bits >= 0 ==> object.stream.window_bits == bits
            &&& bits <= 0 ==> object.stream.window_bits == -bits
            &&& object.stream.log.len() == 0
            &&& object.unconsumed.len() == 0
        }),
{
}

/// A buffer size is taken as it is, and the default is 16 KiB. A limit of zero is
/// none.
pub proof fn law_sizes(bufsize: usize, length: isize, max_length: usize)
    requires
        length > 0,
    ensures
        step_or_default(Some(bufsize)) == bufsize,
        step_or_default(None) == 16384,
        flush_step(Some(length)) == length,
        flush_step(None) == 16384,
        output_limit(0) is None,
        max_length > 0 ==> output_limit(max_length) == Some(max_length as nat),
{
}

/// A chunk is all that is left, or as much as 32 bits can count. Only the last one
/// is announced as such. There is room for output as long as more can be held and
/// may come out, and never more than that, nor more than a buffer takes.
pub proof fn law_requests(rest: nat, last: bool, step: nat, limit: Option<nat>, len: nat)
    requires
        step > 0,
        len <= isize::MAX,
        limit matches Some(max) ==> len <= max,
    ensures
        chunk_len(rest) <= rest,
        chunk_len(rest) <= 0xffff_ffff,
        chunk_len(rest) == rest || chunk_len(rest) == 0xffff_ffff,
        announcement(last) == Flush::Finish <==> last,
        room_for(step, limit, len) <= step,
        room_for(step, limit, len) <= 0xffff_ffff,
        len + room_for(step, limit, len) <= isize::MAX,
        limit matches Some(max) ==> len + room_for(step, limit, len) <= max,
        room_for(step, limit, len) == 0 ==> len == isize::MAX || limit == Some(len),
{
    crate::feeding::lemma_room(step, limit, len);
}

////////// checksums

/// A signed number stands for the word that differs from it by a multiple of two
/// to the thirty-two.
pub proof fn law_word(n: i32)
    ensures
        n >= 0 ==> word(n) == n,
        n < 0 ==> word(n) == n + 0x1_0000_0000,
{
}

/// The Adler-32 checksum holds two sums. One more byte adds the byte to the lower
/// sum, and then the lower sum to the upper one, modulo 65521. Without any bytes the
/// sums are only reduced.
pub proof fn law_adler32_one_more_byte(value: u32, data: Seq<u8>, byte: u8)
    ensures
        ({
            let before = adler_checksum(value, data);
            let after = adler_checksum(value, data.push(byte));
            let lower = (before % 0x1_0000 + byte) % 65521;
            &&& after % 0x1_0000 == lower
            &&& after / 0x1_0000 == (before / 0x1_0000 + lower) % 65521
        }),
        ({
            let none = adler_checksum(value, Seq::empty());
            &&& none % 0x1_0000 == value % 0x1_0000 % 65521
            &&& none / 0x1_0000 == value / 0x1_0000 % 65521
        }),
{
    let sums = AdlerSums::of(value);
    sums.lemma_updated_fit(data);
    sums.lemma_updated_fit(data.push(byte));
    sums.lemma_updated_fit(Seq::empty());
    assert(data.push(byte).drop_last() =~= data);
}

/// The CRC-32 checksum is the complement of a remainder. One more byte is added to
/// the remainder, which is then divided eight times by the polynomial. Without any
/// bytes the checksum stays the same.
pub proof fn law_crc32_one_more_byte(value: u32, data: Seq<u8>, byte: u8)
    ensures
        crc_checksum(value, Seq::empty()) == value,
        ({
            let before = crc_checksum(value, data);
            let after = crc_checksum(value, data.push(byte));
            let bit = (|s: u32|
                if s & 1 == 1 {
                    (s >> 1) ^ 0xedb8_8320u32
                } else {
                    s >> 1
                });
            let s = (!before) ^ (byte as u32);
            after == !bit(bit(bit(bit(bit(bit(bit(bit(s))))))))
        }),
{
    assert(!(!value) == value) by (bit_vector);
    let state = crc_updated(!value, data);
    assert(!(!state) == state) by (bit_vector);
    assert(data.push(byte).drop_last() =~= data);
    reveal_with_fuel(crc_shifted, 9);
}

////////// compressing and decompressing at once

/// Compressing data at once succeeds at the levels from 0 to 9, and at -1 or none,
/// which are level 6. The stream is the one for the data and the level, whatever
/// the length of the data. Only at level 0, which does not compress, it is not said
/// where longer data is cut. The second byte of the stream tells the level roughly,
/// the last four are the checksum of the data, and the stream decodes to the data.
/// Any other level is refused.
pub proof fn law_compress_at_once(data: Seq<u8>, level: Option<i32>, r: Result<Vec<u8>, Failure>)
    requires
        crate::compress::one_shot_yields(data, level, r),
    ensures
        ({
            let n = match level {
                Some(n) => if n == -1 {
                    6
                } else {
                    n as int
                },
                None => 6,
            };
            let stream = r->Ok_0@;
            let end = stream.len() as int;
            if 0 <= n <= 9 {
                &&& r is Ok
                &&& n > 0 || data.len() < 0x8000 ==> stream == zlib_encoded(n as u32, data)
                &&& n == 0 ==> stream.len() >= data.len() + 11
                &&& stream.len() >= 8
                &&& stream[0] == 0x78
                &&& n < 2 ==> stream[1] == 0x01
                &&& 2 <= n < 6 ==> stream[1] == 0x5e
                &&& n == 6 ==> stream[1] == 0x9c
                &&& n > 6 ==> stream[1] == 0xda
                &&& stream[end - 4] * 0x100_0000 + stream[end - 3] * 0x1_0000 + stream[end - 2]
                    * 0x100 + stream[end - 1] == adler_checksum(1, data)
                &&& decodes_to(true, 15, stream, data)
            } else {
                &&& r is Err
                &&& r->Err_0 is Raised
                &&& r->Err_0->Raised_0.class == ExceptionClass::ZlibError
                &&& r->Err_0->Raised_0.message@ == "Bad compression level"@
            }
        }),
{
}

/// Decompressing data at once succeeds only if no reply of the decompressor is an
/// error. If one is, the call raises `zlib.error`, however much has come out by
/// then.
pub proof fn law_decompress_refuses_bad_data(
    data: Seq<u8>,
    wbits: Option<i8>,
    step: nat,
    r: Result<Vec<u8>, Failure>,
)
    requires
        crate::decompress::one_shot_yields(data, wbits, step, r),
    ensures
        ({
            let s = inflate_run(inflate_opened(wbits), data, step, None).stream;
            &&& r is Ok ==> forall|i: int|
                0 <= i < s.log.len() ==> inflate_reply(
                    (InflateStream { log: s.log.take(i), ..s }),
                    #[trigger] s.log[i],
                ).status is Some
            &&& (exists|i: int|
                0 <= i < s.log.len() && inflate_reply(
                    (InflateStream { log: s.log.take(i), ..s }),
                    #[trigger] s.log[i],
                ).status is None) <==> r is Err && r->Err_0 is Raised
            &&& r is Err && r->Err_0 is Raised ==> {
                &&& r->Err_0->Raised_0.class == ExceptionClass::ZlibError
                &&& r->Err_0->Raised_0.message@ == "invalid input data"@
            }
        }),
{
    let opened = inflate_opened(wbits);
    let s = inflate_run(opened, data, step, None).stream;
    if data.len() > 0 {
        if step == 0 {
            lemma_starved_explained(opened, starved_request(data));
        } else {
            lemma_feed_explained(opened, data, step, None, Seq::empty());
        }
    }
    assert forall|i: int| 0 <= i < s.log.len() - 1 implies inflate_reply(
        (InflateStream { log: s.log.take(i), ..s }),
        #[trigger] s.log[i],
    ).status is Some by {
        assert(answer(s, i).status is Some);
    }
    if s.log.len() > 0 {
        assert(s.log[s.log.len() - 1] == s.log.last());
    }
}

/// Decompressing data at once opens a decompressor for the window argument and
/// feeds it the data from its beginning. If that succeeds, the result is all that
/// the decompressor has written, and either the stream has ended, or all the data
/// was taken and the decompressor has nothing more to write. Otherwise the data was
/// refused, or more has come out than a vector can hold, or there is no room for
/// output.
pub proof fn law_decompress_at_once(
    data: Seq<u8>,
    wbits: Option<i8>,
    step: nat,
    r: Result<Vec<u8>, Failure>,
)
    requires
        one_shot_promises(data, wbits, step, r),
    ensures
        ({
            let s = inflate_run(inflate_opened(wbits), data, step, None).stream;
            let reply = inflate_reply(
                (InflateStream { log: s.log.drop_last(), ..s }),
                s.log.last(),
            );
            let asked = s.log.len() > 0;
            &&& match wbits {
                Some(bits) => {
                    &&& s.header <==> bits > 0
                    &&& s.window_bits == bits || s.window_bits == -bits
                }
                None => s.header && s.window_bits == 15,
            }
            &&& s.dictionary is None
            &&& r is Ok ==> {
                &&& r->Ok_0@ == s.written()
                &&& s.read().is_prefix_of(data)
                &&& {
                    ||| asked && reply.status == Some(Status::StreamEnd)
                    ||| s.read() == data && data.len() == 0
                    ||| s.read() == data && asked && reply.output.len() < s.log.last().room
                }
                &&& step > 0 || data.len() == 0
            }
            &&& asked && reply.status is None <==> r is Err && r->Err_0 is Raised
            &&& step > 0 && r is Err && r->Err_0 is Overflow ==> s.written().len() >= isize::MAX
            &&& step == 0 && r is Err && r->Err_0 is Overflow ==> s.read().len() + data.len()
                > u64::MAX
            &&& r is Err && r->Err_0 is Stuck ==> {
                &&& step == 0
                &&& asked
                &&& s.log.last().input.is_prefix_of(data)
                &&& s.log.last().input.len() > 0
                &&& s.log.last().room == 0
                &&& reply.status is Some
                &&& reply.consumed == 0
            }
        }),
{
    let s = inflate_run(inflate_opened(wbits), data, step, None).stream;
    if s.log.len() > 0 {
        assert(s.log.take(s.log.len() - 1) =~= s.log.drop_last());
    }
}

////////// decompressor objects

/// Feeding a decompressor object succeeds only if no reply of its decompressor is
/// an error. If one is, the call raises `zlib.error`, however much has come out by
/// then. That holds of `decompress`, which has buffers of the default size and
/// perhaps a limit, and of `flush`, which feeds the unconsumed tail.
pub proof fn law_object_refuses_bad_data(
    object: DecompressView,
    data: Seq<u8>,
    step: nat,
    limit: Option<nat>,
    r: Result<Vec<u8>, Failure>,
)
    requires
        step > 0,
        limit != Some(0nat),
        object.yields(data, step, limit, r),
    ensures
        ({
            let s = object.fed(data, step, limit).stream;
            let first = object.stream.log.len();
            &&& object.stream.log.is_prefix_of(s.log)
            &&& r is Ok ==> forall|i: int|
                first <= i < s.log.len() ==> inflate_reply(
                    (InflateStream { log: s.log.take(i), ..s }),
                    #[trigger] s.log[i],
                ).status is Some
            &&& (exists|i: int|
                first <= i < s.log.len() && inflate_reply(
                    (InflateStream { log: s.log.take(i), ..s }),
                    #[trigger] s.log[i],
                ).status is None) <==> r is Err && r->Err_0 is Raised
            &&& r is Err && r->Err_0 is Raised ==> {
                &&& r->Err_0->Raised_0.class == ExceptionClass::ZlibError
                &&& r->Err_0->Raised_0.message@ == "invalid input data"@
            }
        }),
{
    let first = object.stream.log.len();
    let s = object.fed(data, step, limit).stream;
    if data.len() > 0 {
        lemma_feed_explained(object.stream, data, step, limit, Seq::empty());
    }
    assert forall|i: int| first <= i < s.log.len() - 1 implies inflate_reply(
        (InflateStream { log: s.log.take(i), ..s }),
        #[trigger] s.log[i],
    ).status is Some by {
        assert(answer(s, i).status is Some);
    }
    if s.log.len() > first {
        assert(s.log[s.log.len() - 1] == s.log.last());
    }
}

/// Feeding a decompressor object hands its decompressor the data from its beginning.
///
/// - What is not taken of the data is the unconsumed tail. If the stream has ended
///   in this call, it is added to the unused data, which stays the same otherwise.
///   The end of the stream, once seen, stays seen.
/// - If the call succeeds, the result is all that the decompressor has written in
///   this call, no more than the limit. Either the stream has ended, or the limit is
///   reached, or all the data was taken and the decompressor has nothing more to
///   write.
/// - Otherwise the data was refused, or a length or a counter would exceed its
///   limit. Then the tail and the unused data stay the same.
pub proof fn law_object_feeds(
    before: DecompressView,
    data: Seq<u8>,
    step: nat,
    limit: Option<nat>,
    after: DecompressView,
    r: Result<Vec<u8>, Failure>,
)
    requires
        feed_promises(before, data, step, limit, after, r),
    ensures
        ({
            let s = after.stream;
            let reply = inflate_reply(
                (InflateStream { log: s.log.drop_last(), ..s }),
                s.log.last(),
            );
            let asked = s.log.len() > before.stream.log.len();
            let ended = asked && reply.status == Some(Status::StreamEnd);
            let taken = s.read().len() - before.stream.read().len();
            &&& before.stream.log.is_prefix_of(s.log)
            &&& s.header == before.stream.header
            &&& s.window_bits == before.stream.window_bits
            &&& s.dictionary == before.stream.dictionary
            &&& data.len() == 0 ==> r is Ok && r->Ok_0@.len() == 0 && s == before.stream
            &&& 0 <= taken <= data.len()
            &&& s.read() == before.stream.read() + data.take(taken)
            &&& after.eof <==> before.eof || ended
            &&& r is Ok || r->Err_0 is Raised ==> {
                &&& after.unconsumed_tail == data.skip(taken)
                &&& ended ==> after.unused_data == before.unused_data + data.skip(taken)
                &&& !ended ==> after.unused_data == before.unused_data
            }
            &&& r is Ok ==> {
                &&& s.written() == before.stream.written() + r->Ok_0@
                &&& limit matches Some(max) ==> r->Ok_0@.len() <= max
                &&& {
                    ||| ended
                    ||| limit == Some(r->Ok_0@.len())
                    ||| taken == data.len() && data.len() == 0
                    ||| taken == data.len() && asked && reply.output.len() < s.log.last().room
                }
            }
            &&& r is Err ==> r->Err_0 is Raised || r->Err_0 is Overflow
            &&& asked && reply.status is None <==> r is Err && r->Err_0 is Raised
            &&& r is Err && r->Err_0 is Raised ==> {
                &&& r->Err_0->Raised_0.class == ExceptionClass::ZlibError
                &&& r->Err_0->Raised_0.message@ == "invalid input data"@
            }
            &&& r is Err && r->Err_0 is Overflow ==> {
                &&& after.unconsumed_tail == before.unconsumed_tail
                &&& after.unused_data == before.unused_data
                &&& {
                    ||| before.stream.read().len() + data.len() > u64::MAX
                    ||| s.written().len() - before.stream.written().len() >= isize::MAX
                    ||| s.written().len() + step > u64::MAX
                }
            }
        }),
{
    let s = after.stream;
    if s.log.len() > before.stream.log.len() {
        assert(s.log.take(s.log.len() - 1) =~= s.log.drop_last());
    }
    let taken = s.read().len() - before.stream.read().len();
    if taken > 0 && s.log.len() == before.stream.log.len() {
        assert(s.log =~= before.stream.log);
        assert(s == before.stream);
    }
}

////////// compressor objects

/// Compressing data with an object whose stream has not been brought to an end
/// succeeds, whatever the length of the data, unless more goes in than can be
/// counted, or more comes out than a vector can hold or than can be counted.
pub proof fn law_compress_succeeds(
    before: CompressView,
    data: Seq<u8>,
    after: CompressView,
    r: Result<Vec<u8>, Failure>,
)
    requires
        compress_promises(before, data, after, r),
        !before.stream.finishing(),
        before.stream.read().len() + before.unconsumed.len() + data.len() <= u64::MAX,
        after.stream.written().len() - before.stream.written().len() + 16384 <= isize::MAX,
        after.stream.written().len() + 16384 <= u64::MAX,
    ensures
        r is Ok,
        after.stream.read() == before.stream.read() + before.unconsumed + data,
        after.stream.written() == before.stream.written() + r->Ok_0@,
        after.unconsumed.len() == 0,
        !after.stream.finishing(),
{
}

/// Compressing data overflows only if more goes in than can be counted, or more
/// comes out than a vector can hold or than can be counted, whatever the length of
/// the data.
pub proof fn law_compress_overflow(
    object: CompressView,
    data: Seq<u8>,
    r: Result<Vec<u8>, Failure>,
)
    requires
        object.wf(),
        !object.stream.finishing(),
        object.yields(data, r),
        r is Err,
        r->Err_0 is Overflow,
    ensures
        ({
            let written = object.fed(data).stream.written().len();
            ||| object.stream.read().len() + data.len() > u64::MAX
            ||| written - object.stream.written().len() + 16384 > isize::MAX
            ||| written + 16384 > u64::MAX
        }),
{
    if data.len() > 0 {
        lemma_feed_overflow(object.stream, data, Seq::empty());
    }
}

/// Bringing the stream of a compressor object to an end overflows only if more goes
/// in than can be counted, or more comes out than a vector can hold or than can be
/// counted, whatever was left of earlier data.
pub proof fn law_flush_overflow(object: CompressView, r: Result<Vec<u8>, Failure>)
    requires
        object.flush_yields(r),
        r is Err,
        r->Err_0 is Overflow,
    ensures
        ({
            let written = object.flushed().stream.written().len();
            ||| object.stream.read().len() + object.unconsumed.len() > u64::MAX
            ||| written - object.stream.written().len() + 16384 > isize::MAX
            ||| written + 16384 > u64::MAX
        }),
{
    lemma_finish_overflow(object.stream, object.unconsumed, Seq::empty());
}

/// Bringing the stream of a compressor object to an end succeeds, however much is
/// to come out, unless more goes in than can be counted, or more comes out than a
/// vector can hold or than can be counted. All that has come out by then decodes to
/// all that went in.
pub proof fn law_flush_succeeds(
    before: CompressView,
    after: CompressView,
    r: Result<Vec<u8>, Failure>,
)
    requires
        flush_promises(before, after, r),
        before.stream.read().len() + before.unconsumed.len() <= u64::MAX,
        after.stream.written().len() - before.stream.written().len() + 16384 <= isize::MAX,
        after.stream.written().len() + 16384 <= u64::MAX,
    ensures
        r is Ok,
        after.stream.written() == before.stream.written() + r->Ok_0@,
        before.unconsumed.len() == 0 ==> after.stream.read() == before.stream.read(),
        decodes_to(
            before.stream.header,
            before.stream.window_bits,
            before.stream.written() + r->Ok_0@,
            after.stream.read(),
        ),
        after.unconsumed.len() == 0,
        after.stream.spent(),
{
}

/// Compressing data with an object hands it to the compressor without telling it
/// that the end has come.
///
/// - If the call succeeds, what was left of earlier data has gone in, and then the
///   data. The result is all that the compressor has written in this call, and it
///   has nothing more to write by now.
/// - An exception is raised just if a reply is an error, which happens only after
///   the end was asked for. What was not taken of the data is kept.
/// - After the end nothing is read or written, and any data is refused and kept.
/// - The call overflows only if more goes in than can be counted, or more comes out
///   than a vector can hold or than can be counted.
pub proof fn law_object_compresses(
    before: CompressView,
    data: Seq<u8>,
    after: CompressView,
    r: Result<Vec<u8>, Failure>,
)
    requires
        compress_promises(before, data, after, r),
    ensures
        ({
            let s = after.stream;
            let first = before.stream.log.len();
            &&& before.stream.log.is_prefix_of(s.log)
            &&& s.level == before.stream.level
            &&& s.header == before.stream.header
            &&& s.window_bits == before.stream.window_bits
            &&& forall|i: int|
                first <= i < s.log.len() ==> {
                    &&& (#[trigger] s.log[i]).flush == Flush::NoFlush
                    &&& s.log[i].room == 16384
                }
            &&& s.finishing() <==> before.stream.finishing()
            &&& before.unconsumed.len() == 0 && data.len() == 0 ==> r is Ok && s
                == before.stream
            &&& (exists|i: int|
                first <= i < s.log.len() && deflate_reply(
                    (DeflateStream { log: s.log.take(i), ..s }),
                    #[trigger] s.log[i],
                ).status is None) <==> r is Err && r->Err_0 is Raised
            &&& r is Ok ==> {
                &&& s.read() == before.stream.read() + before.unconsumed + data
                &&& s.written() == before.stream.written() + r->Ok_0@
                &&& after.unconsumed.len() == 0
                &&& data.len() > 0 ==> {
                    &&& s.log.len() > 0
                    &&& deflate_reply(
                        (DeflateStream { log: s.log.drop_last(), ..s }),
                        s.log.last(),
                    ).output.len() < 16384
                }
            }
            &&& r is Err ==> r->Err_0 is Raised || r->Err_0 is Overflow
            &&& r is Err && r->Err_0 is Raised ==> {
                &&& r->Err_0->Raised_0.class == ExceptionClass::ZlibError
                &&& r->Err_0->Raised_0.message@ == "error while compressing"@
                &&& before.stream.finishing()
                &&& after.unconsumed.is_suffix_of(data)
                &&& before.unconsumed.len() == 0 ==> s.read() + after.unconsumed
                    == before.stream.read() + data
            }
            &&& before.stream.spent() ==> {
                &&& s.read() == before.stream.read()
                &&& s.written() == before.stream.written()
                &&& r is Ok ==> before.unconsumed.len() == 0 && data.len() == 0
                &&& r is Err && r->Err_0 is Raised ==> after.unconsumed == data
            }
            &&& r is Err && r->Err_0 is Overflow ==> after.unconsumed.len() == 0
            &&& r is Err && r->Err_0 is Overflow ==> {
                let written = s.written().len();
                ||| before.stream.read().len() + before.unconsumed.len() + data.len() > u64::MAX
                ||| written - before.stream.written().len() + 16384 > isize::MAX
                ||| written + 16384 > u64::MAX
            }
        }),
{
    let s = after.stream;
    let first = before.stream.log.len();
    assert forall|i: int|
        first <= i < s.log.len() && deflate_reply(
            (DeflateStream { log: s.log.take(i), ..s }),
            #[trigger] s.log[i],
        ).status is None implies r is Err && r->Err_0 is Raised by {
        assert(crate::deflate::answer(s, i).status is None);
    }
    if r is Err && r->Err_0 is Raised {
        let last = s.log.len() - 1;
        assert(crate::deflate::answer(s, last).status is None);
        assert(s.log[last] == s.log.last());
    }
    if r is Ok && data.len() > 0 && s.log.len() == first {
        assert(s.log =~= before.stream.log);
        assert(s == before.stream);
        assert(false);
    }
}

/// Bringing the stream of a compressor object to an end tells the compressor, until
/// it says so too, that the end has come.
///
/// - No reply is an error. If the call succeeds, the last reply is the end of the
///   stream, and no earlier one is.
/// - The result is all that the compressor has written in this call.
/// - The first request hands over what was left of earlier data.
/// - After the end nothing is read or written, and nothing comes out.
/// - The call overflows only if more goes in than can be counted, or more comes out
///   than a vector can hold or than can be counted. It does not fail otherwise.
pub proof fn law_object_flushes(
    before: CompressView,
    after: CompressView,
    r: Result<Vec<u8>, Failure>,
)
    requires
        flush_promises(before, after, r),
    ensures
        ({
            let s = after.stream;
            let first = before.stream.log.len();
            &&& before.stream.log.is_prefix_of(s.log)
            &&& s.level == before.stream.level
            &&& s.header == before.stream.header
            &&& s.window_bits == before.stream.window_bits
            &&& forall|i: int|
                first <= i < s.log.len() ==> {
                    let reply = deflate_reply(
                        (DeflateStream { log: s.log.take(i), ..s }),
                        #[trigger] s.log[i],
                    );
                    &&& s.log[i].flush == Flush::Finish
                    &&& s.log[i].room == 16384
                    &&& reply.status is Some
                    &&& reply.status == Some(Status::StreamEnd) <==> r is Ok && i == s.log.len()
                        - 1
                }
            &&& r is Ok ==> {
                &&& first < s.log.len()
                &&& s.finishing()
                &&& s.written() == before.stream.written() + r->Ok_0@
                &&& decodes_to(s.header, s.window_bits, s.written(), s.read())
                &&& s.spent()
            }
            &&& first < s.log.len() ==> {
                let input = s.log[first as int].input;
                &&& input.is_prefix_of(before.unconsumed)
                &&& input.len() == before.unconsumed.len() || input.len() == 0xffff_ffff
            }
            &&& before.stream.spent() ==> {
                &&& s.read() == before.stream.read()
                &&& s.written() == before.stream.written()
                &&& r is Ok ==> r->Ok_0@.len() == 0
            }
            &&& before.stream.read().len() <= s.read().len() <= before.stream.read().len()
                + before.unconsumed.len()
            &&& after.unconsumed.len() == 0
            &&& r is Err ==> {
                let written = s.written().len();
                &&& r->Err_0 is Overflow
                &&& {
                    ||| before.stream.read().len() + before.unconsumed.len() > u64::MAX
                    ||| written - before.stream.written().len() + 16384 > isize::MAX
                    ||| written + 16384 > u64::MAX
                }
            }
        }),
{
    let s = after.stream;
    let first = before.stream.log.len();
    assert forall|i: int| first <= i < s.log.len() implies {
        let reply = deflate_reply(
            (DeflateStream { log: s.log.take(i), ..s }),
            #[trigger] s.log[i],
        );
        &&& reply.status is Some
        &&& reply.status == Some(Status::StreamEnd) <==> r is Ok && i == s.log.len() - 1
    } by {
        assert(crate::deflate::answer(s, i).status is Some);
    }
}

////////// the module

/// Every name of the module stands for what it says: the functions and the classes,
/// and the numbers as they are known.
pub proof fn law_members()
    ensures
        members().len() == 16,
        members().contains(("crc32"@, Member::Function(Function::Crc32))),
        members().contains(("adler32"@, Member::Function(Function::Adler32))),
        members().contains(("compress"@, Member::Function(Function::Compress))),
        members().contains(("decompress"@, Member::Function(Function::Decompress))),
        members().contains(("compressobj"@, Member::Function(Function::CompressObj))),
        members().contains(("decompressobj"@, Member::Function(Function::DecompressObj))),
        members().contains(("Compress"@, Member::Class(Class::Compress))),
        members().contains(("Decompress"@, Member::Class(Class::Decompress))),
        members().contains(("error"@, Member::Class(Class::Error))),
        members().contains(("Z_DEFAULT_COMPRESSION"@, Member::Integer(-1i64))),
        members().contains(("Z_NO_COMPRESSION"@, Member::Integer(0))),
        members().contains(("Z_BEST_SPEED"@, Member::Integer(1))),
        members().contains(("Z_BEST_COMPRESSION"@, Member::Integer(9))),
        members().contains(("DEFLATED"@, Member::Integer(8))),
        members().contains(("DEF_BUF_SIZE"@, Member::Integer(16384))),
        members().contains(("MAX_WBITS"@, Member::Integer(15))),
{
    let m = members();
    assert(m[0] == ("crc32"@, Member::Function(Function::Crc32)));
    assert(m[1] == ("adler32"@, Member::Function(Function::Adler32)));
    assert(m[2] == ("compress"@, Member::Function(Function::Compress)));
    assert(m[3] == ("decompress"@, Member::Function(Function::Decompress)));
    assert(m[4] == ("compressobj"@, Member::Function(Function::CompressObj)));
    assert(m[5] == ("decompressobj"@, Member::Function(Function::DecompressObj)));
    assert(m[6] == ("Compress"@, Member::Class(Class::Compress)));
    assert(m[7] == ("Decompress"@, Member::Class(Class::Decompress)));
    assert(m[8] == ("error"@, Member::Class(Class::Error)));
    assert(m[9] == ("Z_DEFAULT_COMPRESSION"@, Member::Integer(-1i64)));
    assert(m[10] == ("Z_NO_COMPRESSION"@, Member::Integer(0)));
    assert(m[11] == ("Z_BEST_SPEED"@, Member::Integer(1)));
    assert(m[12] == ("Z_BEST_COMPRESSION"@, Member::Integer(9)));
    assert(m[13] == ("DEFLATED"@, Member::Integer(8)));
    assert(m[14] == ("DEF_BUF_SIZE"@, Member::Integer(16384)));
    assert(m[15] == ("MAX_WBITS"@, Member::Integer(15)));
}

} // verus!
