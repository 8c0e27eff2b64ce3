//! What holds of the module as a whole.

use vstd::prelude::*;

use crate::codec::Flush;
use crate::constants::DEF_BUF_SIZE;
use crate::error::Failure;
use crate::feeding::{Stop, MAX_CAPACITY};

verus! {

use crate::checksum::{adler_checksum, crc_checksum, crc_updated, AdlerSums};
use crate::codec::{
    decodes_to, deflate_reply, inflate_reply, spent_reply, DeflateStream, Reply,
};
use crate::compress::{compress_promises, flush_promises, CompressView};
use crate::decompress::{flush_step, inflate_opened, output_limit, DecompressView};
use crate::feeding::lemma_room;
use crate::inflate::{inflate_run, next_request};
use crate::inflate_lemmas::{
    beyond_the_buffer, comparable, in_range, lemma_drained, lemma_feed_on_stream,
    lemma_limit_out_of_reach, lemma_run_written, lemma_written_is_prefix, on_stream,
};
use crate::module::members;
use crate::window::{valid_window, wants_header, window_size};

////////// checksums

/// The Adler-32 checksum of data can be computed piece by piece, each time
/// continued from the checksum of what came before.
pub proof fn law_adler32_continues(value: u32, first: Seq<u8>, second: Seq<u8>)
    ensures
        adler_checksum(adler_checksum(value, first), second) == adler_checksum(
            value,
            first + second,
        ),
{
    let sums = AdlerSums::of(value);
    sums.lemma_updated_fit(first);
    assert(AdlerSums::of(sums.updated(first).value()) == sums.updated(first));
    lemma_adler_joined(sums, first, second);
}

proof fn lemma_adler_joined(sums: AdlerSums, first: Seq<u8>, second: Seq<u8>)
    ensures
        sums.updated(first).updated(second) == sums.updated(first + second),
    decreases second.len(),
{
    sums.lemma_updated_fit(first);
    if second.len() == 0 {
        assert(first + second =~= first);
    } else {
        lemma_adler_joined(sums, first, second.drop_last());
        assert((first + second).drop_last() =~= first + second.drop_last());
    }
}

/// The CRC-32 checksum of data can be computed piece by piece, each time
/// continued from the checksum of what came before.
pub proof fn law_crc32_continues(value: u32, first: Seq<u8>, second: Seq<u8>)
    ensures
        crc_checksum(crc_checksum(value, first), second) == crc_checksum(value, first + second),
{
    let state = crc_updated(!value, first);
    assert(!(!state) == state) by (bit_vector);
    lemma_crc_joined(!value, first, second);
}

proof fn lemma_crc_joined(state: u32, first: Seq<u8>, second: Seq<u8>)
    ensures
        crc_updated(crc_updated(state, first), second) == crc_updated(state, first + second),
    decreases second.len(),
{
    if second.len() == 0 {
        assert(first + second =~= first);
    } else {
        lemma_crc_joined(state, first, second.drop_last());
        assert((first + second).drop_last() =~= first + second.drop_last());
    }
}

////////// compressing and decompressing at once

/// A new decompressor is at the beginning of every stream.
proof fn lemma_fresh(wbits: Option<i8>, stream: Seq<u8>, data: Seq<u8>)
    requires
        decodes_to(wants_header(wbits), window_size(wbits) as u8, stream, data),
    ensures
        inflate_opened(wbits).read() == Seq::<u8>::empty(),
        inflate_opened(wbits).written() == Seq::<u8>::empty(),
        on_stream(inflate_opened(wbits), stream, data),
        stream.len() > 0,
{
    assert(inflate_opened(wbits).read() =~= Seq::<u8>::empty());
    lemma_written_is_prefix(inflate_opened(wbits), stream, data);
}

/// Decompressing a stream returns the data that it holds, whatever the size of
/// the buffer, and ignores what follows the stream.
pub proof fn law_decompress_returns_data(
    wbits: Option<i8>,
    stream: Seq<u8>,
    rest: Seq<u8>,
    data: Seq<u8>,
    step: nat,
    r: Result<Vec<u8>, Failure>,
)
    requires
        valid_window(wbits),
        decodes_to(wants_header(wbits), window_size(wbits) as u8, stream, data),
        step > 0,
        data.len() < MAX_CAPACITY,
        crate::decompress::one_shot_yields(stream + rest, wbits, step, r),
    ensures
        r is Ok,
        r->Ok_0@ == data,
{
    let s = inflate_opened(wbits);
    let input = stream + rest;
    lemma_fresh(wbits, stream, data);
    assert(s.read() + input =~= input);
    assert(stream.is_prefix_of(input));
    lemma_feed_on_stream(s, stream, data, input, step, None, Seq::empty());
    lemma_run_written(s, input, step, None);
    let output = inflate_run(s, input, step, None).output;
    assert(s.written() + output =~= output);
}

/// What `zlib_compress` has made of data at any level, `zlib_decompress` turns
/// back into the data, whatever the size of its buffer.
pub proof fn law_round_trip(
    data: Seq<u8>,
    level: Option<i32>,
    stream: Vec<u8>,
    step: nat,
    r: Result<Vec<u8>, Failure>,
)
    requires
        crate::compress::one_shot_yields(data, level, Ok(stream)),
        step > 0,
        data.len() < MAX_CAPACITY,
        crate::decompress::one_shot_yields(stream@, None, step, r),
    ensures
        r is Ok,
        r->Ok_0@ == data,
{
    assert(stream@ + Seq::<u8>::empty() =~= stream@);
    law_decompress_returns_data(None, stream@, Seq::empty(), data, step, r);
}

/// Decompressing a stream that breaks off returns the beginning of the data, and
/// all of it if nothing is missing.
pub proof fn law_decompress_truncated(
    wbits: Option<i8>,
    stream: Seq<u8>,
    data: Seq<u8>,
    k: int,
    step: nat,
    r: Result<Vec<u8>, Failure>,
)
    requires
        valid_window(wbits),
        decodes_to(wants_header(wbits), window_size(wbits) as u8, stream, data),
        0 <= k <= stream.len(),
        step > 0,
        data.len() < MAX_CAPACITY,
        crate::decompress::one_shot_yields(stream.take(k), wbits, step, r),
    ensures
        r is Ok,
        r->Ok_0@.is_prefix_of(data),
        k == stream.len() ==> r->Ok_0@ == data,
{
    let s = inflate_opened(wbits);
    let input = stream.take(k);
    lemma_fresh(wbits, stream, data);
    assert(s.read() + input =~= input);
    if k > 0 {
        lemma_feed_on_stream(s, stream, data, input, step, None, Seq::empty());
        lemma_written_is_prefix(inflate_run(s, input, step, None).stream, stream, data);
    }
    lemma_run_written(s, input, step, None);
    let output = inflate_run(s, input, step, None).output;
    assert(s.written() + output =~= output);
}

/// The more there is of a stream, the more comes out: what a shorter beginning
/// yields is the beginning of what a longer one yields, whatever the sizes of the
/// buffers.
pub proof fn law_decompress_longer_prefix(
    wbits: Option<i8>,
    stream: Seq<u8>,
    data: Seq<u8>,
    j: int,
    k: int,
    step_j: nat,
    step_k: nat,
    r_j: Result<Vec<u8>, Failure>,
    r_k: Result<Vec<u8>, Failure>,
)
    requires
        valid_window(wbits),
        decodes_to(wants_header(wbits), window_size(wbits) as u8, stream, data),
        0 <= j <= k <= stream.len(),
        step_j > 0,
        step_k > 0,
        data.len() < MAX_CAPACITY,
        crate::decompress::one_shot_yields(stream.take(j), wbits, step_j, r_j),
        crate::decompress::one_shot_yields(stream.take(k), wbits, step_k, r_k),
    ensures
        r_j is Ok,
        r_k is Ok,
        r_j->Ok_0@.is_prefix_of(r_k->Ok_0@),
{
    law_decompress_truncated(wbits, stream, data, j, step_j, r_j);
    law_decompress_truncated(wbits, stream, data, k, step_k, r_k);
    if 0 < j && k < stream.len() {
        let s = inflate_opened(wbits);
        let short = stream.take(j);
        let long = stream.take(k);
        lemma_fresh(wbits, stream, data);
        assert(s.read() + short =~= short);
        assert(s.read() + long =~= long);
        lemma_feed_on_stream(s, stream, data, short, step_j, None, Seq::empty());
        lemma_feed_on_stream(s, stream, data, long, step_k, None, Seq::empty());
        lemma_run_written(s, short, step_j, None);
        lemma_run_written(s, long, step_k, None);
        let run_j = inflate_run(s, short, step_j, None);
        let run_k = inflate_run(s, long, step_k, None);
        assert(run_j.stream.read() + run_j.rest =~= short);
        assert(run_k.stream.read() + run_k.rest =~= long);
        lemma_drained(run_j.stream, run_k.stream, stream, data);
        assert(s.written() + run_j.output =~= run_j.output);
        assert(s.written() + run_k.output =~= run_k.output);
    }
}

/// The size of the buffer makes no difference to what comes out of a stream, or
/// of the beginning of one.
pub proof fn law_bufsize_makes_no_difference(
    wbits: Option<i8>,
    stream: Seq<u8>,
    data: Seq<u8>,
    k: int,
    step: nat,
    other_step: nat,
    r: Result<Vec<u8>, Failure>,
    other: Result<Vec<u8>, Failure>,
)
    requires
        valid_window(wbits),
        decodes_to(wants_header(wbits), window_size(wbits) as u8, stream, data),
        0 <= k <= stream.len(),
        step > 0,
        other_step > 0,
        data.len() < MAX_CAPACITY,
        crate::decompress::one_shot_yields(stream.take(k), wbits, step, r),
        crate::decompress::one_shot_yields(stream.take(k), wbits, other_step, other),
    ensures
        r is Ok,
        other is Ok,
        r->Ok_0@ == other->Ok_0@,
{
    law_decompress_longer_prefix(wbits, stream, data, k, k, step, other_step, r, other);
    law_decompress_longer_prefix(wbits, stream, data, k, k, other_step, step, other, r);
    assert(r->Ok_0@ =~= other->Ok_0@);
}

////////// decompressor objects

/// No more than `n` bytes can come out, and the limit is beyond that.
pub open spec fn beyond(max_length: usize, n: nat) -> bool {
    max_length == 0 || n < max_length
}

/// What a decompressor object returns is what its decompressor has written in the
/// meantime.
pub proof fn law_object_returns_what_is_written(
    object: DecompressView,
    data: Seq<u8>,
    step: nat,
    limit: Option<nat>,
    r: Result<Vec<u8>, Failure>,
)
    requires
        step > 0,
        object.yields(data, step, limit, r),
        r is Ok,
    ensures
        object.fed(data, step, limit).stream.written() == object.stream.written() + r->Ok_0@,
{
    lemma_run_written(object.stream, data, step, limit);
}

/// Once the end of the stream has been seen it stays seen, and unused data is
/// never taken back.
pub proof fn law_object_only_adds(
    object: DecompressView,
    data: Seq<u8>,
    step: nat,
    limit: Option<nat>,
)
    ensures
        object.eof ==> object.fed(data, step, limit).eof,
        object.unused_data.is_prefix_of(object.fed(data, step, limit).unused_data),
{
}

/// A new decompressor object that is fed all the data in one call returns what
/// `zlib_decompress` returns, unless its `max_length` ends in the buffer in which
/// the output ends, or before.
pub proof fn law_object_agrees(
    data: Seq<u8>,
    wbits: Option<i8>,
    max_length: usize,
    at_once: Result<Vec<u8>, Failure>,
    by_object: Result<Vec<u8>, Failure>,
)
    requires
        crate::decompress::one_shot_yields(data, wbits, DEF_BUF_SIZE as nat, at_once),
        DecompressView::around(inflate_opened(wbits)).yields(
            data,
            DEF_BUF_SIZE as nat,
            output_limit(max_length),
            by_object,
        ),
        ({
            let output = inflate_run(
                inflate_opened(wbits),
                data,
                DEF_BUF_SIZE as nat,
                None,
            ).output;
            max_length == 0 || beyond_the_buffer(max_length as nat, output.len())
        }),
    ensures
        at_once is Ok <==> by_object is Ok,
        at_once is Ok ==> at_once->Ok_0@ == by_object->Ok_0@,
        at_once is Err ==> {
            &&& at_once->Err_0 is Overflow <==> by_object->Err_0 is Overflow
            &&& at_once->Err_0 is Raised <==> by_object->Err_0 is Raised
        },
        at_once is Err && at_once->Err_0 is Raised ==> by_object->Err_0.raises(
            at_once->Err_0->Raised_0.class,
            at_once->Err_0->Raised_0.message@,
        ),
{
    if max_length > 0 && data.len() > 0 {
        lemma_limit_out_of_reach(
            inflate_opened(wbits),
            data,
            max_length as nat,
            Seq::empty(),
        );
    }
}

/// A decompressor object that is fed a part of a stream which does not reach its
/// end takes it all, unless its `max_length` is in reach.
pub proof fn law_decompress_part(
    object: DecompressView,
    stream: Seq<u8>,
    data: Seq<u8>,
    piece: Seq<u8>,
    step: nat,
    max_length: usize,
    r: Result<Vec<u8>, Failure>,
)
    requires
        on_stream(object.stream, stream, data),
        (object.stream.read() + piece).is_prefix_of(stream),
        object.stream.read().len() + piece.len() < stream.len(),
        step > 0,
        in_range(object.stream, data, piece, 0),
        beyond(max_length, (data.len() - object.stream.written().len()) as nat),
        object.yields(piece, step, output_limit(max_length), r),
    ensures
        ({
            let next = object.fed(piece, step, output_limit(max_length));
            &&& r is Ok
            &&& on_stream(next.stream, stream, data)
            &&& next.stream.read() == object.stream.read() + piece
            &&& next.stream.written() == object.stream.written() + r->Ok_0@
            &&& next.eof == object.eof
            &&& next.unused_data == object.unused_data
            &&& next.unconsumed_tail.len() == 0
        }),
{
    let s = object.stream;
    let limit = output_limit(max_length);
    let run = inflate_run(s, piece, step, limit);
    lemma_written_is_prefix(s, stream, data);
    lemma_run_written(s, piece, step, limit);
    if piece.len() == 0 {
        assert(s.read() + piece =~= s.read());
    } else {
        lemma_feed_on_stream(s, stream, data, piece, step, limit, Seq::empty());
        lemma_written_is_prefix(run.stream, stream, data);
        assert(run.stream.read().len() <= s.read().len() + piece.len());
        assert(run.stream.read() + run.rest =~= run.stream.read());
    }
}

/// A decompressor object that is fed the last part of a stream returns the rest
/// of the data and sees the end, unless its `max_length` is in reach. What
/// follows the stream is unused data, and unconsumed as well.
pub proof fn law_decompress_last(
    object: DecompressView,
    stream: Seq<u8>,
    data: Seq<u8>,
    piece: Seq<u8>,
    rest: Seq<u8>,
    step: nat,
    max_length: usize,
    r: Result<Vec<u8>, Failure>,
)
    requires
        on_stream(object.stream, stream, data),
        object.stream.read() + piece == stream + rest,
        piece.len() > 0,
        step > 0,
        in_range(object.stream, data, piece, 0),
        beyond(max_length, (data.len() - object.stream.written().len()) as nat),
        object.yields(piece, step, output_limit(max_length), r),
    ensures
        ({
            let next = object.fed(piece, step, output_limit(max_length));
            &&& r is Ok
            &&& on_stream(next.stream, stream, data)
            &&& next.stream.read() == stream
            &&& next.stream.written() == data
            &&& data == object.stream.written() + r->Ok_0@
            &&& next.eof
            &&& next.unused_data == object.unused_data + rest
            &&& next.unconsumed_tail == rest
        }),
{
    let s = object.stream;
    let limit = output_limit(max_length);
    let run = inflate_run(s, piece, step, limit);
    assert(stream.is_prefix_of(stream + rest));
    lemma_written_is_prefix(s, stream, data);
    lemma_run_written(s, piece, step, limit);
    lemma_feed_on_stream(s, stream, data, piece, step, limit, Seq::empty());
    lemma_written_is_prefix(run.stream, stream, data);
    assert(run.stop == Stop::StreamEnd);
    assert(run.rest =~= (run.stream.read() + run.rest).skip(stream.len() as int));
    assert((stream + rest).skip(stream.len() as int) =~= rest);
}

/// A decompressor object that is fed a part of a stream, or its end, with a
/// `max_length` returns what comes next of the data, and no more than that many
/// bytes. What its decompressor has not taken by then is the unconsumed tail. If
/// fewer bytes come out, nothing is left but what follows the stream.
pub proof fn law_decompress_limited(
    object: DecompressView,
    stream: Seq<u8>,
    data: Seq<u8>,
    piece: Seq<u8>,
    step: nat,
    max_length: usize,
    r: Result<Vec<u8>, Failure>,
)
    requires
        on_stream(object.stream, stream, data),
        comparable(object.stream.read() + piece, stream),
        step > 0,
        max_length > 0,
        in_range(object.stream, data, piece, 0),
        object.yields(piece, step, output_limit(max_length), r),
    ensures
        ({
            let next = object.fed(piece, step, output_limit(max_length));
            &&& r is Ok
            &&& r->Ok_0@.len() <= max_length
            &&& on_stream(next.stream, stream, data)
            &&& next.stream.read() + next.unconsumed_tail == object.stream.read() + piece
            &&& next.stream.written() == object.stream.written() + r->Ok_0@
            &&& next.stream.written().is_prefix_of(data)
            &&& r->Ok_0@.len() < max_length ==> next.unconsumed_tail.len() == 0
                || next.stream.read() == stream && next.stream.written() == data
        }),
{
    let s = object.stream;
    let limit = output_limit(max_length);
    let run = inflate_run(s, piece, step, limit);
    lemma_written_is_prefix(s, stream, data);
    lemma_run_written(s, piece, step, limit);
    if piece.len() > 0 {
        lemma_feed_on_stream(s, stream, data, piece, step, limit, Seq::empty());
        lemma_written_is_prefix(run.stream, stream, data);
    }
}

/// Past the end of the stream a decompressor object takes nothing and returns
/// nothing. Whatever it is fed is unused data.
pub proof fn law_decompress_after_end(
    object: DecompressView,
    piece: Seq<u8>,
    step: nat,
    max_length: usize,
    r: Result<Vec<u8>, Failure>,
)
    requires
        object.wf(),
        object.eof,
        step > 0,
        object.stream.read().len() + piece.len() <= u64::MAX,
        object.stream.written().len() + step <= u64::MAX,
        object.yields(piece, step, output_limit(max_length), r),
    ensures
        ({
            let next = object.fed(piece, step, output_limit(max_length));
            &&& r is Ok
            &&& r->Ok_0@.len() == 0
            &&& next.eof
            &&& next.unused_data == object.unused_data + piece
            &&& next.unconsumed_tail == piece
            &&& next.stream.read() == object.stream.read()
            &&& next.stream.written() == object.stream.written()
        }),
{
    let s = object.stream;
    let limit = output_limit(max_length);
    if piece.len() == 0 {
        assert(object.unused_data + piece =~= object.unused_data);
    } else {
        let request = next_request(piece, step, limit, Seq::empty());
        lemma_room(step, limit, 0);
        assert(inflate_reply(s, request) == Reply::at_end());
        s.lemma_after(request);
        assert(s.after(request).read() =~= s.read());
        assert(s.after(request).written() =~= s.written());
        assert(piece.skip(0) =~= piece);
        assert(Seq::<u8>::empty() + Seq::<u8>::empty() =~= Seq::<u8>::empty());
        assert(inflate_run(s, piece, step, limit).stop == Stop::StreamEnd);
    }
}

/// All pieces in a row.
pub open spec fn joined(pieces: Seq<Seq<u8>>) -> Seq<u8>
    decreases pieces.len(),
{
    if pieces.len() == 0 {
        Seq::empty()
    } else {
        joined(pieces.drop_last()) + pieces.last()
    }
}

/// The values of results that are all good.
pub open spec fn values(results: Seq<Result<Vec<u8>, Failure>>) -> Seq<Seq<u8>> {
    results.map_values(|r: Result<Vec<u8>, Failure>| r->Ok_0@)
}

/// The object that is fed the piece with this number returns the result and
/// becomes the next object.
pub open spec fn decompresses_at(
    objects: Seq<DecompressView>,
    pieces: Seq<Seq<u8>>,
    max_length: usize,
    results: Seq<Result<Vec<u8>, Failure>>,
    i: int,
) -> bool {
    let step = DEF_BUF_SIZE as nat;
    &&& objects[i].yields(pieces[i], step, output_limit(max_length), results[i])
    &&& objects[i + 1] == objects[i].fed(pieces[i], step, output_limit(max_length))
}

/// `objects` is what becomes of the first of them as it is fed the pieces one
/// after the other, and `results` is what the calls return.
pub open spec fn decompresses(
    objects: Seq<DecompressView>,
    pieces: Seq<Seq<u8>>,
    max_length: usize,
    results: Seq<Result<Vec<u8>, Failure>>,
) -> bool {
    &&& objects.len() == pieces.len() + 1
    &&& results.len() == pieces.len()
    &&& forall|i: int|
        0 <= i < pieces.len() ==> #[trigger] decompresses_at(
            objects,
            pieces,
            max_length,
            results,
            i,
        )
}

/// `data` fits in a vector, and `input`, perhaps in several pieces, in memory.
pub open spec fn fits_the_machine(input: Seq<u8>, data: Seq<u8>) -> bool {
    data.len() < MAX_CAPACITY && input.len() <= u64::MAX
}

/// What becomes of an object that has been fed `fed`, a part of a stream or all of
/// it and more, and has returned `output`.
pub open spec fn after_pieces(
    object: DecompressView,
    stream: Seq<u8>,
    data: Seq<u8>,
    fed: Seq<u8>,
    output: Seq<u8>,
) -> bool {
    &&& on_stream(object.stream, stream, data)
    &&& object.stream.written() == output
    &&& if fed.len() < stream.len() {
        &&& object.stream.read() == fed
        &&& !object.eof
        &&& object.unused_data.len() == 0
        &&& object.unconsumed_tail.len() == 0
    } else {
        &&& object.stream.read() == stream
        &&& output == data
        &&& object.eof
        &&& object.unused_data == fed.skip(stream.len() as int)
        &&& object.unconsumed_tail.is_suffix_of(object.unused_data)
    }
}

/// One more piece.
proof fn lemma_one_more_piece(
    object: DecompressView,
    stream: Seq<u8>,
    data: Seq<u8>,
    fed: Seq<u8>,
    output: Seq<u8>,
    piece: Seq<u8>,
    max_length: usize,
    r: Result<Vec<u8>, Failure>,
)
    requires
        after_pieces(object, stream, data, fed, output),
        comparable(fed + piece, stream),
        fits_the_machine(fed + piece, data),
        beyond(max_length, data.len()),
        object.yields(piece, DEF_BUF_SIZE as nat, output_limit(max_length), r),
    ensures
        r is Ok,
        after_pieces(
            object.fed(piece, DEF_BUF_SIZE as nat, output_limit(max_length)),
            stream,
            data,
            fed + piece,
            output + r->Ok_0@,
        ),
{
    let step = DEF_BUF_SIZE as nat;
    lemma_written_is_prefix(object.stream, stream, data);
    if fed.len() + piece.len() < stream.len() {
        law_decompress_part(object, stream, data, piece, step, max_length, r);
        assert(object.unused_data =~= Seq::empty());
    } else if piece.len() == 0 {
        lemma_run_written(object.stream, piece, step, output_limit(max_length));
        assert(output + r->Ok_0@ =~= output);
        assert(fed + piece =~= fed);
        assert(object.fed(piece, step, output_limit(max_length)).unconsumed_tail
            =~= object.unused_data.skip(object.unused_data.len() as int));
    } else {
        let seen = object.stream.read() + piece;
        let rest = if fed.len() < stream.len() {
            (fed + piece).skip(stream.len() as int)
        } else {
            piece
        };
        assert(seen =~= stream + rest);
        law_decompress_last(object, stream, data, piece, rest, step, max_length, r);
        let next = object.fed(piece, step, output_limit(max_length));
        assert(output + r->Ok_0@ =~= data);
        assert(next.unused_data =~= (fed + piece).skip(stream.len() as int));
        assert(next.unconsumed_tail =~= next.unused_data.skip(
            next.unused_data.len() - rest.len(),
        ));
    }
}

/// However a stream, and perhaps more, is cut into pieces, a new decompressor
/// object that is fed the pieces returns the data that the stream holds, piece by
/// piece, and sees the end when it comes. What follows the stream is unused data.
/// The `max_length` of the calls is zero, or more than the data.
pub proof fn law_decompress_pieces(
    wbits: Option<i8>,
    stream: Seq<u8>,
    rest: Seq<u8>,
    data: Seq<u8>,
    max_length: usize,
    objects: Seq<DecompressView>,
    pieces: Seq<Seq<u8>>,
    results: Seq<Result<Vec<u8>, Failure>>,
)
    requires
        decodes_to(wants_header(wbits), window_size(wbits) as u8, stream, data),
        fits_the_machine(stream + rest, data),
        beyond(max_length, data.len()),
        objects[0] == DecompressView::around(inflate_opened(wbits)),
        decompresses(objects, pieces, max_length, results),
        joined(pieces) == stream + rest,
    ensures
        forall|i: int| 0 <= i < results.len() ==> (#[trigger] results[i]) is Ok,
        joined(values(results)) == data,
        objects.last().eof,
        objects.last().unused_data == rest,
        objects.last().unconsumed_tail.is_suffix_of(rest),
        forall|i: int|
            0 <= i < objects.len() ==> ((#[trigger] objects[i]).eof <==> joined(
                pieces.take(i),
            ).len() >= stream.len()),
{
    let n = pieces.len();
    lemma_pieces_so_far(wbits, stream, rest, data, max_length, objects, pieces, results, n);
    assert(pieces.take(n as int) =~= pieces);
    assert(results.take(n as int) =~= results);
    assert((stream + rest).skip(stream.len() as int) =~= rest);
    assert forall|i: int| 0 <= i < objects.len() implies ((#[trigger] objects[i]).eof <==> joined(
        pieces.take(i),
    ).len() >= stream.len()) by {
        lemma_pieces_so_far(
            wbits,
            stream,
            rest,
            data,
            max_length,
            objects,
            pieces,
            results,
            i as nat,
        );
    }
}

/// After the first `n` pieces.
proof fn lemma_pieces_so_far(
    wbits: Option<i8>,
    stream: Seq<u8>,
    rest: Seq<u8>,
    data: Seq<u8>,
    max_length: usize,
    objects: Seq<DecompressView>,
    pieces: Seq<Seq<u8>>,
    results: Seq<Result<Vec<u8>, Failure>>,
    n: nat,
)
    requires
        decodes_to(wants_header(wbits), window_size(wbits) as u8, stream, data),
        fits_the_machine(stream + rest, data),
        beyond(max_length, data.len()),
        objects[0] == DecompressView::around(inflate_opened(wbits)),
        decompresses(objects, pieces, max_length, results),
        joined(pieces) == stream + rest,
        n <= pieces.len(),
    ensures
        forall|i: int| 0 <= i < n ==> (#[trigger] results[i]) is Ok,
        after_pieces(
            objects[n as int],
            stream,
            data,
            joined(pieces.take(n as int)),
            joined(values(results.take(n as int))),
        ),
    decreases n,
{
    if n > 0 {
        let i = n - 1;
        lemma_pieces_so_far(
            wbits,
            stream,
            rest,
            data,
            max_length,
            objects,
            pieces,
            results,
            i as nat,
        );
        assert(decompresses_at(objects, pieces, max_length, results, i));
        lemma_joined_take(pieces, i as nat);
        lemma_joined_take(pieces, n);
        let fed = joined(pieces.take(n as int));
        assert(comparable(fed, stream)) by {
            if fed.len() <= stream.len() {
                assert(fed =~= stream.take(fed.len() as int));
            } else {
                assert(stream =~= fed.take(stream.len() as int));
            }
        }
        let output = joined(values(results.take(i)));
        lemma_one_more_piece(
            objects[i],
            stream,
            data,
            joined(pieces.take(i)),
            output,
            pieces[i],
            max_length,
            results[i],
        );
        assert(values(results.take(n as int)).drop_last() =~= values(results.take(i)));
        assert(objects[i + 1] == objects[n as int]);
    } else {
        lemma_fresh(wbits, stream, data);
        assert(pieces.take(0) =~= Seq::empty());
        assert(values(results.take(0)) =~= Seq::empty());
    }
}

/// The pieces up to some one are the first bytes of all of them.
proof fn lemma_joined_take(pieces: Seq<Seq<u8>>, n: nat)
    requires
        n <= pieces.len(),
    ensures
        joined(pieces.take(n as int)).is_prefix_of(joined(pieces)),
        n < pieces.len() ==> joined(pieces.take(n as int + 1)) == joined(pieces.take(n as int))
            + pieces[n as int],
    decreases pieces.len() - n,
{
    if n < pieces.len() {
        assert(pieces.take(n as int + 1).drop_last() =~= pieces.take(n as int));
        lemma_joined_take(pieces, n + 1);
    } else {
        assert(pieces.take(n as int) =~= pieces);
    }
}

/// A stream that is cut in two anywhere comes out whole.
pub proof fn law_decompress_two_pieces(
    wbits: Option<i8>,
    stream: Seq<u8>,
    data: Seq<u8>,
    k: int,
    max_length: usize,
    first: Result<Vec<u8>, Failure>,
    second: Result<Vec<u8>, Failure>,
)
    requires
        decodes_to(wants_header(wbits), window_size(wbits) as u8, stream, data),
        fits_the_machine(stream, data),
        beyond(max_length, data.len()),
        0 <= k <= stream.len(),
        ({
            let step = DEF_BUF_SIZE as nat;
            let limit = output_limit(max_length);
            let fresh = DecompressView::around(inflate_opened(wbits));
            &&& fresh.yields(stream.take(k), step, limit, first)
            &&& fresh.fed(stream.take(k), step, limit).yields(stream.skip(k), step, limit, second)
        }),
    ensures
        ({
            let step = DEF_BUF_SIZE as nat;
            let limit = output_limit(max_length);
            let fresh = DecompressView::around(inflate_opened(wbits));
            let last = fresh.fed(stream.take(k), step, limit).fed(stream.skip(k), step, limit);
            &&& first is Ok
            &&& second is Ok
            &&& first->Ok_0@ + second->Ok_0@ == data
            &&& last.eof
            &&& last.unused_data.len() == 0
            &&& last.unconsumed_tail.len() == 0
        }),
{
    let step = DEF_BUF_SIZE as nat;
    let limit = output_limit(max_length);
    let fresh = DecompressView::around(inflate_opened(wbits));
    let none = Seq::<u8>::empty();
    let head = stream.take(k);
    let tail = stream.skip(k);
    lemma_fresh(wbits, stream, data);
    assert(none + head =~= head);
    assert(head + tail =~= stream);
    lemma_one_more_piece(fresh, stream, data, none, none, head, max_length, first);
    assert(none + first->Ok_0@ =~= first->Ok_0@);
    let between = fresh.fed(head, step, limit);
    lemma_one_more_piece(
        between,
        stream,
        data,
        head,
        first->Ok_0@,
        tail,
        max_length,
        second,
    );
}

/// Whatever `max_length` a new decompressor object is fed a stream with, a flush
/// hands out what is left of the data: nothing is lost, and nothing is repeated.
/// The stream has a zlib header.
pub proof fn law_decompress_then_flush(
    wbits: Option<i8>,
    stream: Seq<u8>,
    data: Seq<u8>,
    max_length: usize,
    length: Option<isize>,
    first: Result<Vec<u8>, Failure>,
    second: Result<Vec<u8>, Failure>,
)
    requires
        wants_header(wbits),
        decodes_to(wants_header(wbits), window_size(wbits) as u8, stream, data),
        data.len() < MAX_CAPACITY,
        length matches Some(l) ==> l > 0,
        ({
            let fresh = DecompressView::around(inflate_opened(wbits));
            let fed = fresh.fed(stream, DEF_BUF_SIZE as nat, output_limit(max_length));
            &&& fresh.yields(stream, DEF_BUF_SIZE as nat, output_limit(max_length), first)
            &&& fed.yields(fed.unconsumed_tail, flush_step(length), None, second)
        }),
    ensures
        ({
            let fresh = DecompressView::around(inflate_opened(wbits));
            let fed = fresh.fed(stream, DEF_BUF_SIZE as nat, output_limit(max_length));
            let flushed = fed.fed(fed.unconsumed_tail, flush_step(length), None);
            &&& first is Ok
            &&& second is Ok
            &&& first->Ok_0@ + second->Ok_0@ == data
            &&& flushed.eof
            &&& flushed.unused_data.len() == 0
            &&& flushed.unconsumed_tail.len() == 0
        }),
{
    let step = DEF_BUF_SIZE as nat;
    let limit = output_limit(max_length);
    let fresh = DecompressView::around(inflate_opened(wbits));
    let s = fresh.stream;
    let none = Seq::<u8>::empty();
    let run = inflate_run(s, stream, step, limit);
    let fed = fresh.fed(stream, step, limit);
    lemma_fresh(wbits, stream, data);
    assert(s.read() + stream =~= stream);
    assert(stream + none =~= stream);
    lemma_feed_on_stream(s, stream, data, stream, step, limit, none);
    lemma_run_written(s, stream, step, limit);
    assert(s.written() + run.output =~= run.output);
    lemma_written_is_prefix(run.stream, stream, data);
    assert(run.stop != Stop::Exhausted);
    if run.stop == Stop::StreamEnd {
        assert(run.rest =~= none);
        assert(none + none =~= none);
        assert(first->Ok_0@ + second->Ok_0@ =~= data);
    } else {
        if run.rest.len() == 0 {
            assert(run.stream.read() + run.rest =~= run.stream.read());
            assert(false);
        }
        law_decompress_last(
            fed,
            stream,
            data,
            fed.unconsumed_tail,
            none,
            flush_step(length),
            0,
            second,
        );
    }
}

////////// compressor objects

/// The object that is fed the piece with this number returns the result, which is
/// good, and becomes the next object.
pub open spec fn compresses_at(
    objects: Seq<CompressView>,
    pieces: Seq<Seq<u8>>,
    results: Seq<Result<Vec<u8>, Failure>>,
    i: int,
) -> bool {
    &&& compress_promises(objects[i], pieces[i], objects[i + 1], results[i])
    &&& results[i] is Ok
}

/// `objects` is what becomes of the first of them as it is fed the pieces one
/// after the other, and `results` is what the calls return.
pub open spec fn compresses(
    objects: Seq<CompressView>,
    pieces: Seq<Seq<u8>>,
    results: Seq<Result<Vec<u8>, Failure>>,
) -> bool {
    &&& objects.len() == pieces.len() + 1
    &&& results.len() == pieces.len()
    &&& forall|i: int|
        0 <= i < pieces.len() ==> #[trigger] compresses_at(objects, pieces, results, i)
}

/// What a compressor object returns for a number of pieces and then for a flush,
/// put in a row, is a stream that holds the pieces, put in a row.
pub proof fn law_compress_pieces(
    level: u32,
    header: bool,
    window_bits: u8,
    objects: Seq<CompressView>,
    pieces: Seq<Seq<u8>>,
    results: Seq<Result<Vec<u8>, Failure>>,
    flushed: CompressView,
    tail: Vec<u8>,
)
    requires
        objects[0] == CompressView::around(DeflateStream::opened(level, header, window_bits)),
        compresses(objects, pieces, results),
        flush_promises(objects.last(), flushed, Ok(tail)),
    ensures
        decodes_to(header, window_bits, joined(values(results)) + tail@, joined(pieces)),
{
    let n = pieces.len();
    lemma_compressed_so_far(level, header, window_bits, objects, pieces, results, n);
    assert(pieces.take(n as int) =~= pieces);
    assert(results.take(n as int) =~= results);
}

proof fn lemma_compressed_so_far(
    level: u32,
    header: bool,
    window_bits: u8,
    objects: Seq<CompressView>,
    pieces: Seq<Seq<u8>>,
    results: Seq<Result<Vec<u8>, Failure>>,
    n: nat,
)
    requires
        objects[0] == CompressView::around(DeflateStream::opened(level, header, window_bits)),
        compresses(objects, pieces, results),
        n <= pieces.len(),
    ensures
        objects[n as int].stream.header == header,
        objects[n as int].stream.window_bits == window_bits,
        objects[n as int].stream.read() == joined(pieces.take(n as int)),
        objects[n as int].stream.written() == joined(values(results.take(n as int))),
        objects[n as int].unconsumed.len() == 0,
    decreases n,
{
    if n > 0 {
        let i = n - 1;
        lemma_compressed_so_far(level, header, window_bits, objects, pieces, results, i as nat);
        assert(compresses_at(objects, pieces, results, i));
        lemma_joined_take(pieces, i as nat);
        let object = objects[i];
        assert(object.unconsumed =~= Seq::empty());
        assert(object.stream.read() + object.unconsumed =~= object.stream.read());
        assert(values(results.take(n as int)).drop_last() =~= values(results.take(i)));
        assert(objects[i + 1] == objects[n as int]);
    } else {
        assert(pieces.take(0) =~= Seq::empty());
        assert(values(results.take(0)) =~= Seq::empty());
        assert(objects[0].stream.read() =~= Seq::empty());
        assert(objects[0].stream.written() =~= Seq::empty());
    }
}

/// What a compressor object returns for a number of pieces and then for a flush,
/// put in a row, `zlib_decompress` turns back into the pieces, put in a row.
pub proof fn law_compress_then_decompress(
    level: u32,
    wbits: Option<i8>,
    objects: Seq<CompressView>,
    pieces: Seq<Seq<u8>>,
    results: Seq<Result<Vec<u8>, Failure>>,
    flushed: CompressView,
    tail: Vec<u8>,
    step: nat,
    r: Result<Vec<u8>, Failure>,
)
    requires
        valid_window(wbits),
        objects[0] == CompressView::around(
            DeflateStream::opened(level, wants_header(wbits), window_size(wbits) as u8),
        ),
        compresses(objects, pieces, results),
        flush_promises(objects.last(), flushed, Ok(tail)),
        step > 0,
        joined(pieces).len() < MAX_CAPACITY,
        crate::decompress::one_shot_yields(joined(values(results)) + tail@, wbits, step, r),
    ensures
        r is Ok,
        r->Ok_0@ == joined(pieces),
{
    let header = wants_header(wbits);
    let window_bits = window_size(wbits) as u8;
    let stream = joined(values(results)) + tail@;
    law_compress_pieces(level, header, window_bits, objects, pieces, results, flushed, tail);
    assert(stream + Seq::<u8>::empty() =~= stream);
    law_decompress_returns_data(wbits, stream, Seq::empty(), joined(pieces), step, r);
}

/// However often the stream is brought to an end, its end comes out once: as long
/// as the counters do not overflow, every further flush succeeds and returns
/// nothing.
pub proof fn law_flush_again(object: CompressView, r: Result<Vec<u8>, Failure>)
    requires
        object.stream.spent(),
        object.unconsumed.len() == 0,
        object.stream.read().len() <= u64::MAX,
        object.stream.written().len() + DEF_BUF_SIZE <= u64::MAX,
        object.flush_yields(r),
    ensures
        r is Ok,
        r->Ok_0@.len() == 0,
        object.flushed().unconsumed.len() == 0,
        object.flushed().stream.read() == object.stream.read(),
        object.flushed().stream.written() == object.stream.written(),
{
    let s = object.stream;
    let request = crate::deflate::next_request(object.unconsumed, Flush::Finish);
    assert(deflate_reply(s, request) == spent_reply(request));
    s.lemma_after(request);
    assert(s.after(request).read() =~= s.read());
    assert(s.after(request).written() =~= s.written());
    assert(Seq::<u8>::empty() + Seq::<u8>::empty() =~= Seq::<u8>::empty());
}

////////// the module

/// No name in the module stands for two things.
pub proof fn law_names_are_distinct(i: int, j: int)
    requires
        0 <= i < j < members().len(),
    ensures
        members()[i].0 != members()[j].0,
{
    reveal_strlit("crc32");
    reveal_strlit("adler32");
    reveal_strlit("compress");
    reveal_strlit("decompress");
    reveal_strlit("compressobj");
    reveal_strlit("decompressobj");
    reveal_strlit("Compress");
    reveal_strlit("Decompress");
    reveal_strlit("error");
    reveal_strlit("Z_DEFAULT_COMPRESSION");
    reveal_strlit("Z_NO_COMPRESSION");
    reveal_strlit("Z_BEST_SPEED");
    reveal_strlit("Z_BEST_COMPRESSION");
    reveal_strlit("DEFLATED");
    reveal_strlit("DEF_BUF_SIZE");
    reveal_strlit("MAX_WBITS");
    // names of the same length start differently
    let first = members()[i].0;
    let second = members()[j].0;
    assert(first.len() != second.len() || first[0] != second[0]);
}

} // verus!
