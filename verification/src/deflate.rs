//! Feeding a compressor.

use vstd::prelude::*;
use vstd::slice::slice_subrange;

use crate::codec::{compress, deflate_total_in, deflate_total_out, Flush, Status};
use crate::constants::DEF_BUF_SIZE;
use crate::feeding::{decide, decide_finish, next_chunk, Stop, MAX_CAPACITY};

verus! {

use crate::codec::{decodes_to, deflate_reply, deflate_stream, DeflateStream, Reply, Request};
use crate::feeding::{chunk_len, stop_after, stop_after_finish};

/// The state in which the feeding of a compressor has stopped: the compressor,
/// the output, the input that it has not taken, and the reason.
#[verifier::ext_equal]
pub struct DeflateRun {
    pub stream: DeflateStream,
    pub output: Seq<u8>,
    pub rest: Seq<u8>,
    pub stop: Stop,
}

/// The next request: the next chunk of the input, with room for the default
/// number of bytes.
pub open spec fn next_request(rest: Seq<u8>, flush: Flush) -> Request {
    Request {
        input: rest.take(chunk_len(rest.len()) as int),
        room: DEF_BUF_SIZE as nat,
        flush,
    }
}

/// The request would let a length or a counter exceed its limit.
pub open spec fn overflows(stream: DeflateStream, request: Request, output: Seq<u8>) -> bool {
    ||| output.len() + request.room > MAX_CAPACITY
    ||| stream.read().len() + request.input.len() > u64::MAX
    ||| stream.written().len() + request.room > u64::MAX
}

/// Feeds the compressor with what is `rest` of the input, with `output` written
/// already, until there is nothing more to take or to write. What it does not
/// take is handed over again.
pub open spec fn feed_run(stream: DeflateStream, rest: Seq<u8>, output: Seq<u8>) -> DeflateRun
    decreases rest.len() + MAX_CAPACITY - output.len(),
{
    let request = next_request(rest, Flush::NoFlush);
    if overflows(stream, request, output) {
        DeflateRun { stream, output, rest, stop: Stop::Overflow }
    } else {
        let reply = deflate_reply(stream, request);
        let next = stream.after(request);
        let more = output + reply.output;
        let left = rest.skip(reply.consumed as int);
        let full = reply.output.len() == request.room;
        let last = request.input.len() == rest.len();
        match stop_after(reply.status, full, false, last) {
            Some(stop) => DeflateRun { stream: next, output: more, rest: left, stop },
            None => if reply.fits(request) && (reply.consumed > 0 || reply.output.len() > 0) {
                feed_run(next, left, more)
            } else {
                DeflateRun { stream: next, output: more, rest: left, stop: Stop::Stuck }
            },
        }
    }
}

/// Feeds the compressor with `data`, with `output` written already. Without data
/// there is nothing to do.
pub open spec fn part_run(stream: DeflateStream, data: Seq<u8>, output: Seq<u8>) -> DeflateRun {
    if data.len() == 0 {
        DeflateRun { stream, output, rest: data, stop: Stop::Exhausted }
    } else {
        feed_run(stream, data, output)
    }
}

/// Feeds the compressor with what was kept back earlier and then with `data`. The
/// rest is what is left of the data.
pub open spec fn deflate_run(
    stream: DeflateStream,
    unconsumed: Seq<u8>,
    data: Seq<u8>,
) -> DeflateRun {
    let run = part_run(stream, unconsumed, Seq::empty());
    if run.stop == Stop::Exhausted {
        part_run(run.stream, data, run.output)
    } else {
        DeflateRun { rest: data, ..run }
    }
}

/// Announces the end of the input, of which `rest` is left, until the stream
/// ends. A chunk that the compressor will not have is dropped. A compressor that
/// has no input, does not end the stream and writes nothing would be left alone.
pub open spec fn finish_run(stream: DeflateStream, rest: Seq<u8>, output: Seq<u8>) -> DeflateRun
    decreases rest.len() + MAX_CAPACITY - output.len(),
{
    let request = next_request(rest, Flush::Finish);
    if overflows(stream, request, output) {
        DeflateRun { stream, output, rest, stop: Stop::Overflow }
    } else {
        let reply = deflate_reply(stream, request);
        let next = stream.after(request);
        let more = output + reply.output;
        let dropped = if reply.consumed == 0 && reply.output.len() == 0 {
            request.input.len()
        } else {
            reply.consumed
        };
        let left = rest.skip(dropped as int);
        match stop_after_finish(reply.status) {
            Some(stop) => DeflateRun { stream: next, output: more, rest: left, stop },
            None => if reply.fits(request) && (dropped > 0 || reply.output.len() > 0) {
                finish_run(next, left, more)
            } else {
                DeflateRun { stream: next, output: more, rest: left, stop: Stop::Stuck }
            },
        }
    }
}

/// `later` is the compressor `earlier` after it has written `output` and has
/// perhaps read something.
pub open spec fn continues(earlier: DeflateStream, later: DeflateStream, output: Seq<u8>) -> bool {
    &&& later.level == earlier.level
    &&& later.header == earlier.header
    &&& later.window_bits == earlier.window_bits
    &&& earlier.read().is_prefix_of(later.read())
    &&& later.written() == earlier.written() + output
    &&& earlier.spent() ==> later.spent()
}

/// `later` has neither read nor written anything since `earlier`.
pub open spec fn idle(earlier: DeflateStream, later: DeflateStream) -> bool {
    later.read() == earlier.read() && later.written() == earlier.written()
}

/// Feeding a compressor overflows only if more goes in than can be counted, or more
/// comes out than a vector can hold or than can be counted.
pub proof fn lemma_feed_overflow(stream: DeflateStream, rest: Seq<u8>, output: Seq<u8>)
    ensures
        ({
            let run = feed_run(stream, rest, output);
            &&& run.stream.written().len() - stream.written().len() == run.output.len()
                - output.len()
            &&& run.stop == Stop::Overflow ==> {
                ||| stream.read().len() + rest.len() > u64::MAX
                ||| run.output.len() + DEF_BUF_SIZE > MAX_CAPACITY
                ||| run.stream.written().len() + DEF_BUF_SIZE > u64::MAX
            }
        }),
    decreases rest.len() + MAX_CAPACITY - output.len(),
{
    let request = next_request(rest, Flush::NoFlush);
    if !overflows(stream, request, output) {
        let reply = deflate_reply(stream, request);
        let full = reply.output.len() == request.room;
        let last = request.input.len() == rest.len();
        stream.lemma_after(request);
        if stop_after(reply.status, full, false, last) is None && reply.fits(request) && (
        reply.consumed > 0 || reply.output.len() > 0) {
            lemma_feed_overflow(
                stream.after(request),
                rest.skip(reply.consumed as int),
                output + reply.output,
            );
        }
    }
}

/// Announcing the end to a compressor overflows only if more goes in than can be
/// counted, or more comes out than a vector can hold or than can be counted.
pub proof fn lemma_finish_overflow(stream: DeflateStream, rest: Seq<u8>, output: Seq<u8>)
    ensures
        ({
            let run = finish_run(stream, rest, output);
            &&& run.stream.written().len() - stream.written().len() == run.output.len()
                - output.len()
            &&& run.stop == Stop::Overflow ==> {
                ||| stream.read().len() + rest.len() > u64::MAX
                ||| run.output.len() + DEF_BUF_SIZE > MAX_CAPACITY
                ||| run.stream.written().len() + DEF_BUF_SIZE > u64::MAX
            }
        }),
    decreases rest.len() + MAX_CAPACITY - output.len(),
{
    let request = next_request(rest, Flush::Finish);
    if !overflows(stream, request, output) {
        let reply = deflate_reply(stream, request);
        let dropped = if reply.consumed == 0 && reply.output.len() == 0 {
            request.input.len()
        } else {
            reply.consumed
        };
        stream.lemma_after(request);
        if stop_after_finish(reply.status) is None && reply.fits(request) && (dropped > 0
            || reply.output.len() > 0) {
            lemma_finish_overflow(
                stream.after(request),
                rest.skip(dropped as int),
                output + reply.output,
            );
        }
    }
}

/// The reply to the request with this number.
pub open spec fn answer(s: DeflateStream, i: int) -> Reply {
    deflate_reply(DeflateStream { log: s.log.take(i), ..s }, s.log[i])
}

/// `later` is `earlier` after more requests, all of them with this flush mode and
/// room for the default number of bytes. The last one was refused, or none was.
pub open spec fn asked(
    earlier: DeflateStream,
    later: DeflateStream,
    flush: Flush,
    refused: bool,
) -> bool {
    let first = earlier.log.len() as int;
    let last = later.log.len() - 1;
    &&& earlier.log.is_prefix_of(later.log)
    &&& forall|i: int|
        first <= i <= last ==> {
            &&& (#[trigger] later.log[i]).flush == flush
            &&& later.log[i].room == DEF_BUF_SIZE
        }
    &&& forall|i: int|
        first <= i <= last ==> ((#[trigger] answer(later, i)).status is None <==> refused && i
            == last)
    &&& refused ==> first <= last
}

/// Further requests leave the replies to earlier ones alone.
pub proof fn lemma_answers_stay(earlier: DeflateStream, later: DeflateStream)
    requires
        earlier.log.is_prefix_of(later.log),
        later.level == earlier.level,
        later.header == earlier.header,
        later.window_bits == earlier.window_bits,
    ensures
        forall|i: int|
            0 <= i < earlier.log.len() ==> #[trigger] answer(later, i) == answer(earlier, i),
        forall|i: int| 0 <= i < earlier.log.len() ==> #[trigger] later.log[i] == earlier.log[i],
        later.log.len() > 0 ==> answer(later, later.log.len() - 1) == later.reply(),
{
    assert forall|i: int| 0 <= i < earlier.log.len() implies #[trigger] answer(later, i) == answer(
        earlier,
        i,
    ) by {
        assert(later.log.take(i) =~= earlier.log.take(i));
        assert(later.log[i] == earlier.log[i]);
    }
    if later.log.len() > 0 {
        assert(later.log.take(later.log.len() - 1) =~= later.log.drop_last());
    }
}

/// Hands `data` to the compressor, as `part_run` says. `buf` is the output so
/// far.
#[verifier::rlimit(40)]
pub(crate) fn deflate_part(c: &mut flate2::Compress, data: &[u8], buf: &mut Vec<u8>) -> (stop: Stop)
    requires
        old(buf)@.len() <= MAX_CAPACITY,
    ensures
        final(buf)@.len() <= MAX_CAPACITY,
        old(buf)@.is_prefix_of(final(buf)@),
        continues(
            deflate_stream(*old(c)),
            deflate_stream(*final(c)),
            final(buf)@.skip(old(buf)@.len() as int),
        ),
        deflate_stream(*final(c)).finishing() == deflate_stream(*old(c)).finishing(),
        stop == Stop::Exhausted || stop == Stop::Overflow || stop == Stop::Invalid,
        stop == Stop::Invalid ==> deflate_stream(*old(c)).finishing(),
        deflate_stream(*old(c)).spent() ==> idle(
            deflate_stream(*old(c)),
            deflate_stream(*final(c)),
        ),
        deflate_stream(*old(c)).spent() && data@.len() > 0 ==> stop != Stop::Exhausted,
        asked(
            deflate_stream(*old(c)),
            deflate_stream(*final(c)),
            Flush::NoFlush,
            stop == Stop::Invalid,
        ),
        data@.len() == 0 ==> stop == Stop::Exhausted,
        stop == Stop::Overflow ==> {
            ||| deflate_stream(*old(c)).read().len() + data@.len() > u64::MAX
            ||| final(buf)@.len() + DEF_BUF_SIZE > MAX_CAPACITY
            ||| deflate_stream(*final(c)).written().len() + DEF_BUF_SIZE > u64::MAX
        },
        stop == Stop::Exhausted && data@.len() > 0 ==> {
            let s = deflate_stream(*final(c));
            s.log.len() > 0 && s.reply().output.len() < s.log.last().room
        },
        ({
            let run = part_run(deflate_stream(*old(c)), data@, old(buf)@);
            let taken = deflate_stream(*final(c)).read().len() - deflate_stream(
                *old(c),
            ).read().len();
            &&& run.stream == deflate_stream(*final(c))
            &&& run.output == final(buf)@
            &&& run.stop == stop
            &&& 0 <= taken <= data@.len()
            &&& run.rest == data@.skip(taken)
            &&& deflate_stream(*final(c)).read() == deflate_stream(*old(c)).read() + data@.take(
                taken,
            )
            &&& stop == Stop::Exhausted ==> taken == data@.len()
        }),
{
    proof {
        assert(data@.skip(0) =~= data@);
        assert(deflate_stream(*c).read() + data@.take(0) =~= deflate_stream(*c).read());
        assert(deflate_stream(*c).written() + buf@.skip(buf@.len() as int)
            =~= deflate_stream(*c).written());
    }
    if data.len() == 0 {
        return Stop::Exhausted;
    }
    let mut pos: usize = 0;
    loop
        invariant
            pos <= data@.len(),
            data@.len() > 0,
            buf@.len() <= MAX_CAPACITY,
            old(buf)@.is_prefix_of(buf@),
            continues(
                deflate_stream(*old(c)),
                deflate_stream(*c),
                buf@.skip(old(buf)@.len() as int),
            ),
            deflate_stream(*c).finishing() == deflate_stream(*old(c)).finishing(),
            asked(deflate_stream(*old(c)), deflate_stream(*c), Flush::NoFlush, false),
            deflate_stream(*old(c)).spent() ==> idle(deflate_stream(*old(c)), deflate_stream(*c)),
            deflate_stream(*c).read() == deflate_stream(*old(c)).read() + data@.take(pos as int),
            part_run(deflate_stream(*old(c)), data@, old(buf)@) == feed_run(
                deflate_stream(*c),
                data@.skip(pos as int),
                buf@,
            ),
        decreases data@.len() - pos + MAX_CAPACITY - buf@.len(),
    {
        let len: usize = next_chunk(data.len() - pos);
        let chunk = slice_subrange(data, pos, pos + len);
        let taken: u64 = deflate_total_in(c);
        let written: u64 = deflate_total_out(c);
        let ghost before = deflate_stream(*c);
        let ghost request = next_request(data@.skip(pos as int), Flush::NoFlush);
        let ghost so_far = buf@;
        proof {
            assert(chunk@ =~= request.input);
        }
        if DEF_BUF_SIZE > MAX_CAPACITY - buf.len() || len as u64 > u64::MAX - taken
            || DEF_BUF_SIZE as u64 > u64::MAX - written {
            return Stop::Overflow;
        }
        let mut piece: Vec<u8> = vec![0u8; DEF_BUF_SIZE];
        proof {
            before.lemma_after(request);
            lemma_answers_stay(before, before.after(request));
        }
        let reply = compress(c, chunk, &mut piece, Flush::NoFlush);
        let consumed: usize = (deflate_total_in(c) - taken) as usize;
        let produced: usize = (deflate_total_out(c) - written) as usize;
        piece.truncate(produced);
        let ghost output = piece@;
        buf.append(&mut piece);
        proof {
            let start = old(buf)@.len() as int;
            assert(data@.skip(pos as int).skip(consumed as int) =~= data@.skip(pos + consumed));
            assert(data@.take(pos + consumed) =~= data@.take(pos as int) + chunk@.take(
                consumed as int,
            ));
            assert(buf@.skip(start) =~= so_far.skip(start) + output);
            assert(deflate_stream(*c).written() =~= deflate_stream(*old(c)).written() + buf@.skip(
                start,
            ));
            assert(deflate_stream(*c).read() =~= deflate_stream(*old(c)).read() + data@.take(
                pos + consumed,
            ));
        }
        pos = pos + consumed;
        let status = match reply {
            Ok(status) => Some(status),
            Err(_) => None,
        };
        let last = len == data.len() - (pos - consumed);
        if let Some(stop) = decide(status, produced == DEF_BUF_SIZE, false, last) {
            return stop;
        }
    }
}

/// Announces the end of the input, of which `data` is the last, until the stream
/// ends, as `finish_run` says. Returns the output and the reason why that
/// stopped.
#[verifier::rlimit(40)]
pub(crate) fn deflate_finish(c: &mut flate2::Compress, data: &[u8]) -> (r: (Vec<u8>, Stop))
    ensures
        continues(deflate_stream(*old(c)), deflate_stream(*final(c)), r.0@),
        data@.len() == 0 ==> deflate_stream(*final(c)).read() == deflate_stream(*old(c)).read(),
        deflate_stream(*final(c)).read().len() <= deflate_stream(*old(c)).read().len()
            + data@.len(),
        deflate_stream(*old(c)).spent() ==> r.0@.len() == 0 && idle(
            deflate_stream(*old(c)),
            deflate_stream(*final(c)),
        ),
        r.1 == Stop::StreamEnd || r.1 == Stop::Overflow,
        asked(deflate_stream(*old(c)), deflate_stream(*final(c)), Flush::Finish, false),
        forall|i: int|
            deflate_stream(*old(c)).log.len() <= i < deflate_stream(*final(c)).log.len() ==> ((
            #[trigger] answer(deflate_stream(*final(c)), i)).status == Some(Status::StreamEnd)
                <==> r.1 == Stop::StreamEnd && i == deflate_stream(*final(c)).log.len() - 1),
        r.1 == Stop::StreamEnd ==> deflate_stream(*old(c)).log.len() < deflate_stream(
            *final(c),
        ).log.len(),
        deflate_stream(*old(c)).log.len() < deflate_stream(*final(c)).log.len()
            ==> deflate_stream(*final(c)).log[deflate_stream(*old(c)).log.len() as int].input
            == data@.take(chunk_len(data@.len()) as int),
        r.1 == Stop::Overflow ==> {
            ||| deflate_stream(*old(c)).read().len() + data@.len() > u64::MAX
            ||| r.0@.len() + DEF_BUF_SIZE > MAX_CAPACITY
            ||| deflate_stream(*final(c)).written().len() + DEF_BUF_SIZE > u64::MAX
        },
        r.1 == Stop::StreamEnd ==> deflate_stream(*final(c)).spent() && decodes_to(
            deflate_stream(*final(c)).header,
            deflate_stream(*final(c)).window_bits,
            deflate_stream(*final(c)).written(),
            deflate_stream(*final(c)).read(),
        ),
        ({
            let run = finish_run(deflate_stream(*old(c)), data@, Seq::empty());
            &&& run.stream == deflate_stream(*final(c))
            &&& run.output == r.0@
            &&& run.stop == r.1
        }),
{
    let mut buf: Vec<u8> = Vec::new();
    let mut pos: usize = 0;
    proof {
        assert(data@.skip(0) =~= data@);
        assert(deflate_stream(*c).written() =~= deflate_stream(*c).written() + buf@);
    }
    loop
        invariant
            pos <= data@.len(),
            buf@.len() <= MAX_CAPACITY,
            continues(deflate_stream(*old(c)), deflate_stream(*c), buf@),
            deflate_stream(*c).read().len() <= deflate_stream(*old(c)).read().len() + pos,
            asked(deflate_stream(*old(c)), deflate_stream(*c), Flush::Finish, false),
            forall|i: int|
                deflate_stream(*old(c)).log.len() <= i < deflate_stream(*c).log.len() ==> (
                #[trigger] answer(deflate_stream(*c), i)).status != Some(Status::StreamEnd),
            if deflate_stream(*old(c)).log.len() == deflate_stream(*c).log.len() {
                pos == 0
            } else {
                deflate_stream(*c).log[deflate_stream(*old(c)).log.len() as int].input
                    == data@.take(chunk_len(data@.len()) as int)
            },
            data@.len() == 0 ==> deflate_stream(*c).read() == deflate_stream(*old(c)).read(),
            deflate_stream(*old(c)).spent() ==> buf@.len() == 0 && idle(
                deflate_stream(*old(c)),
                deflate_stream(*c),
            ),
            finish_run(deflate_stream(*old(c)), data@, Seq::empty()) == finish_run(
                deflate_stream(*c),
                data@.skip(pos as int),
                buf@,
            ),
        decreases data@.len() - pos + MAX_CAPACITY - buf@.len(),
    {
        let len: usize = next_chunk(data.len() - pos);
        let chunk = slice_subrange(data, pos, pos + len);
        let taken: u64 = deflate_total_in(c);
        let written: u64 = deflate_total_out(c);
        let ghost before = deflate_stream(*c);
        let ghost request = next_request(data@.skip(pos as int), Flush::Finish);
        let ghost so_far = buf@;
        proof {
            assert(chunk@ =~= request.input);
        }
        if DEF_BUF_SIZE > MAX_CAPACITY - buf.len() || len as u64 > u64::MAX - taken
            || DEF_BUF_SIZE as u64 > u64::MAX - written {
            return (buf, Stop::Overflow);
        }
        let mut piece: Vec<u8> = vec![0u8; DEF_BUF_SIZE];
        proof {
            before.lemma_after(request);
            lemma_answers_stay(before, before.after(request));
        }
        let reply = compress(c, chunk, &mut piece, Flush::Finish);
        let consumed: usize = (deflate_total_in(c) - taken) as usize;
        let produced: usize = (deflate_total_out(c) - written) as usize;
        piece.truncate(produced);
        let ghost output = piece@;
        buf.append(&mut piece);
        let dropped: usize = if consumed == 0 && produced == 0 {
            len
        } else {
            consumed
        };
        proof {
            assert(buf@ =~= so_far + output);
            assert(data@.skip(pos as int).skip(dropped as int) =~= data@.skip(pos + dropped));
            assert(deflate_stream(*c).written() =~= deflate_stream(*old(c)).written() + buf@);
            if data@.len() == 0 {
                assert(deflate_stream(*c).read() =~= before.read());
            }
        }
        pos = pos + dropped;
        let status = match reply {
            Ok(status) => Some(status),
            Err(_) => None,
        };
        if let Some(stop) = decide_finish(status) {
            return (buf, stop);
        }
    }
}

} // verus!
