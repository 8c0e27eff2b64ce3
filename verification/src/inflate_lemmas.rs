//! How a decompressor fares, above all on a complete stream.

use vstd::prelude::*;

use crate::codec::{Flush, Status, MAX_CALL};
use crate::constants::DEF_BUF_SIZE;
use crate::feeding::{Stop, MAX_CAPACITY};

verus! {

use crate::codec::{call_limit, decodes_to, inflate_reply, reads, InflateStream, Reply, Request};
use crate::feeding::{at_most, lemma_room, stop_after};
use crate::inflate::{feed_run, inflate_run, next_request, starved_run, InflateRun};

/// The decompressor has been fed a part of `stream`, which holds `data`.
pub open spec fn on_stream(s: InflateStream, stream: Seq<u8>, data: Seq<u8>) -> bool {
    &&& decodes_to(s.header, s.window_bits, stream, data)
    &&& s.dictionary is None
    &&& s.read().is_prefix_of(stream)
}

/// One of them is the beginning of the other.
pub open spec fn comparable(a: Seq<u8>, b: Seq<u8>) -> bool {
    a.is_prefix_of(b) || b.is_prefix_of(a)
}

/// The same decompressor, further on.
pub open spec fn same_setup(s: InflateStream, t: InflateStream) -> bool {
    s.header == t.header && s.window_bits == t.window_bits && s.dictionary == t.dictionary
}

/// What has been written so far is a part of the data, and all of it if all of a
/// stream with a header has been read.
pub proof fn lemma_written_is_prefix(s: InflateStream, stream: Seq<u8>, data: Seq<u8>)
    requires
        on_stream(s, stream, data),
    ensures
        stream.len() > 0,
        s.written().is_prefix_of(data),
        s.header && s.read() == stream ==> s.written() == data,
{
    reveal(decodes_to);
    let request = Request { input: Seq::empty(), room: 0, flush: Flush::NoFlush };
    assert(reads(s, s.header, s.window_bits, stream));
    assert(inflate_reply(s, request).fits(request));
}

/// What `decodes_to` says of the reply to a request with what comes next in the
/// stream.
proof fn lemma_reply(s: InflateStream, stream: Seq<u8>, data: Seq<u8>, request: Request)
    requires
        on_stream(s, stream, data),
        comparable(s.read() + request.input, stream),
    ensures
        ({
            let reply = inflate_reply(s, request);
            let all_there = stream.len() <= s.read().len() + call_limit(request.input.len());
            let ended = {
                &&& reply.status == Some(Status::StreamEnd)
                &&& reply.consumed == stream.len() - s.read().len()
                &&& reply.output == data.skip(s.written().len() as int)
            };
            &&& reply.fits(request)
            &&& reply.status is Some
            &&& s.read().len() + reply.consumed <= stream.len()
            &&& reply.status == Some(Status::StreamEnd) ==> ended
            &&& reply.output.len() < call_limit(request.room) ==> ended || !all_there
                && reply.consumed == call_limit(request.input.len())
            &&& all_there && data.len() <= s.written().len() + call_limit(request.room) ==> ended
        }),
{
    reveal(decodes_to);
    assert(reads(s, s.header, s.window_bits, stream));
}

/// A decompressor that gets what comes next in the stream stays on the stream.
///
/// - If it ends the stream, it has read all of it and written all the data. Once
///   it has done both, it has ended the stream.
/// - If it does not, and there is room left, it has taken all the input, and the
///   rest of the stream was not all there.
pub proof fn lemma_reply_on_stream(
    s: InflateStream,
    stream: Seq<u8>,
    data: Seq<u8>,
    request: Request,
)
    requires
        on_stream(s, stream, data),
        comparable(s.read() + request.input, stream),
        request.input.len() <= MAX_CALL,
        request.room <= MAX_CALL,
    ensures
        ({
            let reply = inflate_reply(s, request);
            let next = s.after(request);
            &&& reply.fits(request)
            &&& reply.status is Some
            &&& on_stream(next, stream, data)
            &&& reply.status == Some(Status::StreamEnd) <==> next.read() == stream
                && next.written() == data
            &&& reply.output.len() < request.room && reply.status != Some(Status::StreamEnd) ==> {
                &&& s.read().len() + request.input.len() < stream.len()
                &&& reply.consumed == request.input.len()
            }
        }),
{
    lemma_reply(s, stream, data, request);
    lemma_written_is_prefix(s, stream, data);
    let reply = inflate_reply(s, request);
    let next = s.after(request);
    s.lemma_after(request);
    assert(next.read() =~= (s.read() + request.input).take(next.read().len() as int));
    assert(next.read() =~= stream.take(next.read().len() as int));
    if reply.status == Some(Status::StreamEnd) {
        assert(next.read() =~= stream);
        assert(next.written() =~= data);
    }
}

/// A decompressor whose latest request has left room has written no less than one
/// that has read no more.
pub proof fn lemma_drained(s: InflateStream, t: InflateStream, stream: Seq<u8>, data: Seq<u8>)
    requires
        on_stream(s, stream, data),
        on_stream(t, stream, data),
        same_setup(s, t),
        s.read().len() <= t.read().len(),
        t.drained(),
    ensures
        s.written().is_prefix_of(t.written()),
{
    lemma_written_is_prefix(s, stream, data);
    lemma_written_is_prefix(t, stream, data);
    reveal(decodes_to);
    assert(reads(s, s.header, s.window_bits, stream));
    assert(reads(t, s.header, s.window_bits, stream));
    assert(s.written().len() <= t.written().len());
    assert(s.written() =~= t.written().take(s.written().len() as int));
}

/// Feeding a decompressor adds to the output just what it writes.
pub proof fn lemma_feed_written(
    s: InflateStream,
    rest: Seq<u8>,
    step: nat,
    limit: Option<nat>,
    output: Seq<u8>,
)
    ensures
        ({
            let run = feed_run(s, rest, step, limit, output);
            &&& output.is_prefix_of(run.output)
            &&& run.stream.written() == s.written() + run.output.skip(output.len() as int)
            &&& same_setup(s, run.stream)
        }),
    decreases rest.len() + MAX_CAPACITY - output.len(),
{
    let request = next_request(rest, step, limit, output);
    let run = feed_run(s, rest, step, limit, output);
    if output.len() >= MAX_CAPACITY || s.read().len() + request.input.len()
        > u64::MAX || s.written().len() + request.room > u64::MAX {
        assert(s.written() + output.skip(output.len() as int) =~= s.written());
    } else {
        let reply = inflate_reply(s, request);
        let next = s.after(request);
        let more = output + reply.output;
        let left = rest.skip(reply.consumed as int);
        let full = reply.output.len() == request.room;
        let last = request.flush == Flush::Finish;
        s.lemma_after(request);
        assert(more.skip(output.len() as int) =~= reply.output);
        if stop_after(reply.status, full, limit == Some(more.len()), last) is None && reply.fits(
            request,
        ) && (reply.consumed > 0 || reply.output.len() > 0) {
            lemma_feed_written(next, left, step, limit, more);
            assert(run.output.skip(output.len() as int) =~= reply.output + run.output.skip(
                more.len() as int,
            ));
            assert(run.stream.written() =~= s.written() + run.output.skip(output.len() as int));
        }
    }
}

/// The output of a run is what the decompressor has written in its course.
pub proof fn lemma_run_written(s: InflateStream, data: Seq<u8>, step: nat, limit: Option<nat>)
    requires
        step > 0,
    ensures
        ({
            let run = inflate_run(s, data, step, limit);
            &&& run.stream.written() == s.written() + run.output
            &&& same_setup(s, run.stream)
        }),
{
    let run = inflate_run(s, data, step, limit);
    if data.len() == 0 {
        assert(s.written() + run.output =~= s.written());
    } else {
        lemma_feed_written(s, data, step, limit, Seq::empty());
        assert(run.output.skip(0) =~= run.output);
    }
}

/// Lengths and counters stay within their limits while the rest of the data comes
/// out of `rest`, after `len` bytes of output.
pub open spec fn in_range(s: InflateStream, data: Seq<u8>, rest: Seq<u8>, len: nat) -> bool {
    &&& len + data.len() - s.written().len() < MAX_CAPACITY
    &&& data.len() + MAX_CALL <= u64::MAX
    &&& s.read().len() + rest.len() <= u64::MAX
}

/// A decompressor that is fed a part of a stream, or its end, does well.
///
/// - What it does not take is left over.
/// - If it stops for want of input, it has taken all of it and left some room, and
///   the input has not reached the end of the stream.
/// - If it stops at the end of the stream, it has written all the data.
/// - No more comes out than the limit allows. It stops there only if the stream
///   has not ended.
/// - Nothing else stops it.
#[verifier::rlimit(60)]
pub proof fn lemma_feed_on_stream(
    s: InflateStream,
    stream: Seq<u8>,
    data: Seq<u8>,
    rest: Seq<u8>,
    step: nat,
    limit: Option<nat>,
    output: Seq<u8>,
)
    requires
        on_stream(s, stream, data),
        comparable(s.read() + rest, stream),
        step > 0,
        limit matches Some(limit) ==> output.len() < limit,
        in_range(s, data, rest, output.len()),
    ensures
        run_on_stream(
            s,
            stream,
            data,
            rest,
            limit,
            feed_run(s, rest, step, limit, output),
        ),
    decreases rest.len() + MAX_CAPACITY - output.len(),
{
    let request = next_request(rest, step, limit, output);
    let reply = inflate_reply(s, request);
    let next = s.after(request);
    let more = output + reply.output;
    let left = rest.skip(reply.consumed as int);
    let chunk = request.input;
    let full = reply.output.len() == request.room;
    let last = request.flush == Flush::Finish;
    s.lemma_after(request);
    lemma_written_is_prefix(s, stream, data);
    lemma_room(step, limit, output.len());
    assert(comparable(s.read() + chunk, stream)) by {
        let seen = s.read() + rest;
        assert(s.read() + chunk =~= seen.take((s.read().len() + chunk.len()) as int));
        if stream.len() <= s.read().len() + chunk.len() {
            assert(stream =~= (s.read() + chunk).take(stream.len() as int));
        } else {
            assert(s.read() + chunk =~= stream.take((s.read().len() + chunk.len()) as int));
        }
    }
    lemma_reply_on_stream(s, stream, data, request);
    lemma_written_is_prefix(next, stream, data);
    assert(next.read() + left =~= s.read() + rest);
    assert(call_limit(request.room) == request.room);
    assert(call_limit(chunk.len()) == chunk.len());
    if stop_after(reply.status, full, limit == Some(more.len()), last) is None {
        lemma_feed_on_stream(next, stream, data, left, step, limit, more);
    }
}

/// The run has ended as it should for a decompressor on a stream.
pub open spec fn run_on_stream(
    s: InflateStream,
    stream: Seq<u8>,
    data: Seq<u8>,
    rest: Seq<u8>,
    limit: Option<nat>,
    run: InflateRun,
) -> bool {
    &&& on_stream(run.stream, stream, data)
    &&& same_setup(s, run.stream)
    &&& run.stream.read() + run.rest == s.read() + rest
    &&& limit matches Some(limit) ==> run.output.len() <= limit
    &&& run.stop == Stop::Exhausted || run.stop == Stop::StreamEnd || run.stop
        == Stop::LimitReached
    &&& run.stop == Stop::Exhausted ==> {
        &&& run.rest.len() == 0
        &&& s.read().len() + rest.len() < stream.len()
        &&& run.stream.drained()
    }
    &&& run.stop == Stop::StreamEnd ==> run.stream.read() == stream && run.stream.written() == data
    &&& run.stop == Stop::LimitReached ==> {
        &&& limit == Some(run.output.len())
        &&& !(run.stream.read() == stream && run.stream.written() == data)
    }
}

/// A limit makes no difference if it lies beyond the buffer in which the output
/// ends.
pub proof fn lemma_limit_out_of_reach(
    s: InflateStream,
    rest: Seq<u8>,
    limit: nat,
    output: Seq<u8>,
)
    requires
        beyond_the_buffer(
            limit,
            feed_run(s, rest, DEF_BUF_SIZE as nat, None, output).output.len(),
        ),
    ensures
        feed_run(s, rest, DEF_BUF_SIZE as nat, Some(limit), output) == feed_run(
            s,
            rest,
            DEF_BUF_SIZE as nat,
            None,
            output,
        ),
    decreases rest.len() + MAX_CAPACITY - output.len(),
{
    let step = DEF_BUF_SIZE as nat;
    lemma_feed_written(s, rest, step, None, output);
    let request = next_request(rest, step, None, output);
    let reply = inflate_reply(s, request);
    let next = s.after(request);
    let more = output + reply.output;
    let left = rest.skip(reply.consumed as int);
    let (now, end) = (output.len(), feed_run(s, rest, step, None, output).output.len());
    assert(now - now % 16384 <= end - end % 16384);
    if output.len() < MAX_CAPACITY {
        assert(request == next_request(rest, step, Some(limit), output));
    }
    if !(output.len() >= MAX_CAPACITY || s.read().len() + request.input.len() > u64::MAX
        || s.written().len() + request.room > u64::MAX) {
        let full = reply.output.len() == request.room;
        let last = request.flush == Flush::Finish;
        let goes_on = stop_after(reply.status, full, false, last) is None && reply.fits(request)
            && (reply.consumed > 0 || reply.output.len() > 0);
        if goes_on {
            lemma_feed_written(next, left, step, None, more);
            lemma_limit_out_of_reach(next, left, limit, more);
        }
        assert(more.len() < limit);
    }
}

/// The limit lies at the end of the buffer in which the output ends, or later.
pub open spec fn beyond_the_buffer(limit: nat, len: nat) -> bool {
    len - len % DEF_BUF_SIZE as nat + DEF_BUF_SIZE <= limit
}

/// The reply to the request with this number in the history.
pub open spec fn answer(s: InflateStream, i: int) -> Reply {
    inflate_reply(InflateStream { log: s.log.take(i), ..s }, s.log[i])
}

/// How the replies in the course of a run explain why it stopped.
///
/// - Every reply but the last is good, and does not end the stream.
/// - The input is refused just if the last reply is an error, and the stream has
///   ended just if the last reply says so.
pub open spec fn explained(s: InflateStream, run: InflateRun) -> bool {
    let first = s.log.len() as int;
    let last = run.stream.log.len() - 1;
    &&& s.log.is_prefix_of(run.stream.log)
    &&& same_setup(s, run.stream)
    &&& forall|i: int|
        first <= i < last ==> {
            let reply = #[trigger] answer(run.stream, i);
            reply.status is Some && reply.status != Some(Status::StreamEnd)
        }
    &&& run.stop == Stop::Invalid <==> first <= last && answer(run.stream, last).status is None
    &&& run.stop == Stop::StreamEnd <==> first <= last && answer(run.stream, last).status == Some(
        Status::StreamEnd,
    )
}

/// An answer stays what it is as more requests are made.
proof fn lemma_answer_stays(s: InflateStream, t: InflateStream, i: int)
    requires
        s.log.is_prefix_of(t.log),
        same_setup(s, t),
        0 <= i < s.log.len(),
    ensures
        answer(t, i) == answer(s, i),
{
    assert(t.log.take(i) =~= s.log.take(i));
    assert(t.log[i] == s.log[i]);
}

/// The latest answer.
proof fn lemma_answer_latest(s: InflateStream, request: Request)
    ensures
        answer(s.after(request), s.log.len() as int) == inflate_reply(s, request),
        s.after(request).reply() == inflate_reply(s, request),
{
    s.lemma_after(request);
    assert(s.after(request).log.take(s.log.len() as int) =~= s.log);
    assert((InflateStream { log: s.log, ..s.after(request) }) == s);
}

/// Feeding a decompressor stops for a reason.
#[verifier::rlimit(60)]
pub proof fn lemma_feed_explained(
    s: InflateStream,
    rest: Seq<u8>,
    step: nat,
    limit: Option<nat>,
    output: Seq<u8>,
)
    requires
        step > 0,
        output.len() <= MAX_CAPACITY,
        limit matches Some(limit) ==> output.len() < limit,
    ensures
        ({
            let run = feed_run(s, rest, step, limit, output);
            let last = run.stream.log.len() - 1;
            &&& explained(s, run)
            &&& forall|i: int|
                s.log.len() <= i <= last ==> (#[trigger] run.stream.log[i]).room > 0
            &&& run.stop == Stop::Exhausted ==> s.log.len() <= last && answer(
                run.stream,
                last,
            ).output.len() != run.stream.log[last].room
            &&& run.stop == Stop::Overflow ==> {
                ||| run.output.len() >= MAX_CAPACITY
                ||| s.read().len() + rest.len() > u64::MAX
                ||| run.stream.written().len() + at_most(step, MAX_CALL as nat) > u64::MAX
            }
        }),
    decreases rest.len() + MAX_CAPACITY - output.len(),
{
    let request = next_request(rest, step, limit, output);
    let run = feed_run(s, rest, step, limit, output);
    let first = s.log.len() as int;
    lemma_room(step, limit, output.len());
    if output.len() >= MAX_CAPACITY || s.read().len() + request.input.len() > u64::MAX
        || s.written().len() + request.room > u64::MAX {
    } else {
        let reply = inflate_reply(s, request);
        let next = s.after(request);
        let more = output + reply.output;
        let left = rest.skip(reply.consumed as int);
        let full = reply.output.len() == request.room;
        let last = request.flush == Flush::Finish;
        s.lemma_after(request);
        lemma_answer_latest(s, request);
        if stop_after(reply.status, full, limit == Some(more.len()), last) is None && reply.fits(
            request,
        ) && (reply.consumed > 0 || reply.output.len() > 0) {
            lemma_feed_explained(next, left, step, limit, more);
            lemma_answer_stays(next, run.stream, first);
            assert(run.stream.log[first] == request);
            assert(s.log.is_prefix_of(run.stream.log)) by {
                assert(s.log =~= run.stream.log.take(first));
            }
        } else {
            assert(s.log =~= next.log.take(first));
        }
    }
}

/// Handing over a chunk without any room stops for a reason too: every reply but
/// the last is good, and the input is refused just if the last one is an error.
pub proof fn lemma_starved_explained(s: InflateStream, request: Request)
    ensures
        ({
            let run = starved_run(s, request);
            let first = s.log.len() as int;
            let last = run.stream.log.len() - 1;
            &&& s.log.is_prefix_of(run.stream.log)
            &&& same_setup(s, run.stream)
            &&& forall|i: int|
                first <= i < last ==> (#[trigger] answer(run.stream, i)).status is Some
            &&& run.stop == Stop::Invalid <==> first <= last && answer(
                run.stream,
                last,
            ).status is None
            &&& run.stop == Stop::Invalid || run.stop == Stop::Overflow || run.stop == Stop::Stuck
            &&& run.stop == Stop::Overflow ==> run.stream.read().len() + request.input.len()
                > u64::MAX || run.stream.written().len() > u64::MAX
        }),
    decreases u64::MAX - s.read().len(),
{
    let run = starved_run(s, request);
    let first = s.log.len() as int;
    if s.read().len() + request.input.len() > u64::MAX || s.written().len() > u64::MAX {
    } else {
        let next = s.after(request);
        s.lemma_after(request);
        lemma_answer_latest(s, request);
        if inflate_reply(s, request).status is Some && s.read().len() < next.read().len()
            <= u64::MAX {
            lemma_starved_explained(next, request);
            lemma_answer_stays(next, run.stream, first);
            assert(s.log =~= run.stream.log.take(first));
        } else {
            assert(s.log =~= next.log.take(first));
        }
    }
}

} // verus!
