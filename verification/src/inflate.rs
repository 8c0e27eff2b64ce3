//! Feeding a decompressor.

use vstd::prelude::*;
use vstd::slice::slice_subrange;

use crate::codec::{decompress, inflate_total_in, inflate_total_out, Flush};
use crate::feeding::{announce, decide, next_chunk, next_room, Stop, MAX_CAPACITY};

verus! {

use crate::codec::{inflate_reply, inflate_stream, InflateStream, Request};
use crate::feeding::{announcement, as_limit, chunk_len, lemma_room, room_for, stop_after};

/// The state in which the feeding of a decompressor has stopped: the
/// decompressor, the output, the input that it has not taken, and the reason.
#[verifier::ext_equal]
pub struct InflateRun {
    pub stream: InflateStream,
    pub output: Seq<u8>,
    pub rest: Seq<u8>,
    pub stop: Stop,
}

/// The next request: the next chunk of the input, with the room that there is for
/// output.
pub open spec fn next_request(
    rest: Seq<u8>,
    step: nat,
    limit: Option<nat>,
    output: Seq<u8>,
) -> Request {
    Request {
        input: rest.take(chunk_len(rest.len()) as int),
        room: room_for(step, limit, output.len()),
        flush: announcement(chunk_len(rest.len()) == rest.len()),
    }
}

/// Feeds the decompressor with what is `rest` of the input, with `output` written
/// already, until there is nothing more to take, to write or to do. What it does
/// not take is handed over again.
pub open spec fn feed_run(
    stream: InflateStream,
    rest: Seq<u8>,
    step: nat,
    limit: Option<nat>,
    output: Seq<u8>,
) -> InflateRun
    decreases rest.len() + MAX_CAPACITY - output.len(),
{
    let request = next_request(rest, step, limit, output);
    if output.len() >= MAX_CAPACITY || stream.read().len() + request.input.len()
        > u64::MAX || stream.written().len() + request.room > u64::MAX {
        InflateRun { stream, output, rest, stop: Stop::Overflow }
    } else {
        let reply = inflate_reply(stream, request);
        let next = stream.after(request);
        let more = output + reply.output;
        let left = rest.skip(reply.consumed as int);
        let full = reply.output.len() == request.room;
        let last = request.flush == Flush::Finish;
        match stop_after(reply.status, full, limit == Some(more.len()), last) {
            Some(stop) => InflateRun { stream: next, output: more, rest: left, stop },
            None => if reply.fits(request) && (reply.consumed > 0 || reply.output.len() > 0) {
                feed_run(next, left, step, limit, more)
            } else {
                InflateRun { stream: next, output: more, rest: left, stop: Stop::Stuck }
            },
        }
    }
}

/// Hands the decompressor a chunk without any room for output. All that can come
/// of it is that the chunk is refused; it is handed over as a whole until it is,
/// or until nothing is taken any more.
pub open spec fn starved_run(stream: InflateStream, request: Request) -> InflateRun
    decreases u64::MAX - stream.read().len(),
{
    let output = Seq::empty();
    let rest = request.input;
    if stream.read().len() + request.input.len() > u64::MAX || stream.written().len() > u64::MAX {
        InflateRun { stream, output, rest, stop: Stop::Overflow }
    } else {
        let reply = inflate_reply(stream, request);
        let next = stream.after(request);
        if reply.status is None {
            InflateRun { stream: next, output, rest, stop: Stop::Invalid }
        } else if stream.read().len() < next.read().len() <= u64::MAX {
            starved_run(next, request)
        } else {
            InflateRun { stream: next, output, rest, stop: Stop::Stuck }
        }
    }
}

/// A request for the first chunk of `data` without any room.
pub open spec fn starved_request(data: Seq<u8>) -> Request {
    Request {
        input: data.take(chunk_len(data.len()) as int),
        room: 0,
        flush: announcement(chunk_len(data.len()) == data.len()),
    }
}

/// The latest request has handed over the beginning of `data`, without any room,
/// and nothing of it was taken or refused.
pub open spec fn starved(data: Seq<u8>, s: InflateStream) -> bool {
    &&& s.log.len() > 0
    &&& s.log.last().input == data.take(chunk_len(data.len()) as int)
    &&& s.log.last().input.len() > 0
    &&& s.log.last().room == 0
    &&& s.reply().status is Some
    &&& s.reply().consumed == 0
}

/// Feeds the decompressor with `data`, and collects the output in buffers of
/// `step` bytes, up to the limit. Without data there is nothing to do, and without
/// a buffer little.
pub open spec fn inflate_run(
    stream: InflateStream,
    data: Seq<u8>,
    step: nat,
    limit: Option<nat>,
) -> InflateRun {
    if data.len() == 0 {
        InflateRun { stream, output: Seq::empty(), rest: data, stop: Stop::Exhausted }
    } else if step == 0 {
        starved_run(stream, starved_request(data))
    } else {
        feed_run(stream, data, step, limit, Seq::empty())
    }
}

/// Hands the decompressor the first chunk of `data` without any room, as
/// `starved_run` says, and returns the reason why that stopped.
fn inflate_starved(d: &mut flate2::Decompress, data: &[u8]) -> (stop: Stop)
    requires
        data@.len() > 0,
    ensures
        stop == Stop::Invalid || stop == Stop::Overflow || stop == Stop::Stuck,
        stop == Stop::Overflow ==> inflate_stream(*final(d)).read().len() + data@.len() > u64::MAX,
        stop == Stop::Stuck ==> starved(data@, inflate_stream(*final(d))),
        ({
            let run = starved_run(inflate_stream(*old(d)), starved_request(data@));
            run.stream == inflate_stream(*final(d)) && run.output.len() == 0 && run.stop == stop
        }),
        inflate_stream(*old(d)).spent() ==> inflate_stream(*final(d)).spent(),
{
    let len: usize = next_chunk(data.len());
    let chunk = slice_subrange(data, 0, len);
    let flush = announce(len == data.len());
    let ghost request = starved_request(data@);
    proof {
        assert(chunk@ =~= request.input);
    }
    loop
        invariant
            data@.len() > 0,
            request == starved_request(data@),
            chunk@ == request.input,
            flush == request.flush,
            inflate_stream(*old(d)).spent() ==> inflate_stream(*d).spent(),
            starved_run(inflate_stream(*old(d)), request) == starved_run(
                inflate_stream(*d),
                request,
            ),
        decreases u64::MAX - inflate_stream(*d).read().len(),
    {
        let taken: u64 = inflate_total_in(d);
        let _written: u64 = inflate_total_out(d);
        if chunk.len() as u64 > u64::MAX - taken {
            return Stop::Overflow;
        }
        let mut nothing: Vec<u8> = Vec::new();
        proof {
            inflate_stream(*d).lemma_after(request);
        }
        let reply = decompress(d, chunk, &mut nothing, flush);
        if reply.is_err() {
            return Stop::Invalid;
        }
        if inflate_total_in(d) == taken {
            return Stop::Stuck;
        }
    }
}

/// Feeds the decompressor with `data`, as `inflate_run` says, and returns the
/// output and the reason why that stopped.
#[verifier::rlimit(40)]
pub(crate) fn inflate_data(
    d: &mut flate2::Decompress,
    data: &[u8],
    step: usize,
    limit: Option<usize>,
) -> (r: (Vec<u8>, Stop))
    ensures
        limit matches Some(limit) ==> r.0@.len() <= limit,
        r.1 == Stop::Stuck ==> step == 0,
        step == 0 && r.1 == Stop::Overflow ==> inflate_stream(*final(d)).read().len()
            + data@.len() > u64::MAX,
        r.1 == Stop::Stuck ==> starved(data@, inflate_stream(*final(d))),
        step == 0 && data@.len() > 0 ==> r.1 == Stop::Invalid || r.1 == Stop::Overflow || r.1
            == Stop::Stuck,
        r.1 == Stop::StreamEnd || inflate_stream(*old(d)).spent() ==> inflate_stream(
            *final(d),
        ).spent(),
        ({
            let run = inflate_run(inflate_stream(*old(d)), data@, step as nat, as_limit(limit));
            let taken = inflate_stream(*final(d)).read().len() - inflate_stream(
                *old(d),
            ).read().len();
            &&& run.stream == inflate_stream(*final(d))
            &&& run.output == r.0@
            &&& run.stop == r.1
            &&& step > 0 ==> {
                &&& 0 <= taken <= data@.len()
                &&& run.rest == data@.skip(taken)
                &&& inflate_stream(*final(d)).read() == inflate_stream(*old(d)).read()
                    + data@.take(taken)
            }
            &&& r.1 == Stop::Exhausted && data@.len() > 0 ==> inflate_stream(
                *final(d),
            ).drained()
            &&& r.1 == Stop::Exhausted ==> run.rest.len() == 0
            &&& r.1 == Stop::LimitReached ==> limit == Some(r.0.len())
        }),
{
    let mut buf: Vec<u8> = Vec::new();
    proof {
        assert(data@.skip(0) =~= data@);
        assert(inflate_stream(*d).read() + data@.take(0) =~= inflate_stream(*d).read());
    }
    if data.len() == 0 {
        return (buf, Stop::Exhausted);
    }
    if step == 0 {
        let stop = inflate_starved(d, data);
        return (buf, stop);
    }
    let mut pos: usize = 0;
    loop
        invariant
            pos <= data@.len(),
            data@.len() > 0,
            step > 0,
            buf@.len() <= MAX_CAPACITY,
            limit matches Some(limit) ==> buf@.len() <= limit,
            inflate_stream(*d).read() == inflate_stream(*old(d)).read() + data@.take(pos as int),
            inflate_stream(*old(d)).spent() ==> inflate_stream(*d).spent(),
            inflate_run(inflate_stream(*old(d)), data@, step as nat, as_limit(limit)) == feed_run(
                inflate_stream(*d),
                data@.skip(pos as int),
                step as nat,
                as_limit(limit),
                buf@,
            ),
        decreases data@.len() - pos + MAX_CAPACITY - buf@.len(),
    {
        let len: usize = next_chunk(data.len() - pos);
        let chunk = slice_subrange(data, pos, pos + len);
        let last = len == data.len() - pos;
        let flush = announce(last);
        let room: usize = next_room(step, limit, buf.len());
        proof {
            lemma_room(step as nat, as_limit(limit), buf@.len());
        }
        let taken: u64 = inflate_total_in(d);
        let written: u64 = inflate_total_out(d);
        let ghost before = inflate_stream(*d);
        let ghost request = next_request(
            data@.skip(pos as int),
            step as nat,
            as_limit(limit),
            buf@,
        );
        let ghost so_far = buf@;
        proof {
            assert(chunk@ =~= request.input);
        }
        if buf.len() >= MAX_CAPACITY || len as u64 > u64::MAX - taken || room as u64
            > u64::MAX - written {
            return (buf, Stop::Overflow);
        }
        let mut piece: Vec<u8> = vec![0u8; room];
        proof {
            before.lemma_after(request);
        }
        let reply = decompress(d, chunk, &mut piece, flush);
        let consumed: usize = (inflate_total_in(d) - taken) as usize;
        let produced: usize = (inflate_total_out(d) - written) as usize;
        piece.truncate(produced);
        buf.append(&mut piece);
        proof {
            assert(data@.skip(pos as int).skip(consumed as int) =~= data@.skip(pos + consumed));
            assert(inflate_stream(*d).read() =~= inflate_stream(*old(d)).read() + data@.take(
                pos + consumed,
            ));
        }
        pos = pos + consumed;
        let status = match reply {
            Ok(status) => Some(status),
            Err(_) => None,
        };
        let at_limit = match limit {
            Some(limit) => buf.len() == limit,
            None => false,
        };
        if let Some(stop) = decide(status, produced == room, at_limit, last) {
            return (buf, stop);
        }
    }
}

} // verus!
