//! What feeding a decompressor and feeding a compressor have in common.
//!
//! Input is handed to a codec in chunks, and output is collected piece by piece.
//! What the codec does not take of a chunk it gets again, with what comes next.

use vstd::prelude::*;

use crate::codec::{Flush, Status, MAX_CALL};
use crate::error::{zlib_error, ExceptionClass, Failure};

verus! {

use vstd::arithmetic::div_mod::lemma_mod_bound;

/// The most bytes that are handed to a codec at a time.
pub const CHUNKSIZE: usize = 0xffff_ffff;

/// The most bytes that a vector can hold.
pub const MAX_CAPACITY: usize = usize::MAX / 2;

/// Why the feeding of a codec has stopped.
#[derive(Clone, Copy, PartialEq, Eq, Structural, Debug)]
pub enum Stop {
    /// There is no more input.
    Exhausted,
    /// The stream has ended.
    StreamEnd,
    /// There is to be no more output.
    LimitReached,
    /// The codec has refused the input.
    Invalid,
    /// A length or a counter would exceed its limit.
    Overflow,
    /// The codec is given no room, neither takes nor refuses the input, and would
    /// be asked the same for ever.
    Stuck,
}

/// The length of the next chunk, with `rest` bytes of input left.
pub open spec fn chunk_len(rest: nat) -> nat {
    at_most(rest, CHUNKSIZE as nat)
}

/// Decides how long the next chunk is.
pub fn next_chunk(rest: usize) -> (len: usize)
    ensures
        len == chunk_len(rest as nat),
        len == rest || len == 0xffff_ffff && len < rest,
{
    if rest <= CHUNKSIZE {
        rest
    } else {
        CHUNKSIZE
    }
}

/// The last chunk of the input is announced as such.
pub open spec fn announcement(last: bool) -> Flush {
    if last {
        Flush::Finish
    } else {
        Flush::NoFlush
    }
}

/// Decides how to announce a chunk.
pub fn announce(last: bool) -> (flush: Flush)
    ensures
        flush == announcement(last),
        flush == Flush::Finish <==> last,
{
    if last {
        Flush::Finish
    } else {
        Flush::NoFlush
    }
}

/// `n`, but no more than `max`.
pub open spec fn at_most(n: nat, max: nat) -> nat {
    if n <= max {
        n
    } else {
        max
    }
}

/// The room for output in the next request, with `len` bytes of output there
/// already. Output goes into one buffer of `step` bytes after the other, or of as
/// many as zlib can count, and the room is what is left of the present one, but no
/// more than a vector can hold or than may come out.
pub open spec fn room_for(step: nat, limit: Option<nat>, len: nat) -> nat {
    let size = at_most(step, MAX_CALL as nat);
    let room = at_most((size - len % size) as nat, (MAX_CAPACITY - len) as nat);
    match limit {
        Some(limit) => at_most(room, (limit - len) as nat),
        None => room,
    }
}

/// There is always some room, unless nothing more can be held or may come out.
pub proof fn lemma_room(step: nat, limit: Option<nat>, len: nat)
    requires
        step > 0,
        len <= MAX_CAPACITY,
        limit matches Some(limit) ==> len <= limit,
    ensures
        room_for(step, limit, len) <= MAX_CALL,
        room_for(step, limit, len) <= step,
        len + room_for(step, limit, len) <= MAX_CAPACITY,
        limit matches Some(max) ==> len + room_for(step, limit, len) <= max,
        room_for(step, limit, len) == 0 ==> len == MAX_CAPACITY || limit == Some(len),
{
    lemma_mod_bound(len as int, at_most(step, MAX_CALL as nat) as int);
}

/// Decides how much room there is in the next request.
pub fn next_room(step: usize, limit: Option<usize>, len: usize) -> (room: usize)
    requires
        step > 0,
        len <= MAX_CAPACITY,
        limit matches Some(limit) ==> len <= limit,
    ensures
        room == room_for(step as nat, as_limit(limit), len as nat),
        room <= step,
        room <= 0xffff_ffff,
        len + room <= MAX_CAPACITY,
        limit matches Some(max) ==> len + room <= max,
        room == 0 ==> len == MAX_CAPACITY || limit == Some(len),
{
    let size: usize = if step <= MAX_CALL {
        step
    } else {
        MAX_CALL
    };
    proof {
        lemma_mod_bound(len as int, size as int);
        lemma_room(step as nat, as_limit(limit), len as nat);
    }
    let left: usize = size - len % size;
    let room: usize = if left <= MAX_CAPACITY - len {
        left
    } else {
        MAX_CAPACITY - len
    };
    match limit {
        Some(limit) => if room <= limit - len {
            room
        } else {
            limit - len
        },
        None => room,
    }
}

/// A limit as a number.
pub open spec fn as_limit(limit: Option<usize>) -> Option<nat> {
    match limit {
        Some(limit) => Some(limit as nat),
        None => None,
    }
}

/// The stop that the reply to a request calls for, given its status, or `None`
/// for an error, whether its room is filled, whether no more output may come, and
/// whether the chunk was the last one. Otherwise there is another request to make.
pub open spec fn stop_after(
    status: Option<Status>,
    full: bool,
    at_limit: bool,
    last: bool,
) -> Option<Stop> {
    if status is None {
        Some(Stop::Invalid)
    } else if status == Some(Status::StreamEnd) {
        Some(Stop::StreamEnd)
    } else if at_limit {
        Some(Stop::LimitReached)
    } else if full || !last {
        None
    } else {
        Some(Stop::Exhausted)
    }
}

/// Decides what to do after the reply to a request.
pub fn decide(status: Option<Status>, full: bool, at_limit: bool, last: bool) -> (r: Option<Stop>)
    ensures
        r == stop_after(status, full, at_limit, last),
        status is None <==> r == Some(Stop::Invalid),
        status == Some(Status::StreamEnd) <==> r == Some(Stop::StreamEnd),
        status is Some && status != Some(Status::StreamEnd) ==> {
            &&& at_limit <==> r == Some(Stop::LimitReached)
            &&& !at_limit && !full && last <==> r == Some(Stop::Exhausted)
            &&& !at_limit && (full || !last) <==> r is None
        },
{
    match status {
        // the codec has refused the input
        None => Some(Stop::Invalid),
        // this was the end of the stream
        Some(Status::StreamEnd) => Some(Stop::StreamEnd),
        Some(_) => if at_limit {
            // this was all that may come out
            Some(Stop::LimitReached)
        } else if full || !last {
            // there was no room left, or there are more chunks
            None
        } else {
            // this was the end of the input
            Some(Stop::Exhausted)
        },
    }
}

/// The stop that the reply to the announcement of the end calls for.
pub open spec fn stop_after_finish(status: Option<Status>) -> Option<Stop> {
    match status {
        None => Some(Stop::Invalid),
        Some(Status::StreamEnd) => Some(Stop::StreamEnd),
        Some(_) => None,
    }
}

/// Decides what to do after the reply to the announcement of the end.
pub fn decide_finish(status: Option<Status>) -> (r: Option<Stop>)
    ensures
        r == stop_after_finish(status),
        status is None <==> r == Some(Stop::Invalid),
        status == Some(Status::StreamEnd) <==> r == Some(Stop::StreamEnd),
        r matches Some(stop) ==> stop == Stop::Invalid || stop == Stop::StreamEnd,
{
    match status {
        None => Some(Stop::Invalid),
        Some(Status::StreamEnd) => Some(Stop::StreamEnd),
        Some(_) => None,
    }
}

/// `r` is the outcome of a call in which the feeding of a codec has stopped for
/// this reason: the output, or an exception with the message if the codec has
/// refused the input, or a failure that is not to be recovered from.
pub open spec fn is_outcome(
    output: Seq<u8>,
    stop: Stop,
    message: Seq<char>,
    r: Result<Vec<u8>, Failure>,
) -> bool {
    match stop {
        Stop::Overflow => r is Err && r->Err_0 is Overflow,
        Stop::Stuck => r is Err && r->Err_0 is Stuck,
        Stop::Invalid => r is Err && r->Err_0.raises(ExceptionClass::ZlibError, message),
        Stop::Exhausted | Stop::StreamEnd | Stop::LimitReached => r is Ok && r->Ok_0@ == output,
    }
}

/// The outcome of a call in which the feeding of a codec has stopped.
pub fn outcome(output: Vec<u8>, stop: Stop, message: &str) -> (r: Result<Vec<u8>, Failure>)
    ensures
        is_outcome(output@, stop, message@, r),
        stop == Stop::Overflow <==> r is Err && r->Err_0 is Overflow,
        stop == Stop::Stuck <==> r is Err && r->Err_0 is Stuck,
        stop == Stop::Invalid <==> r is Err && r->Err_0 is Raised,
        r is Ok ==> r->Ok_0@ == output@,
        r is Err && r->Err_0 is Raised ==> {
            &&& r->Err_0->Raised_0.class == ExceptionClass::ZlibError
            &&& r->Err_0->Raised_0.message@ == message@
        },
{
    match stop {
        Stop::Overflow => Err(Failure::Overflow),
        Stop::Stuck => Err(Failure::Stuck),
        Stop::Invalid => Err(Failure::Raised(zlib_error(message))),
        Stop::Exhausted | Stop::StreamEnd | Stop::LimitReached => Ok(output),
    }
}

} // verus!
