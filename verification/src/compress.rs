//! One-shot and streaming compression.

use vstd::prelude::*;
use vstd::slice::{slice_subrange, slice_to_vec};

use crate::codec::{
    default_level, deflate_total_in, new_compress, zlib_encode, Flush, Status, MIN_CUT,
};
use crate::constants::{DEF_BUF_SIZE, Z_BEST_COMPRESSION, Z_DEFAULT_COMPRESSION, Z_NO_COMPRESSION};
use crate::deflate::{deflate_finish, deflate_part};
use crate::error::{value_error, zlib_error, ExceptionClass, Failure};
use crate::feeding::{outcome, Stop, MAX_CAPACITY};
use crate::window::header_from_wbits;

verus! {

use crate::codec::{decodes_to, deflate_stream, framed, zlib_encoded, DeflateStream};
use crate::deflate::{answer, asked, continues, deflate_run, finish_run, idle, lemma_answers_stay};
use crate::feeding::{chunk_len, is_outcome};
use crate::window::{valid_window, wants_header, window_size};

/// The level argument, or its default.
pub open spec fn level_or_default(level: Option<i32>) -> i32 {
    match level {
        Some(level) => level,
        None => Z_DEFAULT_COMPRESSION,
    }
}

/// There is such a level: zero to nine, or the one that stands for the default.
pub open spec fn valid_level(level: Option<i32>) -> bool {
    level_or_default(level) == Z_DEFAULT_COMPRESSION || Z_NO_COMPRESSION <= level_or_default(level)
        <= Z_BEST_COMPRESSION
}

/// The level at which data is compressed at once.
pub open spec fn one_shot_level(level: Option<i32>) -> u32 {
    if level_or_default(level) == Z_DEFAULT_COMPRESSION {
        6
    } else {
        level_or_default(level) as u32
    }
}

/// The level that a compressor object hands to zlib, which reads it as a signed
/// number.
pub open spec fn object_level(level: Option<i32>) -> u32 {
    if level_or_default(level) == Z_DEFAULT_COMPRESSION {
        u32::MAX
    } else {
        level_or_default(level) as u32
    }
}

/// What compressing `data` at once returns: a zlib stream that holds the data, or
/// an exception if there is no such level. Which stream that is depends on the
/// level and the data alone, save for where data is cut that is long and is not
/// compressed. It has the header for the level and the checksum of the data in any
/// case.
pub open spec fn one_shot_yields(
    data: Seq<u8>,
    level: Option<i32>,
    r: Result<Vec<u8>, Failure>,
) -> bool {
    if valid_level(level) {
        &&& r is Ok
        &&& one_shot_level(level) > 0 || data.len() < MIN_CUT ==> r->Ok_0@ == zlib_encoded(
            one_shot_level(level),
            data,
        )
        &&& framed(one_shot_level(level), data, r->Ok_0@)
        &&& decodes_to(true, 15, r->Ok_0@, data)
    } else {
        r is Err && r->Err_0.raises(ExceptionClass::ZlibError, "Bad compression level"@)
    }
}

/// Returns the compressed data, as a zlib stream.
pub fn zlib_compress(data: &[u8], level: Option<i32>) -> (r: Result<Vec<u8>, Failure>)
    ensures
        one_shot_yields(data@, level, r),
        match level {
            Some(n) if 0 <= n <= 9 => {
                &&& r is Ok
                &&& n > 0 ==> r->Ok_0@ == zlib_encoded(n as u32, data@)
                &&& framed(n as u32, data@, r->Ok_0@)
            },
            Some(n) if n != -1 => {
                &&& r is Err
                &&& r->Err_0 is Raised
                &&& r->Err_0->Raised_0.class == ExceptionClass::ZlibError
                &&& r->Err_0->Raised_0.message@ == "Bad compression level"@
            },
            _ => r is Ok && r->Ok_0@ == zlib_encoded(6, data@),
        },
{
    let level: i32 = level.unwrap_or(Z_DEFAULT_COMPRESSION);
    let compression: u32 = if Z_NO_COMPRESSION <= level && level <= Z_BEST_COMPRESSION {
        level as u32
    } else if level == Z_DEFAULT_COMPRESSION {
        default_level()
    } else {
        return Err(Failure::Raised(zlib_error("Bad compression level")));
    };
    Ok(zlib_encode(compression, data))
}

/// The state of a compressor object: the compressor, and the input that it has
/// not taken yet.
#[verifier::ext_equal]
pub struct CompressView {
    pub stream: DeflateStream,
    pub unconsumed: Seq<u8>,
}

impl CompressView {
    /// A new object around a compressor.
    pub open spec fn around(stream: DeflateStream) -> CompressView {
        CompressView { stream, unconsumed: Seq::empty() }
    }

    /// The object after it was fed `data`. It keeps what its compressor has not
    /// taken of the data.
    pub open spec fn fed(self, data: Seq<u8>) -> CompressView {
        let run = deflate_run(self.stream, self.unconsumed, data);
        if run.stop == Stop::Overflow {
            CompressView::around(run.stream)
        } else {
            CompressView { stream: run.stream, unconsumed: run.rest }
        }
    }

    /// What feeding `data` to the object returns.
    pub open spec fn yields(self, data: Seq<u8>, r: Result<Vec<u8>, Failure>) -> bool {
        let run = deflate_run(self.stream, self.unconsumed, data);
        is_outcome(run.output, run.stop, "error while compressing"@, r)
    }

    /// The object after its stream was brought to an end.
    pub open spec fn flushed(self) -> CompressView {
        CompressView::around(finish_run(self.stream, self.unconsumed, Seq::empty()).stream)
    }

    /// What bringing the stream to an end returns.
    pub open spec fn flush_yields(self, r: Result<Vec<u8>, Failure>) -> bool {
        let run = finish_run(self.stream, self.unconsumed, Seq::empty());
        is_outcome(run.output, run.stop, "error while compressing"@, r)
    }

    /// Input is only left once the end of the stream has been asked for.
    pub open spec fn wf(self) -> bool {
        self.unconsumed.len() > 0 ==> self.stream.finishing()
    }
}

/// What holds of compressing `data`, whatever the compressor answers.
///
/// - The compressor stays the one it was. Without data there is nothing to ask it.
///   It is never told that the end has come, and an exception is raised just if the
///   last reply is an error.
/// - Before the end of the stream has been asked for, the call succeeds, unless a
///   length or a counter would exceed its limit. It says that one does only if that
///   is so.
/// - A call that succeeds returns what the compressor has written, and all of the
///   data has gone into the stream, in order. Nothing of it is left, and what the
///   compressor has to write by now is written.
/// - What is left of data that is refused is kept.
/// - After the end nothing is read or written. Any data is refused, and kept.
pub open spec fn compress_promises(
    before: CompressView,
    data: Seq<u8>,
    after: CompressView,
    r: Result<Vec<u8>, Failure>,
) -> bool {
    &&& before.wf() ==> after.wf()
    &&& after.stream.finishing() == before.stream.finishing()
    &&& after.stream.level == before.stream.level
    &&& after.stream.header == before.stream.header
    &&& after.stream.window_bits == before.stream.window_bits
    &&& asked(before.stream, after.stream, Flush::NoFlush, r is Err && r->Err_0 is Raised)
    &&& before.unconsumed.len() == 0 && data.len() == 0 ==> r is Ok && after.stream
        == before.stream
    &&& r is Err ==> r->Err_0 is Overflow || r->Err_0 is Raised && before.stream.finishing()
    &&& r is Err && r->Err_0 is Raised ==> {
        &&& r->Err_0->Raised_0.class == ExceptionClass::ZlibError
        &&& r->Err_0->Raised_0.message@ == "error while compressing"@
        &&& after.unconsumed.is_suffix_of(data)
        &&& before.unconsumed.len() == 0 ==> after.stream.read() + after.unconsumed
            == before.stream.read() + data
    }
    &&& r is Err && r->Err_0 is Overflow ==> after.unconsumed.len() == 0
    &&& r is Err && r->Err_0 is Overflow ==> {
        let written = after.stream.written().len();
        ||| before.stream.read().len() + before.unconsumed.len() + data.len() > u64::MAX
        ||| written - before.stream.written().len() + DEF_BUF_SIZE > MAX_CAPACITY
        ||| written + DEF_BUF_SIZE > u64::MAX
    }
    &&& r is Ok && data.len() > 0 ==> {
        &&& after.stream.log.len() > 0
        &&& after.stream.reply().output.len() < after.stream.log.last().room
    }
    &&& r is Ok ==> {
        &&& continues(before.stream, after.stream, r->Ok_0@)
        &&& after.stream.read() == before.stream.read() + before.unconsumed + data
        &&& after.unconsumed.len() == 0
    }
    &&& before.stream.spent() ==> {
        &&& after.stream.spent()
        &&& idle(before.stream, after.stream)
        &&& r is Ok ==> before.unconsumed.len() == 0 && data.len() == 0 && r->Ok_0@.len() == 0
        &&& r is Err && r->Err_0 is Raised ==> after.unconsumed == data
    }
}

/// What holds of bringing the stream to an end, whatever the compressor answers.
///
/// - The compressor stays the one it was. It is handed what was left of earlier
///   input, and told that the end has come until it says so too. No reply is an
///   error.
/// - The call succeeds, unless a length or a counter would exceed its limit. It
///   says that one does only if that is so.
/// - A call that succeeds returns what the compressor has written. All that has
///   been written by then is a stream that holds all that has been read. If
///   nothing was left of earlier input, nothing is read.
/// - After the end nothing is read, written or returned.
pub open spec fn flush_promises(
    before: CompressView,
    after: CompressView,
    r: Result<Vec<u8>, Failure>,
) -> bool {
    &&& after.wf()
    &&& after.unconsumed.len() == 0
    &&& after.stream.level == before.stream.level
    &&& after.stream.header == before.stream.header
    &&& after.stream.window_bits == before.stream.window_bits
    &&& asked(before.stream, after.stream, Flush::Finish, false)
    &&& forall|i: int|
        before.stream.log.len() <= i < after.stream.log.len() ==> ((#[trigger] answer(
            after.stream,
            i,
        )).status == Some(Status::StreamEnd) <==> r is Ok && i == after.stream.log.len() - 1)
    &&& r is Ok ==> before.stream.log.len() < after.stream.log.len()
    &&& before.stream.log.len() < after.stream.log.len()
        ==> after.stream.log[before.stream.log.len() as int].input == before.unconsumed.take(
        chunk_len(before.unconsumed.len()) as int,
    )
    &&& before.stream.read().len() <= after.stream.read().len() <= before.stream.read().len()
        + before.unconsumed.len()
    &&& r is Err ==> r->Err_0 is Overflow
    &&& r is Err ==> {
        let written = after.stream.written().len();
        ||| before.stream.read().len() + before.unconsumed.len() > u64::MAX
        ||| written - before.stream.written().len() + DEF_BUF_SIZE > MAX_CAPACITY
        ||| written + DEF_BUF_SIZE > u64::MAX
    }
    &&& r is Ok ==> {
        &&& continues(before.stream, after.stream, r->Ok_0@)
        &&& before.unconsumed.len() == 0 ==> after.stream.read() == before.stream.read()
        &&& after.stream.spent()
        &&& decodes_to(
            after.stream.header,
            after.stream.window_bits,
            after.stream.written(),
            after.stream.read(),
        )
    }
    &&& before.stream.spent() ==> idle(before.stream, after.stream) && (r is Ok
        ==> r->Ok_0@.len() == 0)
}

/// A compressor and the input that it has not taken yet.
#[derive(Debug)]
pub struct CompressInner {
    compress: flate2::Compress,
    unconsumed: Vec<u8>,
}

impl View for CompressInner {
    type V = CompressView;

    closed spec fn view(&self) -> CompressView {
        CompressView { stream: deflate_stream(self.compress), unconsumed: self.unconsumed@ }
    }
}

impl CompressInner {
    /// Keeps what the compressor has left of `data`, having taken `orig_in`
    /// bytes before the first of it.
    pub fn save_unconsumed_input(&mut self, data: &[u8], orig_in: u64)
        requires
            orig_in <= old(self)@.stream.read().len() <= orig_in + data@.len(),
        ensures
            final(self)@ == (CompressView {
                unconsumed: old(self)@.unconsumed + data@.skip(
                    old(self)@.stream.read().len() - orig_in,
                ),
                ..old(self)@
            }),
    {
        let taken: usize = (deflate_total_in(&self.compress) - orig_in) as usize;
        let leftover = slice_subrange(data, taken, data.len());
        proof {
            assert(leftover@ =~= data@.skip(taken as int));
        }
        let mut leftover: Vec<u8> = slice_to_vec(leftover);
        self.unconsumed.append(&mut leftover);
    }

    /// Compresses `data`, after what was left of earlier input, and returns what
    /// comes out by now.
    pub fn compress(&mut self, data: &[u8]) -> (r: Result<Vec<u8>, Failure>)
        ensures
            final(self)@ == old(self)@.fed(data@),
            old(self)@.yields(data@, r),
            compress_promises(old(self)@, data@, final(self)@, r),
    {
        let mut unconsumed: Vec<u8> = Vec::new();
        core::mem::swap(&mut self.unconsumed, &mut unconsumed);
        let mut buf: Vec<u8> = Vec::new();
        let mut stop = deflate_part(&mut self.compress, unconsumed.as_slice(), &mut buf);
        let ghost between = deflate_stream(self.compress);
        let ghost so_far = buf@;
        let orig_in: u64 = deflate_total_in(&self.compress);
        if stop == Stop::Exhausted {
            stop = deflate_part(&mut self.compress, data, &mut buf);
        }
        if stop != Stop::Overflow {
            self.save_unconsumed_input(data, orig_in);
        }
        proof {
            let first = old(self)@.stream;
            let second = self@.stream;
            assert(data@.skip(0) =~= data@);
            assert(so_far.skip(0) =~= so_far);
            assert(buf@ =~= so_far + buf@.skip(so_far.len() as int));
            assert(second.written() =~= first.written() + buf@);
            lemma_answers_stay(between, second);
            if stop == Stop::Invalid && old(self)@.unconsumed.len() == 0 {
                let taken = second.read().len() - between.read().len();
                assert(between.read() =~= first.read());
                assert(data@.take(taken) + data@.skip(taken) =~= data@);
                assert(second.read() + self@.unconsumed =~= first.read() + data@);
            }
            if stop == Stop::Exhausted {
                let unconsumed = old(self)@.unconsumed;
                assert(unconsumed.take(unconsumed.len() as int) =~= unconsumed);
                assert(data@.take(data@.len() as int) =~= data@);
                assert(second.read() =~= first.read() + unconsumed + data@);
            }
        }
        outcome(buf, stop, "error while compressing")
    }

    /// Compresses what was left of earlier input, brings the stream to an end,
    /// and returns what comes out.
    pub fn flush(&mut self) -> (r: Result<Vec<u8>, Failure>)
        ensures
            final(self)@ == old(self)@.flushed(),
            old(self)@.flush_yields(r),
            flush_promises(old(self)@, final(self)@, r),
    {
        let mut data: Vec<u8> = Vec::new();
        core::mem::swap(&mut self.unconsumed, &mut data);
        let (buf, stop) = deflate_finish(&mut self.compress, data.as_slice());
        outcome(buf, stop, "error while compressing")
    }
}

/// A compressor object, which is fed data piece by piece.
#[derive(Debug)]
pub struct PyCompress {
    inner: CompressInner,
}

impl View for PyCompress {
    type V = CompressView;

    closed spec fn view(&self) -> CompressView {
        self.inner@
    }
}

/// Makes a compressor object. The method is of no account: there is only one.
pub fn zlib_compressobj(level: Option<i32>, _method: Option<i32>, wbits: Option<i8>) -> (r: Result<
    PyCompress,
    Failure,
>)
    requires
        wbits != Some(i8::MIN),
        valid_level(level) ==> valid_window(wbits),
    ensures
        match r {
            Ok(object) => {
                &&& valid_level(level)
                &&& object@.wf()
                &&& object@ == CompressView::around(
                    DeflateStream::opened(
                        object_level(level),
                        wants_header(wbits),
                        window_size(wbits) as u8,
                    ),
                )
            },
            Err(failure) => {
                &&& !valid_level(level)
                &&& failure.raises(ExceptionClass::ValueError, "invalid initialization option"@)
            },
        },
        match level {
            Some(n) if 0 <= n <= 9 => r is Ok && r->Ok_0@.stream.level == n,
            Some(n) if n != -1 => {
                &&& r is Err
                &&& r->Err_0 is Raised
                &&& r->Err_0->Raised_0.class == ExceptionClass::ValueError
                &&& r->Err_0->Raised_0.message@ == "invalid initialization option"@
            },
            _ => r is Ok && r->Ok_0@.stream.level == u32::MAX,
        },
        r matches Ok(object) ==> {
            &&& match wbits {
                Some(bits) => {
                    &&& object@.stream.header == (bits > 0)
                    &&& object@.stream.window_bits == bits || object@.stream.window_bits == -bits
                },
                None => object@.stream.header && object@.stream.window_bits == 15,
            }
            &&& object@.stream.log.len() == 0
            &&& object@.unconsumed.len() == 0
        },
{
    let (header, window_bits) = header_from_wbits(wbits);
    let level: i32 = level.unwrap_or(-1);
    let level: u32 = if level == -1 {
        u32::MAX
    } else if 0 <= level && level <= 9 {
        level as u32
    } else {
        return Err(Failure::Raised(value_error("invalid initialization option")));
    };
    let compress = new_compress(level, header, window_bits);
    Ok(PyCompress { inner: CompressInner { compress, unconsumed: Vec::new() } })
}

impl PyCompress {
    /// The module and the name of the class.
    pub fn class() -> (r: (&'static str, &'static str))
        ensures
            r.0@ == "zlib"@,
            r.1@ == "Compress"@,
    {
        ("zlib", "Compress")
    }

    /// Compresses `data` and returns what comes out by now, as
    /// `CompressInner::compress` does.
    pub fn compress(&mut self, data: &[u8]) -> (r: Result<Vec<u8>, Failure>)
        ensures
            final(self)@ == old(self)@.fed(data@),
            old(self)@.yields(data@, r),
            compress_promises(old(self)@, data@, final(self)@, r),
    {
        self.inner.compress(data)
    }

    /// Brings the stream to an end and returns what comes out, as
    /// `CompressInner::flush` does.
    pub fn flush(&mut self) -> (r: Result<Vec<u8>, Failure>)
        ensures
            final(self)@ == old(self)@.flushed(),
            old(self)@.flush_yields(r),
            flush_promises(old(self)@, final(self)@, r),
    {
        self.inner.flush()
    }
}

} // verus!
