//! One-shot and streaming decompression.

use vstd::prelude::*;
use vstd::slice::{slice_subrange, slice_to_vec};

use crate::codec::{inflate_total_in, new_decompress, set_dictionary, Status, MAX_CALL};
use crate::constants::DEF_BUF_SIZE;
use crate::error::{value_error, ExceptionClass, Failure};
use crate::feeding::{outcome, Stop, MAX_CAPACITY};
use crate::inflate::inflate_data;
use crate::window::header_from_wbits;

verus! {

use crate::codec::{inflate_stream, InflateStream};
use crate::feeding::{as_limit, at_most, is_outcome};
use crate::inflate::{inflate_run, starved, starved_request};
use crate::inflate_lemmas::{
    answer, lemma_feed_explained, lemma_run_written, lemma_starved_explained,
};
use crate::window::{valid_window, wants_header, window_size};

/// A decompressor made for a window argument.
pub open spec fn inflate_opened(wbits: Option<i8>) -> InflateStream {
    InflateStream::opened(wants_header(wbits), window_size(wbits) as u8)
}

/// How many bytes a buffer for output takes, or the default.
pub open spec fn step_or_default(bufsize: Option<usize>) -> nat {
    match bufsize {
        Some(size) => size as nat,
        None => DEF_BUF_SIZE as nat,
    }
}

/// What decompressing `data`, which is what a slice can hold, at once returns: the
/// output, whether or not the stream has come to its end, or an exception if the
/// data is refused. Without any room the data is handed over as a whole until it is
/// refused, or for ever.
pub open spec fn one_shot_yields(
    data: Seq<u8>,
    wbits: Option<i8>,
    step: nat,
    r: Result<Vec<u8>, Failure>,
) -> bool {
    let run = inflate_run(inflate_opened(wbits), data, step, None);
    &&& data.len() <= usize::MAX
    &&& is_outcome(run.output, run.stop, "invalid input data"@, r)
}

/// What holds of decompressing `data` at once, told from the history of the
/// decompressor that did it.
///
/// - It was opened for the header and the window size that `wbits` asks for.
/// - Every reply but the last was good and did not end the stream. An exception is
///   raised just if the last reply was an error.
/// - If the call succeeds, the data went in from its beginning, and all that was
///   written is returned. The stream has ended, or all the data was taken and room
///   was left.
/// - The call overflows only if more comes out than a vector can hold.
/// - Without any room nothing comes out. The call does not end if nothing of the
///   data is taken or refused.
pub open spec fn one_shot_promises(
    data: Seq<u8>,
    wbits: Option<i8>,
    step: nat,
    r: Result<Vec<u8>, Failure>,
) -> bool {
    let s = inflate_run(inflate_opened(wbits), data, step, None).stream;
    let last = s.log.len() - 1;
    let refused = last >= 0 && answer(s, last).status is None;
    let ended = last >= 0 && answer(s, last).status == Some(Status::StreamEnd);
    &&& match wbits {
        Some(bits) => s.header == (bits > 0) && (s.window_bits == bits || s.window_bits == -bits),
        None => s.header && s.window_bits == 15,
    }
    &&& s.dictionary is None
    &&& forall|i: int|
        0 <= i < last ==> {
            let reply = #[trigger] answer(s, i);
            reply.status is Some && (step > 0 ==> reply.status != Some(Status::StreamEnd))
        }
    &&& refused <==> r is Err && r->Err_0 is Raised
    &&& refused ==> {
        &&& r->Err_0->Raised_0.class == ExceptionClass::ZlibError
        &&& r->Err_0->Raised_0.message@ == "invalid input data"@
    }
    &&& r is Ok ==> {
        &&& r->Ok_0@ == s.written()
        &&& s.read().is_prefix_of(data)
        &&& ended || s.read() == data && (data.len() == 0 || s.drained())
        &&& step > 0 || data.len() == 0
    }
    &&& r is Err && r->Err_0 is Overflow ==> if step > 0 {
        s.written().len() >= MAX_CAPACITY
    } else {
        s.read().len() + data.len() > u64::MAX
    }
    &&& r is Err && r->Err_0 is Stuck ==> step == 0 && starved(data, s)
}

/// Returns the decompressed data. Input that breaks off early yields what it
/// holds. Running out of input or of room is no error, unless there is no room at
/// all.
pub fn zlib_decompress(data: &[u8], wbits: Option<i8>, bufsize: Option<usize>) -> (r: Result<
    Vec<u8>,
    Failure,
>)
    requires
        valid_window(wbits),
    ensures
        one_shot_yields(data@, wbits, step_or_default(bufsize), r),
        one_shot_promises(data@, wbits, step_or_default(bufsize), r),
        r is Err && r->Err_0 is Stuck ==> bufsize == Some(0usize),
{
    let (header, window_bits) = header_from_wbits(wbits);
    let bufsize: usize = bufsize.unwrap_or(DEF_BUF_SIZE);
    let mut d = new_decompress(header, window_bits);
    let (buf, stop) = inflate_data(&mut d, data, bufsize, None);
    proof {
        assert(data@.len() == data.len());
        let opened = inflate_opened(wbits);
        let step = bufsize as nat;
        let run = inflate_run(opened, data@, step, None);
        assert(opened.read() =~= Seq::empty());
        assert(opened.written() =~= Seq::empty());
        if data@.len() == 0 {
            assert(run.output =~= opened.written());
            assert(opened.read() =~= data@);
        } else if step == 0 {
            lemma_starved_explained(opened, starved_request(data@));
        } else {
            lemma_feed_explained(opened, data@, step, None, Seq::empty());
            lemma_run_written(opened, data@, step, None);
            assert(opened.written() + run.output =~= run.output);
            let taken = run.stream.read().len() as int;
            assert(opened.read() + data@.take(taken) =~= data@.take(taken));
            assert(data@.take(data@.len() as int) =~= data@);
        }
    }
    outcome(buf, stop, "invalid input data")
}

/// The state of a decompressor object.
#[verifier::ext_equal]
pub struct DecompressView {
    pub stream: InflateStream,
    pub eof: bool,
    pub unused_data: Seq<u8>,
    pub unconsumed_tail: Seq<u8>,
}

impl DecompressView {
    /// A new object around a decompressor.
    pub open spec fn around(stream: InflateStream) -> DecompressView {
        DecompressView {
            stream,
            eof: false,
            unused_data: Seq::empty(),
            unconsumed_tail: Seq::empty(),
        }
    }

    /// The object keeps what is left of its input; past the end of the stream
    /// that is unused data too.
    pub open spec fn keeping(self, leftover: Seq<u8>, stream_end: bool) -> DecompressView {
        DecompressView {
            unused_data: if stream_end {
                self.unused_data + leftover
            } else {
                self.unused_data
            },
            unconsumed_tail: leftover,
            ..self
        }
    }

    /// The object after it was fed `data`, with buffers of `step` bytes for output
    /// up to the limit. It keeps what its decompressor has not taken.
    pub open spec fn fed(self, data: Seq<u8>, step: nat, limit: Option<nat>) -> DecompressView {
        let run = inflate_run(self.stream, data, step, limit);
        let ended = run.stop == Stop::StreamEnd;
        let moved = DecompressView { stream: run.stream, eof: self.eof || ended, ..self };
        if run.stop == Stop::Overflow {
            moved
        } else {
            moved.keeping(run.rest, ended)
        }
    }

    /// What feeding `data`, which is what a slice can hold, to the object returns.
    pub open spec fn yields(
        self,
        data: Seq<u8>,
        step: nat,
        limit: Option<nat>,
        r: Result<Vec<u8>, Failure>,
    ) -> bool {
        let run = inflate_run(self.stream, data, step, limit);
        &&& data.len() <= usize::MAX
        &&& is_outcome(run.output, run.stop, "invalid input data"@, r)
    }

    /// Past the end of the stream there is nothing more to come.
    pub open spec fn wf(self) -> bool {
        self.eof ==> self.stream.spent()
    }
}

/// A decompressor object, which is fed a stream piece by piece.
#[derive(Debug)]
pub struct PyDecompress {
    decompress: flate2::Decompress,
    eof: bool,
    unused_data: Vec<u8>,
    unconsumed_tail: Vec<u8>,
}

/// The arguments of `PyDecompress::decompress`.
pub struct DecompressArgs<'a> {
    pub data: &'a [u8],
    pub max_length: usize,
}

impl View for PyDecompress {
    type V = DecompressView;

    closed spec fn view(&self) -> DecompressView {
        DecompressView {
            stream: inflate_stream(self.decompress),
            eof: self.eof,
            unused_data: self.unused_data@,
            unconsumed_tail: self.unconsumed_tail@,
        }
    }
}

/// Makes a decompressor object, with a preset dictionary if one is given. Only
/// a stream without zlib header can have one from the start.
pub fn zlib_decompressobj(wbits: Option<i8>, zdict: Option<&[u8]>) -> (r: PyDecompress)
    requires
        valid_window(wbits),
        zdict matches Some(dict) ==> !wants_header(wbits) && dict@.len() < MAX_CALL,
    ensures
        r@ == DecompressView::around(
            match zdict {
                Some(dict) => inflate_opened(wbits).with_dictionary(dict@),
                None => inflate_opened(wbits),
            },
        ),
        r@.wf(),
        match wbits {
            Some(bits) => {
                &&& r@.stream.header == (bits > 0)
                &&& r@.stream.window_bits == bits || r@.stream.window_bits == -bits
            },
            None => r@.stream.header && r@.stream.window_bits == 15,
        },
        match zdict {
            Some(dict) => r@.stream.dictionary == Some(dict@),
            None => r@.stream.dictionary is None,
        },
        r@.stream.log.len() == 0,
        !r@.eof,
        r@.unused_data.len() == 0,
        r@.unconsumed_tail.len() == 0,
{
    let (header, window_bits) = header_from_wbits(wbits);
    let mut decompress = new_decompress(header, window_bits);
    if let Some(dict) = zdict {
        let _ = set_dictionary(&mut decompress, dict);
    }
    PyDecompress { decompress, eof: false, unused_data: Vec::new(), unconsumed_tail: Vec::new() }
}

impl PyDecompress {
    /// The module and the name of the class.
    pub fn class() -> (r: (&'static str, &'static str))
        ensures
            r.0@ == "zlib"@,
            r.1@ == "Decompress"@,
    {
        ("zlib", "Decompress")
    }

    /// Whether the end of the stream has been reached.
    pub fn eof(&self) -> (r: bool)
        ensures
            r == self@.eof,
    {
        self.eof
    }

    /// What has been found past the end of the stream.
    pub fn unused_data(&self) -> (r: &[u8])
        ensures
            r@ == self@.unused_data,
    {
        self.unused_data.as_slice()
    }

    /// What the decompressor has not taken of its latest input.
    pub fn unconsumed_tail(&self) -> (r: &[u8])
        ensures
            r@ == self@.unconsumed_tail,
    {
        self.unconsumed_tail.as_slice()
    }

    /// Keeps what the decompressor has left of `data`, having taken `orig_in`
    /// bytes before the first of it.
    pub fn save_unconsumed_input(&mut self, data: &[u8], stream_end: bool, orig_in: u64)
        requires
            orig_in <= old(self)@.stream.read().len() <= orig_in + data@.len(),
        ensures
            final(self)@ == old(self)@.keeping(
                data@.skip(old(self)@.stream.read().len() - orig_in),
                stream_end,
            ),
            final(self)@.stream == old(self)@.stream,
            final(self)@.eof == old(self)@.eof,
            final(self)@.unconsumed_tail == data@.skip(
                old(self)@.stream.read().len() - orig_in,
            ),
            final(self)@.unused_data == if stream_end {
                old(self)@.unused_data + data@.skip(old(self)@.stream.read().len() - orig_in)
            } else {
                old(self)@.unused_data
            },
    {
        let taken: usize = (inflate_total_in(&self.decompress) - orig_in) as usize;
        let leftover = slice_subrange(data, taken, data.len());
        proof {
            assert(leftover@ =~= data@.skip(taken as int));
        }
        if stream_end && leftover.len() > 0 {
            let mut unused: Vec<u8> = slice_to_vec(leftover);
            self.unused_data.append(&mut unused);
        }
        if leftover.len() > 0 || self.unconsumed_tail.len() > 0 {
            self.unconsumed_tail = slice_to_vec(leftover);
        }
        proof {
            assert(final(self)@ =~= old(self)@.keeping(leftover@, stream_end));
        }
    }

    /// Feeds `data` to the decompressor and keeps what is left of it.
    fn feed(&mut self, data: &[u8], step: usize, limit: Option<usize>) -> (r: Result<
        Vec<u8>,
        Failure,
    >)
        requires
            step > 0,
        ensures
            final(self)@ == old(self)@.fed(data@, step as nat, as_limit(limit)),
            old(self)@.yields(data@, step as nat, as_limit(limit), r),
            limit != Some(0usize) ==> feed_promises(
                old(self)@,
                data@,
                step as nat,
                as_limit(limit),
                final(self)@,
                r,
            ),
            r is Err ==> !(r->Err_0 is Stuck),
            limit matches Some(limit) ==> r is Ok ==> r->Ok_0@.len() <= limit,
            r is Ok && final(self)@.unconsumed_tail.len() > 0 ==> final(self)@.eof || limit == Some(
                r->Ok_0.len(),
            ),
            r is Ok || r->Err_0 is Raised ==> left_over(old(self)@, data@, final(self)@),
            old(self)@.wf() ==> final(self)@.wf(),
    {
        let orig_in: u64 = inflate_total_in(&self.decompress);
        let (buf, stop) = inflate_data(&mut self.decompress, data, step, limit);
        if stop == Stop::StreamEnd {
            self.eof = true;
        }
        if stop != Stop::Overflow {
            self.save_unconsumed_input(data, stop == Stop::StreamEnd, orig_in);
        }
        proof {
            assert(data@.len() == data.len());
            let s = old(self)@.stream;
            let run = inflate_run(s, data@, step as nat, as_limit(limit));
            lemma_run_written(s, data@, step as nat, as_limit(limit));
            if data@.len() > 0 && limit != Some(0usize) {
                lemma_feed_explained(s, data@, step as nat, as_limit(limit), Seq::empty());
            }
        }
        outcome(buf, stop, "invalid input data")
    }

    /// Decompresses `args.data` and returns what comes out, up to
    /// `args.max_length` bytes. A `max_length` of zero stands for no limit. Input
    /// that is not needed for that is left in the unconsumed tail.
    pub fn decompress(&mut self, args: DecompressArgs<'_>) -> (r: Result<Vec<u8>, Failure>)
        ensures
            final(self)@ == old(self)@.fed(
                args.data@,
                DEF_BUF_SIZE as nat,
                output_limit(args.max_length),
            ),
            old(self)@.yields(
                args.data@,
                DEF_BUF_SIZE as nat,
                output_limit(args.max_length),
                r,
            ),
            feed_promises(
                old(self)@,
                args.data@,
                DEF_BUF_SIZE as nat,
                if args.max_length == 0 {
                    None
                } else {
                    Some(args.max_length as nat)
                },
                final(self)@,
                r,
            ),
            r is Err ==> !(r->Err_0 is Stuck),
            args.max_length > 0 && r is Ok ==> r->Ok_0@.len() <= args.max_length,
            r is Ok && final(self)@.unconsumed_tail.len() > 0 ==> final(self)@.eof
                || args.max_length > 0 && r->Ok_0@.len() == args.max_length,
            r is Ok || r->Err_0 is Raised ==> left_over(old(self)@, args.data@, final(self)@),
            old(self)@.wf() ==> final(self)@.wf(),
    {
        let limit: Option<usize> = if args.max_length == 0 {
            None
        } else {
            Some(args.max_length)
        };
        self.feed(args.data, DEF_BUF_SIZE, limit)
    }

    /// Decompresses what has been left of earlier input, with buffers of `length`
    /// bytes, and returns what comes out.
    pub fn flush(&mut self, length: Option<isize>) -> (r: Result<Vec<u8>, Failure>)
        ensures
            r is Err ==> !(r->Err_0 is Stuck),
            r is Ok && final(self)@.unconsumed_tail.len() > 0 ==> final(self)@.eof,
            old(self)@.wf() ==> final(self)@.wf(),
            match length {
                Some(l) if l <= 0 => {
                    &&& final(self)@ == old(self)@
                    &&& r is Err
                    &&& r->Err_0.raises(
                        ExceptionClass::ValueError,
                        "length must be greater than zero"@,
                    )
                    &&& r->Err_0 is Raised
                    &&& r->Err_0->Raised_0.class == ExceptionClass::ValueError
                    &&& r->Err_0->Raised_0.message@ == "length must be greater than zero"@
                },
                _ => {
                    let step = flush_step(length);
                    &&& final(self)@ == old(self)@.fed(old(self)@.unconsumed_tail, step, None)
                    &&& old(self)@.yields(old(self)@.unconsumed_tail, step, None, r)
                    &&& feed_promises(
                        old(self)@,
                        old(self)@.unconsumed_tail,
                        step,
                        None,
                        final(self)@,
                        r,
                    )
                    &&& r is Ok || r->Err_0 is Raised ==> left_over(
                        old(self)@,
                        old(self)@.unconsumed_tail,
                        final(self)@,
                    )
                },
            },
    {
        let length: usize = match length {
            Some(l) => {
                if l <= 0 {
                    return Err(
                        Failure::Raised(value_error("length must be greater than zero")),
                    );
                } else {
                    l as usize
                }
            },
            None => DEF_BUF_SIZE,
        };
        let data: Vec<u8> = slice_to_vec(self.unconsumed_tail.as_slice());
        self.feed(data.as_slice(), length, None)
    }
}

/// What holds of feeding `data` to a decompressor object, told from what it adds
/// to the history of its decompressor.
///
/// - Every reply but the last is good and does not end the stream. An exception is
///   raised just if the last reply is an error. There was room in every request.
/// - The end has been seen if it had been before, or if the last reply says so.
/// - Without data nothing is asked.
/// - The bytes that are taken are the first of the data. The others are the tail,
///   and at the end of the stream they are added to the unused data.
/// - If the call succeeds, all that was written is returned, up to the limit. The
///   stream has ended, or the limit is reached, or all the data was taken and room
///   was left.
/// - The call overflows only if a length or a counter does.
pub open spec fn feed_promises(
    before: DecompressView,
    data: Seq<u8>,
    step: nat,
    limit: Option<nat>,
    after: DecompressView,
    r: Result<Vec<u8>, Failure>,
) -> bool {
    let s = after.stream;
    let first = before.stream.log.len() as int;
    let last = s.log.len() - 1;
    let refused = first <= last && answer(s, last).status is None;
    let ended = first <= last && answer(s, last).status == Some(Status::StreamEnd);
    let taken = s.read().len() - before.stream.read().len();
    &&& before.stream.log.is_prefix_of(s.log)
    &&& s.header == before.stream.header
    &&& s.window_bits == before.stream.window_bits
    &&& s.dictionary == before.stream.dictionary
    &&& data.len() == 0 ==> s == before.stream && r is Ok
    &&& forall|i: int|
        first <= i < last ==> {
            let reply = #[trigger] answer(s, i);
            reply.status is Some && reply.status != Some(Status::StreamEnd)
        }
    &&& forall|i: int| first <= i <= last ==> (#[trigger] s.log[i]).room > 0
    &&& refused <==> r is Err && r->Err_0 is Raised
    &&& refused ==> {
        &&& r->Err_0->Raised_0.class == ExceptionClass::ZlibError
        &&& r->Err_0->Raised_0.message@ == "invalid input data"@
    }
    &&& after.eof == (before.eof || ended)
    &&& 0 <= taken <= data.len()
    &&& s.read() == before.stream.read() + data.take(taken)
    &&& !(r is Err && r->Err_0 is Overflow) ==> {
        &&& after.unconsumed_tail == data.skip(taken)
        &&& after.unused_data == if ended {
            before.unused_data + data.skip(taken)
        } else {
            before.unused_data
        }
    }
    &&& r is Err && r->Err_0 is Overflow ==> {
        &&& after.unconsumed_tail == before.unconsumed_tail
        &&& after.unused_data == before.unused_data
    }
    &&& r is Ok ==> {
        &&& s.written() == before.stream.written() + r->Ok_0@
        &&& limit matches Some(max) ==> r->Ok_0@.len() <= max
        &&& {
            ||| ended
            ||| limit == Some(r->Ok_0@.len())
            ||| taken == data.len() && (data.len() == 0 || s.drained())
        }
    }
    &&& r is Err && r->Err_0 is Overflow ==> {
        ||| before.stream.read().len() + data.len() > u64::MAX
        ||| s.written().len() - before.stream.written().len() >= MAX_CAPACITY
        ||| s.written().len() + at_most(step, MAX_CALL as nat) > u64::MAX
    }
    &&& r is Err ==> !(r->Err_0 is Stuck)
}

/// The unconsumed tail is what is left of `data` after the bytes that have been
/// taken.
pub open spec fn left_over(
    before: DecompressView,
    data: Seq<u8>,
    after: DecompressView,
) -> bool {
    let taken = after.stream.read().len() - before.stream.read().len();
    0 <= taken <= data.len() && after.unconsumed_tail == data.skip(taken)
}

/// The limit that a `max_length` stands for.
pub open spec fn output_limit(max_length: usize) -> Option<nat> {
    if max_length == 0 {
        None
    } else {
        Some(max_length as nat)
    }
}

/// How many bytes a buffer for the output of a flush takes.
pub open spec fn flush_step(length: Option<isize>) -> nat {
    match length {
        Some(l) => l as nat,
        None => DEF_BUF_SIZE as nat,
    }
}

} // verus!
