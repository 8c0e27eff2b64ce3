//! The codecs of `flate2`, seen as machines that answer requests.
//!
//! A request hands a codec some input bytes and a number of output bytes that
//! it may fill; the reply says how it went, how much of the input was taken and
//! what was written. A codec is modelled by how it was set up and by every
//! request it has answered so far; that history fixes all its later replies.
//!
//! What the replies are is not written down here, save for what the rest of the
//! module builds on: how a compressor behaves at the end of its input, that its
//! stream decodes to what went in, and what a decompressor makes of such a stream.

use vstd::prelude::*;

verus! {

use crate::checksum::adler_checksum;

/// The most bytes that zlib looks at in one call, on either side: it counts
/// them in a C `unsigned int`.
pub const MAX_CALL: usize = 0xffff_ffff;

/// Data that is not to be compressed goes into one block if it is shorter than
/// this.
pub const MIN_CUT: usize = 0x8000;

/// How a successful call of a codec went.
#[derive(Clone, Copy, PartialEq, Eq, Structural, Debug)]
pub enum Status {
    /// There is more to do, given more input or more room.
    Running,
    /// Nothing can be done for lack of input or of room.
    BufError,
    /// The stream is complete.
    StreamEnd,
}

/// Whether more input is to come after that of a request.
#[derive(Clone, Copy, PartialEq, Eq, Structural, Debug)]
pub enum Flush {
    /// More may come.
    NoFlush,
    /// This is the end of the input.
    Finish,
}

/// One call of a codec: the input, the room for output, and the flush mode.
#[verifier::ext_equal]
pub struct Request {
    pub input: Seq<u8>,
    pub room: nat,
    pub flush: Flush,
}

/// What a codec answers: its status, or `None` for an error, the number of
/// input bytes taken, and the bytes written.
#[verifier::ext_equal]
pub struct Reply {
    pub status: Option<Status>,
    pub consumed: nat,
    pub output: Seq<u8>,
}

impl Reply {
    /// The answer of a codec whose stream is over.
    pub open spec fn at_end() -> Reply {
        Reply { status: Some(Status::StreamEnd), consumed: 0, output: Seq::empty() }
    }

    /// A codec takes no more than it is given and writes no more than fits.
    pub open spec fn fits(self, request: Request) -> bool {
        self.consumed <= request.input.len() && self.output.len() <= request.room
    }
}

/// The status in a result, or `None` for an error.
pub open spec fn ok_status<E>(result: Result<Status, E>) -> Option<Status> {
    match result {
        Ok(status) => Some(status),
        Err(_) => None,
    }
}

/// `n`, but no more than zlib looks at in one call.
pub open spec fn call_limit(n: nat) -> nat {
    if n <= MAX_CALL {
        n
    } else {
        MAX_CALL as nat
    }
}

////////// decompression

/// A decompressor: whether it expects a zlib header and trailer, the logarithm
/// of its window size, its preset dictionary, and what it has been asked.
#[verifier::ext_equal]
pub struct InflateStream {
    pub header: bool,
    pub window_bits: u8,
    pub dictionary: Option<Seq<u8>>,
    pub log: Seq<Request>,
}

impl InflateStream {
    /// A decompressor that has not been asked anything yet.
    pub open spec fn opened(header: bool, window_bits: u8) -> InflateStream {
        InflateStream { header, window_bits, dictionary: None, log: Seq::empty() }
    }

    /// The decompressor with a preset dictionary.
    pub open spec fn with_dictionary(self, dictionary: Seq<u8>) -> InflateStream {
        InflateStream { dictionary: Some(dictionary), ..self }
    }

    /// The decompressor after one more request.
    pub open spec fn after(self, request: Request) -> InflateStream {
        InflateStream { log: self.log.push(request), ..self }
    }

    /// The decompressor before its latest request.
    pub open spec fn prior(self) -> InflateStream {
        InflateStream { log: self.log.drop_last(), ..self }
    }

    /// The reply to the latest request.
    pub open spec fn reply(self) -> Reply {
        inflate_reply(self.prior(), self.log.last())
    }

    /// All input bytes taken so far.
    pub open spec fn read(self) -> Seq<u8>
        decreases self.log.len(),
    {
        if self.log.len() == 0 {
            Seq::empty()
        } else {
            self.prior().read() + self.log.last().input.take(self.reply().consumed as int)
        }
    }

    /// All output bytes written so far.
    pub open spec fn written(self) -> Seq<u8>
        decreases self.log.len(),
    {
        if self.log.len() == 0 {
            Seq::empty()
        } else {
            self.prior().written() + self.reply().output
        }
    }

    /// Every further request is answered by the end of the stream.
    pub open spec fn spent(self) -> bool {
        forall|request: Request| #[trigger] inflate_reply(self, request) == Reply::at_end()
    }

    /// The latest request has left some of its room unused.
    pub open spec fn drained(self) -> bool {
        self.log.len() > 0 && self.reply().output.len() < call_limit(self.log.last().room)
    }

    /// One more request adds what its reply takes and writes.
    pub proof fn lemma_after(self, request: Request)
        ensures
            self.after(request).prior() == self,
            self.after(request).log.last() == request,
            self.after(request).reply() == inflate_reply(self, request),
            self.after(request).read() == self.read() + request.input.take(
                inflate_reply(self, request).consumed as int,
            ),
            self.after(request).written() == self.written() + inflate_reply(self, request).output,
    {
        assert(self.after(request).log.drop_last() =~= self.log);
        assert(self.after(request).prior() == self);
    }
}

/// What a decompressor has been through.
pub uninterp spec fn inflate_stream(d: flate2::Decompress) -> InflateStream;

/// What zlib's `inflate` replies to a request, given the history before it.
pub uninterp spec fn inflate_reply(stream: InflateStream, request: Request) -> Reply;

/// The decompressor was made for such a stream, has no preset dictionary, and has
/// been fed a part of the stream.
pub open spec fn reads(
    s: InflateStream,
    header: bool,
    window_bits: u8,
    stream: Seq<u8>,
) -> bool {
    &&& s.header == header
    &&& s.window_bits == window_bits
    &&& s.dictionary is None
    &&& s.read().is_prefix_of(stream)
}

/// `stream` is a complete stream, with or without zlib header and trailer, that
/// holds `data`. There is no empty one. However much of it a decompressor has
/// been fed:
///
/// - it has written a part of the data, and all of it if it has read all of a
///   stream with a trailer;
/// - it takes no more than it is given and writes no more than fits;
/// - as long as it gets what comes next in the stream it does not fail, takes
///   nothing that is past the end of the stream, and ends the stream only when it
///   has taken the rest of it and written the rest of the data;
/// - if there is room left in the end, it has ended the stream or taken all the
///   input;
/// - if it gets all the rest of the stream, and room for all the rest of the
///   data, it ends the stream;
/// - if its latest request has left room, no decompressor that has read no more
///   has written more.
#[verifier::opaque]
pub open spec fn decodes_to(
    header: bool,
    window_bits: u8,
    stream: Seq<u8>,
    data: Seq<u8>,
) -> bool {
    &&& stream.len() > 0
    &&& forall|s: InflateStream, request: Request|
        reads(s, header, window_bits, stream) ==> {
            let reply = #[trigger] inflate_reply(s, request);
            let seen = s.read() + request.input;
            let all_there = stream.len() <= s.read().len() + call_limit(request.input.len());
            let ended = {
                &&& reply.status == Some(Status::StreamEnd)
                &&& reply.consumed == stream.len() - s.read().len()
                &&& reply.output == data.skip(s.written().len() as int)
            };
            &&& s.written().is_prefix_of(data)
            &&& header && s.read() == stream ==> s.written() == data
            &&& reply.fits(request)
            &&& stream.is_prefix_of(seen) || seen.is_prefix_of(stream) ==> {
                &&& reply.status is Some
                &&& s.read().len() + reply.consumed <= stream.len()
                &&& reply.status == Some(Status::StreamEnd) ==> ended
                &&& reply.output.len() < call_limit(request.room) ==> ended || !all_there
                    && reply.consumed == call_limit(request.input.len())
                &&& all_there && data.len() <= s.written().len() + call_limit(request.room)
                    ==> ended
            }
        }
    &&& forall|s: InflateStream, t: InflateStream|
        {
            &&& #[trigger] reads(s, header, window_bits, stream)
            &&& #[trigger] reads(t, header, window_bits, stream)
            &&& s.read().len() <= t.read().len()
            &&& t.drained()
        } ==> s.written().len() <= t.written().len()
}

/// `flate2::Decompress`, of which `inflate_stream` says what it holds.
#[verifier::external_type_specification]
#[verifier::external_body]
pub struct ExDecompress(flate2::Decompress);

/// `flate2::DecompressError`, which is only told apart from success.
#[verifier::external_type_specification]
#[verifier::external_body]
pub struct ExDecompressError(flate2::DecompressError);

/// `flate2::Decompress::new_with_window_bits`: a decompressor that has not been
/// asked anything. It panics unless the window size is in range.
#[verifier::external_body]
pub(crate) fn new_decompress(header: bool, window_bits: u8) -> (d: flate2::Decompress)
    requires
        9 <= window_bits <= 15,
    ensures
        inflate_stream(d) == InflateStream::opened(header, window_bits),
{
    flate2::Decompress::new_with_window_bits(header, window_bits)
}

/// `flate2::Decompress::total_in`: how many bytes have been taken.
#[verifier::external_body]
pub(crate) fn inflate_total_in(d: &flate2::Decompress) -> (total: u64)
    ensures
        total == inflate_stream(*d).read().len(),
{
    d.total_in()
}

/// `flate2::Decompress::total_out`: how many bytes have been written.
#[verifier::external_body]
pub(crate) fn inflate_total_out(d: &flate2::Decompress) -> (total: u64)
    ensures
        total == inflate_stream(*d).written().len(),
{
    d.total_out()
}

/// `flate2::Decompress::set_dictionary`, on a decompressor that expects no zlib
/// header and has not been asked anything. It always succeeds there, and the
/// checksum it returns stays zero. It panics on a dictionary of 4 GiB.
#[verifier::external_body]
pub(crate) fn set_dictionary(d: &mut flate2::Decompress, dictionary: &[u8]) -> (r: Result<
    u32,
    flate2::DecompressError,
>)
    requires
        !inflate_stream(*old(d)).header,
        inflate_stream(*old(d)).dictionary is None,
        inflate_stream(*old(d)).log.len() == 0,
        dictionary@.len() < MAX_CALL,
    ensures
        r is Ok && r->Ok_0 == 0,
        inflate_stream(*final(d)) == inflate_stream(*old(d)).with_dictionary(dictionary@),
{
    d.set_dictionary(dictionary)
}

/// `flate2::Decompress::decompress`: one request, with room for as many bytes as
/// the output vector holds. The first bytes of the vector are overwritten by
/// the output. It panics when one of the two 64-bit counters overflows.
///
/// zlib stops when the input is used up, the room is filled, the stream ends or
/// the input is refused. At the end of the stream there is nothing more to do.
#[verifier::external_body]
pub(crate) fn decompress(
    d: &mut flate2::Decompress,
    input: &[u8],
    output: &mut Vec<u8>,
    flush: Flush,
) -> (r: Result<Status, flate2::DecompressError>)
    requires
        inflate_stream(*old(d)).read().len() + input@.len() <= u64::MAX,
        inflate_stream(*old(d)).written().len() + old(output)@.len() <= u64::MAX,
    ensures
        inflate_stream(*final(d)) == inflate_stream(*old(d)).after(
            (Request { input: input@, room: old(output)@.len(), flush }),
        ),
        ok_status(r) == inflate_reply(
            inflate_stream(*old(d)),
            (Request { input: input@, room: old(output)@.len(), flush }),
        ).status,
        inflate_stream(*final(d)).reply().fits(inflate_stream(*final(d)).log.last()),
        final(output)@.len() == old(output)@.len(),
        inflate_stream(*final(d)).reply().output == final(output)@.take(
            inflate_stream(*final(d)).reply().output.len() as int,
        ),
        r is Ok && ok_status(r) != Some(Status::StreamEnd) && inflate_stream(
            *final(d),
        ).reply().output.len() < call_limit(old(output)@.len()) ==> inflate_stream(
            *final(d),
        ).reply().consumed == call_limit(input@.len()),
        ok_status(r) == Some(Status::StreamEnd) ==> inflate_stream(*final(d)).spent(),
{
    let flush = match flush {
        Flush::NoFlush => flate2::FlushDecompress::None,
        Flush::Finish => flate2::FlushDecompress::Finish,
    };
    match d.decompress(input, output, flush) {
        Ok(flate2::Status::Ok) => Ok(Status::Running),
        Ok(flate2::Status::BufError) => Ok(Status::BufError),
        Ok(flate2::Status::StreamEnd) => Ok(Status::StreamEnd),
        Err(error) => Err(error),
    }
}

////////// compression

/// A compressor: its level, whether it writes a zlib header and trailer, the
/// logarithm of its window size, and what it has been asked.
#[verifier::ext_equal]
pub struct DeflateStream {
    pub level: u32,
    pub header: bool,
    pub window_bits: u8,
    pub log: Seq<Request>,
}

impl DeflateStream {
    /// A compressor that has not been asked anything yet.
    pub open spec fn opened(level: u32, header: bool, window_bits: u8) -> DeflateStream {
        DeflateStream { level, header, window_bits, log: Seq::empty() }
    }

    /// The compressor after one more request.
    pub open spec fn after(self, request: Request) -> DeflateStream {
        DeflateStream { log: self.log.push(request), ..self }
    }

    /// The compressor before its latest request.
    pub open spec fn prior(self) -> DeflateStream {
        DeflateStream { log: self.log.drop_last(), ..self }
    }

    /// The reply to the latest request.
    pub open spec fn reply(self) -> Reply {
        deflate_reply(self.prior(), self.log.last())
    }

    /// All input bytes taken so far.
    pub open spec fn read(self) -> Seq<u8>
        decreases self.log.len(),
    {
        if self.log.len() == 0 {
            Seq::empty()
        } else {
            self.prior().read() + self.log.last().input.take(self.reply().consumed as int)
        }
    }

    /// All output bytes written so far.
    pub open spec fn written(self) -> Seq<u8>
        decreases self.log.len(),
    {
        if self.log.len() == 0 {
            Seq::empty()
        } else {
            self.prior().written() + self.reply().output
        }
    }

    /// The end of the input has been announced.
    pub open spec fn finishing(self) -> bool {
        exists|i: int| 0 <= i < self.log.len() && (#[trigger] self.log[i]).flush == Flush::Finish
    }

    /// The stream is over, and every further request gets the answer of a
    /// compressor that has nothing more to do.
    pub open spec fn spent(self) -> bool {
        forall|request: Request| #[trigger] deflate_reply(self, request) == spent_reply(request)
    }

    /// One more request adds what its reply takes and writes.
    pub proof fn lemma_after(self, request: Request)
        ensures
            self.after(request).prior() == self,
            self.after(request).reply() == deflate_reply(self, request),
            self.after(request).read() == self.read() + request.input.take(
                deflate_reply(self, request).consumed as int,
            ),
            self.after(request).written() == self.written() + deflate_reply(self, request).output,
            self.after(request).finishing() == (self.finishing() || request.flush == Flush::Finish),
    {
        let next = self.after(request);
        assert(next.log.drop_last() =~= self.log);
        assert(next.prior() == self);
        if self.finishing() {
            let i = choose|i: int|
                0 <= i < self.log.len() && (#[trigger] self.log[i]).flush == Flush::Finish;
            assert(next.log[i].flush == Flush::Finish);
        }
        if request.flush == Flush::Finish {
            assert(next.log[self.log.len() as int].flush == Flush::Finish);
        }
        if next.finishing() {
            let i = choose|i: int|
                0 <= i < next.log.len() && (#[trigger] next.log[i]).flush == Flush::Finish;
            if i < self.log.len() {
                assert(self.log[i].flush == Flush::Finish);
            }
        }
    }
}

/// What a compressor answers when its stream is over: it refuses more input,
/// and confirms the end when that is announced again without any input.
pub open spec fn spent_reply(request: Request) -> Reply {
    if request.flush == Flush::NoFlush {
        Reply { status: None, consumed: 0, output: Seq::empty() }
    } else if request.input.len() == 0 && request.room > 0 {
        Reply::at_end()
    } else {
        Reply { status: Some(Status::BufError), consumed: 0, output: Seq::empty() }
    }
}

/// What a compressor has been through.
pub uninterp spec fn deflate_stream(c: flate2::Compress) -> DeflateStream;

/// What zlib's `deflate` replies to a request, given the history before it.
pub uninterp spec fn deflate_reply(stream: DeflateStream, request: Request) -> Reply;

/// The second byte of a zlib header, which tells the level roughly. The first one
/// stands for the method and the largest window.
pub open spec fn header_flags(level: u32) -> u8 {
    if level < 2 {
        0x01
    } else if level < 6 {
        0x5e
    } else if level == 6 {
        0x9c
    } else {
        0xda
    }
}

/// The zlib stream starts with the header for the level and ends with the Adler-32
/// checksum of the data, highest byte first. Data that is not compressed takes at
/// least its own length in between, and the header of a block.
pub open spec fn framed(level: u32, data: Seq<u8>, stream: Seq<u8>) -> bool {
    let end = stream.len() as int;
    &&& stream.len() >= 8
    &&& stream[0] == 0x78
    &&& stream[1] == header_flags(level)
    &&& stream[end - 4] * 0x100_0000 + stream[end - 3] * 0x1_0000 + stream[end - 2] * 0x100
        + stream[end - 1] == adler_checksum(1, data)
    &&& level == 0 ==> stream.len() >= data.len() + 11
}

/// The zlib stream that `flate2::write::ZlibEncoder` makes of `data`, where that
/// does not depend on the size of its buffer.
pub uninterp spec fn zlib_encoded(level: u32, data: Seq<u8>) -> Seq<u8>;

/// `flate2::Compress`, of which `deflate_stream` says what it holds.
#[verifier::external_type_specification]
#[verifier::external_body]
pub struct ExCompress(flate2::Compress);

/// `flate2::CompressError`, which is only told apart from success.
#[verifier::external_type_specification]
#[verifier::external_body]
pub struct ExCompressError(flate2::CompressError);

/// `flate2::Compress::new_with_window_bits`: a compressor that has not been
/// asked anything. It panics unless the window size is in range and zlib knows
/// the level, which it reads as a signed number, -1 being its default.
#[verifier::external_body]
pub(crate) fn new_compress(level: u32, header: bool, window_bits: u8) -> (c: flate2::Compress)
    requires
        level <= 9 || level == u32::MAX,
        9 <= window_bits <= 15,
    ensures
        deflate_stream(c) == DeflateStream::opened(level, header, window_bits),
{
    flate2::Compress::new_with_window_bits(flate2::Compression::new(level), header, window_bits)
}

/// `flate2::Compress::total_in`: how many bytes have been taken.
#[verifier::external_body]
pub(crate) fn deflate_total_in(c: &flate2::Compress) -> (total: u64)
    ensures
        total == deflate_stream(*c).read().len(),
{
    c.total_in()
}

/// `flate2::Compress::total_out`: how many bytes have been written.
#[verifier::external_body]
pub(crate) fn deflate_total_out(c: &flate2::Compress) -> (total: u64)
    ensures
        total == deflate_stream(*c).written().len(),
{
    c.total_out()
}

/// `flate2::Compress::compress`: one request, with room for as many bytes as the
/// output vector holds. The first bytes of the vector are overwritten by the
/// output. It panics when one of the two 64-bit counters overflows.
///
/// zlib refuses a request only if it asks for more after the end was announced.
/// It stops when the input is used up or the room is filled: a request without
/// flush that leaves room has taken all it was given, and one that finishes,
/// has no input and does not end the stream has filled its room. At the end of
/// the stream all that was written decodes to all that was read, and from then
/// on there is nothing more to do.
#[verifier::external_body]
pub(crate) fn compress(
    c: &mut flate2::Compress,
    input: &[u8],
    output: &mut Vec<u8>,
    flush: Flush,
) -> (r: Result<Status, flate2::CompressError>)
    requires
        deflate_stream(*old(c)).read().len() + input@.len() <= u64::MAX,
        deflate_stream(*old(c)).written().len() + old(output)@.len() <= u64::MAX,
    ensures
        deflate_stream(*final(c)) == deflate_stream(*old(c)).after(
            (Request { input: input@, room: old(output)@.len(), flush }),
        ),
        ok_status(r) == deflate_reply(
            deflate_stream(*old(c)),
            (Request { input: input@, room: old(output)@.len(), flush }),
        ).status,
        deflate_stream(*final(c)).reply().fits(deflate_stream(*final(c)).log.last()),
        final(output)@.len() == old(output)@.len(),
        deflate_stream(*final(c)).reply().output == final(output)@.take(
            deflate_stream(*final(c)).reply().output.len() as int,
        ),
        r is Err ==> flush == Flush::NoFlush && deflate_stream(*old(c)).finishing(),
        flush == Flush::NoFlush && r is Ok && deflate_stream(*final(c)).reply().output.len()
            < call_limit(old(output)@.len()) ==> deflate_stream(*final(c)).reply().consumed
            == call_limit(input@.len()),
        flush == Flush::Finish && input@.len() == 0 && ok_status(r) != Some(Status::StreamEnd)
            ==> deflate_stream(*final(c)).reply().output.len() == call_limit(old(output)@.len()),
        deflate_stream(*old(c)).spent() || ok_status(r) == Some(Status::StreamEnd)
            ==> deflate_stream(*final(c)).spent(),
        ok_status(r) == Some(Status::StreamEnd) ==> flush == Flush::Finish && decodes_to(
            deflate_stream(*final(c)).header,
            deflate_stream(*final(c)).window_bits,
            deflate_stream(*final(c)).written(),
            deflate_stream(*final(c)).read(),
        ),
{
    let flush = match flush {
        Flush::NoFlush => flate2::FlushCompress::None,
        Flush::Finish => flate2::FlushCompress::Finish,
    };
    match c.compress(input, output, flush) {
        Ok(flate2::Status::Ok) => Ok(Status::Running),
        Ok(flate2::Status::BufError) => Ok(Status::BufError),
        Ok(flate2::Status::StreamEnd) => Ok(Status::StreamEnd),
        Err(error) => Err(error),
    }
}

/// `flate2::Compression::default`, and the level that it stands for.
#[verifier::external_body]
pub(crate) fn default_level() -> (level: u32)
    ensures
        level == 6,
{
    flate2::Compression::default().level()
}

/// `flate2::write::ZlibEncoder` over a vector, which takes whatever is written
/// to it: the data goes in at once, and the stream is finished. The result is a
/// zlib stream, with the largest window, that holds the data, between a header and
/// a trailer.
///
/// At level zero zlib cuts longer data into blocks by the room it finds in the
/// encoder's buffer, whose capacity is the allocator's choice. Nothing is said of
/// where it cuts.
#[verifier::external_body]
pub(crate) fn zlib_encode(level: u32, data: &[u8]) -> (stream: Vec<u8>)
    requires
        level <= 9,
    ensures
        level > 0 || data@.len() < MIN_CUT ==> stream@ == zlib_encoded(level, data@),
        framed(level, data@, stream@),
        decodes_to(true, 15, stream@, data@),
{
    let mut encoder = flate2::write::ZlibEncoder::new(Vec::new(), flate2::Compression::new(level));
    std::io::Write::write_all(&mut encoder, data).unwrap();
    encoder.finish().unwrap()
}

} // verus!
