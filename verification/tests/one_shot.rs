use zlib::checksum::zlib_adler32;
use zlib::codec::MIN_CUT;
use zlib::compress::zlib_compress;
use zlib::decompress::zlib_decompress;
use zlib::error::{ExceptionClass, Failure};

const LOREM: &[u8] = b"Lorem ipsum dolor sit amet, consectetur adipiscing elit, sed do eiusmod";

/// Bytes without much of a pattern.
fn noise(len: usize) -> Vec<u8> {
    let mut state: u32 = 99;
    let mut bytes = Vec::new();
    for _ in 0..len {
        state = state.wrapping_mul(1_103_515_245).wrapping_add(12345);
        bytes.push((state >> 16) as u8);
    }
    bytes
}

/// The message of the `zlib.error` that a call has raised.
fn raised(result: Result<Vec<u8>, Failure>) -> String {
    match result {
        Err(Failure::Raised(exception)) => {
            assert_eq!(exception.class, ExceptionClass::ZlibError);
            exception.message
        }
        other => panic!("an exception was expected, not {:?}", other),
    }
}

#[test]
fn known_streams() {
    let empty: &[u8] = b"";
    assert_eq!(zlib_compress(empty, None).unwrap(), b"\x78\x9c\x03\x00\x00\x00\x00\x01");
    assert_eq!(zlib_compress(empty, Some(-1)).unwrap(), b"\x78\x9c\x03\x00\x00\x00\x00\x01");
    assert_eq!(zlib_compress(empty, Some(6)).unwrap(), b"\x78\x9c\x03\x00\x00\x00\x00\x01");
    assert_eq!(zlib_compress(empty, Some(1)).unwrap(), b"\x78\x01\x03\x00\x00\x00\x00\x01");
    assert_eq!(zlib_compress(empty, Some(9)).unwrap(), b"\x78\xda\x03\x00\x00\x00\x00\x01");
    assert_eq!(
        zlib_compress(empty, Some(0)).unwrap(),
        b"\x78\x01\x01\x00\x00\xff\xff\x00\x00\x00\x01"
    );
    assert_eq!(zlib_compress(b"a", None).unwrap(), b"\x78\x9c\x4b\x04\x00\x00\x62\x00\x62");
    assert_eq!(
        zlib_compress(b"ab", Some(0)).unwrap(),
        b"\x78\x01\x01\x02\x00\xfd\xffab\x01\x26\x00\xc4"
    );
}

#[test]
fn stored_data_goes_into_one_block_if_it_is_short() {
    let text = noise(MIN_CUT - 1);
    let stream = zlib_compress(&text, Some(0)).unwrap();
    assert_eq!(&stream[..7], b"\x78\x01\x01\xff\x7f\x00\x80");
    assert_eq!(&stream[7..stream.len() - 4], &text);
}

#[test]
fn what_is_compressed_comes_back() {
    let texts: Vec<Vec<u8>> = vec![
        vec![],
        b"a".to_vec(),
        LOREM.to_vec(),
        vec![7; 16383],
        vec![7; 16384],
        vec![7; 16385],
        vec![7; 300_000],
        noise(10000),
        noise(16384),
        noise(20000),
        noise(200_000),
    ];
    for text in &texts {
        for level in -1..=9 {
            let stream = zlib_compress(text, Some(level)).unwrap();
            assert_eq!(&zlib_decompress(&stream, None, None).unwrap(), text);
            for size in [100, 1000, 16384, 40000] {
                assert_eq!(&zlib_decompress(&stream, Some(15), Some(size)).unwrap(), text);
            }
        }
    }
}

#[test]
fn levels_have_limits() {
    for level in [-2, 10, 11, i32::MIN, i32::MAX] {
        assert_eq!(raised(zlib_compress(b"data", Some(level))), "Bad compression level");
    }
}

#[test]
fn what_follows_the_stream_is_ignored() {
    let mut stream = zlib_compress(LOREM, None).unwrap();
    stream.extend_from_slice(b"something else");
    assert_eq!(zlib_decompress(&stream, None, None).unwrap(), LOREM);
}

#[test]
fn a_stream_that_breaks_off_yields_what_it_holds() {
    let stream = zlib_compress(LOREM, Some(0)).unwrap();
    // two bytes of header, five bytes of block header
    assert_eq!(zlib_decompress(&stream[..17], None, None).unwrap(), &LOREM[..10]);
    assert_eq!(zlib_decompress(&stream[..stream.len() - 4], None, None).unwrap(), LOREM);
    assert_eq!(zlib_decompress(b"", None, None).unwrap(), b"");
    assert_eq!(zlib_decompress(b"", None, Some(0)).unwrap(), b"");
    assert_eq!(zlib_decompress(b"\x78", None, None).unwrap(), b"");
}

#[test]
fn invalid_data_is_refused() {
    assert_eq!(raised(zlib_decompress(b"not a stream", None, None)), "invalid input data");
    let mut stream = zlib_compress(LOREM, None).unwrap();
    let last = stream.len() - 1;
    stream[last] ^= 1;
    assert_eq!(raised(zlib_decompress(&stream, None, None)), "invalid input data");
    // a stream that asks for a dictionary
    assert_eq!(
        raised(zlib_decompress(b"\x78\xbb\x00\x00\x00\x01\x03\x00", None, None)),
        "invalid input data"
    );
}

#[test]
fn a_negative_window_means_no_header() {
    let stream = zlib_compress(LOREM, None).unwrap();
    let body = &stream[2..stream.len() - 4];
    assert_eq!(zlib_decompress(body, Some(-15), None).unwrap(), LOREM);
    assert_eq!(raised(zlib_decompress(&stream, Some(-15), None)), "invalid input data");
    // the header asks for a larger window
    assert_eq!(raised(zlib_decompress(&stream, Some(9), None)), "invalid input data");
}

#[test]
fn the_buffer_size_makes_no_difference() {
    let stored = b"\x78\x01\x01\x09\x00\xf6\xff123456789\x09\x1e\x01\xde";
    for size in 1..=20 {
        assert_eq!(zlib_decompress(stored, None, Some(size)).unwrap(), b"123456789");
    }
    for level in [0, 1, 9] {
        let stream = zlib_compress(LOREM, Some(level)).unwrap();
        for end in 0..=stream.len() {
            let output = zlib_decompress(&stream[..end], None, None).unwrap();
            for size in [1, 2, 7, 70, 71, 72] {
                assert_eq!(zlib_decompress(&stream[..end], None, Some(size)).unwrap(), output);
            }
        }
    }
}

#[test]
fn the_more_there_is_the_more_comes_out() {
    let text = noise(500);
    for level in [0, 1, 6] {
        let stream = zlib_compress(&text, Some(level)).unwrap();
        let mut before = Vec::new();
        for end in 0..=stream.len() {
            let output = zlib_decompress(&stream[..end], None, None).unwrap();
            assert!(output.starts_with(&before));
            assert!(text.starts_with(&output));
            before = output;
        }
        assert_eq!(before, text);
    }
}

#[test]
fn without_room_data_can_only_be_refused() {
    assert_eq!(raised(zlib_decompress(b"not a stream", None, Some(0))), "invalid input data");
    // a header of two equal bytes is none
    assert_eq!(raised(zlib_decompress(b"\x78", None, Some(0))), "invalid input data");
    assert_eq!(zlib_decompress(b"\x78", None, Some(1)).unwrap(), b"");
    for text in [b"".to_vec(), LOREM.to_vec()] {
        let stream = zlib_compress(&text, None).unwrap();
        assert!(matches!(zlib_decompress(&stream, None, Some(0)), Err(Failure::Stuck)));
    }
    assert_eq!(zlib_decompress(b"", None, Some(0)).unwrap(), b"");
    assert_eq!(zlib_decompress(b"", None, Some(usize::MAX)).unwrap(), b"");
}

#[test]
fn streams_have_a_header_and_a_trailer() {
    let flags = [0x01, 0x01, 0x5e, 0x5e, 0x5e, 0x5e, 0x9c, 0xda, 0xda, 0xda];
    for text in [b"".to_vec(), LOREM.to_vec(), noise(100_000)] {
        for (level, flag) in flags.iter().enumerate() {
            let stream = zlib_compress(&text, Some(level as i32)).unwrap();
            assert!(stream.len() >= 8);
            assert_eq!(&stream[..2], &[0x78, *flag]);
            let checksum = zlib_adler32(&text, None).to_be_bytes();
            assert_eq!(&stream[stream.len() - 4..], &checksum);
            assert!(level > 0 || stream.len() >= text.len() + 11);
        }
    }
}
