use flate2::{Compress, Compression, FlushCompress, Status};

use zlib::compress::{zlib_compress, zlib_compressobj, PyCompress};
use zlib::decompress::{zlib_decompress, zlib_decompressobj, DecompressArgs, PyDecompress};
use zlib::error::{ExceptionClass, Failure};

const LOREM: &[u8] = b"Lorem ipsum dolor sit amet, consectetur adipiscing elit, sed do eiusmod";

/// Bytes without much of a pattern.
fn noise(len: usize) -> Vec<u8> {
    let mut state: u32 = 2024;
    let mut bytes = Vec::new();
    for _ in 0..len {
        state = state.wrapping_mul(1_103_515_245).wrapping_add(12345);
        bytes.push((state >> 16) as u8);
    }
    bytes
}

fn message(result: Result<Vec<u8>, Failure>, class: ExceptionClass) -> String {
    match result {
        Err(Failure::Raised(exception)) => {
            assert_eq!(exception.class, class);
            exception.message
        }
        other => panic!("an exception was expected, not {:?}", other),
    }
}

fn compressor(level: Option<i32>, wbits: Option<i8>) -> PyCompress {
    match zlib_compressobj(level, None, wbits) {
        Ok(object) => object,
        Err(failure) => panic!("{:?}", failure),
    }
}

fn decompress(object: &mut PyDecompress, data: &[u8]) -> Result<Vec<u8>, Failure> {
    object.decompress(DecompressArgs { data, max_length: 0 })
}

#[test]
fn pieces_make_up_a_stream() {
    for level in -1..=9 {
        for wbits in [None, Some(9), Some(15), Some(-9), Some(-15)] {
            let mut object = compressor(Some(level), wbits);
            let mut stream = Vec::new();
            for piece in LOREM.chunks(7) {
                stream.extend(object.compress(piece).unwrap());
            }
            stream.extend(object.flush().unwrap());
            assert_eq!(zlib_decompress(&stream, wbits, None).unwrap(), LOREM);
        }
    }
}

#[test]
fn an_object_makes_the_stream_that_one_call_makes() {
    for (level, text) in [(None, LOREM.to_vec()), (Some(0), noise(1000)), (Some(9), noise(9000))] {
        let mut object = compressor(level, None);
        let mut stream = object.compress(&text).unwrap();
        stream.extend(object.flush().unwrap());
        assert_eq!(stream, zlib_compress(&text, level).unwrap());
    }
}

#[test]
fn nothing_makes_an_empty_stream() {
    let mut object = compressor(None, Some(-15));
    assert_eq!(object.compress(b"").unwrap(), b"");
    assert_eq!(object.flush().unwrap(), b"\x03\x00");
    let mut object = compressor(None, None);
    assert_eq!(object.flush().unwrap(), b"\x78\x9c\x03\x00\x00\x00\x00\x01");
}

#[test]
fn the_method_is_of_no_account() {
    for method in [None, Some(8), Some(99)] {
        let mut object = match zlib_compressobj(None, method, None) {
            Ok(object) => object,
            Err(failure) => panic!("{:?}", failure),
        };
        assert_eq!(object.flush().unwrap(), b"\x78\x9c\x03\x00\x00\x00\x00\x01");
    }
}

#[test]
fn compressor_levels_have_limits() {
    for level in [-2, 10, i32::MIN, i32::MAX] {
        match zlib_compressobj(Some(level), None, None) {
            Err(Failure::Raised(exception)) => {
                assert_eq!(exception.class, ExceptionClass::ValueError);
                assert_eq!(exception.message, "invalid initialization option");
            }
            _ => panic!("an exception was expected"),
        }
        // the level is looked at before the window is
        assert!(zlib_compressobj(Some(level), None, Some(0)).is_err());
    }
}

#[test]
fn nothing_goes_in_after_the_end() {
    let mut object = compressor(None, None);
    object.compress(LOREM).unwrap();
    object.flush().unwrap();
    let class = ExceptionClass::ZlibError;
    assert_eq!(message(object.compress(b"more"), class), "error while compressing");
    assert_eq!(message(object.compress(b"more"), class), "error while compressing");
    assert_eq!(object.flush().unwrap(), b"");
    assert_eq!(object.flush().unwrap(), b"");
    assert_eq!(object.compress(b"").unwrap(), b"");
}

#[test]
fn long_pieces_fill_several_buffers() {
    for level in -1..=9 {
        let text = noise(200_000);
        let mut object = compressor(Some(level), None);
        let mut stream = Vec::new();
        for piece in text.chunks(70_000) {
            stream.extend(object.compress(piece).unwrap());
        }
        stream.extend(object.flush().unwrap());
        assert_eq!(zlib_decompress(&stream, None, None).unwrap(), text);
    }
}

#[test]
fn a_long_flush_fills_several_buffers() {
    let text = noise(30000);
    let mut object = compressor(Some(0), None);
    let mut stream = object.compress(&text).unwrap();
    let late = object.flush().unwrap();
    assert!(late.len() > 16384);
    stream.extend(late);
    assert_eq!(zlib_decompress(&stream, None, None).unwrap(), text);
}

#[test]
fn an_object_makes_the_stream_that_one_large_buffer_takes() {
    for (level, len) in [(1, 20000), (1, 32000), (6, 32000), (6, 40000), (9, 60000)] {
        let text = noise(len);
        let mut c = Compress::new_with_window_bits(Compression::new(level), true, 15);
        let mut expected = Vec::with_capacity(200_000);
        c.compress_vec(&text, &mut expected, FlushCompress::None).unwrap();
        let early = expected.len();
        let mut object = compressor(Some(level as i32), None);
        assert_eq!(object.compress(&text).unwrap(), expected);
        let status = c.compress_vec(&[], &mut expected, FlushCompress::Finish).unwrap();
        assert_eq!(status, Status::StreamEnd);
        assert_eq!(object.flush().unwrap(), &expected[early..]);
    }
}

#[test]
fn a_stream_cut_in_two_comes_out_whole() {
    for level in [0, 1, 9] {
        let stream = zlib_compress(LOREM, Some(level)).unwrap();
        for cut in 0..=stream.len() {
            for max_length in [0, 72, 100_000] {
                let mut object = zlib_decompressobj(None, None);
                let data = &stream[..cut];
                let mut output = object.decompress(DecompressArgs { data, max_length }).unwrap();
                assert_eq!(object.eof(), cut == stream.len());
                let data = &stream[cut..];
                output.extend(object.decompress(DecompressArgs { data, max_length }).unwrap());
                assert_eq!(output, LOREM);
                assert!(object.eof());
                assert_eq!(object.unused_data(), b"");
                assert_eq!(object.unconsumed_tail(), b"");
            }
        }
    }
}

#[test]
fn a_stream_comes_through_in_pieces() {
    let text = noise(50_000);
    for level in [0, 1, 9] {
        let mut stream = zlib_compress(&text, Some(level)).unwrap();
        stream.extend_from_slice(b"rest");
        for size in [7, 100, 1000, 10000, 40000, 100_000] {
            let mut object = zlib_decompressobj(None, None);
            let mut output = Vec::new();
            let mut pos = 0;
            while !object.eof() {
                let end = stream.len().min(pos + size);
                output.extend(decompress(&mut object, &stream[pos..end]).unwrap());
                pos = end;
                if !object.eof() {
                    assert_eq!(object.unused_data(), b"");
                    assert_eq!(object.unconsumed_tail(), b"");
                }
            }
            assert_eq!(output, text);
            let seen = 4 - (stream.len() - pos);
            assert_eq!(object.unused_data(), &b"rest"[..seen]);
            assert_eq!(object.unconsumed_tail(), &b"rest"[..seen]);
        }
    }
}

#[test]
fn nothing_comes_out_after_the_end() {
    let stream = zlib_compress(LOREM, None).unwrap();
    let mut object = zlib_decompressobj(None, None);
    assert_eq!(decompress(&mut object, &stream).unwrap(), LOREM);
    assert!(object.eof());
    assert_eq!(decompress(&mut object, b"one").unwrap(), b"");
    assert_eq!(object.unused_data(), b"one");
    assert_eq!(object.unconsumed_tail(), b"one");
    assert_eq!(decompress(&mut object, b"two").unwrap(), b"");
    assert_eq!(object.unused_data(), b"onetwo");
    assert_eq!(object.unconsumed_tail(), b"two");
    assert_eq!(decompress(&mut object, b"").unwrap(), b"");
    assert_eq!(object.unused_data(), b"onetwo");
    assert_eq!(object.unconsumed_tail(), b"");
    assert!(object.eof());
}

#[test]
fn a_max_length_of_zero_means_no_limit() {
    let stream = b"\x78\x01\x01\x03\x00\xfc\xffabc\x02\x4d\x01\x27";
    let mut object = zlib_decompressobj(None, None);
    let result = object.decompress(DecompressArgs { data: stream, max_length: 0 });
    assert_eq!(result.unwrap(), b"abc");
    assert!(object.eof());
    assert_eq!(object.unconsumed_tail(), b"");
    assert_eq!(object.unused_data(), b"");
    let text = noise(100_000);
    let stream = zlib_compress(&text, None).unwrap();
    let mut object = zlib_decompressobj(None, None);
    assert_eq!(decompress(&mut object, &stream).unwrap(), text);
    assert!(object.eof());
}

#[test]
fn a_max_length_is_not_exceeded() {
    for text in [LOREM.to_vec(), noise(50_000), vec![9; 50_000]] {
        for max_length in [1, 2, 16383, 16384, 16385, 40000] {
            if text.len() / max_length > 1000 {
                continue;
            }
            let stream = zlib_compress(&text, None).unwrap();
            let mut object = zlib_decompressobj(None, None);
            let mut data = stream.clone();
            let mut output = Vec::new();
            while !object.eof() {
                let piece = object.decompress(DecompressArgs { data: &data, max_length }).unwrap();
                assert!(piece.len() <= max_length);
                assert!(object.eof() || piece.len() == max_length);
                assert!(data.ends_with(object.unconsumed_tail()));
                output.extend(piece);
                data = object.unconsumed_tail().to_vec();
            }
            assert_eq!(output, text);
            assert_eq!(object.unused_data(), b"");
            assert_eq!(object.unconsumed_tail(), b"");
        }
    }
}

#[test]
fn a_max_length_leaves_what_is_not_needed() {
    let stream = b"\x78\x01\x01\x03\x00\xfc\xffabc\x02\x4d\x01\x27";
    let mut object = zlib_decompressobj(None, None);
    let result = object.decompress(DecompressArgs { data: stream, max_length: 2 });
    assert_eq!(result.unwrap(), b"ab");
    assert!(!object.eof());
    assert_eq!(object.unconsumed_tail(), b"c\x02\x4d\x01\x27");
    // all the data may come out, and the end is seen
    let mut object = zlib_decompressobj(None, None);
    let result = object.decompress(DecompressArgs { data: stream, max_length: 3 });
    assert_eq!(result.unwrap(), b"abc");
    assert!(object.eof());
    assert_eq!(object.unconsumed_tail(), b"");
}

#[test]
fn a_flush_takes_what_was_left() {
    for text in [b"".to_vec(), LOREM.to_vec(), noise(20000), vec![3; 100_000]] {
        for level in [0, 6] {
            let stream = zlib_compress(&text, Some(level)).unwrap();
            for max_length in [0, 1, 10, 71, 100, 16384, 20000, 99_999, 100_000] {
                for length in [None, Some(1000), Some(72)] {
                    let mut object = zlib_decompressobj(None, None);
                    let data = &stream;
                    let mut output =
                        object.decompress(DecompressArgs { data, max_length }).unwrap();
                    output.extend(object.flush(length).unwrap());
                    assert_eq!(output, text);
                    assert!(object.eof());
                    assert_eq!(object.unused_data(), b"");
                    assert_eq!(object.unconsumed_tail(), b"");
                }
            }
        }
    }
    let mut object = zlib_decompressobj(None, None);
    assert_eq!(object.flush(None).unwrap(), b"");
    assert!(!object.eof());
}

#[test]
fn a_flush_length_is_positive() {
    for length in [0, -1, isize::MIN] {
        let mut object = zlib_decompressobj(None, None);
        let class = ExceptionClass::ValueError;
        assert_eq!(message(object.flush(Some(length)), class), "length must be greater than zero");
    }
}

#[test]
fn an_object_refuses_invalid_data() {
    let mut object = zlib_decompressobj(None, None);
    let class = ExceptionClass::ZlibError;
    assert_eq!(message(decompress(&mut object, b"not a stream"), class), "invalid input data");
    assert!(!object.eof());
    // the two bytes of the header have been taken
    assert_eq!(object.unconsumed_tail(), b"t a stream");
    assert_eq!(object.unused_data(), b"");
    assert_eq!(message(object.flush(None), class), "invalid input data");
    assert_eq!(object.unconsumed_tail(), b"t a stream");
}

#[test]
fn a_dictionary_can_be_preset() {
    let mut c = Compress::new_with_window_bits(Compression::new(6), false, 15);
    c.set_dictionary(LOREM).unwrap();
    let mut stream = Vec::with_capacity(1000);
    let status = c.compress_vec(LOREM, &mut stream, FlushCompress::Finish).unwrap();
    assert_eq!(status, Status::StreamEnd);
    let mut object = zlib_decompressobj(Some(-15), Some(LOREM));
    assert_eq!(decompress(&mut object, &stream).unwrap(), LOREM);
    assert!(object.eof());
    let mut object = zlib_decompressobj(Some(-15), None);
    let class = ExceptionClass::ZlibError;
    assert_eq!(message(decompress(&mut object, &stream), class), "invalid input data");
}

#[test]
fn an_object_agrees_with_one_call() {
    for text in [vec![], LOREM.to_vec(), noise(16384), vec![1; 100_000]] {
        let stream = zlib_compress(&text, None).unwrap();
        let mut object = zlib_decompressobj(None, None);
        let output = decompress(&mut object, &stream).unwrap();
        assert_eq!(output, zlib_decompress(&stream, None, None).unwrap());
        assert_eq!(output, text);
    }
    let mut broken = zlib_compress(&noise(10000), None).unwrap();
    broken[5000] ^= 0xff;
    let at_once = zlib_decompress(&broken, None, None);
    let mut object = zlib_decompressobj(None, None);
    let by_object = object.decompress(DecompressArgs { data: &broken, max_length: 16384 });
    let class = ExceptionClass::ZlibError;
    assert_eq!(message(at_once, class), message(by_object, class));
}
