use zlib::checksum::{zlib_adler32, zlib_crc32};

/// Bytes without much of a pattern.
fn noise(len: usize) -> Vec<u8> {
    let mut state: u32 = 12345;
    let mut bytes = Vec::new();
    for _ in 0..len {
        state = state.wrapping_mul(1_103_515_245).wrapping_add(12345);
        bytes.push((state >> 16) as u8);
    }
    bytes
}

fn slow_adler32(start: u32, data: &[u8]) -> u32 {
    let mut a = (start & 0xffff) % 65521;
    let mut b = (start >> 16) % 65521;
    for byte in data {
        a = (a + u32::from(*byte)) % 65521;
        b = (b + a) % 65521;
    }
    b * 65536 + a
}

fn slow_crc32(start: u32, data: &[u8]) -> u32 {
    let mut state = !start;
    for byte in data {
        state ^= u32::from(*byte);
        for _ in 0..8 {
            state = if state & 1 == 1 {
                (state >> 1) ^ 0xedb8_8320
            } else {
                state >> 1
            };
        }
    }
    !state
}

#[test]
fn adler32_of_known_data() {
    assert_eq!(zlib_adler32(b"", None), 1);
    assert_eq!(zlib_adler32(b"a", None), 0x0062_0062);
    assert_eq!(zlib_adler32(b"Wikipedia", None), 0x11e6_0398);
    assert_eq!(zlib_adler32(b"123", None), 19726487);
    assert_eq!(zlib_adler32(b"", Some(0)), 0);
    assert_eq!(zlib_adler32(b"a", Some(0)), 0x0061_0061);
}

#[test]
fn adler32_reduces_its_start() {
    // both halves are 65535, which is 14 beyond the modulus
    assert_eq!(zlib_adler32(b"", Some(-1)), 14 * 65536 + 14);
    assert_eq!(zlib_adler32(b"\x01", Some(-1)), 29 * 65536 + 15);
    assert_eq!(zlib_adler32(b"\x01\x00", Some(-1)), 44 * 65536 + 15);
}

#[test]
fn adler32_of_long_data() {
    for len in [2, 15, 16, 17, 5551, 5552, 5553, 11104, 40000] {
        let data = noise(len);
        for start in [None, Some(0), Some(-1), Some(i32::MIN), Some(i32::MAX)] {
            let word = start.unwrap_or(1) as u32;
            assert_eq!(zlib_adler32(&data, start), slow_adler32(word, &data));
        }
    }
    let high = vec![0xffu8; 60000];
    assert_eq!(zlib_adler32(&high, Some(-1)), slow_adler32(0xffff_ffff, &high));
}

#[test]
fn adler32_goes_on_from_a_checksum() {
    let data = noise(10000);
    for cut in [0, 1, 15, 4000, 9999, 10000] {
        let first = zlib_adler32(&data[..cut], None);
        let second = zlib_adler32(&data[cut..], Some(first as i32));
        assert_eq!(second, zlib_adler32(&data, None));
    }
}

#[test]
fn crc32_of_known_data() {
    assert_eq!(zlib_crc32(b"", None), 0);
    assert_eq!(zlib_crc32(b"123456789", None), 0xcbf4_3926);
    assert_eq!(zlib_crc32(b"123", None), 2286445522);
    assert_eq!(zlib_crc32(b"", Some(-1)), 0xffff_ffff);
    assert_eq!(zlib_crc32(b"a", Some(0)), 0xe8b7_be43);
}

#[test]
fn crc32_of_long_data() {
    for len in [1, 15, 16, 127, 128, 1000, 40000] {
        let data = noise(len);
        for start in [None, Some(1), Some(-1), Some(i32::MIN), Some(i32::MAX)] {
            let word = start.unwrap_or(0) as u32;
            assert_eq!(zlib_crc32(&data, start), slow_crc32(word, &data));
        }
    }
}

#[test]
fn crc32_goes_on_from_a_checksum() {
    let data = noise(10000);
    for cut in [0, 1, 15, 4000, 9999, 10000] {
        let first = zlib_crc32(&data[..cut], None);
        let second = zlib_crc32(&data[cut..], Some(first as i32));
        assert_eq!(second, zlib_crc32(&data, None));
    }
}
