//! A zlib module: checksums, one-shot compression, and streaming compressor
//! and decompressor objects, on top of `flate2`, `adler32` and `crc32fast`.

pub mod checksum;
pub mod codec;
pub mod compress;
pub mod constants;
pub mod decompress;
pub mod deflate;
pub mod error;
pub mod feeding;
pub mod inflate;
pub mod inflate_lemmas;
pub mod laws;
pub mod module;
pub mod promises;
pub mod window;
