# zlib

A zlib module for an interpreter: the CRC-32 and Adler-32 checksums, compression
and decompression in one call, and compressor and decompressor objects that are
fed piece by piece. The codecs themselves come from `flate2`, the checksums from
`adler32` and `crc32fast`. What this crate does around them is verified with Verus.

- `src/codec.rs` says what is believed of `flate2`: a codec is modelled by the
  requests it has answered.
- `src/feeding.rs`, `src/inflate.rs`, `src/deflate.rs` hand data to a codec and
  collect its output.
- `src/checksum.rs`, `src/compress.rs`, `src/decompress.rs`, `src/module.rs`,
  `src/window.rs`, `src/constants.rs`, `src/error.rs` are the module itself.
- `src/laws.rs` states what holds of the module as a whole, with the help of
  `src/inflate_lemmas.rs`.
- `app/` wraps the objects so that threads can share them.

Data goes in once and in order, however much comes out: what a codec does not take
of a chunk is handed over again, with more room. A `max_length` bounds what one
call of a decompressor object returns, and zero stands for no bound. What is not
needed for that is left in `unconsumed_tail`.
