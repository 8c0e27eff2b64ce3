//! The numbers that the module makes known.

use vstd::prelude::*;

verus! {

/// Stands for the compression level that zlib takes for a good compromise.
pub const Z_DEFAULT_COMPRESSION: i32 = -1;

/// The level that does not compress at all.
pub const Z_NO_COMPRESSION: i32 = 0;

/// The fastest level that compresses.
pub const Z_BEST_SPEED: i32 = 1;

/// The level that compresses best.
pub const Z_BEST_COMPRESSION: i32 = 9;

/// The one compression method there is.
pub const DEFLATED: i32 = 8;

/// The buffer size that is used where the caller names none.
pub const DEF_BUF_SIZE: usize = 16 * 1024;

/// The logarithm of the largest window size.
pub const MAX_WBITS: u8 = 15;

} // verus!
