//! The window argument, which also says whether there is a zlib header.

use vstd::prelude::*;

use crate::constants::MAX_WBITS;

verus! {

/// The window argument, or its default.
pub open spec fn wbits_or_default(wbits: Option<i8>) -> int {
    match wbits {
        Some(bits) => bits as int,
        None => MAX_WBITS as int,
    }
}

/// Whether a window argument asks for a zlib header: a positive one does.
pub open spec fn wants_header(wbits: Option<i8>) -> bool {
    wbits_or_default(wbits) > 0
}

/// The logarithm of the window size that a window argument asks for: its
/// magnitude.
pub open spec fn window_size(wbits: Option<i8>) -> int {
    if wbits_or_default(wbits) < 0 {
        -wbits_or_default(wbits)
    } else {
        wbits_or_default(wbits)
    }
}

/// zlib has windows of this size.
pub open spec fn valid_window(wbits: Option<i8>) -> bool {
    9 <= window_size(wbits) <= 15
}

/// Reads a window argument: whether there is to be a zlib header, and the
/// logarithm of the window size.
pub fn header_from_wbits(wbits: Option<i8>) -> (r: (bool, u8))
    requires
        wbits != Some(i8::MIN),
    ensures
        r.0 == wants_header(wbits),
        r.1 == window_size(wbits),
        match wbits {
            Some(bits) => r.0 == (bits > 0) && (r.1 == bits || r.1 == -bits),
            None => r.0 && r.1 == 15,
        },
{
    let wbits: i8 = match wbits {
        Some(bits) => bits,
        None => MAX_WBITS as i8,
    };
    let size: u8 = if wbits < 0 {
        (-wbits) as u8
    } else {
        wbits as u8
    };
    (wbits > 0, size)
}

} // verus!
