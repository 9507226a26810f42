//! Decoding of the sensor's big-endian 16-bit two's-complement samples.
use vstd::prelude::*;

verus! {

/// The value of the 16-bit two's-complement number whose high byte is `hi`
/// and whose low byte is `lo`.
pub open spec fn be_i16_value(hi: u8, lo: u8) -> int {
    let u = hi as int * 256 + lo as int;
    if u >= 32768 {
        u - 65536
    } else {
        u
    }
}

/// The signed sample stored high byte first.
pub fn i16_from_be(hi: u8, lo: u8) -> (r: i16)
    ensures
        r as int == be_i16_value(hi, lo),
{
    if hi >= 128 {
        let h: i32 = hi as i32 - 256;
        (h * 256 + lo as i32) as i16
    } else {
        (hi as i32 * 256 + lo as i32) as i16
    }
}

/// The three axes stored as six bytes, X then Y then Z, each high byte
/// first.
pub open spec fn axes_value(b: Seq<u8>, start: int) -> (int, int, int) {
    (
        be_i16_value(b[start], b[start + 1]),
        be_i16_value(b[start + 2], b[start + 3]),
        be_i16_value(b[start + 4], b[start + 5]),
    )
}

/// Decodes three axes from `b[start..start + 6]`.
pub fn axes_from_be(b: &[u8], start: usize) -> (r: (i16, i16, i16))
    requires
        start + 6 <= b@.len(),
    ensures
        (r.0 as int, r.1 as int, r.2 as int) == axes_value(b@, start as int),
{
    (
        i16_from_be(b[start], b[start + 1]),
        i16_from_be(b[start + 2], b[start + 3]),
        i16_from_be(b[start + 4], b[start + 5]),
    )
}

} // verus!
