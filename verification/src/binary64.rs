//! Properties of IEEE-754 binary64 numbers read from their bit patterns: a
//! pattern is the sign bit, eleven exponent bits and fifty-two fraction
//! bits, and among patterns with a clear sign bit the order of the patterns
//! is the order of the numbers (with infinity above every finite number and
//! the NaNs above infinity).

use vstd::prelude::*;

verus! {

/// The pattern of `-0.0`: only the sign bit set.
pub open spec fn negative_zero() -> u64 {
    0x8000_0000_0000_0000
}

/// The number is finite: its exponent bits are not all ones.
pub open spec fn is_finite(bits: u64) -> bool {
    (bits % 0x8000_0000_0000_0000) / 0x10_0000_0000_0000 != 0x7ff
}

/// The number is finite and greater than zero: the sign bit is clear, the
/// exponent is not all ones, and the pattern is not that of `+0.0`.
pub open spec fn f64_bits_positive_finite(bits: u64) -> bool {
    &&& bits < 0x8000_0000_0000_0000
    &&& bits / 0x10_0000_0000_0000 != 0x7ff
    &&& bits != 0
}

/// The number is finite and not less than zero: a finite pattern with a
/// clear sign bit, or `-0.0` (which equals zero).
pub open spec fn non_negative_finite(bits: u64) -> bool {
    (bits < 0x8000_0000_0000_0000 && bits / 0x10_0000_0000_0000 != 0x7ff) || bits == negative_zero()
}

/// The number lies in `[0, limit]`, for the pattern `limit_bits` of a finite
/// non-negative limit: `-0.0`, or a pattern with a clear sign bit that is not
/// above the limit's.
pub open spec fn in_closed_range_from_zero(bits: u64, limit_bits: u64) -> bool {
    bits <= limit_bits || bits == negative_zero()
}

/// The number lies in `[0, limit)`, for the pattern `limit_bits` of a finite
/// positive limit.
pub open spec fn in_half_open_range_from_zero(bits: u64, limit_bits: u64) -> bool {
    bits < limit_bits || bits == negative_zero()
}

/// Whether the number with pattern `bits` is finite.
pub fn finite(bits: u64) -> (r: bool)
    ensures
        r == is_finite(bits),
{
    (bits % 0x8000_0000_0000_0000) / 0x10_0000_0000_0000 != 0x7ff
}

/// Whether the number with pattern `bits` is finite and greater than zero.
pub fn positive_finite(bits: u64) -> (r: bool)
    ensures
        r == f64_bits_positive_finite(bits),
{
    bits < 0x8000_0000_0000_0000 && bits / 0x10_0000_0000_0000 != 0x7ff && bits != 0
}

/// Whether the number with pattern `bits` is finite and not less than zero.
pub fn non_negative(bits: u64) -> (r: bool)
    ensures
        r == non_negative_finite(bits),
{
    (bits < 0x8000_0000_0000_0000 && bits / 0x10_0000_0000_0000 != 0x7ff) || bits == 0x8000_0000_0000_0000
}

} // verus!
