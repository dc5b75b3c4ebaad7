use fixed::types::I64F64;
use vstd::prelude::*;

verus! {

/// 2^64: the scale of an `I64F64` value, whose raw bits are its value times
/// this number.
pub open spec fn scale() -> int {
    0x1_0000_0000_0000_0000
}

/// Whether raw bits lie in the range of `i128`.
pub open spec fn in_i128(x: int) -> bool {
    i128::MIN <= x <= i128::MAX
}

/// A signed fixed-point number with 64 integer and 64 fractional bits, held
/// as its raw bits: the number is `bits / 2^64`.
#[derive(Debug, Clone, Copy)]
pub struct Fixed {
    pub bits: i128,
}

/// Relies on `I64F64::checked_from_num` for a `u64`: the integer times 2^64,
/// or `None` where that leaves the range (from 2^63 on).
#[verifier::external_body]
pub(crate) fn fixed_from_u64(x: u64) -> (r: Option<Fixed>)
    ensures
        r == (if in_i128(x * scale()) {
            Some(Fixed { bits: (x * scale()) as i128 })
        } else {
            None::<Fixed>
        }),
{
    I64F64::checked_from_num(x).map(|v: I64F64| Fixed { bits: v.to_bits() })
}

/// Relies on `I64F64::checked_mul`: the product of the raw bits shifted right
/// by 64 (rounding towards minus infinity), or `None` on overflow.
#[verifier::external_body]
pub(crate) fn fixed_mul(a: Fixed, b: Fixed) -> (r: Option<Fixed>)
    ensures
        r == (if in_i128((a.bits as int * b.bits) / scale()) {
            Some(Fixed { bits: ((a.bits as int * b.bits) / scale()) as i128 })
        } else {
            None::<Fixed>
        }),
{
    I64F64::from_bits(a.bits).checked_mul(I64F64::from_bits(b.bits)).map(
        |v: I64F64| Fixed { bits: v.to_bits() },
    )
}

/// Relies on `I64F64::checked_div`: `None` for a zero divisor or on overflow,
/// else the quotient, truncated (for non-negative operands, rounded down).
#[verifier::external_body]
pub(crate) fn fixed_div(a: Fixed, b: Fixed) -> (r: Option<Fixed>)
    requires
        a.bits >= 0,
        b.bits >= 0,
    ensures
        b.bits == 0 ==> r is None,
        b.bits > 0 ==> r == (if in_i128((a.bits * scale()) / (b.bits as int)) {
            Some(Fixed { bits: ((a.bits * scale()) / (b.bits as int)) as i128 })
        } else {
            None::<Fixed>
        }),
{
    I64F64::from_bits(a.bits).checked_div(I64F64::from_bits(b.bits)).map(
        |v: I64F64| Fixed { bits: v.to_bits() },
    )
}

/// Relies on `I64F64::checked_add`: the sum of the raw bits, or `None` on
/// overflow.
#[verifier::external_body]
pub(crate) fn fixed_add(a: Fixed, b: Fixed) -> (r: Option<Fixed>)
    ensures
        r == (if in_i128(a.bits + b.bits) {
            Some(Fixed { bits: (a.bits + b.bits) as i128 })
        } else {
            None::<Fixed>
        }),
{
    I64F64::from_bits(a.bits).checked_add(I64F64::from_bits(b.bits)).map(
        |v: I64F64| Fixed { bits: v.to_bits() },
    )
}

/// Relies on `I64F64::sqrt`: for a non-negative value the square root rounded
/// down to a multiple of 2^-64, that is `r <= sqrt(x) < r + 2^-64`.
#[verifier::external_body]
pub(crate) fn fixed_sqrt(a: Fixed) -> (r: Fixed)
    requires
        a.bits >= 0,
    ensures
        r.bits >= 0,
        r.bits * r.bits <= a.bits * scale(),
        a.bits * scale() < (r.bits + 1) * (r.bits + 1),
{
    Fixed { bits: I64F64::from_bits(a.bits).sqrt().to_bits() }
}

/// Relies on `I64F64::floor`: the greatest integer not above the value. With
/// 64 integer bits it cannot overflow.
#[verifier::external_body]
pub(crate) fn fixed_floor(a: Fixed) -> (r: Fixed)
    ensures
        r.bits == (a.bits as int / scale()) * scale(),
{
    Fixed { bits: I64F64::from_bits(a.bits).floor().to_bits() }
}

/// Relies on `I64F64::checked_to_num::<u64>`: the value with its fraction
/// discarded (rounding towards minus infinity), or `None` where that is not a
/// `u64`.
#[verifier::external_body]
pub(crate) fn fixed_to_u64(a: Fixed) -> (r: Option<u64>)
    ensures
        r == (if 0 <= a.bits as int / scale() <= u64::MAX {
            Some((a.bits as int / scale()) as u64)
        } else {
            None::<u64>
        }),
{
    I64F64::from_bits(a.bits).checked_to_num::<u64>()
}

} // verus!
