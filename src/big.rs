//! The arbitrary-precision integers of `num_bigint`, seen through the few
//! operations the decoder needs.

use vstd::prelude::*;
use vstd::arithmetic::power2::pow2;
use num_bigint::BigInt;

verus! {

#[verifier::external_type_specification]
#[verifier::external_body]
pub struct ExBigInt(BigInt);

/// The mathematical integer that a `BigInt` holds.
pub uninterp spec fn int_value(b: BigInt) -> int;

/// Relies on `From<i64> for BigInt`: the result holds `n`.
#[verifier::external_body]
pub(crate) fn big_from_i64(n: i64) -> (r: BigInt)
    ensures
        int_value(r) == n as int,
{
    BigInt::from(n)
}

/// Relies on `MulAssign<u64> for BigInt`: the product is exact.
#[verifier::external_body]
pub(crate) fn big_mul_u64(b: &mut BigInt, x: u64)
    ensures
        int_value(*final(b)) == int_value(*old(b)) * x,
{
    *b *= x;
}

/// Relies on `BigInt::trailing_zeros`: the number of low zero bits of the
/// magnitude, or `None` for zero.
#[verifier::external_body]
pub(crate) fn big_trailing_zeros(b: &BigInt) -> (r: Option<u64>)
    ensures
        r is None <==> int_value(*b) == 0,
        r matches Some(k) ==> int_value(*b) % (pow2(k as nat) as int) == 0
            && int_value(*b) % (pow2((k + 1) as nat) as int) != 0,
{
    b.trailing_zeros()
}

/// Relies on `ShrAssign<u64> for BigInt`: an arithmetic shift, rounding
/// toward negative infinity.
#[verifier::external_body]
pub(crate) fn big_shr(b: &mut BigInt, k: u64)
    ensures
        int_value(*final(b)) == int_value(*old(b)) / (pow2(k as nat) as int),
{
    *b >>= k;
}

} // verus!
