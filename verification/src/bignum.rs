//! The arbitrary-precision unsigned integers the key material is made
//! of. The `BigUint` type of num-bigint carries the values; each
//! operation the key-generation logic needs is declared here with a
//! contract over `uint_value`, the natural number a `BigUint` holds.

use vstd::prelude::*;
use vstd::arithmetic::power::pow;
use vstd::arithmetic::power2::pow2;
use num_bigint::BigUint;
use num_bigint::RandBigInt;
use num_integer::Integer;
use crate::arith::{lcm_nat, dec_rep};

verus! {

#[verifier::external_type_specification]
#[verifier::external_body]
pub struct ExBigUint(BigUint);

/// The natural number a `BigUint` holds.
pub uninterp spec fn uint_value(b: BigUint) -> nat;

/// Relies on `BigUint::from(u64)`: exact value conversion.
#[verifier::external_body]
pub(crate) fn big_from_u64(x: u64) -> (r: BigUint)
    ensures
        uint_value(r) == x as nat,
{
    BigUint::from(x)
}

/// Relies on `Add` for `&BigUint`: exact sum.
#[verifier::external_body]
pub(crate) fn big_add(a: &BigUint, b: &BigUint) -> (r: BigUint)
    ensures
        uint_value(r) == uint_value(*a) + uint_value(*b),
{
    a + b
}

/// Relies on `Sub` for `&BigUint`: exact difference. The impl panics
/// on underflow, so the minuend must be at least the subtrahend.
#[verifier::external_body]
pub(crate) fn big_sub(a: &BigUint, b: &BigUint) -> (r: BigUint)
    requires
        uint_value(*b) <= uint_value(*a),
    ensures
        uint_value(r) == uint_value(*a) - uint_value(*b),
{
    a - b
}

/// Relies on `Mul` for `&BigUint`: exact product.
#[verifier::external_body]
pub(crate) fn big_mul(a: &BigUint, b: &BigUint) -> (r: BigUint)
    ensures
        uint_value(r) == uint_value(*a) * uint_value(*b),
{
    a * b
}

/// Relies on `Rem` for `&BigUint`: Euclidean remainder. The impl
/// panics on a zero divisor.
#[verifier::external_body]
pub(crate) fn big_rem(a: &BigUint, b: &BigUint) -> (r: BigUint)
    requires
        uint_value(*b) > 0,
    ensures
        uint_value(r) == uint_value(*a) % uint_value(*b),
{
    a % b
}

/// Relies on `BigUint::modpow`: `(self ^ exponent) % modulus`, which
/// panics when the modulus is zero.
#[verifier::external_body]
pub(crate) fn big_modpow(base: &BigUint, exponent: &BigUint, modulus: &BigUint) -> (r: BigUint)
    requires
        uint_value(*modulus) > 0,
    ensures
        uint_value(r) as int == pow(uint_value(*base) as int, uint_value(*exponent)) % (
        uint_value(*modulus) as int),
{
    base.modpow(exponent, modulus)
}

/// Relies on `PartialEq` for `BigUint`: equality of the held values.
#[verifier::external_body]
pub(crate) fn big_eq(a: &BigUint, b: &BigUint) -> (r: bool)
    ensures
        r == (uint_value(*a) == uint_value(*b)),
{
    a == b
}

/// Relies on `Ord` for `BigUint`: order of the held values.
#[verifier::external_body]
pub(crate) fn big_lt(a: &BigUint, b: &BigUint) -> (r: bool)
    ensures
        r == (uint_value(*a) < uint_value(*b)),
{
    a < b
}

/// Relies on `num_integer::Integer::is_even` for `BigUint`.
#[verifier::external_body]
pub(crate) fn big_is_even(a: &BigUint) -> (r: bool)
    ensures
        r == (uint_value(*a) % 2 == 0),
{
    a.is_even()
}

/// Relies on `Shl<u64>` for `&BigUint`: multiplication by `pow2(s)`.
#[verifier::external_body]
pub(crate) fn big_shl(a: &BigUint, s: u64) -> (r: BigUint)
    ensures
        uint_value(r) == uint_value(*a) * pow2(s as nat),
{
    a << s
}

/// Relies on `Shr<u64>` for `&BigUint`: floor division by `pow2(s)`.
#[verifier::external_body]
pub(crate) fn big_shr(a: &BigUint, s: u64) -> (r: BigUint)
    ensures
        uint_value(r) == uint_value(*a) / pow2(s as nat),
{
    a >> s
}

/// Relies on `BigUint::bits`: the fewest bits necessary to express the
/// value, zero for zero.
#[verifier::external_body]
pub(crate) fn big_bits(a: &BigUint) -> (r: u64)
    ensures
        uint_value(*a) == 0 ==> r == 0,
        uint_value(*a) > 0 ==> r >= 1 && pow2((r - 1) as nat) <= uint_value(*a) < pow2(r as nat),
{
    a.bits()
}

/// Relies on `num_integer::Integer::lcm` for `BigUint`: the lowest
/// common multiple of the two values.
#[verifier::external_body]
pub(crate) fn big_lcm(a: &BigUint, b: &BigUint) -> (r: BigUint)
    ensures
        uint_value(r) == lcm_nat(uint_value(*a), uint_value(*b)),
{
    a.lcm(b)
}

/// Relies on `BigUint::modinv`: the inverse in `[0, modulus)` when the
/// value and the modulus are coprime, `None` otherwise; the impl
/// panics on a zero modulus. A modulus above one keeps the residue of
/// one meaningful.
#[verifier::external_body]
pub(crate) fn big_modinv(a: &BigUint, modulus: &BigUint) -> (r: Option<BigUint>)
    requires
        uint_value(*modulus) > 1,
    ensures
        r matches Some(x) ==> uint_value(x) < uint_value(*modulus) && (uint_value(*a)
            * uint_value(x)) % uint_value(*modulus) == 1,
{
    a.modinv(modulus)
}

/// Relies on `rand::thread_rng`, a fresh handle on the process-wide
/// cryptographically secure generator, and on
/// `num_bigint::RandBigInt::gen_biguint_below`, which yields a value
/// uniformly below the bound and panics on a zero bound. Nothing
/// beyond the range is promised: every outcome is random.
#[verifier::external_body]
pub(crate) fn big_sample_below(bound: &BigUint) -> (r: BigUint)
    requires
        uint_value(*bound) > 0,
    ensures
        uint_value(r) < uint_value(*bound),
{
    rand::thread_rng().gen_biguint_below(bound)
}

/// Relies on `Display` for `BigUint`: the base-10 digits of the value,
/// with no sign, padding, or separators.
#[verifier::external_body]
pub(crate) fn big_to_decimal(a: &BigUint) -> (r: String)
    ensures
        r@ == dec_rep(uint_value(*a)),
{
    format!("{}", a)
}

} // verus!
