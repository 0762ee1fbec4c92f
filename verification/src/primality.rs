//! The probabilistic primality tester: trial division by a fixed set
//! of small primes, then Miller-Rabin rounds with uniformly random
//! bases. Each round is deterministic in its base and verified
//! exactly against `mr_passes`; a composite survives a round with
//! probability at most one quarter, so `confidence` rounds leave a
//! false-positive probability of at most `4^-confidence`.

use vstd::prelude::*;
use vstd::arithmetic::power::pow;
use vstd::arithmetic::power2::pow2;
use num_bigint::BigUint;
use crate::arith::lemma_pow2_le;
use crate::bignum::{
    uint_value, big_from_u64, big_add, big_sub, big_rem, big_modpow, big_eq, big_lt, big_is_even,
    big_shr, big_bits, big_sample_below,
};

verus! {

/// Membership in the fixed set of trial-division primes.
pub open spec fn listed_prime(x: nat) -> bool {
    ||| x == 2
    ||| x == 3
    ||| x == 5
    ||| x == 7
    ||| x == 11
    ||| x == 13
    ||| x == 17
    ||| x == 19
    ||| x == 23
    ||| x == 29
    ||| x == 31
    ||| x == 37
}

/// Divisibility by at least one of the trial-division primes.
pub open spec fn has_listed_factor(x: nat) -> bool {
    ||| x % 2 == 0
    ||| x % 3 == 0
    ||| x % 5 == 0
    ||| x % 7 == 0
    ||| x % 11 == 0
    ||| x % 13 == 0
    ||| x % 17 == 0
    ||| x % 19 == 0
    ||| x % 23 == 0
    ||| x % 29 == 0
    ||| x % 31 == 0
    ||| x % 37 == 0
}

/// Base `a` fails to witness compositeness of `n` in a Miller-Rabin
/// round, for the decomposition `n - 1 == pow2(s) * d` with `d` odd:
/// either `a^d == 1 (mod n)`, or `a^(2^i * d) == n - 1 (mod n)` for
/// some `i` below `s`.
pub open spec fn mr_passes(n: nat, s: nat, d: nat, a: nat) -> bool {
    ||| pow(a as int, d) % (n as int) == 1
    ||| exists|i: nat|
        i < s && #[trigger] pow(a as int, pow2(i) * d) % (n as int) == n - 1
}

/// Whether the small prime `m` divides `c`.
fn divisible_by(c: &BigUint, m: u64) -> (r: bool)
    requires
        m > 0,
    ensures
        r == (uint_value(*c) % (m as nat) == 0),
{
    let mv = big_from_u64(m);
    let rem = big_rem(c, &mv);
    let zero = big_from_u64(0);
    big_eq(&rem, &zero)
}

/// Whether `c` holds exactly the value `m`.
fn equals_u64(c: &BigUint, m: u64) -> (r: bool)
    ensures
        r == (uint_value(*c) == m as nat),
{
    let mv = big_from_u64(m);
    big_eq(c, &mv)
}

/// Splits `n - 1` into `pow2(s) * d` with `d` odd.
fn decompose(n: &BigUint) -> (r: (BigUint, u64))
    requires
        uint_value(*n) >= 3,
        uint_value(*n) % 2 == 1,
    ensures
        uint_value(*n) - 1 == pow2(r.1 as nat) * uint_value(r.0),
        uint_value(r.0) % 2 == 1,
        r.1 >= 1,
{
    let ghost nv = uint_value(*n);
    let one = big_from_u64(1);
    let mut m = big_sub(n, &one);
    let nbits = big_bits(&m);
    let mut s: u64 = 0;
    let mut even = big_is_even(&m);
    proof {
        vstd::arithmetic::power2::lemma2_to64();
        assert(nv - 1 == pow2(0) * uint_value(m));
    }
    while even
        invariant
            nv == uint_value(*n),
            nv >= 3,
            nv - 1 == pow2(s as nat) * uint_value(m),
            even == (uint_value(m) % 2 == 0),
            uint_value(m) >= 1,
            s == 0 ==> uint_value(m) == nv - 1,
            nv - 1 < pow2(nbits as nat),
            pow2(s as nat) <= nv - 1,
        decreases uint_value(m),
    {
        proof {
            if s >= nbits {
                lemma_pow2_le(nbits as nat, s as nat);
            }
            assert(s < nbits);
        }
        let ghost mv = uint_value(m);
        let half = big_shr(&m, 1);
        m = half;
        s = s + 1;
        even = big_is_even(&m);
        proof {
            vstd::arithmetic::power2::lemma2_to64();
            vstd::arithmetic::div_mod::lemma_fundamental_div_mod(mv as int, 2);
            assert(mv == 2 * uint_value(m));
            vstd::arithmetic::power2::lemma_pow2_unfold(s as nat);
            assert(pow2(s as nat) * uint_value(m) == pow2((s - 1) as nat) * mv) by (nonlinear_arith)
                requires
                    pow2(s as nat) == 2 * pow2((s - 1) as nat),
                    mv == 2 * uint_value(m),
            ;
            vstd::arithmetic::power2::lemma_pow2_pos(s as nat);
            assert(pow2(s as nat) <= pow2(s as nat) * uint_value(m)) by (nonlinear_arith)
                requires
                    uint_value(m) >= 1,
                    pow2(s as nat) >= 1,
            ;
        }
    }
    proof {
        if s == 0 {
            vstd::arithmetic::div_mod::lemma_fundamental_div_mod(nv as int, 2);
            vstd::arithmetic::div_mod::lemma_fundamental_div_mod_converse_mod(
                (nv - 1) as int,
                2,
                nv as int / 2,
                0,
            );
        }
    }
    (m, s)
}

/// Draws a uniformly random Miller-Rabin base in `[2, n - 2]`.
fn sample_base(n: &BigUint) -> (r: BigUint)
    requires
        uint_value(*n) >= 5,
    ensures
        2 <= uint_value(r) <= uint_value(*n) - 2,
{
    let three = big_from_u64(3);
    let bound = big_sub(n, &three);
    let m = big_sample_below(&bound);
    let two = big_from_u64(2);
    big_add(&m, &two)
}

/// One Miller-Rabin round for `n` with the given base, `n - 1` split
/// as `pow2(s) * d` with `d` odd. Deterministic in the base, and
/// exact: the round passes precisely when `mr_passes` says so.
pub fn mr_round(n: &BigUint, d: &BigUint, s: u64, base: &BigUint) -> (r: bool)
    requires
        uint_value(*n) >= 3,
        uint_value(*n) - 1 == pow2(s as nat) * uint_value(*d),
        s >= 1,
    ensures
        r == mr_passes(uint_value(*n), s as nat, uint_value(*d), uint_value(*base)),
{
    let ghost nv = uint_value(*n);
    let ghost dv = uint_value(*d);
    let ghost av = uint_value(*base) as int;
    let mut x = big_modpow(base, d, n);
    let one = big_from_u64(1);
    let nm1 = big_sub(n, &one);
    proof {
        vstd::arithmetic::power2::lemma2_to64();
        assert(pow2(0) * dv == dv);
    }
    if big_eq(&x, &one) {
        return true;
    }
    if big_eq(&x, &nm1) {
        proof {
            assert(pow(av, pow2(0) * dv) % (nv as int) == nv - 1);
        }
        return true;
    }
    let two = big_from_u64(2);
    let mut i: u64 = 1;
    while i < s
        invariant
            nv == uint_value(*n),
            dv == uint_value(*d),
            av == uint_value(*base) as int,
            nv >= 3,
            uint_value(two) == 2,
            uint_value(nm1) == nv - 1,
            1 <= i <= s,
            uint_value(x) as int == pow(av, pow2((i - 1) as nat) * dv) % (nv as int),
            pow(av, dv) % (nv as int) != 1,
            forall|j: nat|
                j < i ==> #[trigger] pow(av, pow2(j) * dv) % (nv as int) != nv - 1,
        decreases s - i,
    {
        let ghost xv = uint_value(x) as int;
        let xn = big_modpow(&x, &two, n);
        x = xn;
        proof {
            let e1 = (pow2((i - 1) as nat) * dv) as nat;
            vstd::arithmetic::power::lemma_pow_mod_noop(pow(av, e1), 2, nv as int);
            vstd::arithmetic::power::lemma_pow_multiplies(av, e1, 2);
            vstd::arithmetic::power2::lemma_pow2_unfold(i as nat);
            assert(e1 * 2 == pow2(i as nat) * dv) by (nonlinear_arith)
                requires
                    e1 == pow2((i - 1) as nat) * dv,
                    pow2(i as nat) == 2 * pow2((i - 1) as nat),
            ;
            assert(uint_value(x) as int == pow(av, pow2(i as nat) * dv) % (nv as int));
        }
        if big_eq(&x, &nm1) {
            proof {
                assert(pow(av, pow2(i as nat) * dv) % (nv as int) == nv - 1);
            }
            return true;
        }
        i = i + 1;
    }
    false
}

/// Decides, with bounded false-positive probability, whether the
/// candidate is prime. A value below two is rejected; a value equal
/// to one of the trial-division primes is accepted; a value divisible
/// by one of them (and not equal to it) is rejected; any other value
/// runs `confidence` Miller-Rabin rounds with independent uniformly
/// random bases and is accepted only if every round passes, which
/// bounds the probability of accepting a composite by
/// `4^-confidence`. Always terminates with a boolean; never fails.
pub fn is_probable_prime(candidate: &BigUint, confidence: u64) -> (r: bool)
    ensures
        uint_value(*candidate) < 2 ==> !r,
        listed_prime(uint_value(*candidate)) ==> r,
        !listed_prime(uint_value(*candidate)) && has_listed_factor(uint_value(*candidate))
            ==> !r,
        r ==> uint_value(*candidate) >= 2 && (listed_prime(uint_value(*candidate))
            || !has_listed_factor(uint_value(*candidate))),
{
    let two = big_from_u64(2);
    if big_lt(candidate, &two) {
        return false;
    }
    if equals_u64(candidate, 2) {
        return true;
    }
    if divisible_by(candidate, 2) {
        return false;
    }
    if equals_u64(candidate, 3) {
        return true;
    }
    if divisible_by(candidate, 3) {
        return false;
    }
    if equals_u64(candidate, 5) {
        return true;
    }
    if divisible_by(candidate, 5) {
        return false;
    }
    if equals_u64(candidate, 7) {
        return true;
    }
    if divisible_by(candidate, 7) {
        return false;
    }
    if equals_u64(candidate, 11) {
        return true;
    }
    if divisible_by(candidate, 11) {
        return false;
    }
    if equals_u64(candidate, 13) {
        return true;
    }
    if divisible_by(candidate, 13) {
        return false;
    }
    if equals_u64(candidate, 17) {
        return true;
    }
    if divisible_by(candidate, 17) {
        return false;
    }
    if equals_u64(candidate, 19) {
        return true;
    }
    if divisible_by(candidate, 19) {
        return false;
    }
    if equals_u64(candidate, 23) {
        return true;
    }
    if divisible_by(candidate, 23) {
        return false;
    }
    if equals_u64(candidate, 29) {
        return true;
    }
    if divisible_by(candidate, 29) {
        return false;
    }
    if equals_u64(candidate, 31) {
        return true;
    }
    if divisible_by(candidate, 31) {
        return false;
    }
    if equals_u64(candidate, 37) {
        return true;
    }
    if divisible_by(candidate, 37) {
        return false;
    }
    let (d, s) = decompose(candidate);
    let mut k: u64 = 0;
    while k < confidence
        invariant
            k <= confidence,
            uint_value(*candidate) >= 5,
            !listed_prime(uint_value(*candidate)),
            !has_listed_factor(uint_value(*candidate)),
            uint_value(*candidate) - 1 == pow2(s as nat) * uint_value(d),
            s >= 1,
        decreases confidence - k,
    {
        let base = sample_base(candidate);
        let pass = mr_round(candidate, &d, s, &base);
        if !pass {
            return false;
        }
        k = k + 1;
    }
    true
}

} // verus!
