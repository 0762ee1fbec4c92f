//! The number-theoretic vocabulary the contracts are stated over:
//! divisibility, greatest common divisor, least common multiple,
//! bit length, and decimal representation of natural numbers.

use vstd::prelude::*;
use vstd::arithmetic::div_mod::lemma_fundamental_div_mod;
use vstd::arithmetic::power2::pow2;

verus! {

/// `d` divides `x` over the integers.
pub open spec fn divides(d: int, x: int) -> bool {
    exists|k: int| x == #[trigger] (d * k)
}

/// Greatest common divisor, by Euclid's recurrence.
pub open spec fn gcd_nat(a: nat, b: nat) -> nat
    decreases b,
{
    if b == 0 {
        a
    } else {
        gcd_nat(b, a % b)
    }
}

/// Least common multiple; zero when either argument is zero.
pub open spec fn lcm_nat(a: nat, b: nat) -> nat {
    if a == 0 || b == 0 {
        0
    } else {
        (a * b) / gcd_nat(a, b)
    }
}

/// The fewest bits needed to write `x` in binary; zero for zero.
pub open spec fn bit_len(x: nat) -> nat
    decreases x,
{
    if x == 0 {
        0
    } else {
        1 + bit_len(x / 2)
    }
}

/// The decimal digit character for a value below ten.
pub open spec fn dec_digit(d: nat) -> char {
    ((d + 48) as u8) as char
}

/// The base-10 representation of `x`, most significant digit first.
pub open spec fn dec_rep(x: nat) -> Seq<char>
    decreases x,
{
    if x < 10 {
        seq![dec_digit(x)]
    } else {
        dec_rep(x / 10) + seq![dec_digit(x % 10)]
    }
}

/// The greatest common divisor is positive unless both arguments are zero.
pub proof fn lemma_gcd_pos(a: nat, b: nat)
    requires
        a > 0 || b > 0,
    ensures
        gcd_nat(a, b) > 0,
    decreases b,
{
    if b != 0 {
        lemma_gcd_pos(b, a % b);
    }
}

/// The greatest common divisor divides both of its arguments.
pub proof fn lemma_gcd_divides(a: nat, b: nat)
    ensures
        divides(gcd_nat(a, b) as int, a as int),
        divides(gcd_nat(a, b) as int, b as int),
    decreases b,
{
    let g = gcd_nat(a, b) as int;
    if b == 0 {
        assert(a as int == g * 1);
        assert(0int == g * 0);
    } else {
        lemma_gcd_divides(b, a % b);
        let k1 = choose|k: int| b as int == #[trigger] (g * k);
        let k2 = choose|k: int| (a % b) as int == #[trigger] (g * k);
        lemma_fundamental_div_mod(a as int, b as int);
        let q = a as int / b as int;
        assert(a as int == g * (k1 * q + k2)) by (nonlinear_arith)
            requires
                b as int == g * k1,
                (a % b) as int == g * k2,
                a as int == b as int * q + (a % b) as int,
        ;
    }
}

/// A positive number with an integer multiple equal to one is one.
proof fn lemma_unit_factor(g: nat, t: int)
    requires
        g as int * t == 1,
    ensures
        g == 1,
{
    if g == 0 {
        assert(g as int * t == 0) by (nonlinear_arith)
            requires g == 0;
    } else if g >= 2 {
        if t >= 1 {
            assert(g as int * t >= 2) by (nonlinear_arith)
                requires g >= 2, t >= 1;
        } else {
            assert(g as int * t <= 0) by (nonlinear_arith)
                requires g >= 2, t <= 0;
        }
    }
}

/// A value with a multiplicative inverse modulo `n` is coprime to `n`:
/// whenever `(a * m) % n == 1`, the greatest common divisor of `a`
/// and `n` is one.
pub proof fn lemma_modular_inverse_implies_coprime(a: nat, m: nat, n: nat)
    requires
        n > 1,
        (a * m) % n == 1,
    ensures
        gcd_nat(a, n) == 1,
{
    let g = gcd_nat(a, n);
    lemma_gcd_pos(a, n);
    lemma_gcd_divides(a, n);
    let ka = choose|k: int| a as int == #[trigger] (g as int * k);
    let kn = choose|k: int| n as int == #[trigger] (g as int * k);
    lemma_fundamental_div_mod((a * m) as int, n as int);
    let q = (a * m) as int / (n as int);
    assert(g as int * (ka * m - kn * q) == 1) by (nonlinear_arith)
        requires
            a as int == g as int * ka,
            n as int == g as int * kn,
            (a * m) as int == n as int * q + 1,
    ;
    lemma_unit_factor(g, ka * m - kn * q);
}

/// Powers of two are monotone in the exponent.
pub proof fn lemma_pow2_le(e1: nat, e2: nat)
    requires
        e1 <= e2,
    ensures
        pow2(e1) <= pow2(e2),
{
    if e1 < e2 {
        vstd::arithmetic::power2::lemma_pow2_strictly_increases(e1, e2);
    }
}

/// A number at least `pow2(e)` needs more than `e` bits.
pub proof fn lemma_bit_len_lower(e: nat, x: nat)
    requires
        pow2(e) <= x,
    ensures
        bit_len(x) >= e + 1,
    decreases e,
{
    vstd::arithmetic::power2::lemma_pow2_pos(e);
    if e > 0 {
        vstd::arithmetic::power2::lemma_pow2_unfold(e);
        assert(x / 2 >= pow2((e - 1) as nat)) by (nonlinear_arith)
            requires
                x >= 2 * pow2((e - 1) as nat),
        ;
        lemma_bit_len_lower((e - 1) as nat, x / 2);
    }
}

/// A number below `pow2(e)` fits in `e` bits.
pub proof fn lemma_bit_len_upper(e: nat, x: nat)
    requires
        x < pow2(e),
    ensures
        bit_len(x) <= e,
    decreases e,
{
    vstd::arithmetic::power2::lemma_pow2_pos(e);
    if e == 0 {
        assert(pow2(0) == 1) by {
            vstd::arithmetic::power2::lemma2_to64();
        };
    } else if x > 0 {
        vstd::arithmetic::power2::lemma_pow2_unfold(e);
        assert(x / 2 < pow2((e - 1) as nat)) by (nonlinear_arith)
            requires
                x < 2 * pow2((e - 1) as nat),
        ;
        lemma_bit_len_upper((e - 1) as nat, x / 2);
    }
}

} // verus!
