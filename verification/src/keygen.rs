//! Key-pair generation: sampling two distinct random primes of half
//! the requested bit length, and deriving the public modulus and
//! generator together with the private decryption exponents.

use vstd::prelude::*;
use vstd::arithmetic::power2::pow2;
use num_bigint::BigUint;
use crate::arith::{
    gcd_nat, lcm_nat, bit_len, dec_rep, lemma_modular_inverse_implies_coprime,
    lemma_bit_len_lower, lemma_bit_len_upper,
};
use crate::bignum::{
    uint_value, big_from_u64, big_add, big_sub, big_mul, big_eq, big_shl, big_lcm, big_modinv,
    big_sample_below, big_to_decimal,
};
use crate::primality::{is_probable_prime, listed_prime, has_listed_factor};

verus! {

/// Miller-Rabin round count used when nothing else is configured;
/// bounds the false-positive probability by `2^-80`.
pub const DEFAULT_CONFIDENCE_ROUNDS: u64 = 40;

/// The production floor on the modulus bit length.
pub const DEFAULT_MIN_BIT_LENGTH: u64 = 2048;

/// The floor below which no configuration is accepted: above it two
/// distinct odd primes of half the length exist, so a request is not
/// doomed from the start.
pub const ABSOLUTE_MIN_BIT_LENGTH: u64 = 6;

/// The retry ceiling of the sampling loop for one prime. Prime
/// density makes reaching it overwhelmingly unlikely; hitting it
/// signals an entropy-source or configuration defect.
pub const MAX_PRIME_ATTEMPTS: u64 = 20000;

/// Why a generation request failed.
#[derive(Clone, Copy, Debug, PartialEq, Eq, Structural)]
pub enum KeyGenError {
    /// The request was malformed or insecure: an odd or too small
    /// bit length. Never retried internally.
    InvalidParameter,
    /// The sampling loop exceeded its retry ceiling. The correct
    /// response is to retry the whole call with fresh entropy.
    GenerationExhausted,
    /// The modular inverse of lambda was absent: an internal
    /// invariant violation, surfaced rather than swallowed.
    KeyDerivationError,
}

/// The recognized configuration surface of the generator.
#[derive(Clone, Copy, Debug)]
pub struct GenConfig {
    /// The requested modulus bit length (the security parameter).
    pub bit_length: u64,
    /// The Miller-Rabin round count.
    pub confidence_rounds: u64,
    /// The enforced floor on the bit length.
    pub min_bit_length: u64,
    /// Permits bit lengths below the floor, for non-production
    /// fixtures only.
    pub allow_test_mode: bool,
}

impl GenConfig {
    /// The production configuration for a requested modulus bit
    /// length: default confidence, default floor, no test mode.
    pub fn production(bit_length: u64) -> (r: GenConfig)
        ensures
            r.bit_length == bit_length,
            r.confidence_rounds == DEFAULT_CONFIDENCE_ROUNDS,
            r.min_bit_length == DEFAULT_MIN_BIT_LENGTH,
            !r.allow_test_mode,
    {
        GenConfig {
            bit_length,
            confidence_rounds: DEFAULT_CONFIDENCE_ROUNDS,
            min_bit_length: DEFAULT_MIN_BIT_LENGTH,
            allow_test_mode: false,
        }
    }
}

/// A valid security parameter: even, at least the absolute floor,
/// and at least the configured floor unless test mode is allowed.
pub open spec fn valid_security_parameter(cfg: GenConfig) -> bool {
    &&& cfg.bit_length % 2 == 0
    &&& cfg.bit_length >= ABSOLUTE_MIN_BIT_LENGTH
    &&& (cfg.allow_test_mode || cfg.bit_length >= cfg.min_bit_length)
}

/// The public half of a key pair: the modulus and the generator.
pub struct PublicKey {
    /// The modulus, the product of the two secret primes.
    pub n: BigUint,
    /// The generator, fixed to `n + 1`.
    pub g: BigUint,
}

/// The private half of a key pair: the two prime factors and the
/// decryption exponents derived from them.
pub struct PrivateKey {
    /// The first prime factor of the modulus.
    pub p: BigUint,
    /// The second prime factor, distinct from the first.
    pub q: BigUint,
    /// `lcm(p - 1, q - 1)`.
    pub lambda: BigUint,
    /// The inverse of lambda modulo the modulus.
    pub mu: BigUint,
}

/// The immutable pair of public and private key, the sole output of
/// a generation call.
pub struct KeyPair {
    pub public: PublicKey,
    pub private: PrivateKey,
}

/// Everything the generator guarantees of a key pair produced for
/// the security parameter `sp`: the modulus is the product of the
/// two distinct odd primes and its bit length is within one of `sp`;
/// both primes survived trial division by the fixed small-prime set;
/// the generator is the modulus plus one; lambda is
/// `lcm(p - 1, q - 1)`, coprime to the modulus, and mu is its
/// modular inverse.
pub open spec fn keypair_consistent(kp: KeyPair, sp: nat) -> bool {
    let p = uint_value(kp.private.p);
    let q = uint_value(kp.private.q);
    let n = uint_value(kp.public.n);
    let lambda = uint_value(kp.private.lambda);
    &&& n == p * q
    &&& uint_value(kp.public.g) == n + 1
    &&& p != q
    &&& p % 2 == 1
    &&& q % 2 == 1
    &&& listed_prime(p) || !has_listed_factor(p)
    &&& listed_prime(q) || !has_listed_factor(q)
    &&& sp >= 2 && pow2((sp - 2) as nat) <= n < pow2(sp)
    &&& sp - 1 <= bit_len(n) <= sp
    &&& lambda == lcm_nat((p - 1) as nat, (q - 1) as nat)
    &&& uint_value(kp.private.mu) < n
    &&& (lambda * uint_value(kp.private.mu)) % n == 1
    &&& gcd_nat(lambda, n) == 1
}

/// Draws a uniformly random odd integer of exactly `bits` bits: the
/// top bit is forced set to guarantee the bit length, the low bit to
/// guarantee oddness, and the bits between are uniform.
fn sample_candidate(bits: u64) -> (r: BigUint)
    requires
        bits >= 2,
    ensures
        pow2((bits - 1) as nat) <= uint_value(r) < pow2(bits as nat),
        uint_value(r) % 2 == 1,
{
    let one = big_from_u64(1);
    let top = big_shl(&one, bits - 1);
    let half = big_shl(&one, bits - 2);
    proof {
        vstd::arithmetic::power2::lemma_pow2_pos((bits - 2) as nat);
    }
    let m = big_sample_below(&half);
    let doubled = big_shl(&m, 1);
    let odd_part = big_add(&doubled, &one);
    let c = big_add(&top, &odd_part);
    proof {
        vstd::arithmetic::power2::lemma2_to64();
        vstd::arithmetic::power2::lemma_pow2_unfold((bits - 1) as nat);
        vstd::arithmetic::power2::lemma_pow2_unfold(bits as nat);
        vstd::arithmetic::div_mod::lemma_fundamental_div_mod_converse_mod(
            uint_value(c) as int,
            2,
            (pow2((bits - 2) as nat) + uint_value(m)) as int,
            1,
        );
    }
    c
}

/// Samples random odd candidates of exactly `bits` bits and returns
/// the first that passes the primality test at the given confidence;
/// fails with `GenerationExhausted` once the retry ceiling is hit.
pub fn generate_prime(bits: u64, confidence: u64, max_attempts: u64) -> (r: Result<
    BigUint,
    KeyGenError,
>)
    requires
        bits >= 3,
    ensures
        r matches Ok(p) ==> pow2((bits - 1) as nat) <= uint_value(p) < pow2(bits as nat)
            && uint_value(p) % 2 == 1 && (listed_prime(uint_value(p)) || !has_listed_factor(
            uint_value(p),
        )),
        r matches Err(e) ==> e == KeyGenError::GenerationExhausted,
{
    let mut attempt: u64 = 0;
    while attempt < max_attempts
        invariant
            bits >= 3,
        decreases max_attempts - attempt,
    {
        let c = sample_candidate(bits);
        if is_probable_prime(&c, confidence) {
            return Ok(c);
        }
        attempt = attempt + 1;
    }
    Err(KeyGenError::GenerationExhausted)
}

/// Like `generate_prime`, and additionally rejects and resamples any
/// candidate equal to `avoid`, so that the two primes of a key pair
/// are distinct.
fn generate_distinct_prime(bits: u64, confidence: u64, max_attempts: u64, avoid: &BigUint) -> (r:
    Result<BigUint, KeyGenError>)
    requires
        bits >= 3,
    ensures
        r matches Ok(p) ==> pow2((bits - 1) as nat) <= uint_value(p) < pow2(bits as nat)
            && uint_value(p) % 2 == 1 && uint_value(p) != uint_value(*avoid) && (listed_prime(
            uint_value(p),
        ) || !has_listed_factor(uint_value(p))),
        r matches Err(e) ==> e == KeyGenError::GenerationExhausted,
{
    let mut attempt: u64 = 0;
    while attempt < max_attempts
        invariant
            bits >= 3,
        decreases max_attempts - attempt,
    {
        let c = sample_candidate(bits);
        if !big_eq(&c, avoid) && is_probable_prime(&c, confidence) {
            return Ok(c);
        }
        attempt = attempt + 1;
    }
    Err(KeyGenError::GenerationExhausted)
}

/// Generates a complete key pair for the configured security
/// parameter, or fails: with `InvalidParameter` exactly when the
/// parameter is odd or below the floor, with `GenerationExhausted`
/// when a sampling loop hits its ceiling, with `KeyDerivationError`
/// when the modular inverse is absent. Every key pair returned is
/// consistent: `n == p * q`, `g == n + 1`, `p != q`, the bit length
/// of `n` is within one of the request, lambda is `lcm(p-1, q-1)`
/// and coprime to `n`, and `(lambda * mu) % n == 1`.
pub fn generate_keypair(cfg: &GenConfig) -> (r: Result<KeyPair, KeyGenError>)
    ensures
        !valid_security_parameter(*cfg) ==> (r matches Err(e) && e
            == KeyGenError::InvalidParameter),
        valid_security_parameter(*cfg) ==> (r matches Err(e) ==> e
            != KeyGenError::InvalidParameter),
        r matches Ok(kp) ==> keypair_consistent(kp, cfg.bit_length as nat),
{
    let valid = cfg.bit_length % 2 == 0 && cfg.bit_length >= ABSOLUTE_MIN_BIT_LENGTH && (
    cfg.allow_test_mode || cfg.bit_length >= cfg.min_bit_length);
    if !valid {
        return Err(KeyGenError::InvalidParameter);
    }
    let half_bits = cfg.bit_length / 2;
    proof {
        vstd::arithmetic::div_mod::lemma_fundamental_div_mod(cfg.bit_length as int, 2);
    }
    let p = match generate_prime(half_bits, cfg.confidence_rounds, MAX_PRIME_ATTEMPTS) {
        Ok(v) => v,
        Err(e) => {
            return Err(e);
        },
    };
    let q = match generate_distinct_prime(
        half_bits,
        cfg.confidence_rounds,
        MAX_PRIME_ATTEMPTS,
        &p,
    ) {
        Ok(v) => v,
        Err(e) => {
            return Err(e);
        },
    };
    let n = big_mul(&p, &q);
    let one = big_from_u64(1);
    let g = big_add(&n, &one);
    let p_minus_1 = big_sub(&p, &one);
    let q_minus_1 = big_sub(&q, &one);
    let lambda = big_lcm(&p_minus_1, &q_minus_1);
    proof {
        vstd::arithmetic::power2::lemma2_to64();
        crate::arith::lemma_pow2_le(1, (half_bits - 1) as nat);
        assert(uint_value(n) >= 4) by (nonlinear_arith)
            requires
                uint_value(n) == uint_value(p) * uint_value(q),
                uint_value(p) >= 2,
                uint_value(q) >= 2,
        ;
    }
    let mu_opt = big_modinv(&lambda, &n);
    let mu = match mu_opt {
        Some(v) => v,
        None => {
            return Err(KeyGenError::KeyDerivationError);
        },
    };
    proof {
        let sp = cfg.bit_length as nat;
        let pv = uint_value(p);
        let qv = uint_value(q);
        let nv = uint_value(n);
        lemma_modular_inverse_implies_coprime(uint_value(lambda), uint_value(mu), nv);
        vstd::arithmetic::power2::lemma_pow2_adds(
            (half_bits - 1) as nat,
            (half_bits - 1) as nat,
        );
        vstd::arithmetic::power2::lemma_pow2_adds(half_bits as nat, half_bits as nat);
        assert(nv >= pow2((sp - 2) as nat)) by (nonlinear_arith)
            requires
                nv == pv * qv,
                pv >= pow2((half_bits - 1) as nat),
                qv >= pow2((half_bits - 1) as nat),
                pow2((sp - 2) as nat) == pow2((half_bits - 1) as nat) * pow2(
                    (half_bits - 1) as nat,
                ),
        ;
        assert(nv < pow2(sp)) by (nonlinear_arith)
            requires
                nv == pv * qv,
                pv < pow2(half_bits as nat),
                qv < pow2(half_bits as nat),
                pow2(sp) == pow2(half_bits as nat) * pow2(half_bits as nat),
        ;
        lemma_bit_len_lower((sp - 2) as nat, nv);
        lemma_bit_len_upper(sp, nv);
    }
    Ok(
        KeyPair {
            public: PublicKey { n, g },
            private: PrivateKey { p, q, lambda, mu },
        },
    )
}

impl KeyPair {
    /// The modulus, generator, and the two primes as base-10 strings,
    /// the fixed serialization of big-integer fields at a language
    /// boundary.
    pub fn to_decimal_strings(&self) -> (r: (String, String, String, String))
        ensures
            r.0@ == dec_rep(uint_value(self.public.n)),
            r.1@ == dec_rep(uint_value(self.public.g)),
            r.2@ == dec_rep(uint_value(self.private.p)),
            r.3@ == dec_rep(uint_value(self.private.q)),
    {
        (
            big_to_decimal(&self.public.n),
            big_to_decimal(&self.public.g),
            big_to_decimal(&self.private.p),
            big_to_decimal(&self.private.q),
        )
    }
}

} // verus!
