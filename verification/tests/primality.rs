use num_bigint::BigUint;
use secure_voting_core::keygen::{generate_prime, KeyGenError};
use secure_voting_core::primality::{is_probable_prime, mr_round};

fn probably_prime(value: u64) -> bool {
    is_probable_prime(&BigUint::from(value), 40)
}

#[test]
fn values_below_two_rejected() {
    assert!(!probably_prime(0));
    assert!(!probably_prime(1));
}

#[test]
fn small_primes_accepted() {
    assert!(probably_prime(2));
    assert!(probably_prime(3));
    assert!(probably_prime(5));
    assert!(probably_prime(37));
}

#[test]
fn small_composites_rejected() {
    assert!(!probably_prime(4));
    assert!(!probably_prime(6));
    assert!(!probably_prime(9));
    assert!(!probably_prime(15));
    assert!(!probably_prime(35));
}

#[test]
fn carmichael_number_rejected() {
    // 561 = 3 * 11 * 17 falls to trial division.
    assert!(!probably_prime(561));
}

#[test]
fn composites_beyond_trial_division_rejected() {
    // 221 = 13 * 17 and 3599 = 59 * 61: only Miller-Rabin catches 3599.
    assert!(!probably_prime(221));
    assert!(!probably_prime(3599));
}

#[test]
fn larger_primes_accepted() {
    assert!(probably_prime(41));
    assert!(probably_prime(97));
    assert!(probably_prime(7919));
}

#[test]
fn mersenne_prime_accepted() {
    // 2^127 - 1 is prime.
    let m127 = (BigUint::from(1u8) << 127u32) - 1u8;
    assert!(is_probable_prime(&m127, 40));
}

#[test]
fn mr_round_strong_liar_and_witness() {
    // 221 - 1 = 2^2 * 55: base 174 is a strong liar, base 137 a witness.
    let n = BigUint::from(221u64);
    let d = BigUint::from(55u64);
    assert!(mr_round(&n, &d, 2, &BigUint::from(174u64)));
    assert!(!mr_round(&n, &d, 2, &BigUint::from(137u64)));
}

#[test]
fn generated_prime_has_exact_bit_length_and_is_odd() {
    let p = generate_prime(16, 20, 10000).expect("a 16-bit prime exists");
    assert_eq!(p.bits(), 16);
    assert_eq!(&p % 2u32, BigUint::from(1u8));
    assert!(is_probable_prime(&p, 64));
}

#[test]
fn exhausted_retry_ceiling_reported() {
    let r = generate_prime(16, 20, 0);
    assert_eq!(r.unwrap_err(), KeyGenError::GenerationExhausted);
}
