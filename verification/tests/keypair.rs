use num_bigint::BigUint;
use num_integer::Integer;
use secure_voting_core::keygen::{generate_keypair, GenConfig, KeyGenError, KeyPair};

fn expect_invalid(r: Result<KeyPair, KeyGenError>) {
    match r {
        Err(e) => assert_eq!(e, KeyGenError::InvalidParameter),
        Ok(_) => panic!("expected the parameter to be rejected"),
    }
}

fn test_config(bit_length: u64, confidence_rounds: u64) -> GenConfig {
    GenConfig {
        bit_length,
        confidence_rounds,
        min_bit_length: 2048,
        allow_test_mode: true,
    }
}

fn generate(bit_length: u64, confidence_rounds: u64) -> KeyPair {
    generate_keypair(&test_config(bit_length, confidence_rounds))
        .expect("generation should succeed")
}

#[test]
fn odd_security_parameter_rejected() {
    expect_invalid(generate_keypair(&test_config(513, 40)));
}

#[test]
fn below_floor_without_test_mode_rejected() {
    let cfg = GenConfig {
        bit_length: 8,
        confidence_rounds: 40,
        min_bit_length: 2048,
        allow_test_mode: false,
    };
    expect_invalid(generate_keypair(&cfg));
}

#[test]
fn production_config_enforces_floor() {
    expect_invalid(generate_keypair(&GenConfig::production(512)));
}

#[test]
fn tiny_parameter_rejected_even_in_test_mode() {
    expect_invalid(generate_keypair(&test_config(4, 10)));
}

#[test]
fn modulus_is_product_of_distinct_primes() {
    let kp = generate(64, 40);
    let n = &kp.public.n;
    let p = &kp.private.p;
    let q = &kp.private.q;
    assert_eq!(*n, p * q);
    assert_eq!(kp.public.g, n + 1u32);
    assert_ne!(p, q);
}

#[test]
fn primes_pass_stronger_oracle() {
    let kp = generate(64, 40);
    assert!(secure_voting_core::primality::is_probable_prime(
        &kp.private.p,
        64
    ));
    assert!(secure_voting_core::primality::is_probable_prime(
        &kp.private.q,
        64
    ));
}

#[test]
fn lambda_coprime_and_mu_inverse() {
    let kp = generate(64, 40);
    let n = &kp.public.n;
    let lambda = &kp.private.lambda;
    let mu = &kp.private.mu;
    let one = BigUint::from(1u8);
    assert_eq!(lambda.gcd(n), one);
    assert_eq!((lambda * mu) % n, one);
    let p_minus_1 = &kp.private.p - 1u32;
    let q_minus_1 = &kp.private.q - 1u32;
    assert_eq!(*lambda, p_minus_1.lcm(&q_minus_1));
}

#[test]
fn modulus_bit_length_within_one_of_request() {
    for _ in 0..25 {
        let kp = generate(512, 8);
        let bits = kp.public.n.bits();
        assert!(511 <= bits && bits <= 513, "got {} bits", bits);
    }
}

#[test]
fn successive_generations_differ() {
    let mut seen: Vec<(BigUint, BigUint)> = Vec::new();
    for _ in 0..8 {
        let kp = generate(128, 20);
        let pair = (kp.private.p.clone(), kp.private.q.clone());
        for earlier in &seen {
            assert_ne!(*earlier, pair);
        }
        seen.push(pair);
    }
}

#[test]
fn paillier_round_trip() {
    let kp = generate(128, 40);
    let n = &kp.public.n;
    let g = &kp.public.g;
    let lambda = &kp.private.lambda;
    let mu = &kp.private.mu;
    let n_squared = n * n;
    let blinds: [u64; 3] = [3, 5, 7];
    let plaintexts: [u64; 3] = [0, 1, 123456];
    for i in 0..3 {
        let m = BigUint::from(plaintexts[i]);
        let r = BigUint::from(blinds[i]);
        let c = (g.modpow(&m, &n_squared) * r.modpow(n, &n_squared)) % &n_squared;
        let u = c.modpow(lambda, &n_squared);
        let l = (&u - 1u32) / n;
        let recovered = (l * mu) % n;
        assert_eq!(recovered, m);
    }
}

#[test]
fn decimal_strings_match_key_material() {
    let kp = generate(64, 40);
    let (n_s, g_s, p_s, q_s) = kp.to_decimal_strings();
    let parse = |s: &str| BigUint::parse_bytes(s.as_bytes(), 10).expect("decimal digits");
    assert_eq!(parse(&n_s), kp.public.n);
    assert_eq!(parse(&g_s), kp.public.g);
    assert_eq!(parse(&p_s), kp.private.p);
    assert_eq!(parse(&q_s), kp.private.q);
}
