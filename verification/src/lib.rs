//! Key-pair generation for a Paillier-style additively homomorphic
//! cryptosystem: secure random prime sampling with a Miller-Rabin
//! primality test, and derivation of the modulus, generator, and
//! decryption exponents from the two primes.

pub mod arith;
pub mod bignum;
pub mod primality;
pub mod keygen;
