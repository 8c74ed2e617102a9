//! The outside primitives that this crate calls: the Blake2s pseudorandom
//! function, and the draws of random bytes and of random scalars.
use ark_crypto_primitives::prf::{Blake2s, PRF};
use ark_crypto_primitives::CryptoError;
use ark_ed_on_bls12_381::Fr;
use ark_ff::UniformRand;
use ark_serialize::{CanonicalSerialize, SerializationError};
use ark_std::rand::rngs::StdRng;
use ark_std::rand::RngCore;
use vstd::prelude::*;

verus! {

#[verifier::external_type_specification]
#[verifier::external_body]
pub struct ExStdRng(StdRng);

#[verifier::external_type_specification]
#[verifier::external_body]
pub struct ExCryptoError(CryptoError);

#[verifier::external_type_specification]
#[verifier::external_body]
pub struct ExSerializationError(SerializationError);

/// The Blake2s pseudorandom function keyed by `key`, applied to `input`.
pub uninterp spec fn prf_of(key: Seq<u8>, input: Seq<u8>) -> Seq<u8>;

/// The all-zero digest, the input from which an address key is derived.
pub open spec fn zero_digest() -> Seq<u8> {
    Seq::new(32, |i: int| 0u8)
}

/// Relies on `<Blake2s as PRF>::evaluate` of ark-crypto-primitives: it hashes
/// the seed and then the input, so the digest depends on those two alone, and
/// it always returns `Ok`.
#[verifier::external_body]
fn blake2s_prf(key: &[u8; 32], input: &[u8; 32]) -> (r: Result<[u8; 32], CryptoError>)
    ensures
        r is Ok,
        r matches Ok(d) ==> d@ == prf_of(key@, input@),
{
    <Blake2s as PRF>::evaluate(key, input)
}

/// `PRF(key, input)`.
pub fn prf(key: &[u8; 32], input: &[u8; 32]) -> (r: [u8; 32])
    ensures
        r@ == prf_of(key@, input@),
{
    match blake2s_prf(key, input) {
        Ok(d) => d,
        Err(_) => vstd::pervasive::unreached(),
    }
}

/// Relies on `RngCore::fill_bytes` of rand on `StdRng`: 32 bytes drawn from
/// the generator; nothing is known of their values.
#[verifier::external_body]
pub(crate) fn random_digest(rng: &mut StdRng) -> (r: [u8; 32]) {
    let mut b = [0u8; 32];
    rng.fill_bytes(&mut b);
    b
}

/// Relies on `UniformRand::rand` of ark-ff for the scalar field of
/// ed_on_bls12_381, written out by its `CanonicalSerialize` into 32 bytes.
/// The field's modulus has 252 bits, so the scalar takes exactly 32 bytes
/// and the write always succeeds. Nothing is known of the value drawn.
#[verifier::external_body]
fn draw_scalar(rng: &mut StdRng) -> (r: Result<[u8; 32], SerializationError>)
    ensures
        r is Ok,
{
    let s = Fr::rand(rng);
    let mut b = [0u8; 32];
    s.serialize(&mut b[..]).map(|_| b)
}

/// A random scalar of ed_on_bls12_381, as its 32 canonical bytes.
pub(crate) fn random_scalar(rng: &mut StdRng) -> (r: [u8; 32]) {
    match draw_scalar(rng) {
        Ok(b) => b,
        Err(_) => vstd::pervasive::unreached(),
    }
}

} // verus!
