//! Sampling a coin, and preparing a receiver.
//!
//! Both start from a [`Draft`]: the random `rho`, `r` and `s`, and the keys
//! that the pseudorandom function derives from the secret key. The two
//! commitments are the caller's to compute, over the messages that the draft
//! hands out; a coin or a receiver is then assembled from the draft and them.
use crate::asset::{
    AssetId, MantaAsset, MantaAssetFullReceiver, MantaAssetPrivInfo, MantaAssetPubInfo,
    MantaAssetReceiverSpendingInfo, MantaAssetShieldedAddress,
};
use crate::bytes::{le_bytes, push_array, push_u64};
use crate::crypto::{prf, prf_of, random_digest, random_scalar, zero_digest};
use ark_std::rand::rngs::StdRng;
use vstd::prelude::*;

verus! {

/// The message committed to in `k`: `pk ‖ rho`.
pub open spec fn k_message_of(pk: Seq<u8>, rho: Seq<u8>) -> Seq<u8> {
    pk + rho
}

/// The message committed to in a sampled coin's `utxo`:
/// `asset_id ‖ value ‖ k`, integers little-endian.
pub open spec fn asset_utxo_message_of(asset_id: u64, value: u64, k: Seq<u8>) -> Seq<u8> {
    le_bytes(asset_id) + le_bytes(value) + k
}

/// `pk ‖ rho` as one buffer.
pub fn k_message(pk: &[u8; 32], rho: &[u8; 32]) -> (r: Vec<u8>)
    ensures
        r@ == k_message_of(pk@, rho@),
{
    let mut out: Vec<u8> = Vec::new();
    push_array(&mut out, pk);
    push_array(&mut out, rho);
    out
}

/// `asset_id ‖ value ‖ k` as one buffer.
pub fn asset_utxo_message(asset_id: u64, value: u64, k: &[u8; 32]) -> (r: Vec<u8>)
    ensures
        r@ == asset_utxo_message_of(asset_id, value, k@),
{
    let mut out: Vec<u8> = Vec::new();
    push_u64(&mut out, asset_id);
    push_u64(&mut out, value);
    push_array(&mut out, k);
    out
}

/// The secret and random material of a coin or a receiver, before its
/// commitments are known.
#[derive(Debug, Copy, Clone, PartialEq, Eq)]
pub struct Draft {
    pub asset_id: AssetId,
    pub secret_key: [u8; 32],
    /// `PRF(secret_key, 0)`.
    pub pk: [u8; 32],
    pub rho: [u8; 32],
    /// `PRF(secret_key, rho)`.
    pub void_number: [u8; 32],
    /// Opening of `k`.
    pub r: [u8; 32],
    /// Opening of the `utxo`.
    pub s: [u8; 32],
}

impl Draft {
    /// `pk` and `void_number` are what the pseudorandom function derives.
    pub open spec fn is_derived(&self) -> bool {
        &&& self.pk@ == prf_of(self.secret_key@, zero_digest())
        &&& self.void_number@ == prf_of(self.secret_key@, self.rho@)
    }

    /// The coin of value `value` with commitments `k` and `utxo`.
    pub open spec fn asset_of(&self, value: u64, k: [u8; 32], utxo: [u8; 32]) -> MantaAsset {
        MantaAsset {
            asset_id: self.asset_id,
            utxo: utxo,
            void_number: self.void_number,
            pub_info: MantaAssetPubInfo { pk: self.pk, rho: self.rho, s: self.s, r: self.r, k: k },
            priv_info: MantaAssetPrivInfo { value: value, sk: self.secret_key },
        }
    }

    /// The receiver with commitment `k` and encryption key pair
    /// `(ecpk, ecsk)`.
    pub open spec fn receiver_of(&self, k: [u8; 32], ecpk: [u8; 32], ecsk: [u8; 32]) -> MantaAssetFullReceiver {
        MantaAssetFullReceiver {
            shielded_address: MantaAssetShieldedAddress {
                asset_id: self.asset_id,
                k: k,
                s: self.s,
                r: self.r,
                ecpk: ecpk,
            },
            spending_info: MantaAssetReceiverSpendingInfo {
                asset_id: self.asset_id,
                pk: self.pk,
                sk: self.secret_key,
                rho: self.rho,
                void_number: self.void_number,
                ecsk: ecsk,
            },
        }
    }

    /// The draft for the given secret key, asset kind and random values:
    /// `pk = PRF(secret_key, 0)` and `void_number = PRF(secret_key, rho)`.
    pub fn new(secret_key: &[u8; 32], asset_id: AssetId, rho: [u8; 32], r: [u8; 32], s: [u8; 32]) -> (d: Draft)
        ensures
            d.is_derived(),
            d.asset_id == asset_id,
            d.secret_key == *secret_key,
            d.rho == rho,
            d.r == r,
            d.s == s,
    {
        let zero: [u8; 32] = [0u8; 32];
        assert(zero@ =~= zero_digest());
        let pk = prf(secret_key, &zero);
        let void_number = prf(secret_key, &rho);
        Draft { asset_id, secret_key: *secret_key, pk, rho, void_number, r, s }
    }

    /// Draws `rho` as 32 random bytes, then the openings `r` and `s` as
    /// random scalars, and derives the rest as [`Draft::new`] does.
    pub fn sample(secret_key: &[u8; 32], asset_id: AssetId, rng: &mut StdRng) -> (d: Draft)
        ensures
            d.is_derived(),
            d.asset_id == asset_id,
            d.secret_key == *secret_key,
    {
        let rho = random_digest(rng);
        let r = random_scalar(rng);
        let s = random_scalar(rng);
        Draft::new(secret_key, asset_id, rho, r, s)
    }

    /// The message to commit to, under opening `r`, to obtain `k`.
    pub fn k_message(&self) -> (m: Vec<u8>)
        ensures
            m@ == k_message_of(self.pk@, self.rho@),
    {
        k_message(&self.pk, &self.rho)
    }

    /// The message to commit to, under opening `s`, to obtain the `utxo` of
    /// a coin of value `value` whose `k` is given.
    pub fn utxo_message(&self, value: u64, k: &[u8; 32]) -> (m: Vec<u8>)
        ensures
            m@ == asset_utxo_message_of(self.asset_id, value, k@),
    {
        asset_utxo_message(self.asset_id, value, k)
    }

    /// The coin of value `value`, given `k = Commit(self.k_message(); r)` and
    /// `utxo = Commit(self.utxo_message(value, k); s)`.
    pub fn into_asset(&self, value: u64, k: [u8; 32], utxo: [u8; 32]) -> (a: MantaAsset)
        ensures
            a == self.asset_of(value, k, utxo),
    {
        MantaAsset {
            asset_id: self.asset_id,
            utxo,
            void_number: self.void_number,
            pub_info: MantaAssetPubInfo { pk: self.pk, rho: self.rho, s: self.s, r: self.r, k },
            priv_info: MantaAssetPrivInfo { value, sk: self.secret_key },
        }
    }

    /// The prepared receiver, given `k = Commit(self.k_message(); r)` and a
    /// fresh encryption key pair `(ecpk, ecsk)`.
    pub fn into_receiver(&self, k: [u8; 32], ecpk: [u8; 32], ecsk: [u8; 32]) -> (f: MantaAssetFullReceiver)
        ensures
            f == self.receiver_of(k, ecpk, ecsk),
    {
        MantaAssetFullReceiver {
            shielded_address: MantaAssetShieldedAddress {
                asset_id: self.asset_id,
                k,
                s: self.s,
                r: self.r,
                ecpk,
            },
            spending_info: MantaAssetReceiverSpendingInfo {
                asset_id: self.asset_id,
                pk: self.pk,
                sk: self.secret_key,
                rho: self.rho,
                void_number: self.void_number,
                ecsk,
            },
        }
    }
}

} // verus!
