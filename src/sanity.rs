//! Re-deriving the digests of a coin or a receiver and comparing them with
//! the stored ones.
//!
//! The commitments are recomputed by the caller, over the messages and
//! openings that the value itself hands out, and passed in.
use crate::asset::{MantaAsset, MantaAssetFullReceiver, MantaAssetPubInfo};
use crate::bytes::{digest_eq, lemma_array_from_view};
use crate::crypto::{prf, prf_of, zero_digest};
use crate::sampling::{asset_utxo_message, asset_utxo_message_of, k_message, k_message_of, Draft};
use vstd::prelude::*;

verus! {

impl MantaAsset {
    /// The message committed to in `k`.
    pub open spec fn k_message_spec(&self) -> Seq<u8> {
        k_message_of(self.pub_info.pk@, self.pub_info.rho@)
    }

    /// The message committed to in `utxo`.
    pub open spec fn utxo_message_spec(&self) -> Seq<u8> {
        asset_utxo_message_of(self.asset_id, self.priv_info.value, self.pub_info.k@)
    }

    /// The coin is consistent, given `k_commit = Commit(k message; r)` and
    /// `utxo_commit = Commit(utxo message; s)`.
    pub open spec fn is_sane(&self, k_commit: Seq<u8>, utxo_commit: Seq<u8>) -> bool {
        &&& self.pub_info.pk@ == prf_of(self.priv_info.sk@, zero_digest())
        &&& self.void_number@ == prf_of(self.priv_info.sk@, self.pub_info.rho@)
        &&& self.pub_info.k@ == k_commit
        &&& self.utxo@ == utxo_commit
    }

    /// `pk ‖ rho`, to be committed to under opening `pub_info.r`.
    pub fn k_message(&self) -> (m: Vec<u8>)
        ensures
            m@ == self.k_message_spec(),
    {
        k_message(&self.pub_info.pk, &self.pub_info.rho)
    }

    /// `asset_id ‖ value ‖ k`, to be committed to under opening `pub_info.s`.
    pub fn utxo_message(&self) -> (m: Vec<u8>)
        ensures
            m@ == self.utxo_message_spec(),
    {
        asset_utxo_message(self.asset_id, self.priv_info.value, &self.pub_info.k)
    }

    /// Checks, in this order, `pk = PRF(sk, 0)`, `void_number = PRF(sk, rho)`,
    /// `k = k_commit` and `utxo = utxo_commit`, where the two commitments are
    /// recomputed from [`MantaAsset::k_message`] and
    /// [`MantaAsset::utxo_message`] by the caller.
    pub fn sanity(&self, k_commit: &[u8; 32], utxo_commit: &[u8; 32]) -> (ok: bool)
        ensures
            ok == self.is_sane(k_commit@, utxo_commit@),
    {
        let zero: [u8; 32] = [0u8; 32];
        assert(zero@ =~= zero_digest());
        if !digest_eq(&self.pub_info.pk, &prf(&self.priv_info.sk, &zero)) {
            return false;
        }
        if !digest_eq(&self.void_number, &prf(&self.priv_info.sk, &self.pub_info.rho)) {
            return false;
        }
        if !digest_eq(&self.pub_info.k, k_commit) {
            return false;
        }
        digest_eq(&self.utxo, utxo_commit)
    }
}

impl MantaAssetFullReceiver {
    /// The message committed to in the address's `k`.
    pub open spec fn k_message_spec(&self) -> Seq<u8> {
        k_message_of(self.spending_info.pk@, self.spending_info.rho@)
    }

    /// The receiver is consistent, given `k_commit = Commit(k message; r)`.
    pub open spec fn is_sane(&self, k_commit: Seq<u8>) -> bool {
        &&& self.spending_info.pk@ == prf_of(self.spending_info.sk@, zero_digest())
        &&& self.spending_info.void_number@ == prf_of(
            self.spending_info.sk@,
            self.spending_info.rho@,
        )
        &&& self.shielded_address.k@ == k_commit
    }

    /// `pk ‖ rho` of the spending information, to be committed to under the
    /// address's opening `r`.
    pub fn k_message(&self) -> (m: Vec<u8>)
        ensures
            m@ == self.k_message_spec(),
    {
        k_message(&self.spending_info.pk, &self.spending_info.rho)
    }

    /// Checks, in this order, `pk = PRF(sk, 0)`, `void_number = PRF(sk, rho)`
    /// and that the address's `k` is `k_commit`, recomputed from
    /// [`MantaAssetFullReceiver::k_message`] by the caller. No `utxo` is
    /// bound yet, so none is checked.
    pub fn sanity(&self, k_commit: &[u8; 32]) -> (ok: bool)
        ensures
            ok == self.is_sane(k_commit@),
    {
        let zero: [u8; 32] = [0u8; 32];
        assert(zero@ =~= zero_digest());
        if !digest_eq(&self.spending_info.pk, &prf(&self.spending_info.sk, &zero)) {
            return false;
        }
        if !digest_eq(
            &self.spending_info.void_number,
            &prf(&self.spending_info.sk, &self.spending_info.rho),
        ) {
            return false;
        }
        digest_eq(&self.shielded_address.k, k_commit)
    }
}

/// A sampled coin passes the check: it asks for commitments over the same
/// messages as the draft it was built from, and given the commitments it was
/// built with, it is consistent.
pub proof fn lemma_sampled_asset_is_sane(d: Draft, value: u64, k: [u8; 32], utxo: [u8; 32])
    requires
        d.is_derived(),
    ensures
        d.asset_of(value, k, utxo).k_message_spec() == k_message_of(d.pk@, d.rho@),
        d.asset_of(value, k, utxo).utxo_message_spec() == asset_utxo_message_of(
            d.asset_id,
            value,
            k@,
        ),
        d.asset_of(value, k, utxo).is_sane(k@, utxo@),
{
}

/// A prepared receiver passes the check: it asks for a commitment over the
/// same message as its draft, and given the `k` it was built with, it is
/// consistent.
pub proof fn lemma_prepared_receiver_is_sane(d: Draft, k: [u8; 32], ecpk: [u8; 32], ecsk: [u8; 32])
    requires
        d.is_derived(),
    ensures
        d.receiver_of(k, ecpk, ecsk).k_message_spec() == k_message_of(d.pk@, d.rho@),
        d.receiver_of(k, ecpk, ecsk).is_sane(k@),
{
}

/// Changing the stored `pk` or `void_number` of a consistent coin makes it
/// fail the check, whatever commitments are then recomputed; changing its
/// `k` or its `utxo` leaves the committed messages and openings as they were,
/// so the same commitments are recomputed, and the check fails.
pub proof fn lemma_mutated_asset_is_not_sane(
    a: MantaAsset,
    k_commit: Seq<u8>,
    utxo_commit: Seq<u8>,
    other: [u8; 32],
    k2: Seq<u8>,
    u2: Seq<u8>,
)
    requires
        a.is_sane(k_commit, utxo_commit),
    ensures
        other != a.pub_info.pk ==> !(MantaAsset {
            pub_info: MantaAssetPubInfo { pk: other, ..a.pub_info },
            ..a
        }).is_sane(k2, u2),
        other != a.void_number ==> !(MantaAsset { void_number: other, ..a }).is_sane(k2, u2),
        other != a.utxo ==> !(MantaAsset { utxo: other, ..a }).is_sane(k_commit, utxo_commit),
        other != a.pub_info.k ==> ({
            let b = MantaAsset {
                pub_info: MantaAssetPubInfo { k: other, ..a.pub_info },
                ..a
            };
            b.k_message_spec() == a.k_message_spec() && b.pub_info.r == a.pub_info.r
                && !b.is_sane(k_commit, u2)
        }),
{
    if other != a.pub_info.pk {
        assert(other@ != a.pub_info.pk@) by {
            if other@ == a.pub_info.pk@ {
                lemma_array_from_view(other, a.pub_info.pk);
            }
        }
    }
    if other != a.void_number {
        assert(other@ != a.void_number@) by {
            if other@ == a.void_number@ {
                lemma_array_from_view(other, a.void_number);
            }
        }
    }
    if other != a.utxo {
        assert(other@ != a.utxo@) by {
            if other@ == a.utxo@ {
                lemma_array_from_view(other, a.utxo);
            }
        }
    }
    if other != a.pub_info.k {
        assert(other@ != a.pub_info.k@) by {
            if other@ == a.pub_info.k@ {
                lemma_array_from_view(other, a.pub_info.k);
            }
        }
    }
}

} // verus!
