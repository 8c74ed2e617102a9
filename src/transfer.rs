//! The inputs of the ledger's extrinsics, and the lookup of a coin among the
//! leaves that a membership proof is built over.
use crate::asset::{AssetId, MantaAsset};
use crate::bytes::{digest_eq, lemma_array_from_view};
use crate::error::MantaError;
use vstd::prelude::*;

verus! {

pub const MINT_PAYLOAD_SIZE: usize = 112;

pub const PRIVATE_TRANSFER_PAYLOAD_SIZE: usize = 608;

pub const RECLAIM_PAYLOAD_SIZE: usize = 512;

/// Input of a mint: a fresh coin of `amount` of asset `asset_id`.
#[derive(Debug, Copy, Clone, Default, PartialEq, Eq)]
pub struct MintData {
    pub asset_id: AssetId,
    pub amount: u64,
    pub cm: [u8; 32],
    pub k: [u8; 32],
    pub s: [u8; 32],
}

/// Input of a private transfer: two coins spent, two received, and the proof.
#[derive(Debug, Clone, PartialEq, Eq)]
pub struct PrivateTransferData {
    pub sender_1: SenderData,
    pub sender_2: SenderData,
    pub receiver_1: ReceiverData,
    pub receiver_2: ReceiverData,
    pub proof: [u8; 192],
}

/// Input of a reclaim: two coins spent, `reclaim_amount` taken out of the
/// private pool, one coin received as change, and the proof.
#[derive(Debug, Clone, PartialEq, Eq)]
pub struct ReclaimData {
    pub asset_id: AssetId,
    pub reclaim_amount: u64,
    pub sender_1: SenderData,
    pub sender_2: SenderData,
    pub receiver: ReceiverData,
    pub proof: [u8; 192],
}

/// What a spender reveals of the coin it spends.
#[derive(Debug, Copy, Clone, Default, PartialEq, Eq)]
pub struct SenderData {
    pub k: [u8; 32],
    pub void_number: [u8; 32],
    pub root: [u8; 32],
}

/// What is posted of a coin being received.
#[derive(Debug, Copy, Clone, Default, PartialEq, Eq)]
pub struct ReceiverData {
    pub k: [u8; 32],
    pub cm: [u8; 32],
    pub sender_pk: [u8; 32],
    pub cipher: [u8; 16],
}

impl MantaAsset {
    /// The position of this coin's `utxo` among `leaves`, the first if it
    /// stands there more than once; [`MantaError::LeavesNotFound`] if it is
    /// not there.
    pub fn leaf_position(&self, leaves: &Vec<[u8; 32]>) -> (r: Result<usize, MantaError>)
        ensures
            r is Err <==> !leaves@.contains(self.utxo),
            r matches Err(e) ==> e == MantaError::LeavesNotFound,
            r matches Ok(i) ==> i < leaves@.len() && leaves@[i as int] == self.utxo && forall|j: int|
                0 <= j < i ==> leaves@[j] != self.utxo,
    {
        let mut i: usize = 0;
        while i < leaves.len()
            invariant
                i <= leaves@.len(),
                forall|j: int| 0 <= j < i ==> leaves@[j] != self.utxo,
            decreases leaves@.len() - i,
        {
            if digest_eq(&leaves[i], &self.utxo) {
                proof {
                    lemma_array_from_view(leaves@[i as int], self.utxo);
                }
                return Ok(i);
            }
            i = i + 1;
        }
        Err(MantaError::LeavesNotFound)
    }
}

} // verus!
