//! A sender turning a receiver's shielded address and a value into a
//! processed receiver.
use crate::asset::{MantaAssetProcessedReceiver, MantaAssetShieldedAddress};
use crate::bytes::{le_bytes, push_array, push_u64, read_array};
use vstd::prelude::*;

verus! {

/// Width in bytes of the encrypted value: 16 bytes of ciphertext, then the
/// sender's 32-byte ephemeral public key.
pub const CIPHER_LEN: usize = 48;

/// The message committed to in a processed receiver's `utxo`: `value ‖ k`.
/// Unlike a sampled coin's, it does not hold the asset identifier.
pub open spec fn processed_utxo_message_of(value: u64, k: Seq<u8>) -> Seq<u8> {
    le_bytes(value) + k
}

/// `value ‖ k` as one buffer.
pub fn processed_utxo_message(value: u64, k: &[u8; 32]) -> (m: Vec<u8>)
    ensures
        m@ == processed_utxo_message_of(value, k@),
{
    let mut out: Vec<u8> = Vec::new();
    push_u64(&mut out, value);
    push_array(&mut out, k);
    out
}

impl MantaAssetShieldedAddress {
    /// The message that a sender commits to, under this address's `s`, to
    /// obtain the `utxo` of a coin of value `value`.
    pub fn process_message(&self, value: u64) -> (m: Vec<u8>)
        ensures
            m@ == processed_utxo_message_of(value, self.k@),
    {
        processed_utxo_message(value, &self.k)
    }

    /// The processed receiver for `value`, given
    /// `utxo = Commit(self.process_message(value); s)` and `cipher`, the
    /// 48-byte encryption of `value` under `ecpk`: its first 16 bytes are the
    /// ciphertext, the next 32 the sender's ephemeral public key.
    pub fn process(&self, value: u64, utxo: [u8; 32], cipher: &[u8; 48]) -> (p: MantaAssetProcessedReceiver)
        ensures
            p.utxo == utxo,
            p.value == value,
            p.ciphertext@ == cipher@.subrange(0, 16),
            p.sender_pk@ == cipher@.subrange(16, 48),
            p.prepared_data == *self,
    {
        let bytes = cipher.as_slice();
        let ciphertext: [u8; 16] = read_array(bytes, 0);
        let sender_pk: [u8; 32] = read_array(bytes, 16);
        MantaAssetProcessedReceiver { utxo, value, sender_pk, ciphertext, prepared_data: *self }
    }
}

impl MantaAssetProcessedReceiver {
    /// The message committed to in `utxo`.
    pub open spec fn utxo_message_spec(&self) -> Seq<u8> {
        processed_utxo_message_of(self.value, self.prepared_data.k@)
    }

    /// `value ‖ k`: committing to it under `prepared_data.s` gives back
    /// `utxo`, which is how the receiver confirms the coin.
    pub fn utxo_message(&self) -> (m: Vec<u8>)
        ensures
            m@ == self.utxo_message_spec(),
    {
        processed_utxo_message(self.value, &self.prepared_data.k)
    }
}

/// A processed receiver asks for its `utxo` to be recomputed over the
/// message and opening that the sender committed with, and holds that
/// `utxo`: recommitting confirms it.
pub proof fn lemma_processed_receiver_recommits(
    addr: MantaAssetShieldedAddress,
    value: u64,
    utxo: [u8; 32],
    p: MantaAssetProcessedReceiver,
)
    requires
        p.utxo == utxo,
        p.value == value,
        p.prepared_data == addr,
    ensures
        p.utxo_message_spec() == processed_utxo_message_of(value, addr.k@),
        p.prepared_data.s == addr.s,
        p.utxo == utxo,
{
}

} // verus!
