//! The values that make up a coin and a receiver.
use vstd::prelude::*;

verus! {

/// Identifier of the kind of an asset.
pub type AssetId = u64;

/// The asset identifier kept for tests.
pub const TEST_ASSET: AssetId = 0;

/// A coin. Its `utxo` commits to its asset kind, value and `k`; its
/// `void_number` marks it spent once posted.
#[derive(Debug, Copy, Clone, Default, PartialEq, Eq)]
pub struct MantaAsset {
    pub asset_id: AssetId,
    /// The commitment that identifies the coin on the ledger.
    pub utxo: [u8; 32],
    /// The nullifier, `PRF(sk, rho)`.
    pub void_number: [u8; 32],
    pub pub_info: MantaAssetPubInfo,
    pub priv_info: MantaAssetPrivInfo,
}

/// The part of a coin that may be revealed.
#[derive(Debug, Copy, Clone, Default, PartialEq, Eq)]
pub struct MantaAssetPubInfo {
    /// The address, `PRF(sk, 0)`.
    pub pk: [u8; 32],
    pub rho: [u8; 32],
    /// Opening of the coin's `utxo`.
    pub s: [u8; 32],
    /// Opening of `k`.
    pub r: [u8; 32],
    /// Commitment to `pk ‖ rho` under opening `r`.
    pub k: [u8; 32],
}

/// The part of a coin that stays secret until it is spent.
#[derive(Debug, Copy, Clone, Default, PartialEq, Eq)]
pub struct MantaAssetPrivInfo {
    pub value: u64,
    pub sk: [u8; 32],
}

/// A receiver prepared ahead of a payment: the address it publishes and the
/// information it keeps to spend what it receives.
#[derive(Debug, Copy, Clone, Default, PartialEq, Eq)]
pub struct MantaAssetFullReceiver {
    pub shielded_address: MantaAssetShieldedAddress,
    pub spending_info: MantaAssetReceiverSpendingInfo,
}

/// What a receiver keeps to spend a coin sent to its shielded address.
#[derive(Debug, Copy, Clone, Default, PartialEq, Eq)]
pub struct MantaAssetReceiverSpendingInfo {
    pub asset_id: AssetId,
    pub pk: [u8; 32],
    pub sk: [u8; 32],
    pub rho: [u8; 32],
    pub void_number: [u8; 32],
    /// Secret key of the encryption that carries the value.
    pub ecsk: [u8; 32],
}

/// What a receiver publishes so that a sender can build a coin for it.
#[derive(Debug, Copy, Clone, Default, PartialEq, Eq)]
pub struct MantaAssetShieldedAddress {
    pub asset_id: AssetId,
    pub k: [u8; 32],
    pub s: [u8; 32],
    pub r: [u8; 32],
    /// Public key of the encryption that carries the value.
    pub ecpk: [u8; 32],
}

/// What a sender builds from a shielded address and a value.
#[derive(Debug, Copy, Clone, Default, PartialEq, Eq)]
pub struct MantaAssetProcessedReceiver {
    /// Commitment to `value ‖ k` under opening `s`.
    pub utxo: [u8; 32],
    pub value: u64,
    /// The sender's ephemeral public key of the encryption.
    pub sender_pk: [u8; 32],
    /// The value, encrypted under the address's `ecpk`.
    pub ciphertext: [u8; 16],
    pub prepared_data: MantaAssetShieldedAddress,
}

} // verus!
