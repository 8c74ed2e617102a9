//! Confidential assets for a private-transfer ledger: how a coin is built,
//! how a receiver prepares to accept one, how stored values are checked for
//! internal consistency, their canonical byte layout, and the sharded
//! commitment ledger that records which coins exist.
//!
//! The pseudorandom function and the draws of randomness are called from
//! here. The commitment scheme, the encryption scheme and the Merkle tree are
//! the caller's: operations that need one of their results take it as an
//! argument, and hand out the exact bytes that it is to be computed over.

mod asset;
mod bytes;
mod crypto;
mod error;
mod ledger;
mod processing;
mod sampling;
mod sanity;
mod serdes;
mod transfer;

pub use asset::{
    AssetId, MantaAsset, MantaAssetFullReceiver, MantaAssetPrivInfo, MantaAssetProcessedReceiver,
    MantaAssetPubInfo, MantaAssetReceiverSpendingInfo, MantaAssetShieldedAddress, TEST_ASSET,
};
pub use bytes::{le_bytes, lemma_le_bytes_injective};
pub use crypto::{prf, prf_of, zero_digest};
pub use error::MantaError;
pub use ledger::{
    lemma_fresh_ledger_is_empty, lemma_shard_routing, lemma_update_then_exists, shard_index,
    MantaPrivateAssetLedger, Shard, SHARD_COUNT,
};
pub use processing::{
    lemma_processed_receiver_recommits, processed_utxo_message, processed_utxo_message_of,
    CIPHER_LEN,
};
pub use sampling::{asset_utxo_message, asset_utxo_message_of, k_message, k_message_of, Draft};
pub use sanity::{
    lemma_mutated_asset_is_not_sane, lemma_prepared_receiver_is_sane, lemma_sampled_asset_is_sane,
};
pub use serdes::{
    accepted_asset, accepted_receiver, lemma_asset_decode_rejects, lemma_asset_encoding_injective,
    lemma_asset_round_trip, lemma_full_receiver_decode_rejects,
    lemma_full_receiver_encoding_injective, lemma_full_receiver_round_trip,
    lemma_priv_info_encoding_injective, lemma_processed_receiver_encoding_injective,
    lemma_pub_info_encoding_injective, lemma_shielded_address_encoding_injective,
    lemma_spending_info_encoding_injective, PendingAsset, PendingReceiver, ASSET_LEN,
    FULL_RECEIVER_LEN, PRIV_INFO_LEN, PROCESSED_RECEIVER_LEN, PUB_INFO_LEN, SHIELDED_ADDRESS_LEN,
    SPENDING_INFO_LEN,
};
pub use transfer::{
    MintData, PrivateTransferData, ReceiverData, ReclaimData, SenderData, MINT_PAYLOAD_SIZE,
    PRIVATE_TRANSFER_PAYLOAD_SIZE, RECLAIM_PAYLOAD_SIZE,
};
