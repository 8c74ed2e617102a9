use ark_std::rand::RngCore;
use manta_types::{
    AssetId, Draft, MantaAsset, MantaAssetFullReceiver, MantaAssetPrivInfo,
    MantaAssetProcessedReceiver, MantaAssetPubInfo, MantaAssetReceiverSpendingInfo,
    MantaAssetShieldedAddress, MantaError, ASSET_LEN, FULL_RECEIVER_LEN, PRIV_INFO_LEN,
    PROCESSED_RECEIVER_LEN, PUB_INFO_LEN, SHIELDED_ADDRESS_LEN, SPENDING_INFO_LEN,
};

// Stand-ins for the commitments, which the caller computes.
const K_COMMIT: [u8; 32] = [0xa5; 32];
const UTXO_COMMIT: [u8; 32] = [0x3c; 32];

#[test]
fn test_manta_random_asset_serdes() {
    let mut rng = ark_std::test_rng();
    let asset_id = AssetId::default();
    let value = 10;
    let mut secret_key = [0u8; 32];
    rng.fill_bytes(&mut secret_key);

    let draft = Draft::sample(&secret_key, asset_id, &mut rng);
    let random_asset = draft.into_asset(value, K_COMMIT, UTXO_COMMIT);
    let buf = random_asset.serialize();
    let pending = MantaAsset::deserialize(buf.as_ref()).unwrap();
    let random_asset_recover = pending.accept(&K_COMMIT, &UTXO_COMMIT).unwrap();
    assert_eq!(random_asset, random_asset_recover);
}

#[test]
fn test_manta_random_receiver_serdes() {
    let mut rng = ark_std::test_rng();
    let asset_id = AssetId::default();
    let mut secret_key = [0u8; 32];
    rng.fill_bytes(&mut secret_key);

    let draft = Draft::sample(&secret_key, asset_id, &mut rng);
    let random_receiver = draft.into_receiver(K_COMMIT, [1u8; 32], [2u8; 32]);
    let buf = random_receiver.serialize();
    let pending = MantaAssetFullReceiver::deserialize(buf.as_ref()).unwrap();
    let random_receiver_recover = pending.accept(&K_COMMIT).unwrap();
    assert_eq!(random_receiver, random_receiver_recover);
}

#[test]
fn encodings_have_their_fixed_widths() {
    assert_eq!(MantaAsset::default().serialize().len(), ASSET_LEN);
    assert_eq!(ASSET_LEN, 272);
    assert_eq!(MantaAssetPubInfo::default().serialize().len(), PUB_INFO_LEN);
    assert_eq!(MantaAssetPrivInfo::default().serialize().len(), PRIV_INFO_LEN);
    assert_eq!(MantaAssetShieldedAddress::default().serialize().len(), SHIELDED_ADDRESS_LEN);
    assert_eq!(MantaAssetReceiverSpendingInfo::default().serialize().len(), SPENDING_INFO_LEN);
    assert_eq!(MantaAssetFullReceiver::default().serialize().len(), FULL_RECEIVER_LEN);
    assert_eq!(MantaAssetProcessedReceiver::default().serialize().len(), PROCESSED_RECEIVER_LEN);
}

#[test]
fn integers_are_little_endian_and_fields_in_order() {
    let info = MantaAssetPrivInfo { value: 0x0102030405060708, sk: [9u8; 32] };
    let b = info.serialize();
    assert_eq!(&b[0..8], &[8, 7, 6, 5, 4, 3, 2, 1]);
    assert_eq!(&b[8..40], &[9u8; 32]);

    let addr = MantaAssetShieldedAddress {
        asset_id: 7,
        k: [1; 32],
        s: [2; 32],
        r: [3; 32],
        ecpk: [4; 32],
    };
    let b = addr.serialize();
    assert_eq!(&b[0..8], &[7, 0, 0, 0, 0, 0, 0, 0]);
    assert_eq!(&b[8..40], &[1u8; 32]);
    assert_eq!(&b[40..72], &[2u8; 32]);
    assert_eq!(&b[72..104], &[3u8; 32]);
    assert_eq!(&b[104..136], &[4u8; 32]);
}

#[test]
fn sub_structures_round_trip_without_a_check() {
    let pub_info = MantaAssetPubInfo { pk: [1; 32], rho: [2; 32], s: [3; 32], r: [4; 32], k: [5; 32] };
    assert_eq!(MantaAssetPubInfo::deserialize(&pub_info.serialize()), Ok(pub_info));
    let priv_info = MantaAssetPrivInfo { value: u64::MAX, sk: [6; 32] };
    assert_eq!(MantaAssetPrivInfo::deserialize(&priv_info.serialize()), Ok(priv_info));
    let spending = MantaAssetReceiverSpendingInfo {
        asset_id: 3,
        pk: [1; 32],
        sk: [2; 32],
        rho: [3; 32],
        void_number: [4; 32],
        ecsk: [5; 32],
    };
    assert_eq!(MantaAssetReceiverSpendingInfo::deserialize(&spending.serialize()), Ok(spending));
    let processed = MantaAssetProcessedReceiver {
        utxo: [7; 32],
        value: 42,
        sender_pk: [8; 32],
        ciphertext: [9; 16],
        prepared_data: MantaAssetShieldedAddress { asset_id: 1, k: [1; 32], s: [2; 32], r: [3; 32], ecpk: [4; 32] },
    };
    assert_eq!(MantaAssetProcessedReceiver::deserialize(&processed.serialize()), Ok(processed));
}

#[test]
fn decoding_reads_a_prefix_and_ignores_the_rest() {
    let priv_info = MantaAssetPrivInfo { value: 5, sk: [6; 32] };
    let mut b = priv_info.serialize();
    b.push(0xff);
    assert_eq!(MantaAssetPrivInfo::deserialize(&b), Ok(priv_info));
}

#[test]
fn short_input_is_a_short_read() {
    let b = MantaAsset::default().serialize();
    assert!(matches!(MantaAsset::deserialize(&b[..ASSET_LEN - 1]), Err(MantaError::ShortRead)));
    let b = MantaAssetFullReceiver::default().serialize();
    assert!(matches!(
        MantaAssetFullReceiver::deserialize(&b[..FULL_RECEIVER_LEN - 1]),
        Err(MantaError::ShortRead)
    ));
    assert_eq!(MantaAssetPubInfo::deserialize(&[]), Err(MantaError::ShortRead));
    assert_eq!(MantaAssetShieldedAddress::deserialize(&[0u8; 135]), Err(MantaError::ShortRead));
    assert_eq!(MantaAssetReceiverSpendingInfo::deserialize(&[0u8; 167]), Err(MantaError::ShortRead));
    assert_eq!(MantaAssetProcessedReceiver::deserialize(&[0u8; 223]), Err(MantaError::ShortRead));
    assert_eq!(MantaAssetPrivInfo::deserialize(&[0u8; 39]), Err(MantaError::ShortRead));
}

#[test]
fn inconsistent_asset_is_refused_on_decode() {
    let draft = Draft::new(&[3u8; 32], 1, [4u8; 32], [5u8; 32], [6u8; 32]);
    let mut asset = draft.into_asset(99, K_COMMIT, UTXO_COMMIT);
    asset.pub_info.pk[0] ^= 1;
    let pending = MantaAsset::deserialize(&asset.serialize()).unwrap();
    assert_eq!(pending.accept(&K_COMMIT, &UTXO_COMMIT), Err(MantaError::SanityCheckFail));
}

#[test]
fn inconsistent_receiver_is_refused_on_decode() {
    let draft = Draft::new(&[3u8; 32], 1, [4u8; 32], [5u8; 32], [6u8; 32]);
    let mut receiver = draft.into_receiver(K_COMMIT, [1; 32], [2; 32]);
    receiver.spending_info.void_number[31] ^= 0x80;
    let pending = MantaAssetFullReceiver::deserialize(&receiver.serialize()).unwrap();
    assert_eq!(pending.accept(&K_COMMIT), Err(MantaError::SanityCheckFail));
}

#[test]
fn pending_asset_hands_out_messages_and_openings() {
    let draft = Draft::new(&[3u8; 32], 2, [4u8; 32], [5u8; 32], [6u8; 32]);
    let asset = draft.into_asset(10, K_COMMIT, UTXO_COMMIT);
    let pending = MantaAsset::deserialize(&asset.serialize()).unwrap();
    assert_eq!(pending.k_message(), draft.k_message());
    assert_eq!(pending.utxo_message(), draft.utxo_message(10, &K_COMMIT));
    assert_eq!(pending.k_opening(), [5u8; 32]);
    assert_eq!(pending.utxo_opening(), [6u8; 32]);
    let pending = MantaAssetFullReceiver::deserialize(&draft.into_receiver(K_COMMIT, [0; 32], [0; 32]).serialize()).unwrap();
    assert_eq!(pending.k_message(), draft.k_message());
    assert_eq!(pending.k_opening(), [5u8; 32]);
}
