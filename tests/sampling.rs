use ark_std::rand::RngCore;
use manta_types::{
    asset_utxo_message, k_message, prf, Draft, MantaAssetShieldedAddress, CIPHER_LEN, TEST_ASSET,
};

#[test]
fn prf_is_keyed_and_deterministic() {
    let a = prf(&[0u8; 32], &[0u8; 32]);
    assert_ne!(a, [0u8; 32]);
    assert_eq!(a, prf(&[0u8; 32], &[0u8; 32]));
    assert_ne!(a, prf(&[1u8; 32], &[0u8; 32]));
    assert_ne!(a, prf(&[0u8; 32], &[1u8; 32]));
}

#[test]
fn draft_derives_pk_and_void_number() {
    let sk = [7u8; 32];
    let rho = [8u8; 32];
    let d = Draft::new(&sk, 3, rho, [9u8; 32], [10u8; 32]);
    assert_eq!(d.pk, prf(&sk, &[0u8; 32]));
    assert_eq!(d.void_number, prf(&sk, &rho));
    assert_eq!(d.secret_key, sk);
    assert_eq!(d.rho, rho);
    assert_eq!(d.r, [9u8; 32]);
    assert_eq!(d.s, [10u8; 32]);
    assert_eq!(d.asset_id, 3);
}

#[test]
fn sampled_draft_is_fresh_each_time() {
    let mut rng = ark_std::test_rng();
    let sk = [1u8; 32];
    let a = Draft::sample(&sk, 5, &mut rng);
    let b = Draft::sample(&sk, 5, &mut rng);
    assert_eq!(a.pk, b.pk);
    assert_ne!(a.rho, b.rho);
    assert_ne!(a.r, b.r);
    assert_ne!(a.s, b.s);
    assert_ne!(a.r, a.s);
    assert_eq!(a.void_number, prf(&sk, &a.rho));
}

#[test]
fn commitment_messages_are_laid_out_in_order() {
    let m = k_message(&[1u8; 32], &[2u8; 32]);
    assert_eq!(m.len(), 64);
    assert_eq!(&m[..32], &[1u8; 32]);
    assert_eq!(&m[32..], &[2u8; 32]);
    let m = asset_utxo_message(0x0201, 10, &[3u8; 32]);
    assert_eq!(&m[..8], &[1, 2, 0, 0, 0, 0, 0, 0]);
    assert_eq!(&m[8..16], &[10, 0, 0, 0, 0, 0, 0, 0]);
    assert_eq!(&m[16..], &[3u8; 32]);
}

#[test]
fn scenario_sample_encode_decode_and_check() {
    let mut rng = ark_std::test_rng();
    let sk = [0u8; 32];
    let draft = Draft::sample(&sk, TEST_ASSET, &mut rng);
    let k = [0x11u8; 32];
    let utxo = [0x22u8; 32];
    let asset = draft.into_asset(10, k, utxo);
    assert_eq!(asset.priv_info.value, 10);
    assert!(asset.sanity(&k, &utxo));
    assert_eq!(asset.k_message(), draft.k_message());
    assert_eq!(asset.utxo_message(), draft.utxo_message(10, &k));
    let back = manta_types::MantaAsset::deserialize(&asset.serialize())
        .unwrap()
        .accept(&k, &utxo)
        .unwrap();
    assert_eq!(back, asset);

    let mut ledger = manta_types::MantaPrivateAssetLedger::default();
    assert!(!ledger.exist(&asset.utxo));
    let root = [0x77u8; 32];
    ledger.update(&asset.utxo, root);
    assert!(ledger.exist(&asset.utxo));
    assert!(ledger.check_root(&root));
}

#[test]
fn receiver_flow_prepare_then_process() {
    let mut rng = ark_std::test_rng();
    let sk = [1u8; 32];
    let draft = Draft::sample(&sk, 7, &mut rng);
    let k = [0x44u8; 32];
    let receiver = draft.into_receiver(k, [5u8; 32], [6u8; 32]);
    assert!(receiver.sanity(&k));
    assert_eq!(receiver.shielded_address.asset_id, 7);
    assert_eq!(receiver.spending_info.asset_id, 7);

    let address: MantaAssetShieldedAddress = receiver.shielded_address;
    let message = address.process_message(42);
    assert_eq!(&message[..8], &[42, 0, 0, 0, 0, 0, 0, 0]);
    assert_eq!(&message[8..], &k);
    let utxo = [0x99u8; 32];
    let mut cipher = [0u8; CIPHER_LEN];
    for (i, b) in cipher.iter_mut().enumerate() {
        *b = i as u8;
    }
    let processed = address.process(42, utxo, &cipher);
    assert_eq!(processed.utxo, utxo);
    assert_eq!(processed.value, 42);
    assert_eq!(&processed.ciphertext[..], &cipher[..16]);
    assert_eq!(&processed.sender_pk[..], &cipher[16..]);
    assert_eq!(processed.prepared_data, address);
    assert_eq!(processed.utxo_message(), message);
    assert_eq!(processed.prepared_data.s, draft.s);
}

#[test]
fn random_bytes_fill_a_key() {
    let mut rng = ark_std::test_rng();
    let mut sk = [0u8; 32];
    rng.fill_bytes(&mut sk);
    assert_ne!(sk, [0u8; 32]);
}
