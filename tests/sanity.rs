use manta_types::{Draft, MantaAsset, MantaAssetFullReceiver};

const K: [u8; 32] = [0x10; 32];
const U: [u8; 32] = [0x20; 32];

fn sane_asset() -> MantaAsset {
    Draft::new(&[9u8; 32], 4, [8u8; 32], [7u8; 32], [6u8; 32]).into_asset(1000, K, U)
}

fn sane_receiver() -> MantaAssetFullReceiver {
    Draft::new(&[9u8; 32], 4, [8u8; 32], [7u8; 32], [6u8; 32]).into_receiver(K, [1; 32], [2; 32])
}

#[test]
fn sampled_values_are_sane() {
    assert!(sane_asset().sanity(&K, &U));
    assert!(sane_receiver().sanity(&K));
}

#[test]
fn mutating_one_digest_fails_the_asset_check() {
    let mut a = sane_asset();
    a.pub_info.pk[5] ^= 1;
    assert!(!a.sanity(&K, &U));

    let mut a = sane_asset();
    a.void_number[0] ^= 1;
    assert!(!a.sanity(&K, &U));

    let mut a = sane_asset();
    a.pub_info.rho[0] ^= 1;
    assert!(!a.sanity(&K, &U));

    let mut a = sane_asset();
    a.pub_info.k[0] ^= 1;
    assert!(!a.sanity(&K, &U));

    let mut a = sane_asset();
    a.utxo[31] ^= 1;
    assert!(!a.sanity(&K, &U));

    let mut a = sane_asset();
    a.priv_info.sk[0] ^= 1;
    assert!(!a.sanity(&K, &U));
}

#[test]
fn asset_check_compares_against_the_given_commitments() {
    let a = sane_asset();
    assert!(!a.sanity(&U, &U));
    assert!(!a.sanity(&K, &K));
}

#[test]
fn mutating_one_digest_fails_the_receiver_check() {
    let mut f = sane_receiver();
    f.spending_info.pk[0] ^= 1;
    assert!(!f.sanity(&K));

    let mut f = sane_receiver();
    f.spending_info.rho[0] ^= 1;
    assert!(!f.sanity(&K));

    let mut f = sane_receiver();
    f.shielded_address.k[0] ^= 1;
    assert!(!f.sanity(&K));

    // the address's s is not bound yet
    let mut f = sane_receiver();
    f.shielded_address.s[0] ^= 1;
    assert!(f.sanity(&K));
}
