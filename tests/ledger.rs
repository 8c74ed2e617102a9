use manta_types::{Draft, MantaAsset, MantaError, MantaPrivateAssetLedger, SHARD_COUNT};

fn commitment(first: u8, fill: u8) -> [u8; 32] {
    let mut c = [fill; 32];
    c[0] = first;
    c
}

#[test]
fn fresh_ledger_holds_nothing() {
    let ledger = MantaPrivateAssetLedger::new();
    assert_eq!(ledger.shard.len(), SHARD_COUNT);
    assert!(!ledger.exist(&[0u8; 32]));
    assert!(!ledger.exist(&commitment(255, 1)));
    assert!(ledger.check_root(&[0u8; 32]));
    assert!(!ledger.check_root(&[1u8; 32]));
}

#[test]
fn update_appends_to_the_shard_of_the_first_byte() {
    let mut ledger = MantaPrivateAssetLedger::new();
    let c = commitment(200, 9);
    let leaves = ledger.leaves_after(&c);
    assert_eq!(leaves, vec![c]);
    ledger.update(&c, [0xabu8; 32]);
    assert!(ledger.exist(&c));
    assert!(ledger.check_root(&[0xabu8; 32]));
    assert_eq!(ledger.shard[200].list, vec![c]);
    assert_eq!(ledger.shard[200].root, [0xabu8; 32]);
    for i in 0..SHARD_COUNT {
        if i != 200 {
            assert!(ledger.shard[i].list.is_empty());
        }
    }
    // same bytes after the first, another shard
    assert!(!ledger.exist(&commitment(201, 9)));
}

#[test]
fn duplicates_are_appended_again() {
    let mut ledger = MantaPrivateAssetLedger::default();
    let c = commitment(3, 3);
    ledger.update(&c, [1u8; 32]);
    let leaves = ledger.leaves_after(&c);
    assert_eq!(leaves, vec![c, c]);
    ledger.update(&c, [2u8; 32]);
    assert_eq!(ledger.shard[3].list.len(), 2);
    assert!(!ledger.check_root(&[1u8; 32]));
    assert!(ledger.check_root(&[2u8; 32]));
}

#[test]
fn earlier_commitments_stay() {
    let mut ledger = MantaPrivateAssetLedger::new();
    let a = commitment(0, 1);
    let b = commitment(0, 2);
    let c = commitment(255, 3);
    ledger.update(&a, [1u8; 32]);
    ledger.update(&b, [2u8; 32]);
    ledger.update(&c, [3u8; 32]);
    assert!(ledger.exist(&a) && ledger.exist(&b) && ledger.exist(&c));
    assert_eq!(ledger.shard[0].list, vec![a, b]);
    assert!(ledger.check_root(&[2u8; 32]));
    assert!(ledger.check_root(&[3u8; 32]));
}

#[test]
fn leaf_position_finds_the_first_match() {
    let d = Draft::new(&[1u8; 32], 0, [2u8; 32], [3u8; 32], [4u8; 32]);
    let asset: MantaAsset = d.into_asset(5, [6u8; 32], [7u8; 32]);
    let leaves = vec![[0u8; 32], [7u8; 32], [7u8; 32]];
    assert_eq!(asset.leaf_position(&leaves), Ok(1));
    assert_eq!(asset.leaf_position(&vec![[0u8; 32]]), Err(MantaError::LeavesNotFound));
    assert_eq!(asset.leaf_position(&Vec::new()), Err(MantaError::LeavesNotFound));
}
