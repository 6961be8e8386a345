use pbtc_core::canon::{
    does_canon_block_require_updating, maybe_get_nth_ancestor_block,
    maybe_get_nth_ancestor_of_latest_block, maybe_update_canon_block_hash,
    maybe_update_eth_canon_block_hash, EthState,
};
use pbtc_core::chain_store::{BlockRecord, ChainStore};
use pbtc_core::error::BridgeError;

fn block_hash(k: u8) -> Vec<u8> {
    vec![k; 32]
}

/// A chain of `n` blocks, each the parent of the next.
fn get_sequential_eth_blocks_and_receipts(n: u8) -> Vec<BlockRecord> {
    (0..n)
        .map(|k| {
            BlockRecord::new(
                block_hash(k + 1),
                block_hash(k),
                8_503_800 + k as u64,
                vec![0xab, k],
            )
        })
        .collect()
}

fn get_test_database() -> ChainStore {
    ChainStore::new()
}

#[test]
fn should_return_true_if_canon_block_requires_updating() {
    let mut db = get_test_database();
    let blocks_and_receipts = get_sequential_eth_blocks_and_receipts(5);
    let canon_block = blocks_and_receipts[0].clone();
    let calculated_canon_block = blocks_and_receipts[1].clone();
    db.put_canon_block(canon_block);
    let result = does_canon_block_require_updating(&db, &calculated_canon_block).unwrap();
    assert!(result);
}

#[test]
fn should_return_false_if_canon_block_does_not_require_updating() {
    let mut db = get_test_database();
    let blocks_and_receipts = get_sequential_eth_blocks_and_receipts(5);
    let canon_block = blocks_and_receipts[0].clone();
    let calculated_canon_block = blocks_and_receipts[0].clone();
    db.put_canon_block(canon_block);
    let result = does_canon_block_require_updating(&db, &calculated_canon_block).unwrap();
    assert!(!result);
}

#[test]
fn should_return_block_if_nth_ancestor_of_latest_block_exists() {
    let mut db = get_test_database();
    let blocks_and_receipts = get_sequential_eth_blocks_and_receipts(5);
    let block_1 = blocks_and_receipts[0].clone();
    let block_2 = blocks_and_receipts[1].clone();
    db.put_block(block_1.clone());
    db.put_latest_block(block_2);
    let result = maybe_get_nth_ancestor_of_latest_block(&db, &1);
    assert!(result == Some(block_1));
}

#[test]
fn should_return_none_if_nth_ancestor_of_latest_block_does_not_exist() {
    let mut db = get_test_database();
    let blocks_and_receipts = get_sequential_eth_blocks_and_receipts(5);
    let block_1 = blocks_and_receipts[0].clone();
    db.put_latest_block(block_1);
    let result = maybe_get_nth_ancestor_of_latest_block(&db, &1);
    assert!(result == None);
}

#[test]
fn should_maybe_update_canon_block_hash() {
    let mut db = get_test_database();
    let blocks_and_receipts = get_sequential_eth_blocks_and_receipts(5);
    let canon_block = blocks_and_receipts[0].clone();
    let block_1 = blocks_and_receipts[1].clone();
    let latest_block = blocks_and_receipts[2].clone();
    let expected_canon_block_hash = block_1.hash.clone();
    let canon_block_hash_before = canon_block.hash.clone();
    db.put_canon_block(canon_block);
    db.put_block(block_1);
    db.put_latest_block(latest_block);
    maybe_update_canon_block_hash(&mut db, &1);
    let canon_block_hash_after = db.get_canon_block_hash().unwrap();
    assert!(canon_block_hash_before != canon_block_hash_after);
    assert!(canon_block_hash_after == expected_canon_block_hash);
}

#[test]
fn should_not_maybe_update_canon_block_hash() {
    let mut db = get_test_database();
    let blocks_and_receipts = get_sequential_eth_blocks_and_receipts(5);
    let canon_block = blocks_and_receipts[0].clone();
    let latest_block = blocks_and_receipts[1].clone();
    let canon_block_hash_before = canon_block.hash.clone();
    db.put_canon_block(canon_block);
    db.put_latest_block(latest_block);
    maybe_update_canon_block_hash(&mut db, &1);
    let canon_block_hash_after = db.get_canon_block_hash().unwrap();
    assert!(canon_block_hash_before == canon_block_hash_after);
}

fn block_at(hash: u8, parent: u8, height: u64) -> BlockRecord {
    BlockRecord::new(block_hash(hash), block_hash(parent), height, vec![])
}

#[test]
fn advances_when_ancestor_is_one_block_higher_than_canon() {
    let mut db = get_test_database();
    db.put_canon_block(block_at(10, 9, 10));
    db.put_block(block_at(11, 10, 11));
    db.put_latest_block(block_at(12, 11, 12));
    assert!(maybe_update_canon_block_hash(&mut db, &1));
    assert_eq!(db.get_canon_block_hash(), Some(block_hash(11)));
    assert_eq!(db.get_canon_block().unwrap().height, 11);
}

#[test]
fn stays_when_ancestor_is_as_high_as_canon() {
    let mut db = get_test_database();
    db.put_canon_block(block_at(20, 9, 11));
    db.put_block(block_at(11, 10, 11));
    db.put_latest_block(block_at(12, 11, 12));
    assert!(!maybe_update_canon_block_hash(&mut db, &1));
    assert_eq!(db.get_canon_block_hash(), Some(block_hash(20)));
}

#[test]
fn advances_to_an_ancestor_many_blocks_ahead() {
    let mut db = get_test_database();
    let blocks = get_sequential_eth_blocks_and_receipts(6);
    db.put_canon_block(blocks[0].clone());
    for b in &blocks[1..5] {
        db.put_block(b.clone());
    }
    db.put_latest_block(blocks[5].clone());
    assert!(maybe_update_canon_block_hash(&mut db, &1));
    assert_eq!(db.get_canon_block_hash(), Some(blocks[4].hash.clone()));
}

#[test]
fn stays_when_the_walk_meets_a_missing_parent() {
    let mut db = get_test_database();
    let blocks = get_sequential_eth_blocks_and_receipts(5);
    db.put_canon_block(blocks[0].clone());
    db.put_block(blocks[1].clone());
    db.put_block(blocks[3].clone());
    db.put_latest_block(blocks[4].clone());
    assert!(!maybe_update_canon_block_hash(&mut db, &3));
    assert_eq!(db.get_canon_block_hash(), Some(blocks[0].hash.clone()));
}

#[test]
fn stays_without_a_latest_block() {
    let mut db = get_test_database();
    let blocks = get_sequential_eth_blocks_and_receipts(3);
    db.put_canon_block(blocks[0].clone());
    db.put_block(blocks[1].clone());
    db.put_block(blocks[2].clone());
    assert!(!maybe_update_canon_block_hash(&mut db, &1));
    assert_eq!(db.get_canon_block_hash(), Some(blocks[0].hash.clone()));
}

#[test]
fn stays_without_a_canon_block() {
    let mut db = get_test_database();
    let blocks = get_sequential_eth_blocks_and_receipts(3);
    db.put_block(blocks[1].clone());
    db.put_latest_block(blocks[2].clone());
    assert!(!maybe_update_canon_block_hash(&mut db, &1));
    assert_eq!(db.get_canon_block_hash(), None);
}

#[test]
fn zero_depth_makes_the_latest_block_canon() {
    let mut db = get_test_database();
    let blocks = get_sequential_eth_blocks_and_receipts(3);
    db.put_canon_block(blocks[1].clone());
    db.put_latest_block(blocks[2].clone());
    assert!(maybe_update_canon_block_hash(&mut db, &0));
    assert_eq!(db.get_canon_block_hash(), Some(blocks[2].hash.clone()));
}

#[test]
fn second_advance_in_a_row_is_a_no_op() {
    let mut db = get_test_database();
    let blocks = get_sequential_eth_blocks_and_receipts(4);
    db.put_canon_block(blocks[0].clone());
    db.put_block(blocks[1].clone());
    db.put_block(blocks[2].clone());
    db.put_latest_block(blocks[3].clone());
    assert!(maybe_update_canon_block_hash(&mut db, &1));
    let after_first = db.get_canon_block_hash();
    assert!(!maybe_update_canon_block_hash(&mut db, &1));
    assert_eq!(db.get_canon_block_hash(), after_first);
}

#[test]
fn canon_height_never_decreases_while_blocks_arrive() {
    let mut db = get_test_database();
    let blocks = get_sequential_eth_blocks_and_receipts(10);
    db.put_canon_block(blocks[0].clone());
    let mut last_height = blocks[0].height;
    for b in &blocks[1..] {
        db.put_latest_block(b.clone());
        maybe_update_canon_block_hash(&mut db, &2);
        let h = db.get_canon_block().unwrap().height;
        assert!(h >= last_height);
        last_height = h;
    }
    assert_eq!(last_height, blocks[7].height);
}

#[test]
fn a_stored_block_is_not_overwritten() {
    let mut db = get_test_database();
    db.put_block(block_at(5, 4, 50));
    db.put_block(block_at(5, 7, 70));
    let b = db.get_block(&block_hash(5)).unwrap();
    assert_eq!(b.height, 50);
    assert_eq!(b.parent_hash, block_hash(4));
}

#[test]
fn walks_n_parents_from_a_given_hash() {
    let mut db = get_test_database();
    let blocks = get_sequential_eth_blocks_and_receipts(4);
    for b in &blocks {
        db.put_block(b.clone());
    }
    assert!(maybe_get_nth_ancestor_block(&db, &blocks[3].hash, 0) == Some(blocks[3].clone()));
    assert!(maybe_get_nth_ancestor_block(&db, &blocks[3].hash, 3) == Some(blocks[0].clone()));
    assert!(maybe_get_nth_ancestor_block(&db, &blocks[3].hash, 4).is_none());
}

#[test]
fn canon_stage_fails_without_a_confirmation_depth() {
    let mut db = get_test_database();
    let blocks = get_sequential_eth_blocks_and_receipts(3);
    db.put_canon_block(blocks[0].clone());
    db.put_block(blocks[1].clone());
    db.put_latest_block(blocks[2].clone());
    let result = maybe_update_eth_canon_block_hash(EthState { db });
    assert!(matches!(result, Err(BridgeError::ConfigurationMissing)));
}

#[test]
fn canon_stage_advances_with_the_configured_depth() {
    let mut db = get_test_database();
    let blocks = get_sequential_eth_blocks_and_receipts(3);
    db.put_canon_block(blocks[0].clone());
    db.put_block(blocks[1].clone());
    db.put_latest_block(blocks[2].clone());
    db.put_confirmation_depth(1);
    let state = maybe_update_eth_canon_block_hash(EthState { db }).ok().unwrap();
    assert_eq!(state.db.get_canon_block_hash(), Some(blocks[1].hash.clone()));
    assert_eq!(state.db.get_confirmation_depth(), Some(1));
}
