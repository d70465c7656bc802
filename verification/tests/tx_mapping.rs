use kasplex::bytes::{tx_hash_from_bytes, tx_hash_to_bytes};
use kasplex::tx_mapping::{reorg_counter_settled, TxHash, TxMapping, UNEXECUTED_TX_RETENTION_BLOCKS};
use std::collections::BTreeMap;

fn sample_hash(seed: u8) -> TxHash {
    let mut bytes = [0u8; 32];
    for (i, b) in bytes.iter_mut().enumerate() {
        *b = seed.wrapping_mul(31).wrapping_add(i as u8 * 7);
    }
    tx_hash_from_bytes(&bytes)
}

#[test]
fn test_tx_mapping_basic() {
    let mut mapping = TxMapping::new();
    let hash = sample_hash(1);

    // Initially empty
    assert!(mapping.is_empty());
    assert_eq!(mapping.get_tx_number(hash), None);

    // Insert and retrieve
    mapping.insert(hash, 100);
    assert_eq!(mapping.peek_tx_number(hash), Some(100));
    assert_eq!(mapping.get_tx_number(hash), Some(100));
    assert_eq!(mapping.get_tx_number(hash), None); // Should be removed after get
}

#[test]
fn test_reorg_operations() {
    let mut mapping = TxMapping::new();

    assert_eq!(mapping.get_reorg_num(), 0);
    assert!(mapping.is_reorg_complete());

    mapping.mark_start_pool_reorg();
    assert_eq!(mapping.get_reorg_num(), 1);
    assert!(!mapping.is_reorg_complete());

    mapping.mark_pool_reorged();
    assert_eq!(mapping.get_reorg_num(), 0);
    assert!(mapping.is_reorg_complete());

    mapping.clear_pool_reorged();
    assert_eq!(mapping.get_reorg_num(), 0);
}

#[test]
fn test_deleted_transactions() {
    let mut mapping = TxMapping::new();
    let hash = sample_hash(2);

    assert!(!mapping.is_deleted_transaction(hash));

    mapping.add_deleted_transaction(hash);
    assert!(mapping.is_deleted_transaction(hash));

    mapping.clear_deleted_transaction();
    assert!(!mapping.is_deleted_transaction(hash));
}

#[test]
fn insert_overwrites_and_len_counts_distinct_hashes() {
    let mut mapping = TxMapping::new();
    let a = sample_hash(3);
    let b = sample_hash(4);
    mapping.insert(a, 1);
    mapping.insert(b, 2);
    mapping.insert(a, 7);
    assert_eq!(mapping.len(), 2);
    assert!(!mapping.is_empty());
    assert_eq!(mapping.peek_tx_number(a), Some(7));
    assert!(mapping.contains_key(b));
    assert_eq!(mapping.remove(b), Some(2));
    assert!(!mapping.contains_key(b));
    assert_eq!(mapping.remove(b), None);
    mapping.clear();
    assert!(mapping.is_empty());
    assert_eq!(mapping.len(), 0);
}

#[test]
fn set_mapping_replaces_all_entries() {
    let mut mapping = TxMapping::new();
    let a = sample_hash(5);
    let b = sample_hash(6);
    mapping.insert(a, 1);
    let mut dic = BTreeMap::new();
    dic.insert(b, 9u64);
    mapping.set_mapping(dic);
    assert!(!mapping.contains_key(a));
    assert_eq!(mapping.peek_tx_number(b), Some(9));
    assert_eq!(mapping.len(), 1);
}

#[test]
fn reorg_counter_wraps_and_negative_counts_as_complete() {
    let mut mapping = TxMapping::new();
    mapping.mark_pool_reorged();
    assert_eq!(mapping.get_reorg_num(), -1);
    assert!(mapping.is_reorg_complete());
    mapping.clear_pool_reorged();
    for _ in 0..3 {
        mapping.mark_start_pool_reorg();
    }
    assert_eq!(mapping.get_reorg_num(), 3);
    assert!(!mapping.is_reorg_complete());
    mapping.mark_start_pool_reorg();
    mapping.clear_deleted_transaction();
    assert_eq!(mapping.get_reorg_num(), 0);
    assert!(reorg_counter_settled(0));
    assert!(reorg_counter_settled(i32::MIN));
    assert!(!reorg_counter_settled(1));
}

#[test]
fn deleted_set_is_independent_of_mapping() {
    let mut mapping = TxMapping::new();
    let a = sample_hash(7);
    mapping.insert(a, 5);
    mapping.add_deleted_transaction(a);
    mapping.clear_deleted_transaction();
    assert_eq!(mapping.peek_tx_number(a), Some(5));
    assert!(!mapping.is_deleted_transaction(a));
}

#[test]
fn tx_hash_bytes_round_trip() {
    let mut bytes = [0u8; 32];
    for (i, b) in bytes.iter_mut().enumerate() {
        *b = (i as u8).wrapping_mul(13).wrapping_add(200);
    }
    let h = tx_hash_from_bytes(&bytes);
    assert_eq!(h.0, u64::from_be_bytes(bytes[0..8].try_into().unwrap()));
    assert_eq!(h.3, u64::from_be_bytes(bytes[24..32].try_into().unwrap()));
    assert_eq!(tx_hash_to_bytes(h), bytes);
}

#[test]
fn retention_constant() {
    assert_eq!(UNEXECUTED_TX_RETENTION_BLOCKS, 100);
}
