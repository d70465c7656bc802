use kasplex::bytes::{address_key_from_bytes, address_key_to_bytes};
use kasplex::txpool::{
    compute_effective_tip, tx_pool_content, tx_pool_content_with_min_tip, PoolTransaction,
};

fn ptx(sender: u8, nonce: u64, max_fee: u128, priority: Option<u128>, tag: &'static str) -> PoolTransaction<&'static str> {
    PoolTransaction {
        sender: address_key_from_bytes(&[sender; 20]),
        nonce,
        max_fee_per_gas: max_fee,
        max_priority_fee_per_gas: priority,
        transaction: tag,
    }
}

fn u256(v: u128) -> [u8; 32] {
    let mut out = [0u8; 32];
    out[16..].copy_from_slice(&v.to_be_bytes());
    out
}

#[test]
fn effective_tip_values() {
    assert_eq!(compute_effective_tip(100, Some(5), 90), 5);
    assert_eq!(compute_effective_tip(100, Some(50), 90), 10);
    assert_eq!(compute_effective_tip(100, None, 90), 10);
    assert_eq!(compute_effective_tip(90, Some(5), 90), 0);
    assert_eq!(compute_effective_tip(10, None, 90), 0);
    assert_eq!(compute_effective_tip(u128::MAX, None, 0), u128::MAX);
}

#[test]
fn content_groups_by_sender_and_nonce() {
    let pending = vec![ptx(1, 0, 10, None, "a0"), ptx(1, 1, 10, None, "a1"), ptx(2, 0, 10, None, "b0"), ptx(1, 0, 10, None, "a0'")];
    let queued = vec![ptx(3, 5, 10, None, "c5")];
    let content = tx_pool_content(pending, queued);
    let a = address_key_from_bytes(&[1u8; 20]);
    let b = address_key_from_bytes(&[2u8; 20]);
    let c = address_key_from_bytes(&[3u8; 20]);
    assert_eq!(content.pending.len(), 2);
    assert_eq!(content.pending[&a].len(), 2);
    assert_eq!(content.pending[&a][&0], "a0'");
    assert_eq!(content.pending[&a][&1], "a1");
    assert_eq!(content.pending[&b][&0], "b0");
    assert_eq!(content.queued.len(), 1);
    assert_eq!(content.queued[&c][&5], "c5");
}

#[test]
fn content_with_min_tip_filters() {
    let pending = vec![
        ptx(1, 0, 100, Some(5), "low"),
        ptx(1, 1, 100, Some(20), "high"),
        ptx(2, 0, 95, None, "capped"),
    ];
    let content = tx_pool_content_with_min_tip(pending, vec![], &u256(10), 90);
    let a = address_key_from_bytes(&[1u8; 20]);
    let b = address_key_from_bytes(&[2u8; 20]);
    assert_eq!(content.pending.len(), 1);
    assert_eq!(content.pending[&a].len(), 1);
    assert_eq!(content.pending[&a][&1], "high");
    assert!(!content.pending.contains_key(&b));
    assert!(content.queued.is_empty());
}

#[test]
fn min_tip_zero_keeps_everything_and_huge_min_tip_keeps_nothing() {
    let txs = || vec![ptx(1, 0, 10, Some(0), "x"), ptx(2, 0, 0, None, "y")];
    let all = tx_pool_content_with_min_tip(txs(), txs(), &[0u8; 32], 50);
    assert_eq!(all.pending.len(), 2);
    assert_eq!(all.queued.len(), 2);
    let mut huge = [0u8; 32];
    huge[0] = 1;
    let none = tx_pool_content_with_min_tip(vec![ptx(1, 0, u128::MAX, None, "x")], vec![], &huge, 0);
    assert!(none.pending.is_empty());
    let exact = tx_pool_content_with_min_tip(vec![ptx(1, 0, u128::MAX, None, "x")], vec![], &u256(u128::MAX), 0);
    assert_eq!(exact.pending.len(), 1);
}

#[test]
fn address_key_round_trip() {
    let mut a = [0u8; 20];
    for (i, b) in a.iter_mut().enumerate() {
        *b = 255 - i as u8;
    }
    let k = address_key_from_bytes(&a);
    assert_eq!(k.2, u32::from_be_bytes([a[16], a[17], a[18], a[19]]));
    assert_eq!(address_key_to_bytes(k), a);
}

#[test]
fn base_fee_defaults_to_zero() {
    assert_eq!(kasplex::txpool::base_fee_or_zero(Some(7)), 7);
    assert_eq!(kasplex::txpool::base_fee_or_zero(None), 0);
}
