//! Transaction pool content for the authenticated Kasplex RPC: pool
//! transactions grouped by sender and nonce, optionally only those whose
//! effective tip reaches a minimum.

use vstd::prelude::*;
use std::collections::BTreeMap;
use crate::bytes::{be_value, u128_at_least};

verus! {

broadcast use {vstd::std_specs::btree::group_btree_axioms, vstd::laws_cmp::group_laws_cmp};

/// A 20-byte account address, held as its big-endian words: bytes 0..8,
/// bytes 8..16 and bytes 16..20.
pub type SenderKey = (u64, u64, u32);

/// What the pool content reads of a pool transaction.
pub struct PoolTransaction<T> {
    /// The sender of the transaction.
    pub sender: SenderKey,
    /// The nonce of the transaction.
    pub nonce: u64,
    /// The maximum fee per gas the sender is willing to pay.
    pub max_fee_per_gas: u128,
    /// The maximum priority fee per gas, for transactions that have one.
    pub max_priority_fee_per_gas: Option<u128>,
    /// The transaction, as it is shown in the content.
    pub transaction: T,
}

/// Pool transactions by sender, then by nonce.
pub type SenderNonceMap<T> = BTreeMap<SenderKey, BTreeMap<u64, T>>;

/// The content of the transaction pool: the pending and the queued
/// transactions, each by sender and nonce.
pub struct TxpoolContent<T> {
    /// Pending transactions.
    pub pending: SenderNonceMap<T>,
    /// Queued transactions.
    pub queued: SenderNonceMap<T>,
}

/// The contents of a map of maps.
pub open spec fn nested_view<T>(m: Map<SenderKey, BTreeMap<u64, T>>) -> Map<SenderKey, Map<u64, T>> {
    Map::new(|k: SenderKey| m.contains_key(k), |k: SenderKey| m[k]@)
}

/// `m` with `tx` added under its sender and nonce, replacing a transaction
/// already there.
pub open spec fn insert_by_sender<T>(
    m: Map<SenderKey, Map<u64, T>>,
    sender: SenderKey,
    nonce: u64,
    tx: T,
) -> Map<SenderKey, Map<u64, T>> {
    let inner = if m.contains_key(sender) {
        m[sender]
    } else {
        Map::empty()
    };
    m.insert(sender, inner.insert(nonce, tx))
}

/// The transactions `txs`, in order, grouped by sender and nonce; a later
/// transaction replaces an earlier one with the same sender and nonce.
pub open spec fn group_by_sender<T>(txs: Seq<PoolTransaction<T>>) -> Map<SenderKey, Map<u64, T>>
    decreases txs.len(),
{
    if txs.len() == 0 {
        Map::empty()
    } else {
        let tx = txs.last();
        insert_by_sender(group_by_sender(txs.drop_last()), tx.sender, tx.nonce, tx.transaction)
    }
}

/// The effective tip of a transaction under a base fee:
/// `min(max_fee_per_gas - base_fee, max_priority_fee_per_gas)` when the fee
/// cap exceeds the base fee (the priority fee counts only when there is one),
/// and zero otherwise.
pub open spec fn effective_tip(max_fee_per_gas: u128, max_priority_fee_per_gas: Option<u128>, base_fee: u64) -> int {
    if max_fee_per_gas > base_fee {
        let fee_cap_tip = max_fee_per_gas - base_fee;
        match max_priority_fee_per_gas {
            Some(p) => if p < fee_cap_tip {
                p as int
            } else {
                fee_cap_tip
            },
            None => fee_cap_tip,
        }
    } else {
        0
    }
}

/// Whether a transaction's effective tip reaches `min_tip`.
pub open spec fn tip_qualifies<T>(tx: PoolTransaction<T>, min_tip: nat, base_fee: u64) -> bool {
    effective_tip(tx.max_fee_per_gas, tx.max_priority_fee_per_gas, base_fee) >= min_tip
}

/// The transactions of `txs` whose effective tip reaches `min_tip`, grouped
/// by sender and nonce as `group_by_sender` does.
pub open spec fn group_qualifying<T>(txs: Seq<PoolTransaction<T>>, min_tip: nat, base_fee: u64) -> Map<
    SenderKey,
    Map<u64, T>,
>
    decreases txs.len(),
{
    if txs.len() == 0 {
        Map::empty()
    } else {
        let tx = txs.last();
        let m = group_qualifying(txs.drop_last(), min_tip, base_fee);
        if tip_qualifies(tx, min_tip, base_fee) {
            insert_by_sender(m, tx.sender, tx.nonce, tx.transaction)
        } else {
            m
        }
    }
}

/// Computes the effective tip of a transaction under a base fee.
pub fn compute_effective_tip(
    max_fee_per_gas: u128,
    max_priority_fee_per_gas: Option<u128>,
    base_fee: u64,
) -> (r: u128)
    ensures
        r == effective_tip(max_fee_per_gas, max_priority_fee_per_gas, base_fee),
{
    if max_fee_per_gas > base_fee as u128 {
        let fee_cap_tip = max_fee_per_gas - base_fee as u128;
        match max_priority_fee_per_gas {
            Some(priority_fee) => if priority_fee < fee_cap_tip {
                priority_fee
            } else {
                fee_cap_tip
            },
            None => fee_cap_tip,
        }
    } else {
        0
    }
}

/// Adds `tx` to `content` under its sender and nonce.
fn insert_tx<T>(content: &mut SenderNonceMap<T>, sender: SenderKey, nonce: u64, tx: T)
    ensures
        nested_view(final(content)@) == insert_by_sender(nested_view(old(content)@), sender, nonce, tx),
{
    let ghost before = nested_view(content@);
    let mut inner = match content.remove(&sender) {
        Some(m) => m,
        None => BTreeMap::new(),
    };
    assert(inner@ == if before.contains_key(sender) {
        before[sender]
    } else {
        Map::<u64, T>::empty()
    });
    inner.insert(nonce, tx);
    content.insert(sender, inner);
    assert(nested_view(content@) =~= insert_by_sender(before, sender, nonce, tx));
}

/// Groups pool transactions by sender and nonce.
pub fn group_pool_transactions<T>(txs: Vec<PoolTransaction<T>>) -> (r: SenderNonceMap<T>)
    ensures
        nested_view(r@) == group_by_sender(txs@),
{
    let mut content: SenderNonceMap<T> = BTreeMap::new();
    assert(nested_view(content@) =~= Map::empty());
    let ghost all = txs@;
    for tx in it: txs.into_iter()
        invariant
            it.seq() == all,
            nested_view(content@) == group_by_sender(all.take(it.index())),
    {
        assert(all.take(it.index() + 1).drop_last() =~= all.take(it.index()));
        insert_tx(&mut content, tx.sender, tx.nonce, tx.transaction);
    }
    assert(all.take(all.len() as int) =~= all);
    content
}

/// Groups the pool transactions whose effective tip under `base_fee`
/// reaches `min_tip` (a 256-bit number given as its 32 big-endian bytes) by
/// sender and nonce.
pub fn group_pool_transactions_with_min_tip<T>(
    txs: Vec<PoolTransaction<T>>,
    min_tip: &[u8; 32],
    base_fee: u64,
) -> (r: SenderNonceMap<T>)
    ensures
        nested_view(r@) == group_qualifying(txs@, be_value(min_tip@), base_fee),
{
    let mut content: SenderNonceMap<T> = BTreeMap::new();
    assert(nested_view(content@) =~= Map::empty());
    let ghost all = txs@;
    let ghost min = be_value(min_tip@);
    for tx in it: txs.into_iter()
        invariant
            it.seq() == all,
            min == be_value(min_tip@),
            nested_view(content@) == group_qualifying(all.take(it.index()), min, base_fee),
    {
        assert(all.take(it.index() + 1).drop_last() =~= all.take(it.index()));
        let tip = compute_effective_tip(tx.max_fee_per_gas, tx.max_priority_fee_per_gas, base_fee);
        if u128_at_least(tip, min_tip) {
            insert_tx(&mut content, tx.sender, tx.nonce, tx.transaction);
        }
    }
    assert(all.take(all.len() as int) =~= all);
    content
}

/// The content of the transaction pool: its pending and its queued
/// transactions, each grouped by sender and nonce.
pub fn tx_pool_content<T>(pending: Vec<PoolTransaction<T>>, queued: Vec<PoolTransaction<T>>) -> (r:
    TxpoolContent<T>)
    ensures
        nested_view(r.pending@) == group_by_sender(pending@),
        nested_view(r.queued@) == group_by_sender(queued@),
{
    TxpoolContent {
        pending: group_pool_transactions(pending),
        queued: group_pool_transactions(queued),
    }
}

/// The content of the transaction pool restricted to the transactions whose
/// effective tip under `base_fee` (the base fee of the latest block, zero if
/// unknown) reaches `min_tip` (a 256-bit number given as its 32 big-endian
/// bytes).
pub fn tx_pool_content_with_min_tip<T>(
    pending: Vec<PoolTransaction<T>>,
    queued: Vec<PoolTransaction<T>>,
    min_tip: &[u8; 32],
    base_fee: u64,
) -> (r: TxpoolContent<T>)
    ensures
        nested_view(r.pending@) == group_qualifying(pending@, be_value(min_tip@), base_fee),
        nested_view(r.queued@) == group_qualifying(queued@, be_value(min_tip@), base_fee),
{
    TxpoolContent {
        pending: group_pool_transactions_with_min_tip(pending, min_tip, base_fee),
        queued: group_pool_transactions_with_min_tip(queued, min_tip, base_fee),
    }
}

/// Law: the effective tip never exceeds the fee cap above the base fee, nor
/// the priority fee when there is one, and is never negative.
pub proof fn law_effective_tip_bounds(max_fee_per_gas: u128, max_priority_fee_per_gas: Option<u128>, base_fee: u64)
    ensures
        0 <= effective_tip(max_fee_per_gas, max_priority_fee_per_gas, base_fee),
        max_fee_per_gas > base_fee ==> effective_tip(max_fee_per_gas, max_priority_fee_per_gas, base_fee)
            <= max_fee_per_gas - base_fee,
        max_priority_fee_per_gas matches Some(p) ==> effective_tip(
            max_fee_per_gas,
            max_priority_fee_per_gas,
            base_fee,
        ) <= p,
{
}

/// Law: with a minimum tip of zero, the filtered content is the whole
/// content: `tx_pool_content_with_min_tip` with a zero minimum gives what
/// `tx_pool_content` gives.
pub proof fn law_zero_min_tip_keeps_all<T>(txs: Seq<PoolTransaction<T>>, base_fee: u64)
    ensures
        group_qualifying(txs, 0, base_fee) == group_by_sender(txs),
    decreases txs.len(),
{
    if txs.len() > 0 {
        law_zero_min_tip_keeps_all(txs.drop_last(), base_fee);
    }
}

/// Law: raising the minimum tip never adds a transaction: every sender and
/// nonce present in the content filtered by the higher minimum is present in
/// the content filtered by the lower one.
pub proof fn law_min_tip_monotone<T>(txs: Seq<PoolTransaction<T>>, low: nat, high: nat, base_fee: u64)
    requires
        low <= high,
    ensures
        forall|s: SenderKey, n: u64|
            #![trigger group_qualifying(txs, high, base_fee)[s].contains_key(n)]
            group_qualifying(txs, high, base_fee).contains_key(s) && group_qualifying(
                txs,
                high,
                base_fee,
            )[s].contains_key(n) ==> group_qualifying(txs, low, base_fee).contains_key(s)
                && group_qualifying(txs, low, base_fee)[s].contains_key(n),
    decreases txs.len(),
{
    if txs.len() > 0 {
        let p = txs.drop_last();
        let tx = txs.last();
        law_min_tip_monotone(p, low, high, base_fee);
        let mh = group_qualifying(p, high, base_fee);
        let ml = group_qualifying(p, low, base_fee);
        assert forall|s: SenderKey, n: u64|
            group_qualifying(txs, high, base_fee).contains_key(s) && #[trigger] group_qualifying(
                txs,
                high,
                base_fee,
            )[s].contains_key(n) implies group_qualifying(txs, low, base_fee).contains_key(s)
            && group_qualifying(txs, low, base_fee)[s].contains_key(n) by {
            if !(s == tx.sender && n == tx.nonce && tip_qualifies(tx, high, base_fee)) {
                assert(mh.contains_key(s) && mh[s].contains_key(n));
                assert(ml.contains_key(s) && ml[s].contains_key(n));
            }
        }
    }
}

/// The base fee used to compute effective tips: that of the latest header,
/// or zero when there is no header or it has no base fee.
pub fn base_fee_or_zero(latest_header_base_fee: Option<u64>) -> (r: u64)
    ensures
        r == match latest_header_base_fee {
            Some(b) => b,
            None => 0,
        },
{
    match latest_header_base_fee {
        Some(b) => b,
        None => 0,
    }
}

/// No two transactions of `txs` have the same sender and nonce.
pub open spec fn unique_sender_nonce<T>(txs: Seq<PoolTransaction<T>>) -> bool {
    forall|i: int, j: int|
        0 <= i < j < txs.len() ==> !((#[trigger] txs[i]).sender == (#[trigger] txs[j]).sender
            && txs[i].nonce == txs[j].nonce)
}

/// Law: when no two pool transactions share a sender and nonce, raising the
/// minimum tip only drops entries: every entry of the content filtered by the
/// higher minimum is in the content filtered by the lower one, with the same
/// transaction.
pub proof fn law_min_tip_monotone_entries<T>(
    txs: Seq<PoolTransaction<T>>,
    low: nat,
    high: nat,
    base_fee: u64,
)
    requires
        low <= high,
        unique_sender_nonce(txs),
    ensures
        forall|s: SenderKey, n: u64|
            #![trigger group_qualifying(txs, high, base_fee)[s].contains_key(n)]
            group_qualifying(txs, high, base_fee).contains_key(s) && group_qualifying(
                txs,
                high,
                base_fee,
            )[s].contains_key(n) ==> group_qualifying(txs, low, base_fee).contains_key(s)
                && group_qualifying(txs, low, base_fee)[s].contains_key(n) && group_qualifying(
                txs,
                low,
                base_fee,
            )[s][n] == group_qualifying(txs, high, base_fee)[s][n],
    decreases txs.len(),
{
    if txs.len() > 0 {
        let p = txs.drop_last();
        let tx = txs.last();
        assert forall|i: int, j: int|
            0 <= i < j < p.len() implies !((#[trigger] p[i]).sender == (#[trigger] p[j]).sender
            && p[i].nonce == p[j].nonce) by {
            assert(p[i] == txs[i] && p[j] == txs[j]);
        }
        law_min_tip_monotone_entries(p, low, high, base_fee);
        lemma_group_qualifying_keys(p, high, base_fee);
        let mh = group_qualifying(p, high, base_fee);
        let ml = group_qualifying(p, low, base_fee);
        assert forall|s: SenderKey, n: u64|
            group_qualifying(txs, high, base_fee).contains_key(s) && #[trigger] group_qualifying(
                txs,
                high,
                base_fee,
            )[s].contains_key(n) implies group_qualifying(txs, low, base_fee).contains_key(s)
            && group_qualifying(txs, low, base_fee)[s].contains_key(n) && group_qualifying(
            txs,
            low,
            base_fee,
        )[s][n] == group_qualifying(txs, high, base_fee)[s][n] by {
            if s == tx.sender && n == tx.nonce {
                if !tip_qualifies(tx, high, base_fee) {
                    assert(mh.contains_key(s) && mh[s].contains_key(n));
                    let k = choose|k: int|
                        0 <= k < p.len() && (#[trigger] p[k]).sender == s && p[k].nonce == n;
                    assert(txs[k] == p[k]);
                    assert(txs[txs.len() - 1] == tx);
                    assert(false);
                }
            } else {
                assert(mh.contains_key(s) && mh[s].contains_key(n));
                assert(ml.contains_key(s) && ml[s].contains_key(n) && ml[s][n] == mh[s][n]);
            }
        }
    }
}

/// Every entry of the grouped content comes from a transaction of `txs` with
/// that sender and nonce.
proof fn lemma_group_qualifying_keys<T>(txs: Seq<PoolTransaction<T>>, min_tip: nat, base_fee: u64)
    ensures
        forall|s: SenderKey, n: u64|
            #![trigger group_qualifying(txs, min_tip, base_fee)[s].contains_key(n)]
            group_qualifying(txs, min_tip, base_fee).contains_key(s) && group_qualifying(
                txs,
                min_tip,
                base_fee,
            )[s].contains_key(n) ==> exists|k: int|
                0 <= k < txs.len() && (#[trigger] txs[k]).sender == s && txs[k].nonce == n,
    decreases txs.len(),
{
    if txs.len() > 0 {
        let p = txs.drop_last();
        let tx = txs.last();
        lemma_group_qualifying_keys(p, min_tip, base_fee);
        let m = group_qualifying(p, min_tip, base_fee);
        assert forall|s: SenderKey, n: u64|
            group_qualifying(txs, min_tip, base_fee).contains_key(s) && #[trigger] group_qualifying(
                txs,
                min_tip,
                base_fee,
            )[s].contains_key(n) implies exists|k: int|
            0 <= k < txs.len() && (#[trigger] txs[k]).sender == s && txs[k].nonce == n by {
            if s == tx.sender && n == tx.nonce {
                assert(txs[txs.len() - 1] == tx);
            } else {
                assert(m.contains_key(s) && m[s].contains_key(n));
                let k = choose|k: int| 0 <= k < p.len() && (#[trigger] p[k]).sender == s && p[k].nonce == n;
                assert(txs[k] == p[k]);
            }
        }
    }
}

/// How the grouped content is made of the transactions: an entry is present
/// exactly when some qualifying transaction has its sender and nonce, and it
/// holds the last such transaction.
proof fn lemma_group_qualifying_entries<T>(txs: Seq<PoolTransaction<T>>, min_tip: nat, base_fee: u64)
    ensures
        forall|k: int|
            0 <= k < txs.len() && tip_qualifies(#[trigger] txs[k], min_tip, base_fee) ==> {
                let g = group_qualifying(txs, min_tip, base_fee);
                g.contains_key(txs[k].sender) && g[txs[k].sender].contains_key(txs[k].nonce)
            },
        forall|s: SenderKey, n: u64|
            #![trigger group_qualifying(txs, min_tip, base_fee)[s].contains_key(n)]
            group_qualifying(txs, min_tip, base_fee).contains_key(s) && group_qualifying(
                txs,
                min_tip,
                base_fee,
            )[s].contains_key(n) ==> exists|k: int|
                0 <= k < txs.len() && (#[trigger] txs[k]).sender == s && txs[k].nonce == n
                    && tip_qualifies(txs[k], min_tip, base_fee) && group_qualifying(
                    txs,
                    min_tip,
                    base_fee,
                )[s][n] == txs[k].transaction && forall|j: int|
                    k < j < txs.len() && (#[trigger] txs[j]).sender == s && txs[j].nonce == n
                        ==> !tip_qualifies(txs[j], min_tip, base_fee),
    decreases txs.len(),
{
    if txs.len() > 0 {
        let p = txs.drop_last();
        let last = txs.len() - 1;
        let tx = txs.last();
        assert(txs[last] == tx);
        lemma_group_qualifying_entries(p, min_tip, base_fee);
        let m = group_qualifying(p, min_tip, base_fee);
        let g = group_qualifying(txs, min_tip, base_fee);
        assert forall|k: int|
            0 <= k < txs.len() && tip_qualifies(#[trigger] txs[k], min_tip, base_fee) implies g.contains_key(
            txs[k].sender,
        ) && g[txs[k].sender].contains_key(txs[k].nonce) by {
            if k < last {
                assert(txs[k] == p[k]);
                assert(tip_qualifies(p[k], min_tip, base_fee));
                assert(m.contains_key(p[k].sender) && m[p[k].sender].contains_key(p[k].nonce));
            }
        }
        assert forall|s: SenderKey, n: u64|
            g.contains_key(s) && #[trigger] g[s].contains_key(n) implies exists|k: int|
            0 <= k < txs.len() && (#[trigger] txs[k]).sender == s && txs[k].nonce == n
                && tip_qualifies(txs[k], min_tip, base_fee) && g[s][n] == txs[k].transaction
                && forall|j: int|
                k < j < txs.len() && (#[trigger] txs[j]).sender == s && txs[j].nonce == n
                    ==> !tip_qualifies(txs[j], min_tip, base_fee) by {
            if s == tx.sender && n == tx.nonce && tip_qualifies(tx, min_tip, base_fee) {
                assert(g[s][n] == tx.transaction);
            } else {
                assert(m.contains_key(s) && m[s].contains_key(n) && g[s][n] == m[s][n]);
                let k = choose|k: int|
                    0 <= k < p.len() && (#[trigger] p[k]).sender == s && p[k].nonce == n
                        && tip_qualifies(p[k], min_tip, base_fee) && m[s][n] == p[k].transaction
                        && forall|j: int|
                        k < j < p.len() && (#[trigger] p[j]).sender == s && p[j].nonce == n
                            ==> !tip_qualifies(p[j], min_tip, base_fee);
                assert(txs[k] == p[k]);
                assert forall|j: int|
                    k < j < txs.len() && (#[trigger] txs[j]).sender == s && txs[j].nonce == n
                        implies !tip_qualifies(txs[j], min_tip, base_fee) by {
                    if j < last {
                        assert(txs[j] == p[j]);
                    }
                }
            }
        }
    }
}

/// A transaction's effective tip reaches a minimum tip exactly when the
/// minimum is zero, or the fee cap exceeds the base fee by at least the
/// minimum and the priority fee, when there is one, is at least the minimum.
proof fn lemma_tip_qualifies_explicit<T>(tx: PoolTransaction<T>, min_tip: nat, base_fee: u64)
    ensures
        tip_qualifies(tx, min_tip, base_fee) <==> (min_tip == 0 || (tx.max_fee_per_gas >= base_fee
            + min_tip && (tx.max_priority_fee_per_gas matches Some(p) ==> p >= min_tip))),
{
}

/// Law: the content filtered by a minimum tip holds exactly the transactions
/// whose effective tip `min(max_fee_per_gas - base_fee, max_priority_fee_per_gas)`
/// (zero when the fee cap does not exceed the base fee) reaches the minimum;
/// that is, the minimum is zero, or the fee cap is at least
/// `base_fee + min_tip` and the priority fee, if any, at least `min_tip`.
/// Every such transaction has an entry under its sender and nonce; every entry
/// holds such a transaction with that sender and nonce, the last of them.
pub proof fn law_min_tip_content<T>(txs: Seq<PoolTransaction<T>>, min_tip: nat, base_fee: u64)
    ensures
        forall|k: int|
            0 <= k < txs.len() && (min_tip == 0 || ((#[trigger] txs[k]).max_fee_per_gas >= base_fee
                + min_tip && (txs[k].max_priority_fee_per_gas matches Some(p) ==> p >= min_tip)))
                ==> {
                let g = group_qualifying(txs, min_tip, base_fee);
                g.contains_key(txs[k].sender) && g[txs[k].sender].contains_key(txs[k].nonce)
            },
        forall|s: SenderKey, n: u64|
            #![trigger group_qualifying(txs, min_tip, base_fee)[s].contains_key(n)]
            group_qualifying(txs, min_tip, base_fee).contains_key(s) && group_qualifying(
                txs,
                min_tip,
                base_fee,
            )[s].contains_key(n) ==> exists|k: int|
                0 <= k < txs.len() && (#[trigger] txs[k]).sender == s && txs[k].nonce == n && (
                min_tip == 0 || (txs[k].max_fee_per_gas >= base_fee + min_tip && (
                txs[k].max_priority_fee_per_gas matches Some(p) ==> p >= min_tip)))
                    && group_qualifying(txs, min_tip, base_fee)[s][n] == txs[k].transaction
                    && forall|j: int|
                    k < j < txs.len() && (#[trigger] txs[j]).sender == s && txs[j].nonce == n
                        ==> !(min_tip == 0 || (txs[j].max_fee_per_gas >= base_fee + min_tip && (
                    txs[j].max_priority_fee_per_gas matches Some(p) ==> p >= min_tip))),
{
    lemma_group_qualifying_entries(txs, min_tip, base_fee);
    assert forall|k: int| 0 <= k < txs.len() implies (tip_qualifies(
        #[trigger] txs[k],
        min_tip,
        base_fee,
    ) <==> (min_tip == 0 || (txs[k].max_fee_per_gas >= base_fee + min_tip && (
    txs[k].max_priority_fee_per_gas matches Some(p) ==> p >= min_tip)))) by {
        lemma_tip_qualifies_explicit(txs[k], min_tip, base_fee);
    }
}

/// Law: the pool content holds exactly the transactions given: every
/// transaction has an entry under its sender and nonce, and every entry holds
/// a transaction with that sender and nonce, the last one given.
pub proof fn law_pool_content<T>(txs: Seq<PoolTransaction<T>>)
    ensures
        forall|k: int|
            0 <= k < txs.len() ==> {
                let g = group_by_sender(txs);
                g.contains_key((#[trigger] txs[k]).sender) && g[txs[k].sender].contains_key(
                    txs[k].nonce,
                )
            },
        forall|s: SenderKey, n: u64|
            #![trigger group_by_sender(txs)[s].contains_key(n)]
            group_by_sender(txs).contains_key(s) && group_by_sender(txs)[s].contains_key(n)
                ==> exists|k: int|
                0 <= k < txs.len() && (#[trigger] txs[k]).sender == s && txs[k].nonce == n
                    && group_by_sender(txs)[s][n] == txs[k].transaction && forall|j: int|
                    k < j < txs.len() ==> !((#[trigger] txs[j]).sender == s && txs[j].nonce
                        == n),
{
    law_zero_min_tip_keeps_all(txs, 0);
    lemma_group_qualifying_entries(txs, 0, 0);
    assert forall|k: int| 0 <= k < txs.len() implies #[trigger] tip_qualifies(txs[k], 0, 0) by {
        lemma_tip_qualifies_explicit(txs[k], 0, 0);
    }
}

/// Law: the effective tip is the priority fee capped by what the fee cap
/// leaves above the base fee, and zero when nothing is left.
pub proof fn law_effective_tip_value(max_fee_per_gas: u128, max_priority_fee_per_gas: Option<u128>, base_fee: u64)
    ensures
        max_fee_per_gas <= base_fee ==> effective_tip(max_fee_per_gas, max_priority_fee_per_gas, base_fee) == 0,
        max_fee_per_gas > base_fee && max_priority_fee_per_gas is None ==> effective_tip(
            max_fee_per_gas,
            max_priority_fee_per_gas,
            base_fee,
        ) == max_fee_per_gas - base_fee,
        max_priority_fee_per_gas matches Some(p) ==> (max_fee_per_gas > base_fee ==> (effective_tip(
            max_fee_per_gas,
            max_priority_fee_per_gas,
            base_fee,
        ) == p || effective_tip(max_fee_per_gas, max_priority_fee_per_gas, base_fee)
            == max_fee_per_gas - base_fee) && effective_tip(max_fee_per_gas, max_priority_fee_per_gas, base_fee)
            <= p && effective_tip(max_fee_per_gas, max_priority_fee_per_gas, base_fee)
            <= max_fee_per_gas - base_fee),
{
}

} // verus!
