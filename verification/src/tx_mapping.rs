//! Transaction hash to block number mapping, used to remember in which Kasplex
//! block a transaction was submitted, together with the set of transactions
//! that were deleted from the pool and a counter of pool reorgs in progress.

use vstd::prelude::*;
use std::collections::BTreeMap;
use std::collections::BTreeSet;

verus! {

broadcast use {vstd::std_specs::btree::group_btree_axioms, vstd::laws_cmp::group_laws_cmp};

/// Number of blocks to retain unexecuted transactions.
pub const UNEXECUTED_TX_RETENTION_BLOCKS: u64 = 100;

/// A 32-byte transaction hash, held as its four big-endian 64-bit words
/// (word 0 holds bytes 0..8).
pub type TxHash = (u64, u64, u64, u64);

/// Transaction hash to block number mapping.
pub struct TxMapping {
    /// Mapping from transaction hash to block number.
    mapping: BTreeMap<TxHash, u64>,
    /// Deleted transactions set.
    deleted: BTreeSet<TxHash>,
    /// Reorg counter.
    reorg_num: i32,
}

impl TxMapping {
    /// The hash to block number entries.
    pub closed spec fn entries(&self) -> Map<TxHash, u64> {
        self.mapping@
    }

    /// The hashes of the deleted transactions.
    pub closed spec fn deleted(&self) -> Set<TxHash> {
        self.deleted@
    }

    /// The reorg counter.
    pub closed spec fn reorg(&self) -> i32 {
        self.reorg_num
    }

    /// The mapping holds finitely many entries.
    pub proof fn lemma_entries_finite(&self)
        ensures
            self.entries().dom().finite(),
    {
    }

    /// Create a new transaction mapping instance.
    pub fn new() -> (r: Self)
        ensures
            r.entries() == Map::<TxHash, u64>::empty(),
            r.deleted() == Set::<TxHash>::empty(),
            r.reorg() == 0,
    {
        TxMapping { mapping: BTreeMap::new(), deleted: BTreeSet::new(), reorg_num: 0 }
    }

    /// Get the block number for a transaction hash and remove it from the mapping.
    ///
    /// Returns `None` if the transaction hash is not found.
    pub fn get_tx_number(&mut self, hash: TxHash) -> (r: Option<u64>)
        ensures
            r == (if old(self).entries().contains_key(hash) {
                Some(old(self).entries()[hash])
            } else {
                None::<u64>
            }),
            final(self).entries() == old(self).entries().remove(hash),
            final(self).entries().len() == old(self).entries().len() - if old(
                self,
            ).entries().contains_key(hash) {
                1int
            } else {
                0int
            },
            final(self).deleted() == old(self).deleted(),
            final(self).reorg() == old(self).reorg(),
    {
        proof {
            self.lemma_entries_finite();
        }
        self.mapping.remove(&hash)
    }

    /// Get the block number for a transaction hash without removing it.
    pub fn peek_tx_number(&self, hash: TxHash) -> (r: Option<u64>)
        ensures
            r == (if self.entries().contains_key(hash) {
                Some(self.entries()[hash])
            } else {
                None::<u64>
            }),
    {
        match self.mapping.get(&hash) {
            Some(n) => Some(*n),
            None => None,
        }
    }

    /// Set the entire mapping dictionary.
    pub fn set_mapping(&mut self, dic: BTreeMap<TxHash, u64>)
        ensures
            final(self).entries() == dic@,
            final(self).deleted() == old(self).deleted(),
            final(self).reorg() == old(self).reorg(),
    {
        self.mapping = dic;
    }

    /// Insert a transaction hash to block number mapping.
    pub fn insert(&mut self, hash: TxHash, number: u64)
        ensures
            final(self).entries() == old(self).entries().insert(hash, number),
            final(self).entries().len() == old(self).entries().len() + if old(
                self,
            ).entries().contains_key(hash) {
                0int
            } else {
                1int
            },
            final(self).deleted() == old(self).deleted(),
            final(self).reorg() == old(self).reorg(),
    {
        proof {
            self.lemma_entries_finite();
        }
        self.mapping.insert(hash, number);
    }

    /// Mark that a pool reorg has occurred: the counter goes down by one,
    /// wrapping around at the bounds of `i32`.
    pub fn mark_pool_reorged(&mut self)
        ensures
            final(self).reorg() == old(self).reorg().wrapping_sub(1),
            final(self).entries() == old(self).entries(),
            final(self).deleted() == old(self).deleted(),
    {
        self.reorg_num = self.reorg_num.wrapping_sub(1);
    }

    /// Mark the start of a pool reorg: the counter goes up by one, wrapping
    /// around at the bounds of `i32`.
    pub fn mark_start_pool_reorg(&mut self)
        ensures
            final(self).reorg() == old(self).reorg().wrapping_add(1),
            final(self).entries() == old(self).entries(),
            final(self).deleted() == old(self).deleted(),
    {
        self.reorg_num = self.reorg_num.wrapping_add(1);
    }

    /// Clear the pool reorg state.
    pub fn clear_pool_reorged(&mut self)
        ensures
            final(self).reorg() == 0,
            final(self).entries() == old(self).entries(),
            final(self).deleted() == old(self).deleted(),
    {
        self.reorg_num = 0;
    }

    /// Get the current reorg number.
    pub fn get_reorg_num(&self) -> (r: i32)
        ensures
            r == self.reorg(),
    {
        self.reorg_num
    }

    /// Check if reorg is complete: `true` if no reorg is in progress.
    pub fn is_reorg_complete(&self) -> (r: bool)
        ensures
            r == reorg_settled(self.reorg()),
            r == (self.reorg() <= 0),
    {
        reorg_counter_settled(self.get_reorg_num())
    }

    /// Add a transaction hash to the deleted transactions set.
    pub fn add_deleted_transaction(&mut self, hash: TxHash)
        ensures
            final(self).deleted() == old(self).deleted().insert(hash),
            final(self).entries() == old(self).entries(),
            final(self).reorg() == old(self).reorg(),
    {
        self.deleted.insert(hash);
    }

    /// Check if a transaction hash is in the deleted transactions set.
    pub fn is_deleted_transaction(&self, hash: TxHash) -> (r: bool)
        ensures
            r == self.deleted().contains(hash),
    {
        self.deleted.contains(&hash)
    }

    /// Clear all deleted transactions, and with them the pool reorg state.
    pub fn clear_deleted_transaction(&mut self)
        ensures
            final(self).deleted() == Set::<TxHash>::empty(),
            final(self).reorg() == 0,
            final(self).entries() == old(self).entries(),
    {
        self.deleted.clear();
        self.clear_pool_reorged();
    }

    /// Remove a transaction hash from the mapping, returning its block number.
    pub fn remove(&mut self, hash: TxHash) -> (r: Option<u64>)
        ensures
            r == (if old(self).entries().contains_key(hash) {
                Some(old(self).entries()[hash])
            } else {
                None::<u64>
            }),
            final(self).entries() == old(self).entries().remove(hash),
            final(self).entries().len() == old(self).entries().len() - if old(
                self,
            ).entries().contains_key(hash) {
                1int
            } else {
                0int
            },
            final(self).deleted() == old(self).deleted(),
            final(self).reorg() == old(self).reorg(),
    {
        proof {
            self.lemma_entries_finite();
        }
        self.mapping.remove(&hash)
    }

    /// Check if a transaction hash exists in the mapping.
    pub fn contains_key(&self, hash: TxHash) -> (r: bool)
        ensures
            r == self.entries().contains_key(hash),
    {
        self.mapping.contains_key(&hash)
    }

    /// Get the number of transactions in the mapping.
    pub fn len(&self) -> (r: usize)
        ensures
            r == self.entries().len(),
            self.entries().dom().finite(),
    {
        self.mapping.len()
    }

    /// Check if the mapping is empty.
    pub fn is_empty(&self) -> (r: bool)
        ensures
            r == (self.entries().len() == 0),
            r == (self.entries() == Map::<TxHash, u64>::empty()),
    {
        let r = self.mapping.is_empty();
        proof {
            if self.mapping@.len() == 0 {
                assert(self.mapping@.dom() =~= Set::<TxHash>::empty());
                assert(self.mapping@ =~= Map::<TxHash, u64>::empty());
            }
        }
        r
    }

    /// Clear all mappings.
    pub fn clear(&mut self)
        ensures
            final(self).entries() == Map::<TxHash, u64>::empty(),
            final(self).deleted() == old(self).deleted(),
            final(self).reorg() == old(self).reorg(),
    {
        self.mapping.clear();
    }
}

impl Default for TxMapping {
    /// An empty mapping, as `TxMapping::new` gives.
    fn default() -> (r: Self)
        ensures
            r.entries() == Map::<TxHash, u64>::empty(),
            r.deleted() == Set::<TxHash>::empty(),
            r.reorg() == 0,
    {
        Self::new()
    }
}

/// Whether a reorg counter reading says that no reorg is in progress.
pub open spec fn reorg_settled(reorg_num: i32) -> bool {
    reorg_num <= 0
}

/// Decides, from one reading of the reorg counter, that no reorg is in
/// progress.
pub fn reorg_counter_settled(reorg_num: i32) -> (r: bool)
    ensures
        r == reorg_settled(reorg_num),
        r == (reorg_num <= 0),
{
    !(reorg_num > 0)
}


/// Law: a transaction inserted with a block number is then taken with that
/// number: when `inserted` is `before` after `insert(hash, number)`, `result`
/// is what `get_tx_number(hash)` (or `peek_tx_number(hash)`) returns on
/// `inserted`, and `taken` is `inserted` after `get_tx_number(hash)`, then the
/// result is `Some(number)` and `taken` holds the entries of `before` less
/// `hash`, one fewer than `before` had if `hash` was there.
pub proof fn law_insert_then_take(
    before: TxMapping,
    inserted: TxMapping,
    taken: TxMapping,
    hash: TxHash,
    number: u64,
    result: Option<u64>,
)
    requires
        inserted.entries() == before.entries().insert(hash, number),
        result == (if inserted.entries().contains_key(hash) {
            Some(inserted.entries()[hash])
        } else {
            None::<u64>
        }),
        taken.entries() == inserted.entries().remove(hash),
    ensures
        result == Some(number),
        taken.entries() == before.entries().remove(hash),
        !taken.entries().contains_key(hash),
        taken.entries().len() == before.entries().len() - if before.entries().contains_key(hash) {
            1int
        } else {
            0int
        },
{
    before.lemma_entries_finite();
    assert(taken.entries() =~= before.entries().remove(hash));
}

/// Law: a pool reorg that is started and then marked done leaves the reorg
/// counter as it was, for every counter value (the counter wraps): when
/// `started` is `before` after `mark_start_pool_reorg` and `done` is `started`
/// after `mark_pool_reorged`, `done` has the counter of `before`.
pub proof fn law_reorg_start_then_done_restores(before: TxMapping, started: TxMapping, done: TxMapping)
    requires
        started.reorg() == before.reorg().wrapping_add(1),
        done.reorg() == started.reorg().wrapping_sub(1),
    ensures
        done.reorg() == before.reorg(),
{
}

/// Law: from a settled counter of zero, a reorg that has been started is not
/// complete, and once it is marked done it is: with `started` and `done` as in
/// `law_reorg_start_then_done_restores`, `is_reorg_complete` is false on
/// `started` and true on `done`.
pub proof fn law_reorg_in_progress_not_complete(before: TxMapping, started: TxMapping, done: TxMapping)
    requires
        before.reorg() == 0,
        started.reorg() == before.reorg().wrapping_add(1),
        done.reorg() == started.reorg().wrapping_sub(1),
    ensures
        !reorg_settled(started.reorg()),
        reorg_settled(done.reorg()),
{
}

/// Law: a transaction added to the deleted set is reported deleted until the
/// set is cleared, and after `clear_deleted_transaction` no transaction is
/// deleted and no reorg is in progress: when `added` is `before` after
/// `add_deleted_transaction(hash)` and `cleared` is `added` after
/// `clear_deleted_transaction`, `is_deleted_transaction(hash)` is true on
/// `added`, and `is_deleted_transaction(other)` is false and
/// `is_reorg_complete` true on `cleared`.
pub proof fn law_deleted_until_cleared(
    before: TxMapping,
    added: TxMapping,
    cleared: TxMapping,
    hash: TxHash,
    other: TxHash,
)
    requires
        added.deleted() == before.deleted().insert(hash),
        cleared.deleted() == Set::<TxHash>::empty(),
        cleared.reorg() == 0,
    ensures
        added.deleted().contains(hash),
        !cleared.deleted().contains(other),
        reorg_settled(cleared.reorg()),
{
}

/// Law: a reorg counter says that no reorg is in progress exactly when it is
/// not positive; in particular, after `k >= 1` reorgs are started from a
/// settled zero counter (and none marked done), the reorg is not complete.
pub proof fn law_reorg_settled_iff_not_positive(reorg_num: i32, k: i32)
    ensures
        reorg_settled(reorg_num) <==> reorg_num <= 0,
        1 <= k ==> !reorg_settled(k),
{
}

} // verus!
