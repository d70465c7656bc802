//! Decisions of the Kasplex RPC handlers: the reported sync mode, and the
//! hashes returned for a batch of raw transactions.

use vstd::prelude::*;

verus! {

/// The sync mode reported by `kasplex_getSyncMode`. The sync modes are
/// `"full"` (full sync) and `"snap"` (snap sync); the node reports `"full"`.
pub fn sync_mode() -> (r: String)
    ensures
        r@ == "full"@,
{
    "full".to_owned()
}

/// The values of the successful results among `results`, in order.
pub open spec fn ok_values<H, E>(results: Seq<Result<H, E>>) -> Seq<H>
    decreases results.len(),
{
    if results.len() == 0 {
        Seq::empty()
    } else {
        let rest = ok_values(results.drop_last());
        match results.last() {
            Ok(h) => rest.push(h),
            Err(_) => rest,
        }
    }
}

/// The hashes returned by `kasplexAuth_sendRawTransactions` from the outcomes
/// of sending each transaction of the batch in turn: the hashes of those that
/// were accepted, in order; a transaction that failed is skipped and the
/// batch goes on.
pub fn collect_sent_hashes<H, E>(results: Vec<Result<H, E>>) -> (r: Vec<H>)
    ensures
        r@ == ok_values(results@),
{
    let mut hashes: Vec<H> = Vec::new();
    let ghost all = results@;
    for result in it: results.into_iter()
        invariant
            it.seq() == all,
            hashes@ == ok_values(all.take(it.index())),
    {
        assert(all.take(it.index() + 1).drop_last() =~= all.take(it.index()));
        match result {
            Ok(hash) => hashes.push(hash),
            Err(_) => {},
        }
    }
    assert(all.take(all.len() as int) =~= all);
    hashes
}

/// Law: a batch returns at most one hash per transaction, and exactly one per
/// transaction exactly when every send succeeds.
pub proof fn law_batch_hashes<H, E>(results: Seq<Result<H, E>>)
    ensures
        ok_values(results).len() <= results.len(),
        (forall|i: int| 0 <= i < results.len() ==> (#[trigger] results[i]) is Ok) <==> ok_values(
            results,
        ).len() == results.len(),
    decreases results.len(),
{
    if results.len() > 0 {
        let p = results.drop_last();
        law_batch_hashes(p);
        if ok_values(results).len() == results.len() {
            assert(results.last() is Ok);
            assert forall|i: int| 0 <= i < results.len() implies (#[trigger] results[i]) is Ok by {
                if i < p.len() {
                    assert(p[i] == results[i]);
                }
            }
        }
        if forall|i: int| 0 <= i < results.len() ==> (#[trigger] results[i]) is Ok {
            assert forall|i: int| 0 <= i < p.len() implies (#[trigger] p[i]) is Ok by {
                assert(p[i] == results[i]);
            }
            assert(results.last() == results[results.len() - 1]);
        }
    }
}

/// Law: the hashes of a batch are those of its parts, in order: for batches
/// `a` and `b` sent one after the other, the hashes of `a + b` are the hashes
/// of `a` followed by those of `b`; a single accepted send gives its hash and
/// a single failed one gives none. So every accepted hash is returned, at the
/// position counting the accepted sends before it, whatever failed before or
/// after it.
pub proof fn law_batch_hashes_compose<H, E>(a: Seq<Result<H, E>>, b: Seq<Result<H, E>>, h: H, e: E)
    ensures
        ok_values(a + b) == ok_values(a) + ok_values(b),
        ok_values(seq![Ok::<H, E>(h)]) == seq![h],
        ok_values(seq![Err::<H, E>(e)]) == Seq::<H>::empty(),
        ok_values(seq![Err::<H, E>(e)] + b) == ok_values(b),
        ok_values(seq![Ok::<H, E>(h)] + b) == seq![h] + ok_values(b),
        ok_values(a.push(Err(e))) == ok_values(a),
        ok_values(a.push(Ok(h))) == ok_values(a).push(h),
{
    lemma_ok_values_concat(a, b);
    lemma_ok_values_concat(seq![Err::<H, E>(e)], b);
    lemma_ok_values_concat(seq![Ok::<H, E>(h)], b);
    let se = seq![Err::<H, E>(e)];
    let so = seq![Ok::<H, E>(h)];
    assert(se.drop_last() =~= Seq::<Result<H, E>>::empty());
    assert(so.drop_last() =~= Seq::<Result<H, E>>::empty());
    assert(ok_values(Seq::<Result<H, E>>::empty()) == Seq::<H>::empty());
    assert(so.last() == Ok::<H, E>(h));
    assert(se.last() == Err::<H, E>(e));
    assert(seq![h] =~= Seq::<H>::empty().push(h));
    assert(a.push(Err(e)).drop_last() =~= a);
    assert(a.push(Ok(h)).drop_last() =~= a);
}

/// The hashes of `a + b` are those of `a`, then those of `b`.
proof fn lemma_ok_values_concat<H, E>(a: Seq<Result<H, E>>, b: Seq<Result<H, E>>)
    ensures
        ok_values(a + b) == ok_values(a) + ok_values(b),
    decreases b.len(),
{
    if b.len() == 0 {
        assert(a + b =~= a);
        assert(ok_values(a) + Seq::<H>::empty() =~= ok_values(a));
    } else {
        lemma_ok_values_concat(a, b.drop_last());
        assert((a + b).drop_last() =~= a + b.drop_last());
        assert((a + b).last() == b.last());
        match b.last() {
            Ok(h) => {
                assert(ok_values(a) + ok_values(b.drop_last()).push(h) =~= (ok_values(a)
                    + ok_values(b.drop_last())).push(h));
            },
            Err(_) => {},
        }
    }
}

} // verus!
