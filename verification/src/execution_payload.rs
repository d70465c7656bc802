//! Kasplex execution payloads: an execution payload extended with the block
//! numbers at which its transactions were submitted, the hash of its first
//! transaction and the withdrawals hash, and the conversions between blocks
//! and such payloads.

use vstd::prelude::*;

verus! {

/// A transaction of a block, with the Kasplex submission block number.
#[derive(Clone, Debug, PartialEq, Eq)]
pub struct BlockTransaction<T> {
    /// The signed transaction itself.
    pub transaction: T,
    /// The transaction hash.
    pub hash: [u8; 32],
    /// The block number at which the transaction was submitted, if known.
    pub number: Option<u64>,
}

/// A block as the Kasplex payload conversions see it.
#[derive(Clone, Debug, PartialEq, Eq)]
pub struct KasplexBlock<H, T> {
    /// The rest of the block header.
    pub header: H,
    /// The withdrawals root of the block header, if any.
    pub withdrawals_root: Option<[u8; 32]>,
    /// The transactions of the block, in order.
    pub body: Vec<BlockTransaction<T>>,
    /// The submission block numbers of the block's transactions, if set.
    pub numbers: Option<Vec<u64>>,
}

/// An execution payload extended with Kasplex-specific fields.
#[derive(Clone, Debug, PartialEq, Eq)]
pub struct KasplexExecutionPayload<P> {
    /// Inner execution payload.
    pub payload: P,
    /// Transaction submission block numbers.
    pub numbers: Option<Vec<u64>>,
    /// Transaction hash.
    pub tx_hash: Option<[u8; 32]>,
    /// Withdrawals hash.
    pub withdrawals_hash: Option<[u8; 32]>,
}

impl<P> KasplexExecutionPayload<P> {
    /// Create a new `KasplexExecutionPayload` from an execution payload, with
    /// no Kasplex field set.
    pub fn new(payload: P) -> (r: Self)
        ensures
            r.payload == payload,
            r.numbers is None,
            r.tx_hash is None,
            r.withdrawals_hash is None,
    {
        KasplexExecutionPayload { payload, numbers: None, tx_hash: None, withdrawals_hash: None }
    }

    /// Set the numbers field.
    pub fn with_numbers(self, numbers: Vec<u64>) -> (r: Self)
        ensures
            r.numbers == Some(numbers),
            r.payload == self.payload,
            r.tx_hash == self.tx_hash,
            r.withdrawals_hash == self.withdrawals_hash,
    {
        let mut s = self;
        s.numbers = Some(numbers);
        s
    }

    /// Set the transaction hash.
    pub fn with_tx_hash(self, tx_hash: [u8; 32]) -> (r: Self)
        ensures
            r.tx_hash == Some(tx_hash),
            r.payload == self.payload,
            r.numbers == self.numbers,
            r.withdrawals_hash == self.withdrawals_hash,
    {
        let mut s = self;
        s.tx_hash = Some(tx_hash);
        s
    }

    /// Set the withdrawals hash.
    pub fn with_withdrawals_hash(self, withdrawals_hash: [u8; 32]) -> (r: Self)
        ensures
            r.withdrawals_hash == Some(withdrawals_hash),
            r.payload == self.payload,
            r.numbers == self.numbers,
            r.tx_hash == self.tx_hash,
    {
        let mut s = self;
        s.withdrawals_hash = Some(withdrawals_hash);
        s
    }
}

/// Thirty-two zero bytes, the default hash.
pub open spec fn zero_hash() -> Seq<u8> {
    Seq::new(32, |i: int| 0u8)
}

/// The contents of an optional vector.
pub open spec fn opt_vec_view(v: Option<Vec<u64>>) -> Option<Seq<u64>> {
    match v {
        Some(v) => Some(v@),
        None => None,
    }
}

/// The body after the payload numbers are set on it: when the payload carries
/// as many numbers as the block has transactions, transaction `i` gets number
/// `i`; otherwise the body is unchanged.
pub open spec fn assign_numbers<T>(
    body: Seq<BlockTransaction<T>>,
    numbers: Option<Seq<u64>>,
) -> Seq<BlockTransaction<T>> {
    match numbers {
        Some(ns) => if ns.len() == body.len() {
            Seq::new(
                body.len(),
                |i: int|
                    BlockTransaction {
                        transaction: body[i].transaction,
                        hash: body[i].hash,
                        number: Some(ns[i]),
                    },
            )
        } else {
            body
        },
        None => body,
    }
}

/// The numbers of the transactions that have one, in order.
pub open spec fn collect_numbers<T>(body: Seq<BlockTransaction<T>>) -> Seq<u64>
    decreases body.len(),
{
    if body.len() == 0 {
        Seq::empty()
    } else {
        let rest = collect_numbers(body.drop_last());
        match body.last().number {
            Some(n) => rest.push(n),
            None => rest,
        }
    }
}

/// Convert a block to a `KasplexExecutionPayload`.
///
/// `payload` is the execution payload of `value` (what the engine conversion
/// of the sealed block gives). The numbers of the block become the payload's
/// numbers (empty if the block has none), the hash of the first transaction
/// its transaction hash, and the header's withdrawals root its withdrawals
/// hash; a missing hash is 32 zero bytes.
pub fn block_to_kasplex_payload<P, H, T>(payload: P, value: KasplexBlock<H, T>) -> (r:
    KasplexExecutionPayload<P>)
    ensures
        r.payload == payload,
        r.numbers matches Some(ns) && ns@ == match value.numbers {
            Some(v) => v@,
            None => Seq::<u64>::empty(),
        },
        r.tx_hash matches Some(h) && h@ == if value.body@.len() > 0 {
            value.body@[0].hash@
        } else {
            zero_hash()
        },
        r.withdrawals_hash matches Some(h) && h@ == match value.withdrawals_root {
            Some(root) => root@,
            None => zero_hash(),
        },
{
    let numbers: Vec<u64> = match value.numbers {
        Some(v) => v,
        None => Vec::new(),
    };
    let zero: [u8; 32] = [0u8; 32];
    proof {
        broadcast use vstd::array::group_array_axioms;

        assert(zero@ =~= zero_hash());
    }
    let tx_hash: [u8; 32] = if value.body.len() > 0 {
        value.body[0].hash
    } else {
        zero
    };
    let withdrawals_hash: [u8; 32] = match value.withdrawals_root {
        Some(root) => root,
        None => zero,
    };
    KasplexExecutionPayload::new(payload).with_numbers(numbers).with_tx_hash(
        tx_hash,
    ).with_withdrawals_hash(withdrawals_hash)
}

/// Every transaction of the body carries the number at its place in `ns`.
pub open spec fn numbered_by<T>(body: Seq<BlockTransaction<T>>, ns: Seq<u64>) -> bool {
    &&& body.len() == ns.len()
    &&& forall|i: int| 0 <= i < body.len() ==> (#[trigger] body[i]).number == Some(ns[i])
}

/// The numbers collected from a body numbered by `ns` are `ns`.
pub proof fn lemma_collect_numbered<T>(body: Seq<BlockTransaction<T>>, ns: Seq<u64>)
    requires
        numbered_by(body, ns),
    ensures
        collect_numbers(body) == ns,
    decreases body.len(),
{
    if body.len() > 0 {
        let b = body.drop_last();
        let n = ns.drop_last();
        assert forall|i: int| 0 <= i < b.len() implies (#[trigger] b[i]).number == Some(n[i]) by {
            assert(b[i] == body[i]);
        }
        lemma_collect_numbered(b, n);
        assert(body.last() == body[body.len() - 1]);
        assert(ns =~= n.push(ns.last()));
    }
}

/// Convert a `KasplexExecutionPayload` to a block.
///
/// `converted` is the block that the engine conversion of `payload.payload`
/// gives (with the parent beacon block root), or its error, which is returned
/// as it is. When the payload carries as many numbers as the block has
/// transactions, each transaction gets its number. Then, if any transaction
/// has a number, the block's numbers become the transactions' numbers in
/// order; otherwise the block's numbers are left as they were.
pub fn kasplex_payload_to_block<P, H, T, E>(
    payload: KasplexExecutionPayload<P>,
    converted: Result<KasplexBlock<H, T>, E>,
) -> (r: Result<KasplexBlock<H, T>, E>)
    ensures
        converted matches Err(e) ==> r == Err::<KasplexBlock<H, T>, E>(e),
        converted matches Ok(block) ==> {
            &&& r matches Ok(b)
            &&& b.header == block.header
            &&& b.withdrawals_root == block.withdrawals_root
            &&& b.body@ == assign_numbers(block.body@, opt_vec_view(payload.numbers))
            &&& b.body@.len() == block.body@.len()
            &&& forall|i: int|
                0 <= i < b.body@.len() ==> (#[trigger] b.body@[i]).transaction == block.body@[i].transaction
                    && b.body@[i].hash == block.body@[i].hash && b.body@[i].number == if (
                payload.numbers matches Some(ns) && ns@.len() == block.body@.len()) {
                    Some(payload.numbers->Some_0@[i])
                } else {
                    block.body@[i].number
                }
            &&& if collect_numbers(b.body@).len() > 0 {
                b.numbers matches Some(ns) && ns@ == collect_numbers(b.body@)
            } else {
                b.numbers == block.numbers
            }
        },
{
    let mut block = match converted {
        Err(e) => {
            return Err(e);
        },
        Ok(block) => block,
    };
    let ghost received = block;
    if let Some(numbers) = &payload.numbers {
        if numbers.len() == block.body.len() {
            let mut i: usize = 0;
            while i < block.body.len()
                invariant
                    numbers.len() == block.body@.len(),
                    block.body@.len() == received.body@.len(),
                    block.withdrawals_root == received.withdrawals_root,
                    block.header == received.header,
                    block.numbers == received.numbers,
                    i <= block.body@.len(),
                    forall|j: int|
                        0 <= j < block.body@.len() ==> (#[trigger] block.body@[j]).transaction
                            == received.body@[j].transaction && block.body@[j].hash
                            == received.body@[j].hash,
                    forall|j: int|
                        0 <= j < block.body@.len() ==> (#[trigger] block.body@[j]).number == if j
                            < i {
                            Some(numbers@[j])
                        } else {
                            received.body@[j].number
                        },
                decreases block.body@.len() - i,
            {
                block.body[i].number = Some(numbers[i]);
                i = i + 1;
            }
            assert(block.body@ =~= assign_numbers(received.body@, opt_vec_view(payload.numbers)));
        }
    }
    assert(block.body@ =~= assign_numbers(received.body@, opt_vec_view(payload.numbers)));
    let mut collected: Vec<u64> = Vec::new();
    let mut k: usize = 0;
    while k < block.body.len()
        invariant
            k <= block.body@.len(),
            collected@ == collect_numbers(block.body@.subrange(0, k as int)),
        decreases block.body@.len() - k,
    {
        assert(block.body@.subrange(0, k + 1).drop_last() =~= block.body@.subrange(0, k as int));
        match block.body[k].number {
            Some(n) => collected.push(n),
            None => {},
        }
        k = k + 1;
    }
    assert(block.body@.subrange(0, block.body@.len() as int) =~= block.body@);
    if collected.len() > 0 {
        block.numbers = Some(collected);
    }
    proof {
        law_assign_numbers(received.body@, opt_vec_view(payload.numbers));
    }
    Ok(block)
}

/// Law: the submission numbers of a block survive the trip through a Kasplex
/// payload. When `block_to_kasplex_payload` gives a payload whose numbers
/// `ns` count one per transaction (at least one), and the engine conversion of
/// the payload yields a block with as many transactions, then
/// `kasplex_payload_to_block` gives every transaction its number from `ns`
/// and the block's numbers are `ns`.
pub proof fn law_numbers_round_trip<T>(body: Seq<BlockTransaction<T>>, ns: Seq<u64>)
    requires
        ns.len() == body.len(),
        ns.len() > 0,
    ensures
        numbered_by(assign_numbers(body, Some(ns)), ns),
        collect_numbers(assign_numbers(body, Some(ns))) == ns,
{
    lemma_collect_numbered(assign_numbers(body, Some(ns)), ns);
}

/// Law: setting the payload numbers on a body changes nothing of a
/// transaction but its number, and keeps the body's length: transaction `i`
/// keeps its transaction and its hash, and gets number `i` of the payload when
/// the payload carries exactly one number per transaction; otherwise it keeps
/// its number.
pub proof fn law_assign_numbers<T>(body: Seq<BlockTransaction<T>>, numbers: Option<Seq<u64>>)
    ensures
        assign_numbers(body, numbers).len() == body.len(),
        forall|i: int|
            0 <= i < body.len() ==> {
                let t = #[trigger] assign_numbers(body, numbers)[i];
                &&& t.transaction == body[i].transaction
                &&& t.hash == body[i].hash
                &&& t.number == if (numbers matches Some(ns) && ns.len() == body.len()) {
                    Some(numbers->Some_0[i])
                } else {
                    body[i].number
                }
            },
{
}

/// Law: the numbers collected from a body are those of its parts, in order,
/// and a single transaction contributes its number when it has one and
/// nothing otherwise.
pub proof fn law_collect_numbers<T>(
    a: Seq<BlockTransaction<T>>,
    b: Seq<BlockTransaction<T>>,
    tx: BlockTransaction<T>,
)
    ensures
        collect_numbers(a + b) == collect_numbers(a) + collect_numbers(b),
        collect_numbers(seq![tx]) == match tx.number {
            Some(n) => seq![n],
            None => Seq::<u64>::empty(),
        },
{
    lemma_collect_numbers_concat(a, b);
    let one = seq![tx];
    assert(one.drop_last() =~= Seq::<BlockTransaction<T>>::empty());
    assert(one.last() == tx);
    assert(collect_numbers(Seq::<BlockTransaction<T>>::empty()) == Seq::<u64>::empty());
    match tx.number {
        Some(n) => {
            assert(seq![n] =~= Seq::<u64>::empty().push(n));
        },
        None => {},
    }
}

/// The numbers collected from `a + b` are those of `a`, then those of `b`.
proof fn lemma_collect_numbers_concat<T>(a: Seq<BlockTransaction<T>>, b: Seq<BlockTransaction<T>>)
    ensures
        collect_numbers(a + b) == collect_numbers(a) + collect_numbers(b),
    decreases b.len(),
{
    if b.len() == 0 {
        assert(a + b =~= a);
        assert(collect_numbers(a) + Seq::<u64>::empty() =~= collect_numbers(a));
    } else {
        lemma_collect_numbers_concat(a, b.drop_last());
        assert((a + b).drop_last() =~= a + b.drop_last());
        assert((a + b).last() == b.last());
        match b.last().number {
            Some(n) => {
                assert(collect_numbers(a) + collect_numbers(b.drop_last()).push(n) =~= (
                collect_numbers(a) + collect_numbers(b.drop_last())).push(n));
            },
            None => {},
        }
    }
}

/// Law: the default hash of a payload without a first transaction or a
/// withdrawals root is 32 zero bytes.
pub proof fn law_zero_hash()
    ensures
        zero_hash().len() == 32,
        forall|i: int| 0 <= i < 32 ==> #[trigger] zero_hash()[i] == 0,
{
}

} // verus!
