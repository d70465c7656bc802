//! Kasplex payload attributes: the block metadata that a Kasplex payload is
//! built from, their validation, and the identifier of the payload they
//! describe.

use vstd::prelude::*;
use crate::bytes::{be_value, lemma_u64_be_value, u256_is_zero, u64_be, u64_to_be_bytes};
use crate::hashing::{keccak256, keccak256_of, rlp_encode_withdrawals, rlp_withdrawals_of, sha256, sha256_of};

verus! {

/// A validator withdrawal from the consensus layer.
#[derive(Clone, Copy, Debug, PartialEq, Eq)]
pub struct Withdrawal {
    /// Monotonically increasing identifier issued by the consensus layer.
    pub index: u64,
    /// Index of the validator associated with the withdrawal.
    pub validator_index: u64,
    /// Target address for the withdrawn ether.
    pub address: [u8; 20],
    /// Value of the withdrawal in gwei.
    pub amount: u64,
}

/// The Ethereum payload attributes that a Kasplex payload extends.
#[derive(Clone, Debug, PartialEq, Eq)]
pub struct EthPayloadAttributes {
    /// Value for the timestamp field of the new payload.
    pub timestamp: u64,
    /// Value for the `prev_randao` field of the new payload.
    pub prev_randao: [u8; 32],
    /// Suggested value for the fee recipient of the new payload.
    pub suggested_fee_recipient: [u8; 20],
    /// Withdrawals to include in the new payload, if any.
    pub withdrawals: Option<Vec<Withdrawal>>,
    /// Root of the parent beacon block, if any.
    pub parent_beacon_block_root: Option<[u8; 32]>,
}

/// The `BlockMetadata` struct defined in the Kasplex protocol.
#[derive(Clone, Debug, PartialEq, Eq)]
pub struct BlockMetadata {
    /// Beneficiary address.
    pub beneficiary: [u8; 20],
    /// Gas limit.
    pub gas_limit: u64,
    /// Timestamp.
    pub timestamp: u64,
    /// Mix hash.
    pub mix_hash: [u8; 32],
    /// Transaction list.
    pub tx_list: Vec<u8>,
    /// Extra data.
    pub extra_data: Vec<u8>,
}

/// Kasplex payload attributes: the Ethereum payload attributes together with
/// the base fee per gas of the block and the block metadata.
#[derive(Clone, Debug, PartialEq, Eq)]
pub struct KasplexPayloadAttributes {
    /// Inner Ethereum payload attributes.
    pub payload_attributes: EthPayloadAttributes,
    /// Base fee per gas, a 256-bit number given as its 32 big-endian bytes.
    pub base_fee_per_gas: [u8; 32],
    /// Block metadata.
    pub block_metadata: BlockMetadata,
}

/// Why Kasplex payload attributes are not well formed.
#[derive(Clone, Debug, PartialEq, Eq)]
pub enum AttributesValidationError<E> {
    /// The version-specific checks of the Ethereum attributes failed.
    VersionSpecificFields(E),
    /// Kasplex payload attributes can only be used with Kasplex chains.
    NotKasplexChain,
    /// The base fee per gas must be set (non-zero).
    MissingBaseFee,
}

impl KasplexPayloadAttributes {
    /// The timestamp of the new payload.
    pub fn timestamp(&self) -> (r: u64)
        ensures
            r == self.payload_attributes.timestamp,
    {
        self.payload_attributes.timestamp
    }

    /// The withdrawals of the new payload, if any.
    pub fn withdrawals(&self) -> (r: Option<&Vec<Withdrawal>>)
        ensures
            r == match &self.payload_attributes.withdrawals {
                Some(w) => Some(w),
                None => None::<&Vec<Withdrawal>>,
            },
    {
        match &self.payload_attributes.withdrawals {
            Some(w) => Some(w),
            None => None,
        }
    }

    /// The root of the parent beacon block, if any.
    pub fn parent_beacon_block_root(&self) -> (r: Option<[u8; 32]>)
        ensures
            r == self.payload_attributes.parent_beacon_block_root,
    {
        self.payload_attributes.parent_beacon_block_root
    }

    /// Checks that the attributes are well formed for a Kasplex chain.
    ///
    /// `version_fields` is the outcome of the version-specific checks of the
    /// Ethereum attributes for this engine API version, and `chain_is_kasplex`
    /// says whether the chain is a Kasplex chain; both are computed from the
    /// chain specification. Their failures come first, in that order; then
    /// the base fee per gas must be non-zero.
    pub fn ensure_well_formed_attributes<E>(
        &self,
        version_fields: Result<(), E>,
        chain_is_kasplex: bool,
    ) -> (r: Result<(), AttributesValidationError<E>>)
        ensures
            r == match version_fields {
                Err(e) => Err(AttributesValidationError::VersionSpecificFields(e)),
                Ok(()) => if !chain_is_kasplex {
                    Err(AttributesValidationError::NotKasplexChain)
                } else if be_value(self.base_fee_per_gas@) == 0 {
                    Err(AttributesValidationError::MissingBaseFee)
                } else {
                    Ok(())
                },
            },
    {
        match version_fields {
            Err(e) => {
                return Err(AttributesValidationError::VersionSpecificFields(e));
            },
            Ok(()) => {},
        }
        if !chain_is_kasplex {
            return Err(AttributesValidationError::NotKasplexChain);
        }
        if u256_is_zero(&self.base_fee_per_gas) {
            return Err(AttributesValidationError::MissingBaseFee);
        }
        Ok(())
    }
}

/// The bytes hashed into the payload id of a Kasplex payload: the parent
/// hash, the timestamp, `prev_randao`, the fee recipient, the RLP encoding of
/// the withdrawals (when there are), the parent beacon block root (when there
/// is one), the base fee per gas, the Keccak-256 hash of the transaction list,
/// then the metadata's beneficiary, gas limit, timestamp, mix hash and extra
/// data; integers as big-endian bytes.
pub open spec fn payload_id_preimage(parent: Seq<u8>, a: KasplexPayloadAttributes) -> Seq<u8> {
    let p = a.payload_attributes;
    let m = a.block_metadata;
    parent + u64_be(p.timestamp) + p.prev_randao@ + p.suggested_fee_recipient@ + match p.withdrawals {
        Some(ws) => rlp_withdrawals_of(ws@),
        None => Seq::<u8>::empty(),
    } + match p.parent_beacon_block_root {
        Some(root) => root@,
        None => Seq::<u8>::empty(),
    } + a.base_fee_per_gas@ + keccak256_of(m.tx_list@) + m.beneficiary@ + u64_be(m.gas_limit)
        + u64_be(m.timestamp) + m.mix_hash@ + m.extra_data@
}

/// The payload id: the first 8 bytes of the SHA-256 digest of the preimage.
pub open spec fn payload_id(parent: Seq<u8>, a: KasplexPayloadAttributes) -> Seq<u8> {
    sha256_of(payload_id_preimage(parent, a)).subrange(0, 8)
}

/// Appends `bytes` to `buf`.
fn append_bytes(buf: &mut Vec<u8>, bytes: &[u8])
    ensures
        final(buf)@ == old(buf)@ + bytes@,
{
    let ghost start = buf@;
    let mut i: usize = 0;
    while i < bytes.len()
        invariant
            i <= bytes@.len(),
            buf@ == start + bytes@.subrange(0, i as int),
        decreases bytes@.len() - i,
    {
        buf.push(bytes[i]);
        assert(bytes@.subrange(0, i + 1) =~= bytes@.subrange(0, i as int).push(bytes@[i as int]));
        i = i + 1;
    }
    assert(bytes@.subrange(0, bytes@.len() as int) =~= bytes@);
}

/// Generates the payload id of a Kasplex payload built on `parent` from
/// `attributes`: an 8-byte identifier from the SHA-256 hash of the payload
/// components, the hash of the transaction list among them.
pub fn payload_id_kasplex(parent: &[u8; 32], attributes: &KasplexPayloadAttributes) -> (r: [u8; 8])
    ensures
        r@ == payload_id(parent@, *attributes),
{
    let p = &attributes.payload_attributes;
    let m = &attributes.block_metadata;
    let mut buf: Vec<u8> = Vec::new();
    append_bytes(&mut buf, parent.as_slice());
    let ts = u64_to_be_bytes(p.timestamp);
    append_bytes(&mut buf, ts.as_slice());
    append_bytes(&mut buf, p.prev_randao.as_slice());
    append_bytes(&mut buf, p.suggested_fee_recipient.as_slice());
    match &p.withdrawals {
        Some(withdrawals) => {
            let encoded = rlp_encode_withdrawals(withdrawals);
            append_bytes(&mut buf, encoded.as_slice());
        },
        None => {},
    }
    match &p.parent_beacon_block_root {
        Some(root) => {
            append_bytes(&mut buf, root.as_slice());
        },
        None => {},
    }
    append_bytes(&mut buf, attributes.base_fee_per_gas.as_slice());
    let tx_list_hash = keccak256(m.tx_list.as_slice());
    append_bytes(&mut buf, tx_list_hash.as_slice());
    append_bytes(&mut buf, m.beneficiary.as_slice());
    let gas_limit = u64_to_be_bytes(m.gas_limit);
    append_bytes(&mut buf, gas_limit.as_slice());
    let meta_ts = u64_to_be_bytes(m.timestamp);
    append_bytes(&mut buf, meta_ts.as_slice());
    append_bytes(&mut buf, m.mix_hash.as_slice());
    append_bytes(&mut buf, m.extra_data.as_slice());
    assert(buf@ =~= payload_id_preimage(parent@, *attributes));
    let digest = sha256(buf.as_slice());
    let r: [u8; 8] = [
        digest[0],
        digest[1],
        digest[2],
        digest[3],
        digest[4],
        digest[5],
        digest[6],
        digest[7],
    ];
    assert(r@ =~= digest@.subrange(0, 8));
    r
}

/// Law: the payload id sees the transaction list only through its
/// Keccak-256 hash: attributes that differ at most in their transaction lists,
/// when those lists hash alike, get the same payload id.
pub proof fn law_payload_id_uses_tx_list_hash(
    parent: Seq<u8>,
    a: KasplexPayloadAttributes,
    b: KasplexPayloadAttributes,
)
    requires
        a.payload_attributes == b.payload_attributes,
        a.base_fee_per_gas == b.base_fee_per_gas,
        a.block_metadata.beneficiary == b.block_metadata.beneficiary,
        a.block_metadata.gas_limit == b.block_metadata.gas_limit,
        a.block_metadata.timestamp == b.block_metadata.timestamp,
        a.block_metadata.mix_hash == b.block_metadata.mix_hash,
        a.block_metadata.extra_data@ == b.block_metadata.extra_data@,
        keccak256_of(a.block_metadata.tx_list@) == keccak256_of(b.block_metadata.tx_list@),
    ensures
        payload_id(parent, a) == payload_id(parent, b),
{
    assert(payload_id_preimage(parent, a) =~= payload_id_preimage(parent, b));
}

/// Law: where each component stands in the bytes hashed for the payload id,
/// in the order the Kasplex payload id takes them. With `w` the RLP encoding
/// of the withdrawals exactly as given (nothing when there are none), `r` the
/// parent beacon block root (nothing when there is none) and `k` the
/// Keccak-256 hash of the transaction list, the preimage is: the parent hash
/// (bytes 0..32), the timestamp as a big-endian number (32..40), `prev_randao`
/// (40..72), the fee recipient (72..92), then `w`, `r`, the base fee per gas
/// (32 big-endian bytes), `k`, the beneficiary (20 bytes), the gas limit and
/// the metadata timestamp (8 big-endian bytes each), the mix hash (32 bytes)
/// and the extra data, and nothing else. The payload id is the first 8 bytes
/// of its SHA-256 digest.
pub proof fn law_payload_id_layout(parent: Seq<u8>, a: KasplexPayloadAttributes)
    requires
        parent.len() == 32,
    ensures
        ({
            let pre = payload_id_preimage(parent, a);
            let p = a.payload_attributes;
            let m = a.block_metadata;
            let w = match p.withdrawals {
                Some(ws) => rlp_withdrawals_of(ws@),
                None => Seq::<u8>::empty(),
            };
            let r = match p.parent_beacon_block_root {
                Some(root) => root@,
                None => Seq::<u8>::empty(),
            };
            let k = keccak256_of(m.tx_list@);
            let o5: int = 92 + w.len() as int;
            let o6: int = o5 + r.len();
            let o7: int = o6 + 32;
            let o8: int = o7 + k.len();
            let o9: int = o8 + 20;
            let o10: int = o9 + 8;
            let o11: int = o10 + 8;
            let o12: int = o11 + 32;
            &&& payload_id(parent, a) == sha256_of(pre).subrange(0, 8)
            &&& pre.len() == o12 + m.extra_data@.len()
            &&& pre.subrange(0, 32) == parent
            &&& be_value(pre.subrange(32, 40)) == p.timestamp
            &&& pre.subrange(40, 72) == p.prev_randao@
            &&& pre.subrange(72, 92) == p.suggested_fee_recipient@
            &&& pre.subrange(92, o5) == w
            &&& pre.subrange(o5, o6) == r
            &&& pre.subrange(o6, o7) == a.base_fee_per_gas@
            &&& pre.subrange(o7, o8) == k
            &&& pre.subrange(o8, o9) == m.beneficiary@
            &&& be_value(pre.subrange(o9, o10)) == m.gas_limit
            &&& be_value(pre.subrange(o10, o11)) == m.timestamp
            &&& pre.subrange(o11, o12) == m.mix_hash@
            &&& pre.subrange(o12, pre.len() as int) == m.extra_data@
        }),
{
    let pre = payload_id_preimage(parent, a);
    let p = a.payload_attributes;
    let m = a.block_metadata;
    let w = match p.withdrawals {
        Some(ws) => rlp_withdrawals_of(ws@),
        None => Seq::<u8>::empty(),
    };
    let r = match p.parent_beacon_block_root {
        Some(root) => root@,
        None => Seq::<u8>::empty(),
    };
    let k = keccak256_of(m.tx_list@);
    lemma_u64_be_value(p.timestamp);
    lemma_u64_be_value(m.gas_limit);
    lemma_u64_be_value(m.timestamp);
    let o5: int = 92 + w.len() as int;
    let o6: int = o5 + r.len();
    let o7: int = o6 + 32;
    let o8: int = o7 + k.len();
    let o9: int = o8 + 20;
    let o10: int = o9 + 8;
    let o11: int = o10 + 8;
    let o12: int = o11 + 32;
    assert(pre =~= parent + u64_be(p.timestamp) + p.prev_randao@ + p.suggested_fee_recipient@ + w
        + r + a.base_fee_per_gas@ + k + m.beneficiary@ + u64_be(m.gas_limit) + u64_be(m.timestamp)
        + m.mix_hash@ + m.extra_data@);
    assert(pre.subrange(0, 32) =~= parent);
    assert(pre.subrange(32, 40) =~= u64_be(p.timestamp));
    assert(pre.subrange(40, 72) =~= p.prev_randao@);
    assert(pre.subrange(72, 92) =~= p.suggested_fee_recipient@);
    assert(pre.subrange(92, o5) =~= w);
    assert(pre.subrange(o5, o6) =~= r);
    assert(pre.subrange(o6, o7) =~= a.base_fee_per_gas@);
    assert(pre.subrange(o7, o8) =~= k);
    assert(pre.subrange(o8, o9) =~= m.beneficiary@);
    assert(pre.subrange(o9, o10) =~= u64_be(m.gas_limit));
    assert(pre.subrange(o10, o11) =~= u64_be(m.timestamp));
    assert(pre.subrange(o11, o12) =~= m.mix_hash@);
    assert(pre.subrange(o12, pre.len() as int) =~= m.extra_data@);
}

} // verus!
