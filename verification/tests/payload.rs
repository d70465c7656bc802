use kasplex::payload::{
    payload_id_kasplex, AttributesValidationError, BlockMetadata, EthPayloadAttributes,
    KasplexPayloadAttributes, Withdrawal,
};
use sha2::Digest;

fn attributes(withdrawals: Option<Vec<Withdrawal>>, root: Option<[u8; 32]>) -> KasplexPayloadAttributes {
    let mut base_fee = [0u8; 32];
    base_fee[31] = 7;
    base_fee[30] = 1;
    KasplexPayloadAttributes {
        payload_attributes: EthPayloadAttributes {
            timestamp: 1_700_000_000,
            prev_randao: [3u8; 32],
            suggested_fee_recipient: [4u8; 20],
            withdrawals,
            parent_beacon_block_root: root,
        },
        base_fee_per_gas: base_fee,
        block_metadata: BlockMetadata {
            beneficiary: [5u8; 20],
            gas_limit: 30_000_000,
            timestamp: 1_700_000_001,
            mix_hash: [6u8; 32],
            tx_list: vec![0xf8, 0x01, 0x02, 0x03],
            extra_data: vec![0xaa, 0xbb],
        },
    }
}

/// The payload id computed step by step with the outside crates directly.
fn reference_payload_id(parent: &[u8; 32], a: &KasplexPayloadAttributes) -> [u8; 8] {
    let p = &a.payload_attributes;
    let m = &a.block_metadata;
    let mut hasher = sha2::Sha256::new();
    hasher.update(parent);
    hasher.update(&p.timestamp.to_be_bytes()[..]);
    hasher.update(p.prev_randao);
    hasher.update(p.suggested_fee_recipient);
    if let Some(ws) = &p.withdrawals {
        let list: Vec<alloy_eips::eip4895::Withdrawal> = ws
            .iter()
            .map(|w| alloy_eips::eip4895::Withdrawal {
                index: w.index,
                validator_index: w.validator_index,
                address: alloy_primitives::Address::from(w.address),
                amount: w.amount,
            })
            .collect();
        let mut buf = Vec::new();
        alloy_rlp::Encodable::encode(&list, &mut buf);
        hasher.update(buf);
    }
    if let Some(root) = p.parent_beacon_block_root {
        hasher.update(root);
    }
    hasher.update(a.base_fee_per_gas);
    hasher.update(alloy_primitives::keccak256(&m.tx_list).as_slice());
    hasher.update(m.beneficiary);
    hasher.update(&m.gas_limit.to_be_bytes()[..]);
    hasher.update(&m.timestamp.to_be_bytes()[..]);
    hasher.update(m.mix_hash);
    hasher.update(&m.extra_data);
    let out = hasher.finalize();
    out.as_slice()[..8].try_into().unwrap()
}

#[test]
fn payload_id_matches_step_by_step_hashing() {
    let parent = [9u8; 32];
    let w = Withdrawal { index: 1, validator_index: 2, address: [8u8; 20], amount: 3 };
    for attrs in [
        attributes(None, None),
        attributes(Some(vec![]), None),
        attributes(Some(vec![w, w]), Some([1u8; 32])),
        attributes(None, Some([2u8; 32])),
    ] {
        assert_eq!(payload_id_kasplex(&parent, &attrs), reference_payload_id(&parent, &attrs));
    }
}

#[test]
fn payload_id_depends_on_every_component() {
    let parent = [9u8; 32];
    let base = attributes(None, None);
    let id = payload_id_kasplex(&parent, &base);
    assert_ne!(id, payload_id_kasplex(&[0u8; 32], &base));
    let mut other = base.clone();
    other.block_metadata.tx_list.push(0);
    assert_ne!(id, payload_id_kasplex(&parent, &other));
    let mut other = base.clone();
    other.block_metadata.gas_limit += 1;
    assert_ne!(id, payload_id_kasplex(&parent, &other));
    let mut other = base.clone();
    other.base_fee_per_gas[0] = 1;
    assert_ne!(id, payload_id_kasplex(&parent, &other));
    let mut other = base.clone();
    other.payload_attributes.withdrawals = Some(vec![]);
    assert_ne!(id, payload_id_kasplex(&parent, &other));
    // Same inputs, same id.
    assert_eq!(id, payload_id_kasplex(&parent, &base.clone()));
}

#[test]
fn getters() {
    let w = Withdrawal { index: 1, validator_index: 2, address: [8u8; 20], amount: 3 };
    let attrs = attributes(Some(vec![w]), Some([1u8; 32]));
    assert_eq!(attrs.timestamp(), 1_700_000_000);
    assert_eq!(attrs.withdrawals(), Some(&vec![w]));
    assert_eq!(attrs.parent_beacon_block_root(), Some([1u8; 32]));
    let none = attributes(None, None);
    assert_eq!(none.withdrawals(), None);
    assert_eq!(none.parent_beacon_block_root(), None);
}

#[test]
fn well_formed_attributes() {
    let attrs = attributes(None, None);
    assert_eq!(attrs.ensure_well_formed_attributes::<&str>(Ok(()), true), Ok(()));
    assert_eq!(
        attrs.ensure_well_formed_attributes(Err("version"), true),
        Err(AttributesValidationError::VersionSpecificFields("version"))
    );
    assert_eq!(
        attrs.ensure_well_formed_attributes(Err("version"), false),
        Err(AttributesValidationError::VersionSpecificFields("version"))
    );
    assert_eq!(
        attrs.ensure_well_formed_attributes::<&str>(Ok(()), false),
        Err(AttributesValidationError::NotKasplexChain)
    );
    let mut zero = attrs.clone();
    zero.base_fee_per_gas = [0u8; 32];
    assert_eq!(
        zero.ensure_well_formed_attributes::<&str>(Ok(()), true),
        Err(AttributesValidationError::MissingBaseFee)
    );
    assert_eq!(
        zero.ensure_well_formed_attributes::<&str>(Ok(()), false),
        Err(AttributesValidationError::NotKasplexChain)
    );
    let mut high = zero.clone();
    high.base_fee_per_gas[0] = 0x80;
    assert_eq!(high.ensure_well_formed_attributes::<&str>(Ok(()), true), Ok(()));
}
