use kasplex::execution_payload::{
    block_to_kasplex_payload, kasplex_payload_to_block, BlockTransaction, KasplexBlock,
    KasplexExecutionPayload,
};

fn tx(tag: u8, number: Option<u64>) -> BlockTransaction<u8> {
    BlockTransaction { transaction: tag, hash: [tag; 32], number }
}

#[test]
fn builders_set_each_field() {
    let p = KasplexExecutionPayload::new("payload");
    assert_eq!(p.numbers, None);
    assert_eq!(p.tx_hash, None);
    assert_eq!(p.withdrawals_hash, None);
    let p = p.with_numbers(vec![1, 2]).with_tx_hash([1u8; 32]).with_withdrawals_hash([2u8; 32]);
    assert_eq!(p.payload, "payload");
    assert_eq!(p.numbers, Some(vec![1, 2]));
    assert_eq!(p.tx_hash, Some([1u8; 32]));
    assert_eq!(p.withdrawals_hash, Some([2u8; 32]));
}

#[test]
fn block_to_payload_takes_numbers_first_hash_and_root() {
    let block = KasplexBlock {
        header: "header",
        withdrawals_root: Some([7u8; 32]),
        body: vec![tx(3, Some(10)), tx(4, Some(11))],
        numbers: Some(vec![10, 11]),
    };
    let p = block_to_kasplex_payload("p", block);
    assert_eq!(p.numbers, Some(vec![10, 11]));
    assert_eq!(p.tx_hash, Some([3u8; 32]));
    assert_eq!(p.withdrawals_hash, Some([7u8; 32]));
}

#[test]
fn block_to_payload_defaults_when_missing() {
    let block: KasplexBlock<&str, u8> = KasplexBlock { header: "header", withdrawals_root: None, body: vec![], numbers: None };
    let p = block_to_kasplex_payload((), block);
    assert_eq!(p.numbers, Some(vec![]));
    assert_eq!(p.tx_hash, Some([0u8; 32]));
    assert_eq!(p.withdrawals_hash, Some([0u8; 32]));
}

#[test]
fn payload_numbers_are_set_on_transactions() {
    let payload = KasplexExecutionPayload::new(()).with_numbers(vec![5, 6]);
    let converted: Result<KasplexBlock<&str, u8>, ()> = Ok(KasplexBlock {
        header: "header",
        withdrawals_root: None,
        body: vec![tx(1, None), tx(2, Some(99))],
        numbers: None,
    });
    let block = kasplex_payload_to_block(payload, converted).unwrap();
    assert_eq!(block.body[0].number, Some(5));
    assert_eq!(block.body[1].number, Some(6));
    assert_eq!(block.body[1].transaction, 2);
    assert_eq!(block.numbers, Some(vec![5, 6]));
}

#[test]
fn mismatched_numbers_are_ignored() {
    let payload = KasplexExecutionPayload::new(()).with_numbers(vec![5]);
    let converted: Result<KasplexBlock<&str, u8>, ()> = Ok(KasplexBlock {
        header: "header",
        withdrawals_root: Some([1u8; 32]),
        body: vec![tx(1, None), tx(2, Some(99))],
        numbers: Some(vec![1, 2, 3]),
    });
    let block = kasplex_payload_to_block(payload, converted).unwrap();
    assert_eq!(block.body[0].number, None);
    assert_eq!(block.body[1].number, Some(99));
    assert_eq!(block.numbers, Some(vec![99]));
    assert_eq!(block.withdrawals_root, Some([1u8; 32]));
    assert_eq!(block.header, "header");
}

#[test]
fn numbers_left_alone_when_no_transaction_has_one() {
    let payload: KasplexExecutionPayload<()> = KasplexExecutionPayload::new(());
    let converted: Result<KasplexBlock<&str, u8>, ()> = Ok(KasplexBlock {
        header: "header",
        withdrawals_root: None,
        body: vec![tx(1, None)],
        numbers: Some(vec![4]),
    });
    let block = kasplex_payload_to_block(payload, converted).unwrap();
    assert_eq!(block.numbers, Some(vec![4]));
}

#[test]
fn conversion_error_is_returned() {
    let payload = KasplexExecutionPayload::new(()).with_numbers(vec![5]);
    let converted: Result<KasplexBlock<&str, u8>, &str> = Err("invalid payload");
    assert_eq!(kasplex_payload_to_block(payload, converted), Err("invalid payload"));
}

#[test]
fn numbers_round_trip_through_payload() {
    let block = KasplexBlock {
        header: "header",
        withdrawals_root: None,
        body: vec![tx(1, Some(20)), tx(2, Some(21)), tx(3, Some(22))],
        numbers: Some(vec![20, 21, 22]),
    };
    let stripped = KasplexBlock {
        header: "header",
        withdrawals_root: None,
        body: vec![tx(1, None), tx(2, None), tx(3, None)],
        numbers: None,
    };
    let payload = block_to_kasplex_payload((), block);
    let back = kasplex_payload_to_block::<(), &str, u8, ()>(payload, Ok(stripped)).unwrap();
    assert_eq!(back.numbers, Some(vec![20, 21, 22]));
    assert_eq!(back.body[2].number, Some(22));
}
