use kasplex::rpc::{collect_sent_hashes, sync_mode};

#[test]
fn sync_mode_strings() {
    assert_eq!(sync_mode(), "full");
}

#[test]
fn batch_keeps_accepted_hashes_in_order() {
    let results: Vec<Result<u32, &str>> = vec![Ok(1), Err("nonce too low"), Ok(3), Err("x")];
    assert_eq!(collect_sent_hashes(results), vec![1, 3]);
    let none: Vec<Result<u32, &str>> = vec![Err("a")];
    assert!(collect_sent_hashes(none).is_empty());
    let empty: Vec<Result<u32, &str>> = vec![];
    assert!(collect_sent_hashes(empty).is_empty());
}

