use kasplex::treasury::{decimal_digits_of, get_treasury_address};

fn expected_address(chain_id: u64) -> [u8; 20] {
    let id = chain_id.to_string();
    let text = format!("{}{}{}", id, "0".repeat(40 - id.len() - 5), "10001");
    let mut out = [0u8; 20];
    for i in 0..20 {
        out[i] = u8::from_str_radix(&text[2 * i..2 * i + 2], 16).unwrap();
    }
    out
}

#[test]
fn test_treasury_address() {
    // A sample chain id; the address is non-zero for every chain id.
    let treasury = get_treasury_address(167012);
    // Treasury address should be deterministic based on chain ID
    assert_ne!(treasury, [0u8; 20]);
}

#[test]
fn treasury_address_layout() {
    let a = get_treasury_address(167012);
    assert_eq!(a[0], 0x16);
    assert_eq!(a[1], 0x70);
    assert_eq!(a[2], 0x12);
    assert_eq!(a[17], 0x01);
    assert_eq!(a[18], 0x00);
    assert_eq!(a[19], 0x01);
    assert_eq!(a, expected_address(167012));
}

#[test]
fn treasury_address_extreme_chain_ids() {
    assert_eq!(get_treasury_address(0), expected_address(0));
    assert_eq!(get_treasury_address(1), expected_address(1));
    assert_eq!(get_treasury_address(u64::MAX), expected_address(u64::MAX));
    let mut max = [0u8; 20];
    max[..10].copy_from_slice(&[0x18, 0x44, 0x67, 0x44, 0x07, 0x37, 0x09, 0x55, 0x16, 0x15]);
    max[17] = 0x01;
    max[19] = 0x01;
    assert_eq!(get_treasury_address(u64::MAX), max);
}

#[test]
fn decimal_digits_are_ascii() {
    assert_eq!(decimal_digits_of(0), b"0".to_vec());
    assert_eq!(decimal_digits_of(1234567890), b"1234567890".to_vec());
    assert_eq!(decimal_digits_of(u64::MAX), u64::MAX.to_string().into_bytes());
}
