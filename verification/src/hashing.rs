//! The outside hash functions, encoders and decoders that the library calls:
//! SHA-256 from `sha2`, Keccak-256 and hex decoding from `alloy_primitives`,
//! and the RLP encoding of withdrawals from `alloy_rlp` and `alloy_eips`.

use vstd::prelude::*;
use sha2::Digest;
use alloy_primitives::hex::FromHex;

verus! {

/// The SHA-256 digest of a byte string, as computed by the `sha2` crate.
pub uninterp spec fn sha256_of(data: Seq<u8>) -> Seq<u8>;

/// The Keccak-256 digest of a byte string, as computed by
/// `alloy_primitives::keccak256`.
pub uninterp spec fn keccak256_of(data: Seq<u8>) -> Seq<u8>;

/// Calls `sha2::Sha256::digest`: the 32-byte SHA-256 digest of `data`. Feeding
/// a `Sha256` hasher several slices with `update` and then calling `finalize`
/// gives the digest of their concatenation, which is what this computes.
#[verifier::external_body]
pub(crate) fn sha256(data: &[u8]) -> (r: [u8; 32])
    ensures
        r@ == sha256_of(data@),
{
    sha2::Sha256::digest(data).into()
}

/// Calls `alloy_primitives::keccak256`: the 32-byte Keccak-256 digest of `data`.
#[verifier::external_body]
pub(crate) fn keccak256(data: &[u8]) -> (r: [u8; 32])
    ensures
        r@ == keccak256_of(data@),
{
    alloy_primitives::keccak256(data).0
}

/// Whether `c` is an ASCII hex digit, in either case.
pub open spec fn is_hex_digit(c: u8) -> bool {
    (48 <= c <= 57) || (97 <= c <= 102) || (65 <= c <= 70)
}

/// The value of an ASCII hex digit.
pub open spec fn hex_digit_value(c: u8) -> int {
    if 48 <= c <= 57 {
        c - 48
    } else if 97 <= c <= 102 {
        c - 87
    } else {
        c - 55
    }
}

/// A hex string without its `0x` (or `0X`) prefix, if it has one.
pub open spec fn strip_hex_prefix(s: Seq<u8>) -> Seq<u8> {
    if s.len() >= 2 && s[0] == 48 && (s[1] == 120 || s[1] == 88) {
        s.subrange(2, s.len() as int)
    } else {
        s
    }
}

/// Whether `s` is the hex text of exactly `n` bytes, with or without a `0x`
/// prefix.
pub open spec fn hex_decodes_to_len(s: Seq<u8>, n: nat) -> bool {
    let body = strip_hex_prefix(s);
    &&& s.len() % 2 == 0
    &&& body.len() == 2 * n
    &&& forall|i: int| 0 <= i < body.len() ==> is_hex_digit(#[trigger] body[i])
}

/// The bytes that the hex text `s` stands for, two digits a byte, most
/// significant digit first.
pub open spec fn hex_decode(s: Seq<u8>) -> Seq<u8> {
    let body = strip_hex_prefix(s);
    Seq::new(
        body.len() / 2,
        |i: int| (hex_digit_value(body[2 * i]) * 16 + hex_digit_value(body[2 * i + 1])) as u8,
    )
}

/// Calls `<alloy_primitives::Address as FromHex>::from_hex`, which decodes
/// hex text (either case, an optional `0x` prefix) into a 20-byte address. It
/// fails exactly when the text has odd length, is not 40 digits long once the
/// prefix is gone, or holds a character that is no hex digit.
#[verifier::external_body]
pub(crate) fn address_from_hex(input: &[u8]) -> (r: Option<[u8; 20]>)
    ensures
        r is Some <==> hex_decodes_to_len(input@, 20),
        r matches Some(a) ==> a@ == hex_decode(input@),
{
    match alloy_primitives::Address::from_hex(input) {
        Ok(a) => Some(a.0.0),
        Err(_) => None,
    }
}


/// The RLP encoding of a list of withdrawals, as computed by `alloy_rlp` for a
/// `Vec<alloy_eips::eip4895::Withdrawal>`.
pub uninterp spec fn rlp_withdrawals_of(ws: Seq<crate::payload::Withdrawal>) -> Seq<u8>;

/// Calls `alloy_rlp::Encodable::encode` on the list of
/// `alloy_eips::eip4895::Withdrawal` that holds the same fields as `ws`, in
/// order, and returns the bytes written.
#[verifier::external_body]
pub(crate) fn rlp_encode_withdrawals(ws: &Vec<crate::payload::Withdrawal>) -> (r: Vec<u8>)
    ensures
        r@ == rlp_withdrawals_of(ws@),
{
    let list: Vec<alloy_eips::eip4895::Withdrawal> = ws.iter().map(|w| alloy_eips::eip4895::Withdrawal {
        index: w.index,
        validator_index: w.validator_index,
        address: alloy_primitives::Address::from(w.address),
        amount: w.amount,
    }).collect();
    let mut buf: Vec<u8> = Vec::new();
    alloy_rlp::Encodable::encode(&list, &mut buf);
    buf
}

} // verus!
