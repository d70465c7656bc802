//! The Kasplex treasury address of a chain.

use vstd::prelude::*;
use crate::hashing::{
    address_from_hex, hex_decode, hex_decodes_to_len, is_hex_digit, keccak256, keccak256_of,
};

verus! {

/// The ASCII decimal digits of `n`, most significant first, with no leading
/// zero (`0` is the single digit `0`).
pub open spec fn decimal_digits(n: nat) -> Seq<u8>
    decreases n,
{
    if n < 10 {
        seq![(48 + n) as u8]
    } else {
        decimal_digits(n / 10).push((48 + n % 10) as u8)
    }
}

/// `"0x"`.
pub open spec fn hex_prefix_text() -> Seq<u8> {
    seq![48u8, 120u8]
}

/// `"10001"`, the suffix of every treasury address.
pub open spec fn treasury_suffix_text() -> Seq<u8> {
    seq![49u8, 48u8, 48u8, 48u8, 49u8]
}

/// `"kasplex_treasury_"`, the prefix of the fallback seed.
pub open spec fn treasury_seed_prefix_text() -> Seq<u8> {
    seq![107u8, 97u8, 115u8, 112u8, 108u8, 101u8, 120u8, 95u8, 116u8, 114u8, 101u8, 97u8, 115u8, 117u8, 114u8, 121u8, 95u8]
}

/// The number of zeros between the chain id and the suffix: what is left of
/// 40 hex digits, or none.
pub open spec fn treasury_padding(chain_id: u64) -> nat {
    let used = decimal_digits(chain_id as nat).len() + treasury_suffix_text().len();
    if used <= 40 {
        (40 - used) as nat
    } else {
        0
    }
}

/// The text `0x{chain id in decimal}{zeros}10001`.
pub open spec fn treasury_hex_text(chain_id: u64) -> Seq<u8> {
    hex_prefix_text() + decimal_digits(chain_id as nat) + Seq::new(
        treasury_padding(chain_id),
        |i: int| 48u8,
    ) + treasury_suffix_text()
}

/// The treasury address of a chain: the 20 bytes that
/// `0x{chain id}{zeros}10001` stands for when read as hex, or, should that text
/// not be 40 hex digits, the first 20 bytes of the Keccak-256 digest of
/// `kasplex_treasury_{chain id}`.
pub open spec fn treasury_address(chain_id: u64) -> Seq<u8> {
    let text = treasury_hex_text(chain_id);
    if hex_decodes_to_len(text, 20) {
        hex_decode(text)
    } else {
        keccak256_of(treasury_seed_prefix_text() + decimal_digits(chain_id as nat)).subrange(0, 20)
    }
}

/// The ASCII decimal digits of `n`.
pub fn decimal_digits_of(n: u64) -> (r: Vec<u8>)
    ensures
        r@ == decimal_digits(n as nat),
    decreases n,
{
    if n < 10 {
        let mut v: Vec<u8> = Vec::new();
        v.push((48 + n) as u8);
        v
    } else {
        let mut v = decimal_digits_of(n / 10);
        v.push((48 + n % 10) as u8);
        v
    }
}

/// Every decimal digit is an ASCII digit, and a number below `10^k` has at
/// most `k` digits.
proof fn lemma_decimal_digits(n: nat, k: nat, bound: nat)
    requires
        n < bound,
        bound == vstd::arithmetic::power::pow(10, k),
    ensures
        decimal_digits(n).len() <= k || (k == 0),
        decimal_digits(n).len() >= 1,
        forall|i: int|
            0 <= i < decimal_digits(n).len() ==> 48 <= #[trigger] decimal_digits(n)[i] <= 57,
    decreases n,
{
    vstd::arithmetic::power::lemma_pow_positive(10, k);
    if n < 10 {
        if k == 0 {
            vstd::arithmetic::power::lemma_pow0(10);
        }
    } else {
        if k == 0 {
            vstd::arithmetic::power::lemma_pow0(10);
            assert(false);
        }
        let k1 = (k - 1) as nat;
        vstd::arithmetic::power::lemma_pow_positive(10, k1);
        assert(bound == 10 * vstd::arithmetic::power::pow(10, k1)) by {
            vstd::arithmetic::power::lemma_pow_adds(10, 1, k1);
            vstd::arithmetic::power::lemma_pow1(10);
        }
        let b1 = vstd::arithmetic::power::pow(10, k1) as nat;
        assert(n / 10 < b1) by (nonlinear_arith)
            requires
                n < 10 * b1,
        ;
        lemma_decimal_digits(n / 10, k1, b1);
        if k1 == 0 {
            vstd::arithmetic::power::lemma_pow0(10);
            assert(n / 10 < 1);
            assert(false) by (nonlinear_arith)
                requires
                    n >= 10,
                    n / 10 < 1,
            ;
        }
        let d = decimal_digits(n);
        assert forall|i: int| 0 <= i < d.len() implies 48 <= #[trigger] d[i] <= 57 by {
            if i < d.len() - 1 {
                assert(d[i] == decimal_digits(n / 10)[i]);
            }
        }
    }
}

/// A `u64` has between 1 and 20 decimal digits, all ASCII digits.
proof fn lemma_u64_decimal_digits(n: u64)
    ensures
        1 <= decimal_digits(n as nat).len() <= 20,
        forall|i: int|
            0 <= i < decimal_digits(n as nat).len() ==> 48 <= #[trigger] decimal_digits(
                n as nat,
            )[i] <= 57,
{
    assert(vstd::arithmetic::power::pow(10, 20) == 100000000000000000000int) by {
        reveal_with_fuel(vstd::arithmetic::power::pow, 21);
    }
    lemma_decimal_digits(n as nat, 20, 100000000000000000000nat);
}

/// Law: for every chain id the treasury address text is 40 hex digits, so the
/// treasury address is always `0x{chain id}{zeros}10001` read as hex and never
/// the hashed fallback.
pub proof fn law_treasury_text_is_an_address(chain_id: u64)
    ensures
        hex_decodes_to_len(treasury_hex_text(chain_id), 20),
        treasury_address(chain_id) == hex_decode(treasury_hex_text(chain_id)),
{
    lemma_u64_decimal_digits(chain_id);
    let d = decimal_digits(chain_id as nat);
    let text = treasury_hex_text(chain_id);
    let pad = treasury_padding(chain_id);
    assert(d.len() + 5 <= 40);
    assert(text.len() == 42);
    assert(text[0] == 48u8);
    assert(text[1] == 120u8);
    let body = text.subrange(2, 42);
    assert forall|i: int| 0 <= i < body.len() implies is_hex_digit(#[trigger] body[i]) by {
        assert(body[i] == text[i + 2]);
        if i < d.len() {
            assert(text[i + 2] == d[i]);
        } else if i < d.len() + pad {
            assert(text[i + 2] == 48u8);
        } else {
            assert(text[i + 2] == treasury_suffix_text()[i - d.len() - pad]);
        }
    }
}

/// Calculate the treasury address of the chain with id `chain_id`.
///
/// The treasury address is `0x{chain id}{padding zeros}10001`, 40 hex
/// characters (20 bytes) in all, with the chain id written in decimal.
pub fn get_treasury_address(chain_id: u64) -> (r: [u8; 20])
    ensures
        r@ == treasury_address(chain_id),
{
    let digits = decimal_digits_of(chain_id);
    proof {
        lemma_u64_decimal_digits(chain_id);
    }
    let used = digits.len() + 5;
    let padding_len: usize = if used <= 40 { 40 - used } else { 0 };
    let mut text: Vec<u8> = Vec::new();
    text.push(48u8);
    text.push(120u8);
    let mut i: usize = 0;
    while i < digits.len()
        invariant
            i <= digits@.len(),
            text@ == hex_prefix_text() + digits@.subrange(0, i as int),
        decreases digits@.len() - i,
    {
        text.push(digits[i]);
        assert(digits@.subrange(0, i + 1) =~= digits@.subrange(0, i as int).push(digits@[i as int]));
        i = i + 1;
    }
    assert(digits@.subrange(0, digits@.len() as int) =~= digits@);
    let mut j: usize = 0;
    while j < padding_len
        invariant
            j <= padding_len,
            text@ == hex_prefix_text() + digits@ + Seq::new(j as nat, |k: int| 48u8),
        decreases padding_len - j,
    {
        text.push(48u8);
        assert(Seq::new((j + 1) as nat, |k: int| 48u8) =~= Seq::new(j as nat, |k: int| 48u8).push(48u8));
        j = j + 1;
    }
    text.push(49u8);
    text.push(48u8);
    text.push(48u8);
    text.push(48u8);
    text.push(49u8);
    assert(text@ =~= treasury_hex_text(chain_id));
    match address_from_hex(text.as_slice()) {
        Some(addr) => addr,
        None => {
            let mut seed: Vec<u8> = Vec::new();
            let prefix: [u8; 17] = [107, 97, 115, 112, 108, 101, 120, 95, 116, 114, 101, 97, 115, 117, 114, 121, 95];
            let mut k: usize = 0;
            while k < 17
                invariant
                    k <= 17,
                    prefix@ == treasury_seed_prefix_text(),
                    seed@ == prefix@.subrange(0, k as int),
                decreases 17 - k,
            {
                seed.push(prefix[k]);
                assert(prefix@.subrange(0, k + 1) =~= prefix@.subrange(0, k as int).push(prefix@[k as int]));
                k = k + 1;
            }
            let mut m: usize = 0;
            while m < digits.len()
                invariant
                    m <= digits@.len(),
                    seed@ == treasury_seed_prefix_text() + digits@.subrange(0, m as int),
                decreases digits@.len() - m,
            {
                seed.push(digits[m]);
                assert(digits@.subrange(0, m + 1) =~= digits@.subrange(0, m as int).push(digits@[m as int]));
                m = m + 1;
            }
            let hash = keccak256(seed.as_slice());
            let mut out: [u8; 20] = [0u8; 20];
            let mut q: usize = 0;
            while q < 20
                invariant
                    q <= 20,
                    forall|t: int| 0 <= t < q ==> out@[t] == hash@[t],
                decreases 20 - q,
            {
                out[q] = hash[q];
                q = q + 1;
            }
            assert(out@ =~= hash@.subrange(0, 20));
            out
        },
    }
}

} // verus!
