//! Big-endian byte encodings of integers, and the conversion between a 32-byte
//! hash and the four-word form that keys the transaction mapping.

use vstd::prelude::*;
use crate::tx_mapping::TxHash;

verus! {

/// The eight big-endian bytes of `x` (most significant first).
pub open spec fn u64_be(x: u64) -> Seq<u8> {
    seq![
        (x >> 56u64) as u8,
        (x >> 48u64) as u8,
        (x >> 40u64) as u8,
        (x >> 32u64) as u8,
        (x >> 24u64) as u8,
        (x >> 16u64) as u8,
        (x >> 8u64) as u8,
        x as u8,
    ]
}

/// The number whose big-endian bytes are `s` (the value of a `U256` given as
/// its 32 big-endian bytes).
pub open spec fn be_value(s: Seq<u8>) -> nat
    decreases s.len(),
{
    if s.len() == 0 {
        0
    } else {
        be_value(s.drop_last()) * 256 + s.last() as nat
    }
}

/// The four big-endian bytes of `x`.
pub open spec fn u32_be(x: u32) -> Seq<u8> {
    seq![(x >> 24u32) as u8, (x >> 16u32) as u8, (x >> 8u32) as u8, x as u8]
}

/// The 20 bytes of an address held as big-endian words.
pub open spec fn address_key_bytes(k: (u64, u64, u32)) -> Seq<u8> {
    u64_be(k.0) + u64_be(k.1) + u32_be(k.2)
}

/// The 32 bytes of a hash held as four big-endian words.
pub open spec fn tx_hash_bytes(h: TxHash) -> Seq<u8> {
    u64_be(h.0) + u64_be(h.1) + u64_be(h.2) + u64_be(h.3)
}

/// The eight big-endian bytes of `x`.
pub fn u64_to_be_bytes(x: u64) -> (r: [u8; 8])
    ensures
        r@ == u64_be(x),
{
    let r = [
        (x >> 56u64) as u8,
        (x >> 48u64) as u8,
        (x >> 40u64) as u8,
        (x >> 32u64) as u8,
        (x >> 24u64) as u8,
        (x >> 16u64) as u8,
        (x >> 8u64) as u8,
        x as u8,
    ];
    assert(r@ =~= u64_be(x));
    r
}

/// The word whose big-endian bytes are `b[off..off + 8]`.
fn be_word(b: &[u8], off: usize) -> (w: u64)
    requires
        off + 8 <= b@.len(),
    ensures
        u64_be(w) == b@.subrange(off as int, off + 8),
{
    let b0 = b[off];
    let b1 = b[off + 1];
    let b2 = b[off + 2];
    let b3 = b[off + 3];
    let b4 = b[off + 4];
    let b5 = b[off + 5];
    let b6 = b[off + 6];
    let b7 = b[off + 7];
    let w: u64 = ((b0 as u64) << 56u64) | ((b1 as u64) << 48u64) | ((b2 as u64) << 40u64) | (
    (b3 as u64) << 32u64) | ((b4 as u64) << 24u64) | ((b5 as u64) << 16u64) | ((b6 as u64)
        << 8u64) | (b7 as u64);
    assert(
        (w >> 56u64) as u8 == b0 && (w >> 48u64) as u8 == b1 && (w >> 40u64) as u8 == b2 && (w
            >> 32u64) as u8 == b3 && (w >> 24u64) as u8 == b4 && (w >> 16u64) as u8 == b5 && (w
            >> 8u64) as u8 == b6 && w as u8 == b7
    ) by (bit_vector)
        requires
            w == ((b0 as u64) << 56u64) | ((b1 as u64) << 48u64) | ((b2 as u64) << 40u64) | (
            (b3 as u64) << 32u64) | ((b4 as u64) << 24u64) | ((b5 as u64) << 16u64) | ((
            b6 as u64) << 8u64) | (b7 as u64),
    ;
    assert(u64_be(w) =~= b@.subrange(off as int, off + 8));
    w
}

/// The four-word form of a 32-byte transaction hash.
pub fn tx_hash_from_bytes(b: &[u8; 32]) -> (h: TxHash)
    ensures
        tx_hash_bytes(h) == b@,
{
    let s = b.as_slice();
    let h = (be_word(s, 0), be_word(s, 8), be_word(s, 16), be_word(s, 24));
    assert(tx_hash_bytes(h) =~= b@);
    h
}

/// The 32 bytes of a transaction hash held in four-word form.
pub fn tx_hash_to_bytes(h: TxHash) -> (b: [u8; 32])
    ensures
        b@ == tx_hash_bytes(h),
{
    let w0 = u64_to_be_bytes(h.0);
    let w1 = u64_to_be_bytes(h.1);
    let w2 = u64_to_be_bytes(h.2);
    let w3 = u64_to_be_bytes(h.3);
    let b = [
        w0[0], w0[1], w0[2], w0[3], w0[4], w0[5], w0[6], w0[7],
        w1[0], w1[1], w1[2], w1[3], w1[4], w1[5], w1[6], w1[7],
        w2[0], w2[1], w2[2], w2[3], w2[4], w2[5], w2[6], w2[7],
        w3[0], w3[1], w3[2], w3[3], w3[4], w3[5], w3[6], w3[7],
    ];
    assert(b@ =~= tx_hash_bytes(h));
    b
}

/// A word is determined by its big-endian bytes.
pub proof fn lemma_u64_be_injective(x: u64, y: u64)
    requires
        u64_be(x) == u64_be(y),
    ensures
        x == y,
{
    assert(u64_be(x)[0] == u64_be(y)[0]);
    assert(u64_be(x)[1] == u64_be(y)[1]);
    assert(u64_be(x)[2] == u64_be(y)[2]);
    assert(u64_be(x)[3] == u64_be(y)[3]);
    assert(u64_be(x)[4] == u64_be(y)[4]);
    assert(u64_be(x)[5] == u64_be(y)[5]);
    assert(u64_be(x)[6] == u64_be(y)[6]);
    assert(u64_be(x)[7] == u64_be(y)[7]);
    assert(x == y) by (bit_vector)
        requires
            (x >> 56u64) as u8 == (y >> 56u64) as u8,
            (x >> 48u64) as u8 == (y >> 48u64) as u8,
            (x >> 40u64) as u8 == (y >> 40u64) as u8,
            (x >> 32u64) as u8 == (y >> 32u64) as u8,
            (x >> 24u64) as u8 == (y >> 24u64) as u8,
            (x >> 16u64) as u8 == (y >> 16u64) as u8,
            (x >> 8u64) as u8 == (y >> 8u64) as u8,
            x as u8 == y as u8,
    ;
}

/// Law: two transaction hashes with the same 32 bytes are the same key, so the
/// four-word form loses nothing of a hash.
pub proof fn lemma_tx_hash_bytes_injective(h: TxHash, g: TxHash)
    requires
        tx_hash_bytes(h) == tx_hash_bytes(g),
    ensures
        h == g,
{
    let a = tx_hash_bytes(h);
    let b = tx_hash_bytes(g);
    assert(a.subrange(0, 8) =~= u64_be(h.0));
    assert(b.subrange(0, 8) =~= u64_be(g.0));
    assert(a.subrange(8, 16) =~= u64_be(h.1));
    assert(b.subrange(8, 16) =~= u64_be(g.1));
    assert(a.subrange(16, 24) =~= u64_be(h.2));
    assert(b.subrange(16, 24) =~= u64_be(g.2));
    assert(a.subrange(24, 32) =~= u64_be(h.3));
    assert(b.subrange(24, 32) =~= u64_be(g.3));
    lemma_u64_be_injective(h.0, g.0);
    lemma_u64_be_injective(h.1, g.1);
    lemma_u64_be_injective(h.2, g.2);
    lemma_u64_be_injective(h.3, g.3);
}

/// A big-endian number is zero exactly when all its bytes are.
pub proof fn lemma_be_value_zero(s: Seq<u8>)
    ensures
        (be_value(s) == 0) <==> (forall|i: int| 0 <= i < s.len() ==> #[trigger] s[i] == 0),
    decreases s.len(),
{
    if s.len() > 0 {
        let p = s.drop_last();
        lemma_be_value_zero(p);
        if be_value(s) == 0 {
            assert forall|i: int| 0 <= i < s.len() implies #[trigger] s[i] == 0 by {
                if i < s.len() - 1 {
                    assert(s[i] == p[i]);
                }
            }
        }
        if forall|i: int| 0 <= i < s.len() ==> #[trigger] s[i] == 0 {
            assert forall|i: int| 0 <= i < p.len() implies #[trigger] p[i] == 0 by {
                assert(p[i] == s[i]);
            }
            assert(s.last() == s[s.len() - 1]);
        }
    }
}

/// Whether the big-endian number `b` is zero.
pub fn u256_is_zero(b: &[u8; 32]) -> (r: bool)
    ensures
        r == (be_value(b@) == 0),
{
    proof {
        lemma_be_value_zero(b@);
    }
    let mut i: usize = 0;
    #[verifier::loop_isolation(false)]
    while i < 32
        invariant
            i <= 32,
            forall|j: int| 0 <= j < i ==> b@[j] == 0,
        decreases 32 - i,
    {
        if b[i] != 0 {
            assert(b@[i as int] != 0);
            return false;
        }
        i = i + 1;
    }
    true
}

/// Whether `tip` is at least the big-endian number `min` (a `U256`).
pub fn u128_at_least(tip: u128, min: &[u8; 32]) -> (r: bool)
    ensures
        r == (tip >= be_value(min@)),
{
    let mut acc: u128 = 0;
    let mut big = false;
    let mut i: usize = 0;
    while i < 32
        invariant
            i <= 32,
            big ==> be_value(min@.subrange(0, i as int)) > u128::MAX,
            !big ==> acc == be_value(min@.subrange(0, i as int)),
        decreases 32 - i,
    {
        let b = min[i];
        let ghost prev = min@.subrange(0, i as int);
        let ghost next = min@.subrange(0, i + 1);
        assert(next.drop_last() =~= prev);
        assert(be_value(next) == be_value(prev) * 256 + b);
        if big {
            assert(be_value(prev) * 256 + b > u128::MAX) by (nonlinear_arith)
                requires
                    be_value(prev) > u128::MAX,
            ;
        } else if acc > (u128::MAX - b as u128) / 256 {
            big = true;
            assert(acc * 256 + b > u128::MAX) by (nonlinear_arith)
                requires
                    acc > (u128::MAX - b as u128) / 256,
                    b <= 255,
            ;
        } else {
            assert(acc * 256 + b <= u128::MAX) by (nonlinear_arith)
                requires
                    acc <= (u128::MAX - b as u128) / 256,
                    b <= 255,
            ;
            acc = acc * 256 + b as u128;
        }
        i = i + 1;
    }
    assert(min@.subrange(0, 32) =~= min@);
    !big && acc <= tip
}

/// The address, held as big-endian words, whose 20 bytes are `a`.
pub fn address_key_from_bytes(a: &[u8; 20]) -> (k: (u64, u64, u32))
    ensures
        address_key_bytes(k) == a@,
{
    let s = a.as_slice();
    let w0 = be_word(s, 0);
    let w1 = be_word(s, 8);
    let b0 = a[16];
    let b1 = a[17];
    let b2 = a[18];
    let b3 = a[19];
    let w2: u32 = ((b0 as u32) << 24u32) | ((b1 as u32) << 16u32) | ((b2 as u32) << 8u32) | (
    b3 as u32);
    assert((w2 >> 24u32) as u8 == b0 && (w2 >> 16u32) as u8 == b1 && (w2 >> 8u32) as u8 == b2
        && w2 as u8 == b3) by (bit_vector)
        requires
            w2 == ((b0 as u32) << 24u32) | ((b1 as u32) << 16u32) | ((b2 as u32) << 8u32) | (
            b3 as u32),
    ;
    let k = (w0, w1, w2);
    assert(address_key_bytes(k) =~= a@);
    k
}

/// The 20 bytes of an address held as big-endian words.
pub fn address_key_to_bytes(k: (u64, u64, u32)) -> (a: [u8; 20])
    ensures
        a@ == address_key_bytes(k),
{
    let w0 = u64_to_be_bytes(k.0);
    let w1 = u64_to_be_bytes(k.1);
    let x = k.2;
    let a = [
        w0[0], w0[1], w0[2], w0[3], w0[4], w0[5], w0[6], w0[7],
        w1[0], w1[1], w1[2], w1[3], w1[4], w1[5], w1[6], w1[7],
        (x >> 24u32) as u8, (x >> 16u32) as u8, (x >> 8u32) as u8, x as u8,
    ];
    assert(a@ =~= address_key_bytes(k));
    a
}

/// Law: two addresses with the same 20 bytes are the same key.
pub proof fn lemma_address_key_bytes_injective(h: (u64, u64, u32), g: (u64, u64, u32))
    requires
        address_key_bytes(h) == address_key_bytes(g),
    ensures
        h == g,
{
    let a = address_key_bytes(h);
    let b = address_key_bytes(g);
    assert(a.subrange(0, 8) =~= u64_be(h.0));
    assert(b.subrange(0, 8) =~= u64_be(g.0));
    assert(a.subrange(8, 16) =~= u64_be(h.1));
    assert(b.subrange(8, 16) =~= u64_be(g.1));
    lemma_u64_be_injective(h.0, g.0);
    lemma_u64_be_injective(h.1, g.1);
    let x = h.2;
    let y = g.2;
    assert(a[16] == b[16] && a[17] == b[17] && a[18] == b[18] && a[19] == b[19]);
    assert(x == y) by (bit_vector)
        requires
            (x >> 24u32) as u8 == (y >> 24u32) as u8,
            (x >> 16u32) as u8 == (y >> 16u32) as u8,
            (x >> 8u32) as u8 == (y >> 8u32) as u8,
            x as u8 == y as u8,
    ;
}

/// The big-endian bytes of a word read back as a number give the word.
pub proof fn lemma_u64_be_value(x: u64)
    ensures
        u64_be(x).len() == 8,
        be_value(u64_be(x)) == x,
{
    let s = u64_be(x);
    let b0 = (x >> 56u64) as u8;
    let b1 = (x >> 48u64) as u8;
    let b2 = (x >> 40u64) as u8;
    let b3 = (x >> 32u64) as u8;
    let b4 = (x >> 24u64) as u8;
    let b5 = (x >> 16u64) as u8;
    let b6 = (x >> 8u64) as u8;
    let b7 = x as u8;
    assert(s.drop_last() =~= seq![b0, b1, b2, b3, b4, b5, b6]);
    assert(s.drop_last().drop_last() =~= seq![b0, b1, b2, b3, b4, b5]);
    assert(s.drop_last().drop_last().drop_last() =~= seq![b0, b1, b2, b3, b4]);
    assert(seq![b0, b1, b2, b3, b4].drop_last() =~= seq![b0, b1, b2, b3]);
    assert(seq![b0, b1, b2, b3].drop_last() =~= seq![b0, b1, b2]);
    assert(seq![b0, b1, b2].drop_last() =~= seq![b0, b1]);
    assert(seq![b0, b1].drop_last() =~= seq![b0]);
    assert(seq![b0].drop_last() =~= Seq::<u8>::empty());
    assert(be_value(Seq::<u8>::empty()) == 0);
    assert(seq![b0].last() == b0);
    assert(seq![b0, b1].last() == b1);
    assert(seq![b0, b1, b2].last() == b2);
    assert(seq![b0, b1, b2, b3].last() == b3);
    assert(seq![b0, b1, b2, b3, b4].last() == b4);
    assert(seq![b0, b1, b2, b3, b4, b5].last() == b5);
    assert(seq![b0, b1, b2, b3, b4, b5, b6].last() == b6);
    assert(s.last() == b7);
    assert(be_value(seq![b0]) == b0);
    assert(be_value(seq![b0, b1]) == b0 * 256 + b1);
    assert(be_value(seq![b0, b1, b2]) == (b0 * 256 + b1) * 256 + b2);
    assert(be_value(seq![b0, b1, b2, b3]) == ((b0 * 256 + b1) * 256 + b2) * 256 + b3);
    assert(be_value(seq![b0, b1, b2, b3, b4]) == (((b0 * 256 + b1) * 256 + b2) * 256 + b3) * 256
        + b4);
    assert(be_value(seq![b0, b1, b2, b3, b4, b5]) == ((((b0 * 256 + b1) * 256 + b2) * 256 + b3)
        * 256 + b4) * 256 + b5);
    assert(be_value(seq![b0, b1, b2, b3, b4, b5, b6]) == (((((b0 * 256 + b1) * 256 + b2) * 256
        + b3) * 256 + b4) * 256 + b5) * 256 + b6);
    assert(be_value(s) == ((((((b0 * 256 + b1) * 256 + b2) * 256 + b3) * 256 + b4) * 256 + b5)
        * 256 + b6) * 256 + b7);
    assert(x == (b0 as u64) * 0x100000000000000u64 + (b1 as u64) * 0x1000000000000u64 + (
    b2 as u64) * 0x10000000000u64 + (b3 as u64) * 0x100000000u64 + (b4 as u64) * 0x1000000u64
        + (b5 as u64) * 0x10000u64 + (b6 as u64) * 0x100u64 + (b7 as u64)) by (bit_vector)
        requires
            b0 == (x >> 56u64) as u8,
            b1 == (x >> 48u64) as u8,
            b2 == (x >> 40u64) as u8,
            b3 == (x >> 32u64) as u8,
            b4 == (x >> 24u64) as u8,
            b5 == (x >> 16u64) as u8,
            b6 == (x >> 8u64) as u8,
            b7 == x as u8,
    ;
}

} // verus!
