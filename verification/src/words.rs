//! Big-endian 16-byte representation of the 128-bit field values, and the
//! 32-byte padded words that carry them inside a log record.

use vstd::prelude::*;

verus! {

/// The 128-bit value held by a 16-byte big-endian sequence.
pub open spec fn word_val(s: Seq<u8>) -> u128
    recommends
        s.len() == 16,
{
    (s[0] as u128) << 120 | (s[1] as u128) << 112 | (s[2] as u128) << 104 | (s[3] as u128) << 96
        | (s[4] as u128) << 88 | (s[5] as u128) << 80 | (s[6] as u128) << 72 | (s[7] as u128) << 64
        | (s[8] as u128) << 56 | (s[9] as u128) << 48 | (s[10] as u128) << 40 | (s[11] as u128)
        << 32 | (s[12] as u128) << 24 | (s[13] as u128) << 16 | (s[14] as u128) << 8 | (
    s[15] as u128)
}

/// The 16 big-endian bytes of a 128-bit value.
pub open spec fn word_bytes(x: u128) -> Seq<u8> {
    seq![
        ((x >> 120) & 0xff) as u8,
        ((x >> 112) & 0xff) as u8,
        ((x >> 104) & 0xff) as u8,
        ((x >> 96) & 0xff) as u8,
        ((x >> 88) & 0xff) as u8,
        ((x >> 80) & 0xff) as u8,
        ((x >> 72) & 0xff) as u8,
        ((x >> 64) & 0xff) as u8,
        ((x >> 56) & 0xff) as u8,
        ((x >> 48) & 0xff) as u8,
        ((x >> 40) & 0xff) as u8,
        ((x >> 32) & 0xff) as u8,
        ((x >> 24) & 0xff) as u8,
        ((x >> 16) & 0xff) as u8,
        ((x >> 8) & 0xff) as u8,
        (x & 0xff) as u8,
    ]
}

/// Sixteen zero bytes.
pub open spec fn zero16() -> Seq<u8> {
    Seq::new(16, |i: int| 0u8)
}

/// The 32-byte word that carries a 128-bit value on the wire: the value
/// occupies the low half, the high half is zero.
pub open spec fn padded_word(x: u128) -> Seq<u8> {
    zero16() + word_bytes(x)
}

/// Reading the big-endian bytes of a value yields the value back.
pub proof fn lemma_word_roundtrip(x: u128)
    ensures
        word_bytes(x).len() == 16,
        word_val(word_bytes(x)) == x,
{
    assert((x >> 120) & 0xff < 256 && (x >> 112) & 0xff < 256 && (x >> 104) & 0xff < 256 && (x
        >> 96) & 0xff < 256 && (x >> 88) & 0xff < 256 && (x >> 80) & 0xff < 256 && (x >> 72) & 0xff
        < 256 && (x >> 64) & 0xff < 256 && (x >> 56) & 0xff < 256 && (x >> 48) & 0xff < 256 && (x
        >> 40) & 0xff < 256 && (x >> 32) & 0xff < 256 && (x >> 24) & 0xff < 256 && (x >> 16) & 0xff
        < 256 && (x >> 8) & 0xff < 256 && x & 0xff < 256) by (bit_vector);
    assert(((x >> 120) & 0xff) << 120 | ((x >> 112) & 0xff) << 112 | ((x >> 104) & 0xff) << 104 | (
    (x >> 96) & 0xff) << 96 | ((x >> 88) & 0xff) << 88 | ((x >> 80) & 0xff) << 80 | ((x >> 72)
        & 0xff) << 72 | ((x >> 64) & 0xff) << 64 | ((x >> 56) & 0xff) << 56 | ((x >> 48) & 0xff)
        << 48 | ((x >> 40) & 0xff) << 40 | ((x >> 32) & 0xff) << 32 | ((x >> 24) & 0xff) << 24 | ((
    x >> 16) & 0xff) << 16 | ((x >> 8) & 0xff) << 8 | (x & 0xff) == x) by (bit_vector);
}

/// Reads the 16-byte big-endian word starting at `off`.
pub fn read_word(data: &[u8], off: usize) -> (x: u128)
    requires
        off + 16 <= data@.len(),
    ensures
        x == word_val(data@.subrange(off as int, off as int + 16)),
{
    let x: u128 = (data[off] as u128) << 120 | (data[off + 1] as u128) << 112 | (data[off
        + 2] as u128) << 104 | (data[off + 3] as u128) << 96 | (data[off + 4] as u128) << 88 | (
    data[off + 5] as u128) << 80 | (data[off + 6] as u128) << 72 | (data[off + 7] as u128) << 64 | (
    data[off + 8] as u128) << 56 | (data[off + 9] as u128) << 48 | (data[off + 10] as u128) << 40
        | (data[off + 11] as u128) << 32 | (data[off + 12] as u128) << 24 | (data[off
        + 13] as u128) << 16 | (data[off + 14] as u128) << 8 | (data[off + 15] as u128);
    proof {
        let s = data@.subrange(off as int, off as int + 16);
        assert forall|i: int| 0 <= i < 16 implies s[i] == data@[off + i] by {}
    }
    x
}

/// True when the 16 bytes starting at `off` are all zero.
pub open spec fn zero_at(s: Seq<u8>, off: int) -> bool {
    forall|i: int| off <= i < off + 16 ==> s[i] == 0
}

/// Checks that the 16 bytes starting at `off` are all zero.
pub fn check_zero16(data: &[u8], off: usize) -> (r: bool)
    requires
        off + 16 <= data@.len(),
    ensures
        r == zero_at(data@, off as int),
{
    let n: usize = data.len();
    let mut i: usize = 0;
    while i < 16
        invariant
            i <= 16,
            off + 16 <= n,
            n == data@.len(),
            forall|j: int| off <= j < off + i ==> data@[j] == 0,
        decreases 16 - i,
    {
        if data[off + i] != 0 {
            return false;
        }
        i = i + 1;
    }
    true
}

/// Appends the 32-byte padded word for `x`: 16 zero bytes, then the 16
/// big-endian bytes of the value.
pub fn push_word(v: &mut Vec<u8>, x: u128)
    ensures
        final(v)@ == old(v)@ + padded_word(x),
{
    let mut i: usize = 0;
    while i < 16
        invariant
            i <= 16,
            v@ == old(v)@ + zero16().subrange(0, i as int),
        decreases 16 - i,
    {
        v.push(0u8);
        proof {
            assert(v@ =~= old(v)@ + zero16().subrange(0, i + 1));
        }
        i = i + 1;
    }
    proof {
        assert(zero16().subrange(0, 16) =~= zero16());
    }
    v.push(((x >> 120) & 0xff) as u8);
    v.push(((x >> 112) & 0xff) as u8);
    v.push(((x >> 104) & 0xff) as u8);
    v.push(((x >> 96) & 0xff) as u8);
    v.push(((x >> 88) & 0xff) as u8);
    v.push(((x >> 80) & 0xff) as u8);
    v.push(((x >> 72) & 0xff) as u8);
    v.push(((x >> 64) & 0xff) as u8);
    v.push(((x >> 56) & 0xff) as u8);
    v.push(((x >> 48) & 0xff) as u8);
    v.push(((x >> 40) & 0xff) as u8);
    v.push(((x >> 32) & 0xff) as u8);
    v.push(((x >> 24) & 0xff) as u8);
    v.push(((x >> 16) & 0xff) as u8);
    v.push(((x >> 8) & 0xff) as u8);
    v.push((x & 0xff) as u8);
    proof {
        assert(v@ =~= old(v)@ + padded_word(x));
    }
}

} // verus!
