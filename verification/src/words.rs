//! Little-endian conversion between bytes and 64-bit words.

use vstd::prelude::*;

verus! {

/// Byte `i` (0 is the least significant) of `w`.
pub open spec fn le_byte(w: u64, i: int) -> u8 {
    ((w >> ((8 * i) as u64)) & 0xff) as u8
}

/// The eight bytes of `w`, least significant first.
pub open spec fn le_bytes(w: u64) -> Seq<u8> {
    Seq::new(8, |i: int| le_byte(w, i))
}

/// The word whose little-endian bytes are `b[0..8]`.
pub open spec fn le_word(b: Seq<u8>) -> u64 {
    (b[0] as u64) | ((b[1] as u64) << 8) | ((b[2] as u64) << 16) | ((b[3] as u64) << 24) | ((
    b[4] as u64) << 32) | ((b[5] as u64) << 40) | ((b[6] as u64) << 48) | ((b[7] as u64) << 56)
}

/// The words encoded by `b`, eight bytes each, in order.
pub open spec fn le_words(b: Seq<u8>) -> Seq<u64> {
    Seq::new(b.len() / 8, |i: int| le_word(b.subrange(8 * i, 8 * i + 8)))
}

/// The bytes encoding `w`, eight per word, in order.
pub open spec fn words_le_bytes(w: Seq<u64>) -> Seq<u8> {
    Seq::new(8 * w.len(), |i: int| le_byte(w[i / 8], i % 8))
}

/// Reads the word stored little-endian at `b[at..at + 8]`.
pub fn read_word(b: &[u8], at: usize) -> (w: u64)
    requires
        at + 8 <= b@.len(),
    ensures
        w == le_word(b@.subrange(at as int, at + 8)),
{
    let b0: u64 = b[at] as u64;
    let b1: u64 = b[at + 1] as u64;
    let b2: u64 = b[at + 2] as u64;
    let b3: u64 = b[at + 3] as u64;
    let b4: u64 = b[at + 4] as u64;
    let b5: u64 = b[at + 5] as u64;
    let b6: u64 = b[at + 6] as u64;
    let b7: u64 = b[at + 7] as u64;
    b0 | (b1 << 8) | (b2 << 16) | (b3 << 24) | (b4 << 32) | (b5 << 40) | (b6 << 48) | (b7 << 56)
}

/// Reads `out.len()` words from the front of `b`, eight bytes each.
pub fn read_words(b: &[u8], out: &mut [u64])
    requires
        b@.len() == 8 * old(out)@.len(),
    ensures
        final(out)@ == le_words(b@),
{
    let n: usize = out.len();
    let total: usize = b.len();
    let mut i: usize = 0;
    while i < n
        invariant
            i <= n,
            out@.len() == n,
            b@.len() == total == 8 * n,
            forall|k: int| 0 <= k < i ==> out@[k] == le_word(b@.subrange(8 * k, 8 * k + 8)),
        decreases n - i,
    {
        out[i] = read_word(b, 8 * i);
        i += 1;
    }
    assert(out@ =~= le_words(b@));
}

/// Byte `i` of `w`, least significant first.
pub fn word_byte(w: u64, i: usize) -> (b: u8)
    requires
        i < 8,
    ensures
        b == le_byte(w, i as int),
{
    let sh: u64 = 8 * (i as u64);
    assert(sh < 64);
    ((w >> sh) & 0xff) as u8
}

/// Decoding the encoding of a word gives the word back.
pub proof fn lemma_le_word_of_bytes(w: u64)
    ensures
        le_word(le_bytes(w)) == w,
{
    let b = le_bytes(w);
    assert(b[0] == le_byte(w, 0) && b[1] == le_byte(w, 1) && b[2] == le_byte(w, 2) && b[3]
        == le_byte(w, 3) && b[4] == le_byte(w, 4) && b[5] == le_byte(w, 5) && b[6] == le_byte(w, 6)
        && b[7] == le_byte(w, 7));
    assert((((w >> 0u64) & 0xff) as u8 as u64) | ((((w >> 8u64) & 0xff) as u8 as u64) << 8) | ((((w
        >> 16u64) & 0xff) as u8 as u64) << 16) | ((((w >> 24u64) & 0xff) as u8 as u64) << 24) | ((((
    w >> 32u64) & 0xff) as u8 as u64) << 32) | ((((w >> 40u64) & 0xff) as u8 as u64) << 40) | ((((w
        >> 48u64) & 0xff) as u8 as u64) << 48) | ((((w >> 56u64) & 0xff) as u8 as u64) << 56) == w)
        by (bit_vector);
}

/// Decoding the encoding of a sequence of words gives the words back.
pub proof fn lemma_le_words_of_bytes(w: Seq<u64>)
    ensures
        le_words(words_le_bytes(w)) == w,
{
    let b = words_le_bytes(w);
    assert forall|j: int| 0 <= j < w.len() implies #[trigger] le_words(b)[j] == w[j] by {
        assert(b.subrange(8 * j, 8 * j + 8) =~= le_bytes(w[j]));
        lemma_le_word_of_bytes(w[j]);
    }
    assert(le_words(b) =~= w);
}

} // verus!
