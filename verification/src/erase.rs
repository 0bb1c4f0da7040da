//! Overwriting secret words and bytes in memory.

use vstd::prelude::*;
use zeroize::Zeroize;

verus! {

/// `n` zero words.
pub open spec fn zero_words(n: nat) -> Seq<u64> {
    Seq::new(n, |i: int| 0u64)
}

/// `n` zero bytes.
pub open spec fn zero_bytes(n: nat) -> Seq<u8> {
    Seq::new(n, |i: int| 0u8)
}

/// `zeroize::Zeroize::zeroize` on a slice of words. The contract claims
/// what that function documents and its source shows: every element is
/// overwritten with zero, the length stays, and for a length that fits
/// `isize` the call neither panics nor unwinds.
#[verifier::external_body]
pub(crate) fn zeroize_words(w: &mut [u64])
    requires
        old(w)@.len() <= isize::MAX,
    ensures
        final(w)@ == zero_words(old(w)@.len()),
    no_unwind
{
    w.zeroize();
}

/// `zeroize::Zeroize::zeroize` on a slice of bytes. The contract claims
/// what that function documents and its source shows: every element is
/// overwritten with zero, the length stays, and for a length that fits
/// `isize` the call neither panics nor unwinds.
#[verifier::external_body]
pub(crate) fn zeroize_bytes(b: &mut [u8])
    requires
        old(b)@.len() <= isize::MAX,
    ensures
        final(b)@ == zero_bytes(old(b)@.len()),
    no_unwind
{
    b.zeroize();
}

} // verus!
