//! The three word maps of the generator, given by byte-indexed tables.
//!
//! The cipher fixes the maps by published constants. They are data, not
//! code: whoever keys a generator hands them in, and [`Tables::is_inverse_pair`]
//! tells whether the two multiplications they define undo each other.

use vstd::prelude::*;

verus! {

/// The tables that fix the three word maps: multiplication by the field
/// constant, multiplication by its inverse, and the register transform.
///
/// Multiplying by the constant moves a word up by one byte and folds in the
/// entry selected by the byte that left; multiplying by the inverse moves it
/// down and folds in the entry selected by the byte that left at the bottom.
/// The transform is the exclusive-or of one entry for each byte of its
/// argument.
#[derive(Clone, Copy)]
pub struct Tables {
    /// Entry `b` is what the byte `b` leaving at the top contributes.
    pub alpha_mul: [u64; 256],
    /// Entry `b` is what the byte `b` leaving at the bottom contributes.
    pub alpha_inv_mul: [u64; 256],
    /// `t[k][b]` is what byte `k` of the argument contributes when it is `b`.
    pub t: [[u64; 256]; 8],
}

impl Tables {
    /// Multiplication by the field constant.
    pub open spec fn field_mul(&self, x: u64) -> u64 {
        (x << 8) ^ self.alpha_mul[(x >> 56) as int]
    }

    /// Multiplication by the inverse of the field constant.
    pub open spec fn field_mul_inverse(&self, x: u64) -> u64 {
        (x >> 8) ^ self.alpha_inv_mul[(x & 0xff) as int]
    }

    /// The register transform.
    pub open spec fn transform(&self, x: u64) -> u64 {
        self.t[0][(x & 0xff) as int] ^ self.t[1][((x >> 8) & 0xff) as int] ^ self.t[2][((x >> 16)
            & 0xff) as int] ^ self.t[3][((x >> 24) & 0xff) as int] ^ self.t[4][((x >> 32)
            & 0xff) as int] ^ self.t[5][((x >> 40) & 0xff) as int] ^ self.t[6][((x >> 48)
            & 0xff) as int] ^ self.t[7][((x >> 56) & 0xff) as int]
    }

    /// Multiplies `x` by the field constant.
    pub fn a_mul(&self, x: u64) -> (y: u64)
        ensures
            y == self.field_mul(x),
    {
        let top: u64 = x >> 56;
        assert(x >> 56 < 256) by (bit_vector);
        (x << 8) ^ self.alpha_mul[top as usize]
    }

    /// Multiplies `x` by the inverse of the field constant.
    pub fn ainv_mul(&self, x: u64) -> (y: u64)
        ensures
            y == self.field_mul_inverse(x),
    {
        let low: u64 = x & 0xff;
        assert(x & 0xff < 256) by (bit_vector);
        (x >> 8) ^ self.alpha_inv_mul[low as usize]
    }

    /// Applies the register transform to `x`.
    pub fn t(&self, x: u64) -> (y: u64)
        ensures
            y == self.transform(x),
    {
        let b0: u64 = x & 0xff;
        let b1: u64 = (x >> 8) & 0xff;
        let b2: u64 = (x >> 16) & 0xff;
        let b3: u64 = (x >> 24) & 0xff;
        let b4: u64 = (x >> 32) & 0xff;
        let b5: u64 = (x >> 40) & 0xff;
        let b6: u64 = (x >> 48) & 0xff;
        let b7: u64 = (x >> 56) & 0xff;
        assert(x & 0xff < 256 && (x >> 8) & 0xff < 256 && (x >> 16) & 0xff < 256 && (x >> 24) & 0xff
            < 256 && (x >> 32) & 0xff < 256 && (x >> 40) & 0xff < 256 && (x >> 48) & 0xff < 256 && (x
            >> 56) & 0xff < 256) by (bit_vector);
        self.t[0][b0 as usize] ^ self.t[1][b1 as usize] ^ self.t[2][b2 as usize] ^ self.t[3][b3 as usize]
            ^ self.t[4][b4 as usize] ^ self.t[5][b5 as usize] ^ self.t[6][b6 as usize]
            ^ self.t[7][b7 as usize]
    }
    /// Whether the entry that the top byte `h` selects is undone by the
    /// entry that its own bottom byte selects.
    pub open spec fn undone_above(&self, h: u64) -> bool {
        let a = self.alpha_mul[h as int];
        (a >> 8) ^ self.alpha_inv_mul[(a & 0xff) as int] == h << 56
    }

    /// Whether the entry that the bottom byte `l` selects is undone by the
    /// entry that its own top byte selects.
    pub open spec fn undone_below(&self, l: u64) -> bool {
        let a = self.alpha_inv_mul[l as int];
        (a << 8) ^ self.alpha_mul[(a >> 56) as int] == l
    }

    /// The two multiplications undo each other, in either order, on every
    /// word.
    pub open spec fn inverse_pair(&self) -> bool {
        forall|x: u64|
            #![trigger self.field_mul(x)]
            #![trigger self.field_mul_inverse(x)]
            self.field_mul_inverse(self.field_mul(x)) == x && self.field_mul(
                self.field_mul_inverse(x),
            ) == x
    }

    /// Tells whether the two multiplications that the tables define undo
    /// each other on every word, as multiplication by a constant and by its
    /// inverse must.
    pub fn is_inverse_pair(&self) -> (ok: bool)
        ensures
            ok == self.inverse_pair(),
    {
        let mut b: usize = 0;
        while b < 256
            invariant
                b <= 256,
                forall|h: u64| h < b ==> self.undone_above(h) && self.undone_below(h),
            decreases 256 - b,
        {
            let h: u64 = b as u64;
            let a: u64 = self.alpha_mul[b];
            let low: u64 = a & 0xff;
            assert(a & 0xff < 256) by (bit_vector);
            let ai: u64 = self.alpha_inv_mul[low as usize];
            if (a >> 8) ^ ai != h << 56 {
                proof {
                    self.lemma_not_undone_above(h);
                }
                return false;
            }
            let c: u64 = self.alpha_inv_mul[b];
            let top: u64 = c >> 56;
            assert(c >> 56 < 256) by (bit_vector);
            let ca: u64 = self.alpha_mul[top as usize];
            if (c << 8) ^ ca != h {
                proof {
                    self.lemma_not_undone_below(h);
                }
                return false;
            }
            b += 1;
        }
        proof {
            assert forall|x: u64|
                #![trigger self.field_mul(x)]
                #![trigger self.field_mul_inverse(x)]
                self.field_mul_inverse(self.field_mul(x)) == x && self.field_mul(
                    self.field_mul_inverse(x),
                ) == x by {
                assert(x >> 56 < 256 && x & 0xff < 256) by (bit_vector);
                self.lemma_undone_word(x);
            }
        }
        true
    }

    /// Where the entries for the top byte and the bottom byte of `x` are
    /// undone, the two multiplications undo each other on `x`.
    pub proof fn lemma_undone_word(&self, x: u64)
        requires
            self.undone_above(x >> 56),
            self.undone_below(x & 0xff),
        ensures
            self.field_mul_inverse(self.field_mul(x)) == x,
            self.field_mul(self.field_mul_inverse(x)) == x,
    {
        let h = x >> 56;
        let a = self.alpha_mul[h as int];
        let ai = self.alpha_inv_mul[(a & 0xff) as int];
        assert((((x << 8) ^ a) & 0xff) == a & 0xff) by (bit_vector);
        assert((((x << 8) ^ a) >> 8) ^ ai == x) by (bit_vector)
            requires
                (a >> 8) ^ ai == h << 56,
                h == x >> 56,
        ;
        let l = x & 0xff;
        let c = self.alpha_inv_mul[l as int];
        let ca = self.alpha_mul[(c >> 56) as int];
        assert((((x >> 8) ^ c) >> 56) == c >> 56) by (bit_vector);
        assert((((x >> 8) ^ c) << 8) ^ ca == x) by (bit_vector)
            requires
                (c << 8) ^ ca == l,
                l == x & 0xff,
        ;
    }

    /// Where the entry for the top byte `h` is not undone, multiplying the
    /// word with that top byte and then by the inverse does not give it back.
    proof fn lemma_not_undone_above(&self, h: u64)
        requires
            h < 256,
            !self.undone_above(h),
        ensures
            !self.inverse_pair(),
    {
        let x: u64 = h << 56;
        let a = self.alpha_mul[h as int];
        let ai = self.alpha_inv_mul[(a & 0xff) as int];
        assert((h << 56) >> 56 == h) by (bit_vector)
            requires
                h < 256,
        ;
        assert(((((h << 56) << 8) ^ a) & 0xff) == a & 0xff) by (bit_vector);
        assert(((((h << 56) << 8) ^ a) >> 8) ^ ai == (a >> 8) ^ ai) by (bit_vector);
        assert(self.field_mul_inverse(self.field_mul(x)) != x);
    }

    /// Where the entry for the bottom byte `l` is not undone, multiplying
    /// that byte as a word by the inverse and then by the constant does not
    /// give it back.
    proof fn lemma_not_undone_below(&self, l: u64)
        requires
            l < 256,
            !self.undone_below(l),
        ensures
            !self.inverse_pair(),
    {
        let x: u64 = l;
        let c = self.alpha_inv_mul[l as int];
        let ca = self.alpha_mul[(c >> 56) as int];
        assert(l & 0xff == l) by (bit_vector)
            requires
                l < 256,
        ;
        assert((((l >> 8) ^ c) >> 56) == c >> 56) by (bit_vector)
            requires
                l < 256,
        ;
        assert((((l >> 8) ^ c) << 8) ^ ca == (c << 8) ^ ca) by (bit_vector)
            requires
                l < 256,
        ;
        assert(self.field_mul(self.field_mul_inverse(x)) != x);
    }
}

} // verus!
