//! The generator core: key and initialization-vector setup, the two mixing
//! passes, and the buffer of sixteen keystream words that `next_block`
//! serializes.

use crate::engine::{
    fresh, init_lane, init_lanes, init_pass, load_256, load_512, next_lane, next_lanes, next_pass,
    seeded, Engine,
};
use crate::erase::{zero_words, zeroize_words};
use crate::tables::Tables;
use crate::words::{
    le_byte, le_words, lemma_le_words_of_bytes, read_words, word_byte, words_le_bytes,
};
use vstd::prelude::*;

verus! {

/// What a core holds, as plain values.
pub struct CoreState {
    /// The tables of the three word maps.
    pub tables: Tables,
    /// The key words.
    pub key: Seq<u64>,
    /// State, register and buffered keystream words.
    pub engine: Engine,
    /// How many of the buffered keystream words have been put out.
    pub cursor: nat,
}

impl CoreState {
    /// The `j`-th keystream word still to come: from the buffer while it
    /// lasts, then from the generation pass that refills it.
    pub open spec fn word(self, j: int) -> u64 {
        if self.cursor + j < 16 {
            self.engine.gamma[self.cursor + j]
        } else {
            next_pass(self.tables, self.engine).gamma[self.cursor + j - 16]
        }
    }

    /// The next sixteen keystream words.
    pub open spec fn words(self) -> Seq<u64> {
        Seq::new(16, |j: int| self.word(j))
    }

    /// The next 128 bytes of keystream: the next sixteen words, each as
    /// eight bytes, least significant first.
    pub open spec fn block(self) -> Seq<u8> {
        words_le_bytes(self.words())
    }

    /// The core after it has put out one block: one generation pass further,
    /// with the cursor where it was.
    pub open spec fn after_block(self) -> CoreState {
        CoreState { engine: next_pass(self.tables, self.engine), ..self }
    }

    /// The core after it has put out `k` blocks.
    pub open spec fn after_blocks(self, k: nat) -> CoreState
        decreases k,
    {
        if k == 0 {
            self
        } else {
            self.after_blocks((k - 1) as nat).after_block()
        }
    }

    /// The core with its secrets overwritten: the key words, the state, the
    /// register and the buffered keystream are zero; the tables and the
    /// cursor stay.
    pub open spec fn erased(self) -> CoreState {
        CoreState {
            tables: self.tables,
            key: zero_words(self.key.len()),
            engine: fresh(zero_words(16)),
            cursor: self.cursor,
        }
    }

    /// Byte `i` of the keystream that the core has yet to put out.
    pub open spec fn keystream_byte(self, i: nat) -> u8 {
        self.after_blocks(i / 128).block()[(i % 128) as int]
    }
}

/// Read back as little-endian words, a block is the sixteen keystream words
/// that it was made of.
pub proof fn lemma_block_is_its_words(c: CoreState)
    ensures
        c.block().len() == 128,
        le_words(c.block()) == c.words(),
{
    lemma_le_words_of_bytes(c.words());
}

/// The view of a new core for the given tables, key words and state words
/// after setup.
pub open spec fn keyed(tb: Tables, key: Seq<u64>, s: Seq<u64>) -> CoreState {
    CoreState { tables: tb, key, engine: seeded(tb, s), cursor: 0 }
}

/// The view of a new core with a 256-bit key.
pub open spec fn keyed_256(tb: Tables, key: Seq<u8>, iv: Seq<u8>) -> CoreState {
    keyed(tb, le_words(key), load_256(le_words(key), le_words(iv)))
}

/// The view of a new core with a 512-bit key.
pub open spec fn keyed_512(tb: Tables, key: Seq<u8>, iv: Seq<u8>) -> CoreState {
    keyed(tb, le_words(key), load_512(le_words(key), le_words(iv)))
}

/// The generator core with a key of `N` words: 4 for a 256-bit key, 8 for a
/// 512-bit key.
pub struct Dstu8845Core<const N: usize> {
    tables: Tables,
    key: [u64; N],
    s: [u64; 16],
    r: [u64; 2],
    gamma: [u64; 16],
    gamma_cntr: usize,
}

impl<const N: usize> View for Dstu8845Core<N> {
    type V = CoreState;

    closed spec fn view(&self) -> CoreState {
        CoreState {
            tables: self.tables,
            key: self.key@,
            engine: self.engine(),
            cursor: self.gamma_cntr as nat,
        }
    }
}

impl<const N: usize> Dstu8845Core<N> {
    #[verifier::type_invariant]
    spec fn well_formed(&self) -> bool {
        &&& N == 4 || N == 8
        &&& self.gamma_cntr < 16
    }

    spec fn engine(&self) -> Engine {
        Engine { s: self.s@, r: self.r@, gamma: self.gamma@ }
    }

    /// One lane of an initialization pass.
    fn init_step(&mut self, n: usize)
        requires
            n < 16,
        ensures
            final(self).engine() == init_lane(old(self).tables, old(self).engine(), n as int),
            final(self).tables == old(self).tables,
            final(self).key == old(self).key,
            final(self).gamma_cntr == old(self).gamma_cntr,
    {
        proof {
            use_type_invariant(&*self);
        }
        let a: u64 = self.tables.a_mul(self.s[n]);
        let b: u64 = self.s[(n + 13) % 16];
        let c: u64 = self.tables.ainv_mul(self.s[(n + 11) % 16]);
        let d: u64 = self.r[0].wrapping_add(self.s[(n + 15) % 16]);
        self.s[n] = a ^ b ^ c ^ d ^ self.r[1];
        let tmp: u64 = self.r[1].wrapping_add(self.s[(n + 13) % 16]);
        self.r[1] = self.tables.t(self.r[0]);
        self.r[0] = tmp;
        assert(self.r@ =~= init_lane(old(self).tables, old(self).engine(), n as int).r);
    }

    /// One lane of a generation pass.
    fn next_step(&mut self, n: usize)
        requires
            n < 16,
        ensures
            final(self).engine() == next_lane(old(self).tables, old(self).engine(), n as int),
            final(self).tables == old(self).tables,
            final(self).key == old(self).key,
            final(self).gamma_cntr == old(self).gamma_cntr,
    {
        proof {
            use_type_invariant(&*self);
        }
        let a: u64 = self.tables.a_mul(self.s[n]);
        let b: u64 = self.s[(n + 13) % 16];
        let c: u64 = self.tables.ainv_mul(self.s[(n + 11) % 16]);
        self.s[n] = a ^ b ^ c;
        let tmp: u64 = self.r[1].wrapping_add(self.s[(n + 13) % 16]);
        self.r[1] = self.tables.t(self.r[0]);
        self.r[0] = tmp;
        self.gamma[n] = (self.r[0].wrapping_add(self.s[n])) ^ self.r[1] ^ self.s[(n + 1) % 16];
        assert(self.r@ =~= next_lane(old(self).tables, old(self).engine(), n as int).r);
    }

    /// Overwrites the key and every word derived from it with zeros, so
    /// that nothing secret is left in the core when it is discarded. The
    /// tables and the cursor stay.
    pub fn zeroize(&mut self)
        ensures
            final(self)@ == old(self)@.erased(),
    {
        proof {
            use_type_invariant(&*self);
        }
        zeroize_words(&mut self.key);
        zeroize_words(&mut self.s);
        zeroize_words(&mut self.r);
        zeroize_words(&mut self.gamma);
        assert(self.r@ =~= fresh(zero_words(16)).r);
        assert(self.gamma@ =~= fresh(zero_words(16)).gamma);
    }

    /// A generation pass: renews every lane, refills the sixteen keystream
    /// words and puts the cursor back at their start.
    fn gamma_next(&mut self)
        ensures
            final(self).engine() == next_pass(old(self).tables, old(self).engine()),
            final(self).tables == old(self).tables,
            final(self).key == old(self).key,
            final(self).gamma_cntr == 0,
    {
        proof {
            use_type_invariant(&*self);
        }
        let mut n: usize = 0;
        while n < 16
            invariant
                n <= 16,
                self.engine() == next_lanes(old(self).tables, old(self).engine(), n as nat),
                self.tables == old(self).tables,
                self.key == old(self).key,
                self.gamma_cntr == old(self).gamma_cntr,
            decreases 16 - n,
        {
            self.next_step(n);
            n += 1;
        }
        self.gamma_cntr = 0;
    }

    /// The two initialization passes, then the generation pass that fills
    /// the first sixteen keystream words.
    fn init_gamma(&mut self)
        ensures
            final(self).engine() == next_pass(
                old(self).tables,
                init_pass(old(self).tables, init_pass(old(self).tables, old(self).engine())),
            ),
            final(self).tables == old(self).tables,
            final(self).key == old(self).key,
            final(self).gamma_cntr == 0,
    {
        let mut pass: usize = 0;
        while pass < 2
            invariant
                pass <= 2,
                pass == 0 ==> self.engine() == old(self).engine(),
                pass == 1 ==> self.engine() == init_pass(old(self).tables, old(self).engine()),
                pass == 2 ==> self.engine() == init_pass(
                    old(self).tables,
                    init_pass(old(self).tables, old(self).engine()),
                ),
                self.tables == old(self).tables,
                self.key == old(self).key,
            decreases 2 - pass,
        {
            let ghost before = self.engine();
            let mut n: usize = 0;
            while n < 16
                invariant
                    n <= 16,
                    self.engine() == init_lanes(old(self).tables, before, n as nat),
                    self.tables == old(self).tables,
                    self.key == old(self).key,
                decreases 16 - n,
            {
                self.init_step(n);
                n += 1;
            }
            pass += 1;
        }
        self.gamma_next();
    }

    /// The next 128 bytes of keystream. Each of the sixteen buffered words
    /// goes out as eight bytes, least significant first; when the last
    /// buffered word has gone, a generation pass refills the buffer.
    pub fn next_block(&mut self) -> (block: [u8; 128])
        ensures
            block@ == old(self)@.block(),
            final(self)@ == old(self)@.after_block(),
    {
        proof {
            use_type_invariant(&*self);
        }
        let ghost start = self@;
        let mut block: [u8; 128] = [0; 128];
        let mut j: usize = 0;
        while j < 16
            invariant
                j <= 16,
                start == old(self)@,
                start.cursor < 16,
                N == 4 || N == 8,
                self.gamma_cntr < 16,
                self.tables == start.tables,
                self.key@ == start.key,
                start.cursor + j < 16 ==> self.engine() == start.engine && self.gamma_cntr
                    == start.cursor + j,
                start.cursor + j >= 16 ==> self.engine() == next_pass(start.tables, start.engine)
                    && self.gamma_cntr == start.cursor + j - 16,
                forall|k: int| 0 <= k < 8 * j ==> block@[k] == le_byte(start.word(k / 8), k % 8),
            decreases 16 - j,
        {
            let w: u64 = self.gamma[self.gamma_cntr];
            assert(w == start.word(j as int));
            let mut i: usize = 0;
            while i < 8
                invariant
                    i <= 8,
                    j < 16,
                    w == start.word(j as int),
                    forall|k: int|
                        0 <= k < 8 * j + i ==> block@[k] == le_byte(start.word(k / 8), k % 8),
                decreases 8 - i,
            {
                block[j * 8 + i] = word_byte(w, i);
                i += 1;
            }
            if self.gamma_cntr + 1 == 16 {
                self.gamma_next();
            } else {
                self.gamma_cntr = self.gamma_cntr + 1;
            }
            j += 1;
        }
        assert(block@ =~= start.block());
        block
    }
}

impl Dstu8845Core<4> {
    /// A core for a 256-bit key and a 256-bit initialization vector, both
    /// read as little-endian words, ready to put out keystream.
    pub fn new(tables: &Tables, key: [u8; 32], iv: [u8; 32]) -> (core: Self)
        ensures
            core@ == keyed_256(*tables, key@, iv@),
    {
        let mut words: [u64; 4] = [0; 4];
        read_words(&key, &mut words);
        let mut nonce: [u64; 4] = [0; 4];
        read_words(&iv, &mut nonce);
        let mut this = Self {
            tables: *tables,
            key: words,
            s: [0; 16],
            r: [0; 2],
            gamma: [0; 16],
            gamma_cntr: 0,
        };
        this.set_iv(nonce);
        this
    }

    /// Setup for a 256-bit key: fills the state from the key and `iv`,
    /// zeroes the register and runs the opening passes.
    fn set_iv(&mut self, iv: [u64; 4])
        ensures
            final(self).engine() == seeded(old(self).tables, load_256(old(self).key@, iv@)),
            final(self).tables == old(self).tables,
            final(self).key == old(self).key,
            final(self).gamma_cntr == 0,
    {
        proof {
            use_type_invariant(&*self);
        }
        self.s[0] = self.key[3] ^ iv[0];
        self.s[1] = self.key[2];
        self.s[2] = self.key[1] ^ iv[1];
        self.s[3] = self.key[0] ^ iv[2];
        self.s[4] = self.key[3];
        self.s[5] = self.key[2] ^ iv[3];
        self.s[6] = !self.key[1];
        self.s[7] = !self.key[0];
        self.s[8] = self.key[3];
        self.s[9] = self.key[2];
        self.s[10] = !self.key[1];
        self.s[11] = self.key[0];
        self.s[12] = self.key[3];
        self.s[13] = !self.key[2];
        self.s[14] = self.key[1];
        self.s[15] = !self.key[0];
        self.r = [0; 2];
        self.gamma = [0; 16];
        assert(self.s@ =~= load_256(old(self).key@, iv@));
        assert(self.r@ =~= fresh(self.s@).r);
        assert(self.gamma@ =~= fresh(self.s@).gamma);
        self.init_gamma();
    }
}

impl Dstu8845Core<8> {
    /// A core for a 512-bit key and a 256-bit initialization vector, both
    /// read as little-endian words, ready to put out keystream.
    pub fn new(tables: &Tables, key: [u8; 64], iv: [u8; 32]) -> (core: Self)
        ensures
            core@ == keyed_512(*tables, key@, iv@),
    {
        let mut words: [u64; 8] = [0; 8];
        read_words(&key, &mut words);
        let mut nonce: [u64; 4] = [0; 4];
        read_words(&iv, &mut nonce);
        let mut this = Self {
            tables: *tables,
            key: words,
            s: [0; 16],
            r: [0; 2],
            gamma: [0; 16],
            gamma_cntr: 0,
        };
        this.set_iv(nonce);
        this
    }

    /// Setup for a 512-bit key: fills the state from the key and `iv`,
    /// zeroes the register and runs the opening passes.
    fn set_iv(&mut self, iv: [u64; 4])
        ensures
            final(self).engine() == seeded(old(self).tables, load_512(old(self).key@, iv@)),
            final(self).tables == old(self).tables,
            final(self).key == old(self).key,
            final(self).gamma_cntr == 0,
    {
        proof {
            use_type_invariant(&*self);
        }
        self.s[0] = self.key[7] ^ iv[0];
        self.s[1] = self.key[6];
        self.s[2] = self.key[5];
        self.s[3] = self.key[4] ^ iv[1];
        self.s[4] = self.key[3];
        self.s[5] = self.key[2] ^ iv[2];
        self.s[6] = self.key[1];
        self.s[7] = !self.key[0];
        self.s[8] = self.key[4] ^ iv[3];
        self.s[9] = !self.key[6];
        self.s[10] = self.key[5];
        self.s[11] = !self.key[7];
        self.s[12] = self.key[3];
        self.s[13] = self.key[2];
        self.s[14] = !self.key[1];
        self.s[15] = self.key[0];
        self.r = [0; 2];
        self.gamma = [0; 16];
        assert(self.s@ =~= load_512(old(self).key@, iv@));
        assert(self.r@ =~= fresh(self.s@).r);
        assert(self.gamma@ =~= fresh(self.s@).gamma);
        self.init_gamma();
    }
}

} // verus!
