//! The stream driver: draws blocks from a generator core and combines the
//! keystream with the caller's bytes, keeping the unused tail of a block for
//! the next call.

use crate::erase::{zero_bytes, zeroize_bytes};
use crate::generator::{keyed_256, keyed_512, CoreState, Dstu8845Core};
use crate::tables::Tables;
use vstd::prelude::*;

verus! {

/// A key or an initialization vector of the wrong length was given.
#[derive(Debug, Clone, Copy, PartialEq, Eq)]
pub struct InvalidLength;

/// What a stream holds, as plain values.
pub struct StreamState {
    /// The core that will make the blocks to come.
    pub core: CoreState,
    /// The bytes drawn from the core and not yet used, in order.
    pub pending: Seq<u8>,
}

impl StreamState {
    /// Byte `i` of the keystream that is still to be used: first what is
    /// pending, then what the core will put out.
    pub open spec fn upcoming(self, i: nat) -> u8 {
        if i < self.pending.len() {
            self.pending[i as int]
        } else {
            self.core.keystream_byte((i - self.pending.len()) as nat)
        }
    }

    /// The next `n` bytes of keystream.
    pub open spec fn keystream(self, n: nat) -> Seq<u8> {
        Seq::new(n, |i: int| self.upcoming(i as nat))
    }

    /// `data` with each byte combined by exclusive-or with the keystream
    /// byte at the same place.
    pub open spec fn apply(self, data: Seq<u8>) -> Seq<u8> {
        Seq::new(data.len(), |i: int| data[i] ^ self.upcoming(i as nat))
    }

    /// The stream with its secrets overwritten: the core is erased and each
    /// pending byte is zero.
    pub open spec fn erased(self) -> StreamState {
        StreamState { core: self.core.erased(), pending: zero_bytes(self.pending.len()) }
    }

    /// The stream after `n` bytes of keystream have been used. While the
    /// pending bytes last the core stays as it is; beyond them the core has
    /// put out just as many blocks as were needed, and the rest of the last
    /// one is pending.
    pub open spec fn advance(self, n: nat) -> StreamState {
        if n <= self.pending.len() {
            StreamState { core: self.core, pending: self.pending.skip(n as int) }
        } else {
            let m = n - self.pending.len();
            let b = (m + 127) / 128;
            StreamState {
                core: self.core.after_blocks(b as nat),
                pending: self.core.after_blocks((b - 1) as nat).block().skip(m - 128 * (b - 1)),
            }
        }
    }
}

/// The view of a stream that has used nothing of what `core` will put out.
pub open spec fn opened(core: CoreState) -> StreamState {
    StreamState { core, pending: Seq::empty() }
}

/// A keyed generator with its stream driver; `N` is the number of key words.
pub struct Dstu8845<const N: usize> {
    core: Dstu8845Core<N>,
    block: [u8; 128],
    pos: usize,
}

/// The generator with a 256-bit key.
#[allow(non_camel_case_types)]
pub type Dstu8845_256 = Dstu8845<4>;

/// The generator with a 512-bit key.
#[allow(non_camel_case_types)]
pub type Dstu8845_512 = Dstu8845<8>;

impl<const N: usize> View for Dstu8845<N> {
    type V = StreamState;

    closed spec fn view(&self) -> StreamState {
        StreamState {
            core: self.core@,
            pending: if self.pos < 128 {
                self.block@.subrange(self.pos as int, 128)
            } else {
                Seq::empty()
            },
        }
    }
}

impl<const N: usize> Dstu8845<N> {
    /// A stream over `core` that has used none of its keystream.
    pub fn from_core(core: Dstu8845Core<N>) -> (stream: Self)
        ensures
            stream@ == opened(core@),
    {
        let stream = Self { core, block: [0; 128], pos: 128 };
        assert(stream@.pending =~= Seq::<u8>::empty());
        stream
    }

    /// Overwrites the key, every word derived from it and the pending
    /// keystream with zeros, so that nothing secret is left in the stream
    /// when it is discarded. The tables and the place in the block stay.
    pub fn zeroize(&mut self)
        ensures
            final(self)@ == old(self)@.erased(),
    {
        self.core.zeroize();
        zeroize_bytes(&mut self.block);
        assert(self@.pending =~= old(self)@.erased().pending);
    }

    /// Combines `data` in place with the next `data.len()` bytes of
    /// keystream, and moves the stream on by as many.
    pub fn apply_keystream(&mut self, data: &mut [u8])
        ensures
            final(data)@ == old(self)@.apply(old(data)@),
            final(self)@ == old(self)@.advance(old(data)@.len()),
    {
        let len: usize = data.len();
        let mut i: usize = 0;
        assert(self@.pending =~= old(self)@.advance(0).pending);
        while i < len
            invariant
                i <= len,
                data@.len() == len,
                old(data)@.len() == len,
                self@ == old(self)@.advance(i as nat),
                forall|k: int| 0 <= k < i ==> data@[k] == old(data)@[k] ^ old(self)@.upcoming(k as nat),
                forall|k: int| i <= k < len ==> data@[k] == old(data)@[k],
            decreases len - i,
        {
            let ghost before = self@;
            if self.pos >= 128 {
                self.block = self.core.next_block();
                self.pos = 0;
            }
            let ks: u8 = self.block[self.pos];
            data[i] = data[i] ^ ks;
            self.pos = self.pos + 1;
            proof {
                reveal_with_fuel(CoreState::after_blocks, 2);
                assert(ks == before.upcoming(0));
                assert(self@.pending =~= before.advance(1).pending);
                assert(self@ == before.advance(1));
                lemma_advance_one_more(old(self)@, i as nat);
                lemma_upcoming_after_advance(old(self)@, i as nat, 0);
            }
            i += 1;
        }
        assert(data@ =~= old(self)@.apply(old(data)@));
    }
}

impl Dstu8845<4> {
    /// A stream for a 256-bit key and a 256-bit initialization vector.
    pub fn new(tables: &Tables, key: &[u8; 32], iv: &[u8; 32]) -> (stream: Self)
        ensures
            stream@ == opened(keyed_256(*tables, key@, iv@)),
    {
        Self::from_core(Dstu8845Core::<4>::new(tables, *key, *iv))
    }

    /// A stream for a key and an initialization vector given as slices:
    /// the key must have 32 bytes and the vector 32, else nothing is built.
    pub fn new_from_slices(tables: &Tables, key: &[u8], iv: &[u8]) -> (made: Result<
        Self,
        InvalidLength,
    >)
        ensures
            key@.len() == 32 && iv@.len() == 32 ==> made is Ok && made->Ok_0@ == opened(
                keyed_256(*tables, key@, iv@),
            ),
            key@.len() != 32 || iv@.len() != 32 ==> made is Err,
    {
        if key.len() != 32 || iv.len() != 32 {
            return Err(InvalidLength);
        }
        let mut k: [u8; 32] = [0; 32];
        copy_bytes(key, &mut k);
        let mut v: [u8; 32] = [0; 32];
        copy_bytes(iv, &mut v);
        Ok(Self::new(tables, &k, &v))
    }
}

impl Dstu8845<8> {
    /// A stream for a 512-bit key and a 256-bit initialization vector.
    pub fn new(tables: &Tables, key: &[u8; 64], iv: &[u8; 32]) -> (stream: Self)
        ensures
            stream@ == opened(keyed_512(*tables, key@, iv@)),
    {
        Self::from_core(Dstu8845Core::<8>::new(tables, *key, *iv))
    }

    /// A stream for a key and an initialization vector given as slices:
    /// the key must have 64 bytes and the vector 32, else nothing is built.
    pub fn new_from_slices(tables: &Tables, key: &[u8], iv: &[u8]) -> (made: Result<
        Self,
        InvalidLength,
    >)
        ensures
            key@.len() == 64 && iv@.len() == 32 ==> made is Ok && made->Ok_0@ == opened(
                keyed_512(*tables, key@, iv@),
            ),
            key@.len() != 64 || iv@.len() != 32 ==> made is Err,
    {
        if key.len() != 64 || iv.len() != 32 {
            return Err(InvalidLength);
        }
        let mut k: [u8; 64] = [0; 64];
        copy_bytes(key, &mut k);
        let mut v: [u8; 32] = [0; 32];
        copy_bytes(iv, &mut v);
        Ok(Self::new(tables, &k, &v))
    }
}

/// Copies `from` over `to`, which has the same length.
fn copy_bytes(from: &[u8], to: &mut [u8])
    requires
        from@.len() == old(to)@.len(),
    ensures
        final(to)@ == from@,
{
    let n: usize = from.len();
    let mut i: usize = 0;
    while i < n
        invariant
            i <= n,
            from@.len() == n,
            to@.len() == n,
            forall|k: int| 0 <= k < i ==> to@[k] == from@[k],
        decreases n - i,
    {
        to[i] = from[i];
        i += 1;
    }
    assert(to@ =~= from@);
}

/// Putting out `a` blocks and then `b` more is putting out `a + b`.
pub proof fn lemma_after_blocks_add(c: CoreState, a: nat, b: nat)
    ensures
        c.after_blocks(a).after_blocks(b) == c.after_blocks(a + b),
    decreases b,
{
    if b > 0 {
        lemma_after_blocks_add(c, a, (b - 1) as nat);
    }
}

/// Using `n` bytes and then one more is using `n + 1`.
pub proof fn lemma_advance_one_more(v: StreamState, n: nat)
    ensures
        v.advance(n).advance(1) == v.advance(n + 1),
{
    reveal_with_fuel(CoreState::after_blocks, 2);
    let p = v.pending.len();
    let w = v.advance(n);
    if n < p {
        assert(w.advance(1).pending =~= v.advance(n + 1).pending);
    } else if n == p {
        assert(w.pending.len() == 0);
        assert(w.advance(1).pending =~= v.advance(n + 1).pending);
    } else {
        let m = n - p;
        let b = (m + 127) / 128;
        let off = m - 128 * (b - 1);
        assert(1 <= off <= 128);
        assert(w.pending.len() == 128 - off);
        if off < 128 {
            assert((m + 1 + 127) / 128 == b);
            assert(w.advance(1).pending =~= v.advance(n + 1).pending);
        } else {
            assert((m + 1 + 127) / 128 == b + 1);
            assert(v.core.after_blocks(b as nat).after_blocks(1) == v.core.after_blocks(
                (b + 1) as nat,
            ));
            assert(v.core.after_blocks(b as nat).after_blocks(0) == v.core.after_blocks(b as nat));
            assert(w.advance(1).pending =~= v.advance(n + 1).pending);
        }
    }
}

/// After `n` bytes have been used, the `j`-th byte to come is the one that
/// was the `n + j`-th before.
pub proof fn lemma_upcoming_after_advance(v: StreamState, n: nat, j: nat)
    ensures
        v.advance(n).upcoming(j) == v.upcoming(n + j),
{
    let p = v.pending.len();
    if n > p {
        let m = n - p;
        let b = (m + 127) / 128;
        let off = m - 128 * (b - 1);
        assert(1 <= off <= 128);
        if j >= 128 - off {
            let q = j - (128 - off);
            lemma_after_blocks_add(v.core, b as nat, (q / 128) as nat);
            assert(m + j == 128 * b + q);
            assert((m + j) / 128 == b + q / 128);
            assert((m + j) % 128 == q % 128);
        } else {
            assert((m + j) / 128 == b - 1);
            assert((m + j) % 128 == off + j);
        }
    }
}

/// Using `a` bytes and then `b` more is using `a + b`.
pub proof fn lemma_advance_add(v: StreamState, a: nat, b: nat)
    ensures
        v.advance(a).advance(b) == v.advance(a + b),
    decreases b,
{
    if b == 0 {
        assert(v.advance(a).advance(0).pending =~= v.advance(a).pending);
    } else {
        lemma_advance_add(v, a, (b - 1) as nat);
        lemma_advance_one_more(v.advance(a), (b - 1) as nat);
        lemma_advance_one_more(v, (a + b - 1) as nat);
    }
}

/// The keystream is a function of the setup alone: two streams opened on
/// the same core put out the same bytes, however many are asked for, turn
/// the same data into the same result, and are left in the same state.
pub proof fn lemma_same_setup_same_keystream(
    c: CoreState,
    a: StreamState,
    b: StreamState,
    data: Seq<u8>,
    n: nat,
)
    requires
        a == opened(c),
        b == opened(c),
    ensures
        a.keystream(n) == b.keystream(n),
        a.advance(n) == b.advance(n),
        a.apply(data) == b.apply(data),
{
}

/// Applying the keystream to zero bytes puts out the keystream itself.
pub proof fn lemma_apply_to_zeros(v: StreamState, n: nat)
    ensures
        v.apply(Seq::new(n, |i: int| 0u8)) == v.keystream(n),
{
    assert forall|i: int| 0 <= i < n implies 0u8 ^ #[trigger] v.upcoming(i as nat) == v.upcoming(
        i as nat,
    ) by {
        let k = v.upcoming(i as nat);
        assert(0u8 ^ k == k) by (bit_vector);
    }
    assert(v.apply(Seq::new(n, |i: int| 0u8)) =~= v.keystream(n));
}

/// What one stream has combined with the keystream, a second stream in the
/// same state restores: applying the same keystream twice gives the data
/// back.
pub proof fn lemma_apply_twice_restores(a: StreamState, b: StreamState, data: Seq<u8>)
    requires
        a == b,
    ensures
        b.apply(a.apply(data)) == data,
{
    assert forall|i: int| 0 <= i < data.len() implies (data[i] ^ #[trigger] a.upcoming(i as nat))
        ^ a.upcoming(i as nat) == data[i] by {
        let d = data[i];
        let k = a.upcoming(i as nat);
        assert((d ^ k) ^ k == d) by (bit_vector);
    }
    assert(b.apply(a.apply(data)) =~= data);
}

/// The keystream taken in one piece is the keystream taken in two: the
/// first `a + b` bytes are the first `a`, then the first `b` of the stream
/// that has used `a`.
pub proof fn lemma_keystream_continues(v: StreamState, a: nat, b: nat)
    ensures
        v.keystream(a + b) == v.keystream(a) + v.advance(a).keystream(b),
{
    let w = v.advance(a);
    assert forall|j: int| 0 <= j < b implies #[trigger] w.upcoming(j as nat) == v.upcoming(
        (a + j) as nat,
    ) by {
        lemma_upcoming_after_advance(v, a, j as nat);
    }
    assert(v.keystream(a + b) =~= v.keystream(a) + v.advance(a).keystream(b));
}

/// Data combined with the keystream in one piece or in two comes out the
/// same, and leaves the stream in the same state.
pub proof fn lemma_apply_continues(v: StreamState, x: Seq<u8>, y: Seq<u8>)
    ensures
        v.apply(x + y) == v.apply(x) + v.advance(x.len()).apply(y),
        v.advance((x + y).len()) == v.advance(x.len()).advance(y.len()),
{
    let a = x.len();
    let w = v.advance(a);
    assert forall|j: int| 0 <= j < y.len() implies #[trigger] w.upcoming(j as nat) == v.upcoming(
        (a + j) as nat,
    ) by {
        lemma_upcoming_after_advance(v, a, j as nat);
    }
    assert(v.apply(x + y) =~= v.apply(x) + v.advance(a).apply(y));
    lemma_advance_add(v, a, y.len());
}

} // verus!
