//! The mixing engine as a mathematical model: sixteen state words, a
//! two-word delay register and the sixteen keystream words of the latest
//! generation pass, with the two kinds of pass over the lanes.

use crate::tables::Tables;
use vstd::prelude::*;

verus! {

/// The words that evolve over the life of a generator.
pub struct Engine {
    /// The sixteen state words.
    pub s: Seq<u64>,
    /// The two words of the delay register.
    pub r: Seq<u64>,
    /// The sixteen keystream words of the latest generation pass.
    pub gamma: Seq<u64>,
}

/// The lane `k` places after lane `n`, going round after the sixteenth.
pub open spec fn lane(n: int, k: int) -> int {
    (n + k) % 16
}

/// The engine that setup hands to the first pass: the given state words, a
/// zeroed register and no keystream yet.
pub open spec fn fresh(s: Seq<u64>) -> Engine {
    Engine { s, r: seq![0u64, 0u64], gamma: Seq::new(16, |i: int| 0u64) }
}

/// One lane of an initialization pass: the register feeds back into the
/// state word, and nothing is put out.
pub open spec fn init_lane(tb: Tables, e: Engine, n: int) -> Engine {
    let x = tb.field_mul(e.s[n]) ^ e.s[lane(n, 13)] ^ tb.field_mul_inverse(e.s[lane(n, 11)]) ^ (
    e.r[0].wrapping_add(e.s[lane(n, 15)])) ^ e.r[1];
    let s = e.s.update(n, x);
    Engine { s, r: seq![e.r[1].wrapping_add(s[lane(n, 13)]), tb.transform(e.r[0])], gamma: e.gamma }
}

/// One lane of a generation pass: the state word is renewed without the
/// register, the register ages, and keystream word `n` is put out.
pub open spec fn next_lane(tb: Tables, e: Engine, n: int) -> Engine {
    let x = tb.field_mul(e.s[n]) ^ e.s[lane(n, 13)] ^ tb.field_mul_inverse(e.s[lane(n, 11)]);
    let s = e.s.update(n, x);
    let r0 = e.r[1].wrapping_add(s[lane(n, 13)]);
    let r1 = tb.transform(e.r[0]);
    let g = (r0.wrapping_add(s[n])) ^ r1 ^ s[lane(n, 1)];
    Engine { s, r: seq![r0, r1], gamma: e.gamma.update(n, g) }
}

/// The first `k` lanes of an initialization pass, in increasing order.
pub open spec fn init_lanes(tb: Tables, e: Engine, k: nat) -> Engine
    decreases k,
{
    if k == 0 {
        e
    } else {
        init_lane(tb, init_lanes(tb, e, (k - 1) as nat), k - 1)
    }
}

/// The first `k` lanes of a generation pass, in increasing order.
pub open spec fn next_lanes(tb: Tables, e: Engine, k: nat) -> Engine
    decreases k,
{
    if k == 0 {
        e
    } else {
        next_lane(tb, next_lanes(tb, e, (k - 1) as nat), k - 1)
    }
}

/// A whole initialization pass.
pub open spec fn init_pass(tb: Tables, e: Engine) -> Engine {
    init_lanes(tb, e, 16)
}

/// A whole generation pass.
pub open spec fn next_pass(tb: Tables, e: Engine) -> Engine {
    next_lanes(tb, e, 16)
}

/// The engine of a new generator whose setup gave the state words `s`: two
/// initialization passes, then the generation pass that fills the first
/// sixteen keystream words.
pub open spec fn seeded(tb: Tables, s: Seq<u64>) -> Engine {
    next_pass(tb, init_pass(tb, init_pass(tb, fresh(s))))
}

/// The state words that setup derives from four key words and four words of
/// initialization vector.
pub open spec fn load_256(k: Seq<u64>, v: Seq<u64>) -> Seq<u64> {
    seq![
        k[3] ^ v[0],
        k[2],
        k[1] ^ v[1],
        k[0] ^ v[2],
        k[3],
        k[2] ^ v[3],
        !k[1],
        !k[0],
        k[3],
        k[2],
        !k[1],
        k[0],
        k[3],
        !k[2],
        k[1],
        !k[0],
    ]
}

/// The state words that setup derives from eight key words and four words of
/// initialization vector.
pub open spec fn load_512(k: Seq<u64>, v: Seq<u64>) -> Seq<u64> {
    seq![
        k[7] ^ v[0],
        k[6],
        k[5],
        k[4] ^ v[1],
        k[3],
        k[2] ^ v[2],
        k[1],
        !k[0],
        k[4] ^ v[3],
        !k[6],
        k[5],
        !k[7],
        k[3],
        k[2],
        !k[1],
        k[0],
    ]
}

} // verus!
