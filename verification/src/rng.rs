//! Deterministic pseudo-random source: a 32-bit xorshift generator.

use vstd::prelude::*;

verus! {

/// One step of the generator: the shifts 13 (left), 17 (right) and 5 (left),
/// each folded back into the word with exclusive or.
pub open spec fn xorshift32(x: u32) -> u32 {
    let a = x ^ (x << 13);
    let b = a ^ (a >> 17);
    b ^ (b << 5)
}

/// The state that a seed gives: zero is the generator's absorbing fixed point
/// and is replaced by one.
pub open spec fn seeded(seed: u32) -> u32 {
    if seed == 0 {
        1
    } else {
        seed
    }
}

/// The state reached from `start` after `n` steps; for `n > 0` it is also the
/// `n`-th word that the generator hands out.
pub open spec fn state_after(start: u32, n: nat) -> u32
    decreases n,
{
    if n == 0 {
        start
    } else {
        xorshift32(state_after(start, (n - 1) as nat))
    }
}

/// What `range(max)` draws from the state `state`.
pub open spec fn draw(state: u32, max: int) -> int
    recommends
        max > 0,
{
    (xorshift32(state) as int) % max
}

/// State of the generator: a single non-zero 32-bit word.
#[derive(Clone, Copy, Debug, PartialEq, Eq, Structural)]
pub struct Rng {
    pub state: u32,
}

impl Rng {
    /// The only invariant of the generator: its word is never zero.
    pub open spec fn wf(&self) -> bool {
        self.state != 0
    }

    /// A generator started from `seed`; a zero seed behaves as the seed one.
    pub fn new(seed: u32) -> (r: Rng)
        ensures
            r.state == seeded(seed),
            r.wf(),
    {
        Rng { state: if seed == 0 { 1 } else { seed } }
    }

    /// Advances the generator by one step and returns the new word.
    pub fn next_u32(&mut self) -> (r: u32)
        ensures
            r == xorshift32(old(self).state),
            final(self).state == r,
            old(self).wf() ==> final(self).wf(),
    {
        let mut x: u32 = self.state;
        x = x ^ (x << 13);
        x = x ^ (x >> 17);
        x = x ^ (x << 5);
        proof {
            lemma_step_keeps_nonzero(self.state);
        }
        self.state = x;
        x
    }

    /// The next word reduced modulo `max`. The reduction keeps the usual small
    /// modulo bias.
    pub fn range(&mut self, max: i32) -> (r: i32)
        requires
            max > 0,
        ensures
            r == draw(old(self).state, max as int),
            0 <= r < max,
            final(self).state == xorshift32(old(self).state),
            old(self).wf() ==> final(self).wf(),
    {
        let word: u32 = self.next_u32();
        let bound: u32 = max as u32;
        let reduced: u32 = word % bound;
        reduced as i32
    }
}

/// A step never reaches zero from a non-zero word: each of the three folds is
/// invertible.
pub proof fn lemma_step_keeps_nonzero(x: u32)
    ensures
        x != 0 ==> xorshift32(x) != 0,
{
    let a = x ^ (x << 13);
    let b = a ^ (a >> 17);
    let c = b ^ (b << 5);
    assert(x != 0 ==> a != 0) by (bit_vector)
        requires
            a == x ^ (x << 13),
    ;
    assert(a != 0 ==> b != 0) by (bit_vector)
        requires
            b == a ^ (a >> 17),
    ;
    assert(b != 0 ==> c != 0) by (bit_vector)
        requires
            c == b ^ (b << 5),
    ;
}

/// Seeding with zero is seeding with one: the two generators are in the same
/// state and stay so after any number of steps.
pub proof fn lemma_zero_seed_is_one(n: nat)
    ensures
        seeded(0) == seeded(1),
        state_after(seeded(0), n) == state_after(seeded(1), n),
{
}

/// A fixed seed gives a reproducible sequence: two generators started from
/// seeds with the same state agree on every word they hand out, and every
/// state on the way is non-zero.
pub proof fn lemma_sequence_is_reproducible(seed_a: u32, seed_b: u32, n: nat)
    requires
        seeded(seed_a) == seeded(seed_b),
    ensures
        state_after(seeded(seed_a), n) == state_after(seeded(seed_b), n),
        state_after(seeded(seed_a), n) != 0,
    decreases n,
{
    if n > 0 {
        lemma_sequence_is_reproducible(seed_a, seed_b, (n - 1) as nat);
        lemma_step_keeps_nonzero(state_after(seeded(seed_a), (n - 1) as nat));
    }
}

/// A draw always lies in `[0, max)`.
pub proof fn lemma_draw_in_range(state: u32, max: int)
    requires
        max > 0,
    ensures
        0 <= draw(state, max) < max,
{
}

} // verus!
