//! Deterministic seeded randomness. All randomness of the library is drawn
//! as raw 64-bit words from rand's `StdRng`; everything derived from a word
//! (a bounded coordinate, a coin flip, a jitter) is verified code.
//!
//! One master stream, seeded with the run seed, yields one sub-seed per unit
//! of parallel work, in a fixed single-threaded order; each unit then feeds
//! its sub-seed to an independent stream of its own. Identical seed and call
//! order therefore reproduce the whole run.

use vstd::prelude::*;

verus! {

/// The word at position `n` of the stream that rand's `StdRng` yields after
/// `seed_from_u64(seed)`: `StdRng` is a deterministic pseudo-random
/// generator, so the stream is a function of the seed alone.
pub uninterp spec fn stream_word(seed: u64, n: nat) -> u64;

#[verifier::external_type_specification]
#[verifier::external_body]
pub struct ExStdRng(rand::rngs::StdRng);

/// A deterministic stream of 64-bit words, with its seed and the count of
/// words drawn so far carried as ghost state: the `n`-th word drawn is
/// `stream_word(seed, n)`.
pub struct WordStream {
    inner: rand::rngs::StdRng,
    seed: Ghost<u64>,
    drawn: Ghost<nat>,
}

/// Relies on rand's `SeedableRng::seed_from_u64` for `StdRng`: the
/// generator state is a deterministic expansion of the 64-bit seed.
#[verifier::external_body]
fn stdrng_from_seed(seed: u64) -> rand::rngs::StdRng {
    <rand::rngs::StdRng as rand::SeedableRng>::seed_from_u64(seed)
}

impl WordStream {
    /// The seed this stream was opened with.
    pub closed spec fn spec_seed(&self) -> u64 {
        self.seed@
    }

    /// How many words have been drawn from this stream.
    pub closed spec fn spec_drawn(&self) -> nat {
        self.drawn@
    }

    /// Opens the word stream of the given seed.
    pub fn from_seed(seed: u64) -> (r: WordStream)
        ensures
            r.spec_seed() == seed,
            r.spec_drawn() == 0,
    {
        WordStream { inner: stdrng_from_seed(seed), seed: Ghost(seed), drawn: Ghost(0nat) }
    }

    /// Relies on rand's `RngCore::next_u64` for `StdRng`: the next word is a
    /// deterministic function of the generator state, hence of the seed and
    /// of how many words were drawn before it.
    #[verifier::external_body]
    pub fn next_word(&mut self) -> (r: u64)
        ensures
            final(self).spec_seed() == old(self).spec_seed(),
            final(self).spec_drawn() == old(self).spec_drawn() + 1,
            r == stream_word(old(self).spec_seed(), old(self).spec_drawn()),
    {
        rand::RngCore::next_u64(&mut self.inner)
    }
}

/// A word reduced to `[0, bound)`.
pub open spec fn word_below(w: u64, bound: u64) -> u64
    recommends
        bound > 0,
{
    w % bound
}

/// A fair two-way choice read off a word.
pub open spec fn word_coin(w: u64) -> bool {
    w % 2 == 0
}

/// Whether a word falls under a probability given in units of
/// `1/RATE_SCALE`.
pub open spec fn word_hits(w: u64, rate: u32) -> bool {
    w % (crate::params::RATE_SCALE as u64) < rate
}

/// A signed jitter read off a word, uniform over `[-extent, extent]`.
pub open spec fn word_jitter(w: u64, extent: u32) -> int
    recommends
        extent <= 0x4000_0000,
{
    w % (2 * extent + 1) as u64 - extent
}

/// Executable form of `word_jitter`.
pub fn jitter_of_word(w: u64, extent: u32) -> (r: i64)
    requires
        extent <= 0x4000_0000,
    ensures
        r == word_jitter(w, extent),
        -(extent as int) <= r <= extent,
{
    let span: u64 = 2 * (extent as u64) + 1;
    let m: u64 = w % span;
    (m as i64) - (extent as i64)
}

} // verus!
