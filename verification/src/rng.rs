//! The game's shared random source: a ChaCha stream-cipher generator seeded
//! from a 64-bit seed. ChaCha is a deterministic, portable algorithm, so the
//! value of every draw is a function of the seed and of the bounds of the
//! draws made before it; that function is named `chacha_pick` and is what the
//! engine's reproducibility guarantee rests on.

use vstd::prelude::*;

use rand::Rng;
use rand::SeedableRng;
use rand_chacha::ChaCha8Rng;

verus! {

#[verifier::external_type_specification]
#[verifier::external_body]
pub struct ExChaCha8Rng(ChaCha8Rng);

/// The value in `[0, bound)` that a ChaCha generator seeded from `seed`
/// produces for a uniform draw with bound `bound`, after it has served
/// uniform draws with the bounds in `history` (in order). ChaCha output is a
/// pure function of the seed and of how much output was consumed before, so
/// these arguments determine the result on every machine.
pub uninterp spec fn chacha_pick(seed: u64, history: Seq<u64>, bound: u64) -> u64;

/// Relies on rand_chacha's `ChaCha8Rng::seed_from_u64`: constructs the
/// generator in the fixed state documented for this seed.
#[verifier::external_body]
fn chacha_from_seed(seed: u64) -> ChaCha8Rng {
    ChaCha8Rng::seed_from_u64(seed)
}

/// The game's random source: the generator itself plus the (ghost) seed and
/// draw history that pin down its state. The fields are private and evolve
/// in lockstep, so a generator's state is always the one that `seed_spec`
/// and `history_spec` describe.
pub struct GameRng {
    inner: ChaCha8Rng,
    seed: Ghost<u64>,
    history: Ghost<Seq<u64>>,
}

impl GameRng {
    /// The seed this source was constructed from.
    pub closed spec fn seed_spec(self) -> u64 {
        self.seed@
    }

    /// The bounds of the draws served so far, in order.
    pub closed spec fn history_spec(self) -> Seq<u64> {
        self.history@
    }

    pub fn from_seed(seed: u64) -> (r: GameRng)
        ensures
            r.seed_spec() == seed,
            r.history_spec() == Seq::<u64>::empty(),
    {
        GameRng {
            inner: chacha_from_seed(seed),
            seed: Ghost(seed),
            history: Ghost(Seq::empty()),
        }
    }

    /// Relies on `rand::Rng::gen_range` on `ChaCha8Rng`: returns a uniform
    /// value in `[0, bound)` (it panics on an empty range, so `bound` must be
    /// positive), computed deterministically from the generator state, which
    /// the seed and the prior draw bounds determine.
    #[verifier::external_body]
    pub fn pick(&mut self, bound: u64) -> (r: u64)
        requires
            bound > 0,
        ensures
            r == chacha_pick(old(self).seed_spec(), old(self).history_spec(), bound),
            r < bound,
            final(self).seed_spec() == old(self).seed_spec(),
            final(self).history_spec() == old(self).history_spec().push(bound),
    {
        self.inner.gen_range(0..bound)
    }
}

/// Relies on `rand::random`: some 64-bit value; nothing is promised of it.
/// Used only to pick a seed when the configuration supplies none.
#[verifier::external_body]
pub fn random_seed() -> u64 {
    rand::random()
}

} // verus!
