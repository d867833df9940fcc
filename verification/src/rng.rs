//! The seeded random stream that generation and AI sampling share.
//!
//! ISAAC is a pure algorithmic generator: its state is built from the seed
//! alone and every draw is a function of that state. The spec model below
//! names each draw as a function of the seed and of the draws made before
//! it, which is what makes level generation provably deterministic.

use vstd::prelude::*;

verus! {

/// One draw taken from the stream, as recorded in the ghost trace:
/// which sampler ran and with which bounds. The number of raw words a
/// draw consumes depends on its bounds, so the trace determines the
/// generator state reached after any prefix of draws.
pub enum Draw {
    RangeI32(int, int),
    RangeUsize(int, int),
    Coin,
}

/// The `i32` drawn from range `[lo, hi)` by a generator seeded with `seed`
/// after it has already served the draws in `prior`.
pub uninterp spec fn stream_i32(seed: u64, prior: Seq<Draw>, lo: int, hi: int) -> int;

/// The `usize` drawn from range `[lo, hi)` by a generator seeded with `seed`
/// after it has already served the draws in `prior`.
pub uninterp spec fn stream_usize(seed: u64, prior: Seq<Draw>, lo: int, hi: int) -> int;

/// The coin flipped by a generator seeded with `seed` after it has already
/// served the draws in `prior`.
pub uninterp spec fn stream_coin(seed: u64, prior: Seq<Draw>) -> bool;

#[verifier::external_type_specification]
#[verifier::external_body]
pub struct ExIsaacRng(rand_isaac::IsaacRng);

/// Relies on rand_core's `SeedableRng::seed_from_u64`: a fixed seed builds
/// the same ISAAC state on every machine and the call never fails. Nothing
/// is claimed of the opaque state itself; the stream functions above say
/// how later draws depend on the seed.
#[verifier::external_body]
fn isaac_from_seed(seed: u64) -> (r: rand_isaac::IsaacRng) {
    <rand_isaac::IsaacRng as rand_core::SeedableRng>::seed_from_u64(seed)
}

/// A seeded ISAAC generator together with a ghost trace of the draws it
/// has served. The trace ties every executable draw to the spec-level
/// stream functions above.
pub struct Rng {
    inner: rand_isaac::IsaacRng,
    seed_val: Ghost<u64>,
    trace: Ghost<Seq<Draw>>,
}

impl Rng {
    /// The seed this generator was built from.
    pub closed spec fn seed(self) -> u64 {
        self.seed_val@
    }

    /// The draws this generator has served so far.
    pub closed spec fn draws(self) -> Seq<Draw> {
        self.trace@
    }

    /// A fresh generator for the given seed, with an empty draw trace.
    pub fn seed_from_u64(seed: u64) -> (r: Rng)
        ensures
            r.seed() == seed,
            r.draws() == Seq::<Draw>::empty(),
    {
        Rng { inner: isaac_from_seed(seed), seed_val: Ghost(seed), trace: Ghost(Seq::empty()) }
    }

    /// Relies on rand's `Rng::gen_range::<i32>`: a value in `[lo, hi)`,
    /// panicking iff `lo >= hi`; deterministic given the ISAAC state.
    #[verifier::external_body]
    pub fn gen_range_i32(&mut self, lo: i32, hi: i32) -> (r: i32)
        requires
            lo < hi,
        ensures
            lo <= r < hi,
            r == stream_i32(old(self).seed(), old(self).draws(), lo as int, hi as int),
            final(self).seed() == old(self).seed(),
            final(self).draws() == old(self).draws().push(Draw::RangeI32(lo as int, hi as int)),
    {
        let r = rand::Rng::gen_range(&mut self.inner, lo, hi);
        r
    }

    /// Relies on rand's `Rng::gen_range::<usize>`: a value in `[lo, hi)`,
    /// panicking iff `lo >= hi`; deterministic given the ISAAC state.
    #[verifier::external_body]
    pub fn gen_range_usize(&mut self, lo: usize, hi: usize) -> (r: usize)
        requires
            lo < hi,
        ensures
            lo <= r < hi,
            r == stream_usize(old(self).seed(), old(self).draws(), lo as int, hi as int),
            final(self).seed() == old(self).seed(),
            final(self).draws() == old(self).draws().push(Draw::RangeUsize(lo as int, hi as int)),
    {
        let r = rand::Rng::gen_range(&mut self.inner, lo, hi);
        r
    }

    /// Relies on rand's `Rng::gen::<bool>` through the `Standard`
    /// distribution: an unbiased coin; deterministic given the ISAAC state.
    #[verifier::external_body]
    pub fn gen_coin(&mut self) -> (r: bool)
        ensures
            r == stream_coin(old(self).seed(), old(self).draws()),
            final(self).seed() == old(self).seed(),
            final(self).draws() == old(self).draws().push(Draw::Coin),
    {
        let r = rand::Rng::gen::<bool>(&mut self.inner);
        r
    }
}

} // verus!
