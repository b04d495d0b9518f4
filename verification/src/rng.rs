//! The injected random source. The simulation threads one seedable generator
//! through every random decision, so a run is reproducible from its seed.
//! Only the raw draw is trusted; every decision derived from it (coins,
//! ranges, pool picks) is verified code over the draw's stated range.

use vstd::prelude::*;

verus! {

/// Declares rand's standard generator type so a field can hold it.
#[verifier::external_type_specification]
#[verifier::external_body]
pub struct ExStdRng(rand::rngs::StdRng);

/// A seedable random source.
pub struct GameRng {
    inner: rand::rngs::StdRng,
}

impl GameRng {
    /// Relies on rand's `SeedableRng::seed_from_u64`; nothing is promised of
    /// the values the generator will later yield.
    #[verifier::external_body]
    pub(crate) fn from_seed(seed: u64) -> (r: GameRng)
    {
        GameRng { inner: <rand::rngs::StdRng as rand::SeedableRng>::seed_from_u64(seed) }
    }

    /// Relies on rand's `Rng::gen_range` over `0..bound`: it returns a value
    /// uniform in that range, and panics only on an empty range, which the
    /// precondition rules out.
    #[verifier::external_body]
    fn next_below(&mut self, bound: u64) -> (r: u64)
        requires
            1 <= bound,
        ensures
            r < bound,
    {
        rand::Rng::gen_range(&mut self.inner, 0..bound)
    }

    /// A coin that comes up true with probability `num` in `den`.
    pub(crate) fn chance(&mut self, num: u64, den: u64) -> (r: bool)
        requires
            1 <= den,
    {
        let draw: u64 = self.next_below(den);
        draw < num
    }

    /// A uniform index into a pool of the given size.
    pub(crate) fn pick_index(&mut self, len: usize) -> (r: usize)
        requires
            1 <= len,
        ensures
            r < len,
    {
        let draw: u64 = self.next_below(len as u64);
        draw as usize
    }

    /// A uniform milli-value in `[lo, hi)`.
    pub(crate) fn range_milli(&mut self, lo: i64, hi: i64) -> (r: i64)
        requires
            lo < hi,
            hi - lo <= 1_000_000_000,
        ensures
            lo <= r < hi,
    {
        let span: u64 = (hi - lo) as u64;
        let off: u64 = self.next_below(span);
        lo + (off as i64)
    }
}

} // verus!
