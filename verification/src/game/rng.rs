use vstd::prelude::*;

use rand::rngs::SmallRng;
use rand::seq::SliceRandom;
use rand::{Rng, SeedableRng};

use super::piece::Tetromino;

verus! {

/// The seeded pseudo-random generator of the `rand` crate; its state is
/// opaque here.
#[verifier::external_type_specification]
#[verifier::external_body]
pub struct ExSmallRng(SmallRng);

/// `SmallRng::seed_from_u64`: a generator whose stream is fixed by `seed`.
/// Nothing is stated of its state.
#[verifier::external_body]
pub(crate) fn rng_from_seed(seed: u64) -> SmallRng {
    SmallRng::seed_from_u64(seed)
}

/// `Rng::gen_range(low..high)` on `usize`: some value in `low..high`. Which
/// one depends on the generator's state and is not stated.
#[verifier::external_body]
pub(crate) fn rng_gen_range(rng: &mut SmallRng, low: usize, high: usize) -> (r: usize)
    requires
        low < high,
    ensures
        low <= r < high,
{
    rng.gen_range(low..high)
}

/// `Rng::gen::<u16>()`: any `u16`; which one is not stated.
#[verifier::external_body]
pub(crate) fn rng_gen_u16(rng: &mut SmallRng) -> u16 {
    rng.gen::<u16>()
}

/// `SliceRandom::shuffle` on `items[start..end]`: that range is permuted,
/// the rest is untouched. Which permutation is not stated.
#[verifier::external_body]
pub(crate) fn rng_shuffle_range(rng: &mut SmallRng, items: &mut Vec<Tetromino>, start: usize, end: usize)
    requires
        start <= end <= old(items)@.len(),
    ensures
        final(items)@.len() == old(items)@.len(),
        final(items)@.subrange(start as int, end as int).to_multiset() == old(items)@.subrange(
            start as int,
            end as int,
        ).to_multiset(),
        forall|i: int|
            0 <= i < old(items)@.len() && !(start <= i < end) ==> #[trigger] final(items)@[i]
                == old(items)@[i],
{
    items[start..end].shuffle(rng);
}

} // verus!
