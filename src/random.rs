use vstd::prelude::*;

verus! {

/// Relies on rand's `SliceRandom::shuffle`, driven by a `StdRng` seeded with `seed`:
/// it only swaps elements, so the result is a permutation of the input.
#[verifier::external_body]
pub(crate) fn shuffle_seeded<T>(v: &mut Vec<T>, seed: u64)
    ensures
        final(v)@.to_multiset() == old(v)@.to_multiset(),
{
    let mut rng = <rand::rngs::StdRng as rand::SeedableRng>::seed_from_u64(seed);
    rand::seq::SliceRandom::shuffle(v.as_mut_slice(), &mut rng);
}

} // verus!
