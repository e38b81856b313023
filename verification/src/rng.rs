use vstd::prelude::*;

verus! {

/// Relies on rand::Rng::gen_range on the thread-local generator of
/// rand::thread_rng: a value uniformly drawn from [0, n). It panics only on
/// an empty range, which the precondition excludes.
#[verifier::external_body]
pub(crate) fn random_below(n: usize) -> (r: usize)
    requires
        n > 0,
    ensures
        r < n,
{
    rand::Rng::gen_range(&mut rand::thread_rng(), 0..n)
}

/// Relies on rand::seq::SliceRandom::shuffle: a Fisher-Yates pass that
/// permutes the slice in place, so the multiset of elements is kept.
#[verifier::external_body]
pub(crate) fn shuffle<T>(v: &mut Vec<T>)
    ensures
        final(v)@.to_multiset() == old(v)@.to_multiset(),
        final(v)@.len() == old(v)@.len(),
{
    rand::seq::SliceRandom::shuffle(v.as_mut_slice(), &mut rand::thread_rng())
}

} // verus!
