//! The library's only sources of chance, each a thin call into the `rand` crate.
use rand::RngExt;
use rand::seq::{IndexedRandom, SliceRandom};
use vstd::prelude::*;

verus! {

/// Calls `rand::seq::SliceRandom::shuffle` with the thread-local generator of
/// `rand::rng()`. What is claimed is only what holds of every outcome: the vector
/// afterwards holds the same items, each as often as before (a permutation); the
/// order that comes out depends on chance and is not stated.
#[verifier::external_body]
pub(crate) fn shuffle_in_place<T>(items: &mut Vec<T>)
    ensures
        final(items)@.to_multiset() == old(items)@.to_multiset(),
{
    items.shuffle(&mut rand::rng());
}


/// Calls `rand::RngExt::random_range` on the thread-local generator of `rand::rng()`
/// with the range `0..bound`. The range is not empty, so the call does not panic;
/// what is claimed is only that the result lies in the range. Which number comes out
/// depends on chance.
#[verifier::external_body]
pub(crate) fn random_below(bound: usize) -> (r: usize)
    requires
        bound > 0,
    ensures
        r < bound,
{
    rand::rng().random_range(0..bound)
}

/// Calls `rand::random` for a value of type `T`, from the thread-local generator. It
/// depends on chance, so nothing is claimed of it.
#[verifier::external_body]
pub(crate) fn random_value<T>() -> (r: T)
    where
        rand::distr::StandardUniform: rand::distr::Distribution<T>,
{
    rand::random()
}

/// Calls `rand::seq::IndexedRandom::choose` on the items with the thread-local
/// generator of `rand::rng()`. As its source shows, the call gives no item exactly when
/// there are none; otherwise it gives one of them, and which one depends on chance, so
/// only that it is one of the items is claimed.
#[verifier::external_body]
pub(crate) fn choose_item<T: Copy>(items: &Vec<T>) -> (r: Option<T>)
    ensures
        r is None <==> items@.len() == 0,
        r matches Some(x) ==> items@.contains(x),
{
    items.choose(&mut rand::rng()).copied()
}

} // verus!
