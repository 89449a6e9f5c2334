//! The random draws of the search, made from a seedable generator.

use rand::rngs::StdRng;
use rand::seq::SliceRandom;
use rand::Rng;
use vstd::prelude::*;

verus! {

/// The generator that all draws are made from: `rand::rngs::StdRng`.
#[verifier::external_type_specification]
#[verifier::external_body]
pub struct ExStdRng(StdRng);

/// Calls `Rng::gen_range` on `0..bound`, which panics on an empty range and
/// otherwise returns a number of the range.
#[verifier::external_body]
pub(crate) fn random_index(rng: &mut StdRng, bound: usize) -> (i: usize)
    requires
        bound > 0,
    ensures
        i < bound,
{
    rng.gen_range(0..bound)
}

/// Calls `Rng::gen_ratio`, which returns `true` with probability
/// `numerator / denominator`: always when the two are equal, never when the
/// numerator is 0. It panics on a zero denominator and on a numerator above
/// the denominator.
#[verifier::external_body]
pub(crate) fn random_ratio(rng: &mut StdRng, numerator: u32, denominator: u32) -> (b: bool)
    requires
        denominator > 0,
        numerator <= denominator,
    ensures
        numerator == denominator ==> b,
        numerator == 0 ==> !b,
{
    rng.gen_ratio(numerator, denominator)
}

/// Calls `SliceRandom::choose`, which returns `None` for an empty slice and
/// otherwise a reference to one of its elements.
#[verifier::external_body]
pub(crate) fn pick<'a, T>(items: &'a [T], rng: &mut StdRng) -> (r: Option<&'a T>)
    ensures
        match r {
            Some(item) => exists|i: int| 0 <= i < items@.len() && items@[i] == *item,
            None => items@.len() == 0,
        },
{
    items.choose(rng)
}

} // verus!
