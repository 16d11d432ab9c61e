//! Random choices, drawn from the thread-local generator of `rand`.
use vstd::prelude::*;
use rand::Rng;

verus! {

/// A number drawn uniformly from `0..n` (`rand::thread_rng().gen_range(0..n)`,
/// which panics on an empty range). Only the range is promised.
#[verifier::external_body]
pub(crate) fn random_below(n: usize) -> (r: usize)
    requires
        n > 0,
    ensures
        r < n,
{
    rand::thread_rng().gen_range(0..n)
}

/// `true` with probability `numerator / denominator`
/// (`rand::thread_rng().gen_ratio(numerator, denominator)`, which panics
/// when `denominator` is 0 or below `numerator`). Of the outcome only the
/// two certain cases are promised.
#[verifier::external_body]
pub(crate) fn random_ratio(numerator: u32, denominator: u32) -> (r: bool)
    requires
        0 < denominator,
        numerator <= denominator,
    ensures
        numerator == 0 ==> !r,
        numerator == denominator ==> r,
{
    rand::thread_rng().gen_ratio(numerator, denominator)
}

} // verus!
