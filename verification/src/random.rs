//! The one place where chance enters the simulation.

use vstd::prelude::*;
use rand::Rng;

verus! {

/// Draws a whole number from `low` to `high`, both included, by `gen_range`
/// of the `rand` crate on its thread-local generator. All that is known of
/// the number is that it lies in that range; two draws may differ.
#[verifier::external_body]
pub(crate) fn draw_between(low: i32, high: i32) -> (n: i32)
    requires
        low <= high,
    ensures
        low <= n <= high,
{
    rand::thread_rng().gen_range(low..=high)
}

} // verus!
