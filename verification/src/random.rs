//! Random choice, drawn from the `rand` crate.

use vstd::prelude::*;
use rand::Rng;

verus! {

/// The seedable generator of the `rand` crate. Nothing is known of its state.
#[verifier::external_type_specification]
#[verifier::external_body]
pub struct ExStdRng(rand::rngs::StdRng);

/// Draws a number below `n` from `rng`, with `Rng::gen_range` on `0..n`.
///
/// Believed of `gen_range`, not proved: the number drawn lies in the range it
/// was given. It refuses an empty range, so `n` must not be zero. Which number
/// comes is left open; the crate documents the draw as uniform.
#[verifier::external_body]
pub(crate) fn pick_below(rng: &mut rand::rngs::StdRng, n: usize) -> (pick: usize)
    requires
        n > 0,
    ensures
        pick < n,
{
    rng.gen_range(0..n)
}

/// Draws a number below `n` from the generator that `rand::thread_rng` keeps
/// for the running thread, with `Rng::gen_range` on `0..n`.
///
/// Believed of the two, not proved: the number drawn lies in the range. The
/// range must not be empty. `thread_rng` seeds itself from the operating
/// system and stops the program if the system gives it no seed.
#[verifier::external_body]
pub(crate) fn pick_below_unseeded(n: usize) -> (pick: usize)
    requires
        n > 0,
    ensures
        pick < n,
{
    rand::thread_rng().gen_range(0..n)
}

} // verus!
