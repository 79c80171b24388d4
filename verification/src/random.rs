//! The random source that apples are drawn from.

use rand::rngs::ThreadRng;
use rand::Rng;
use vstd::prelude::*;

verus! {

/// Declares `rand::rngs::ThreadRng`, the generator that each thread keeps
/// for itself, as a type whose inside is not looked into.
#[verifier::external_type_specification]
#[verifier::external_body]
pub struct ExThreadRng(rand::rngs::ThreadRng);

/// Draws an integer from `low..high` with `rand::Rng::gen_range`.
///
/// Trusted, not proved: the contract repeats what `gen_range` documents,
/// that the result lies in the half-open range, and leaves out the inputs
/// with `low >= high`, on which it panics. Which value of the range comes
/// back is up to the generator, so nothing more is claimed.
#[verifier::external_body]
pub(crate) fn gen_range(rng: &mut ThreadRng, low: i32, high: i32) -> (n: i32)
    requires
        low < high,
    ensures
        low <= n < high,
{
    rng.gen_range(low, high)
}

} // verus!
