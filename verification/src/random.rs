//! The source of randomness that initial weights are drawn from.

use vstd::prelude::*;
use rand::distributions::{Distribution, Uniform};
use rand::rngs::StdRng;

verus! {

#[verifier::external_type_specification]
#[verifier::external_body]
pub struct ExStdRng(StdRng);

/// Draws one integer with `rand`: builds the distribution with
/// `Uniform::new_inclusive(low, high)` and takes one `sample` of it from
/// `rng`. Trusted, not proved: the call returns for `low <= high` (the
/// constructor panics otherwise), and what it returns lies in the closed
/// range from `low` to `high`. Nothing is claimed about which value comes.
#[verifier::external_body]
pub(crate) fn sample_inclusive(rng: &mut StdRng, low: i64, high: i64) -> (r: i64)
    requires
        low <= high,
    ensures
        low <= r <= high,
{
    Uniform::new_inclusive(low, high).sample(rng)
}

} // verus!
