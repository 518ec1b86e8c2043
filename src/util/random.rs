use vstd::prelude::*;

use rand::Rng;

verus! {

/// Relies on rand's `Rng::gen_range` on the thread-local generator
/// (`thread_rng`): a value drawn from the half-open range `[min, max)`. It
/// panics on an empty range, which `requires` leaves out.
#[verifier::external_body]
pub(crate) fn random_in_range(min: u8, max: u8) -> (r: u8)
    requires
        min < max,
    ensures
        min <= r < max,
{
    rand::thread_rng().gen_range(min..max)
}

} // verus!
