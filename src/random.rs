//! The source of chance: uniform draws from the thread-local generator.
use rand::Rng;
use vstd::prelude::*;

verus! {

/// Relies on rand's `thread_rng` and `Rng::gen_range(low, high)`: a value in
/// `low..high`, drawn uniformly; it panics unless `low < high`, which the
/// `requires` rules out.
#[verifier::external_body]
pub(crate) fn draw_below(bound: usize) -> (r: usize)
    requires
        0 < bound,
    ensures
        r < bound,
{
    rand::thread_rng().gen_range(0, bound)
}

} // verus!
