//! Random numbers, drawn from the thread-local generator of `rand`.

use rand::Rng;
use vstd::prelude::*;

verus! {

/// Draws an integer from the half-open range `low..high`.
///
/// Calls `rand::Rng::gen_range` on `rand::thread_rng()`. That function
/// panics on an empty range, which the precondition rules out, and returns
/// `low` plus an offset below `high - low`. Nothing else is claimed: two
/// draws from the same range are unrelated. Whatever the arguments, the
/// generator panics if the operating system gives it no entropy to seed
/// itself with.
#[verifier::external_body]
pub(crate) fn gen_range(low: i32, high: i32) -> (drawn: i32)
    requires
        low < high,
    ensures
        low <= drawn < high,
{
    rand::thread_rng().gen_range(low..high)
}

} // verus!
