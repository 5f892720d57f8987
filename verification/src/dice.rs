//! The die that gives each turn its strength.

use vstd::prelude::*;
use rand::Rng;

verus! {

/// The lowest roll of the die.
pub const LOWEST_ROLL: i32 = 1;

/// The highest roll of the die.
pub const HIGHEST_ROLL: i32 = 6;

/// Draws a number with `rand::thread_rng().gen_range(low..=high)`.
///
/// Trusted: `gen_range` is documented to return a value in the range it is
/// given and to panic on an empty range, which the precondition leaves out.
/// Nothing is claimed about which value comes back. The generator is seeded
/// by the operating system when a thread first uses it, and `thread_rng`
/// panics where the system gives it no seed: no precondition can leave that
/// out.
#[verifier::external_body]
fn sample_inclusive(low: i32, high: i32) -> (n: i32)
    requires
        low <= high,
    ensures
        low <= n <= high,
{
    rand::thread_rng().gen_range(low..=high)
}

/// Rolls the die: a number from one to six.
pub fn roll_die() -> (roll: i32)
    ensures
        LOWEST_ROLL <= roll <= HIGHEST_ROLL,
{
    sample_inclusive(LOWEST_ROLL, HIGHEST_ROLL)
}

} // verus!
