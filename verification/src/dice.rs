//! The die.

use vstd::prelude::*;

verus! {

/// The faces of a six-sided die.
pub open spec fn is_d6(roll: u8) -> bool {
    1 <= roll <= 6
}

/// Draws a number between `low` and `high`, both included.
///
/// Trusted, not proved: the body calls `fastrand::u8` on the inclusive range,
/// which draws from the generator of the current thread and returns a value
/// inside the range it was given. It panics on an empty range, which the
/// precondition rules out. The value is random, so the contract states only
/// the bounds, and two calls need not agree.
#[verifier::external_body]
fn draw_between(low: u8, high: u8) -> (drawn: u8)
    requires
        low <= high,
    ensures
        low <= drawn <= high,
{
    fastrand::u8(low..=high)
}

/// Rolls a six-sided die.
pub fn roll_d6() -> (roll: u8)
    ensures
        is_d6(roll),
{
    draw_between(1, 6)
}

} // verus!
