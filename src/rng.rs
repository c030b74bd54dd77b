//! The pseudo-random source shared by the game's AI and respawn choices.

use vstd::prelude::*;

verus! {

/// Relies on `quad_rand::gen_range` for `i32`: it scales a 32-bit draw from
/// the global generator into `low..high` through `f64` and truncates, which
/// lands in `low..=high` when `low <= high` (truncation toward zero can reach
/// `high` itself where `high <= 0`).
#[verifier::external_body]
pub fn gen_range(low: i32, high: i32) -> (r: i32)
    requires
        low <= high,
    ensures
        low <= r <= high,
{
    quad_rand::gen_range(low, high)
}

} // verus!
