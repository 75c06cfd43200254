//! The one place where chance enters the game.

use vstd::prelude::*;
use crate::geometry::Point;
use rand::Rng;

verus! {

/// Calls `Rng::gen_range(low..high)` on the generator that
/// `rand::thread_rng()` hands out.
///
/// Not proved, but taken from `rand`: the number drawn is at least `low` and
/// less than `high`. `gen_range` panics on an empty range, so `low < high` is
/// asked for. Which number comes is left open, and two calls need not agree.
#[verifier::external_body]
fn random_in_range(low: i16, high: i16) -> (drawn: i16)
    requires
        low < high,
    ensures
        low <= drawn < high,
{
    rand::thread_rng().gen_range(low..high)
}

/// A cell drawn at random from those strictly inside the wall of a field of
/// `width` by `height` cells.
#[allow(non_snake_case)]
pub fn random_Point(width: i16, height: i16) -> (p: Point)
    requires
        width >= 3,
        height >= 3,
    ensures
        0 < p.x < width - 1,
        0 < p.y < height - 1,
{
    Point { x: random_in_range(1, width - 1), y: random_in_range(1, height - 1) }
}

} // verus!
