//! What can be wrong with the set-up of a session.

use vstd::prelude::*;

verus! {

/// Why a board or a session could not be made.
#[derive(Debug, Copy, Clone, PartialEq, Eq, Structural)]
pub enum ConfigError {
    /// The height leaves no row between the top and the bottom wall.
    HeightTooSmall,
    /// The width leaves no column between the left and the right wall.
    WidthTooSmall,
    /// The food does not lie strictly inside the wall.
    FoodOutside,
    /// The head or a body segment does not lie strictly inside the wall.
    SnakeOutside,
    /// Two cells of the snake are the same cell.
    SnakeOverlaps,
}

} // verus!
