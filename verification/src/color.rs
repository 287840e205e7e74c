//! The six-color palette of the panel and its validity rule.
//!
//! The panel accepts palette indices 0..=6 with the single value 4 permanently
//! invalid, so validity is membership in a sparse set, not a range check.

use vstd::prelude::*;

verus! {

/// Palette index for black.
pub const BLACK: u8 = 0;

/// Palette index for white (the power-on default of the frame buffer).
pub const WHITE: u8 = 1;

/// Palette index for yellow.
pub const YELLOW: u8 = 2;

/// Palette index for red.
pub const RED: u8 = 3;

/// Palette index for blue. Index 4 is skipped by the hardware.
pub const BLUE: u8 = 5;

/// Palette index for green.
pub const GREEN: u8 = 6;

/// A palette index the panel can display: one of {0, 1, 2, 3, 5, 6}.
pub open spec fn valid_color(color: u8) -> bool {
    color == BLACK || color == WHITE || color == YELLOW || color == RED
        || color == BLUE || color == GREEN
}

/// Every cell of the sequence holds a displayable palette index.
pub open spec fn all_valid(cells: Seq<u8>) -> bool {
    forall|i: int| 0 <= i < cells.len() ==> valid_color(cells[i])
}

/// Decide whether `color` is a displayable palette index.
pub fn is_valid_color(color: u8) -> (r: bool)
    ensures
        r == valid_color(color),
{
    matches!(color, BLACK | WHITE | YELLOW | RED | BLUE | GREEN)
}

} // verus!
