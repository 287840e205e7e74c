//! Errors the verified core can report.
//!
//! Transport-level failures (bus or line trouble) belong to the unverified
//! shell that owns the hardware; the core itself only ever rejects bad input.

use vstd::prelude::*;

verus! {

/// An input the frame buffer rejects.
#[derive(Debug, Clone, Copy, PartialEq, Eq, Structural)]
pub enum InkyError {
    /// The color index is not in the displayable palette set {0, 1, 2, 3, 5, 6}.
    InvalidColor(u8),
    /// The pixel coordinate (x, y) lies outside the 1600 x 1200 frame.
    OutOfBounds(usize, usize),
}

} // verus!
