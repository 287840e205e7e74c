//! Driver core for the 13.3" EL133UF1 six-color e-ink panel (1600 x 1200).
//!
//! The library holds the verified heart of the driver: the pixel buffer with
//! its palette rules, the rotate/split/pack transform that produces the two
//! controller payloads, and the command/timing protocol expressed as plans of
//! bus operations. A thin unverified shell executes those plans against the
//! real SPI bus and GPIO lines.

pub mod buffer;
pub mod color;
pub mod error;
pub mod packing;
pub mod protocol;
pub mod transform;

use vstd::prelude::*;

verus! {

/// Frame width in pixels.
pub const WIDTH: usize = 1600;

/// Frame height in pixels.
pub const HEIGHT: usize = 1200;

/// Column at which the rotated frame is split between the two controllers.
pub const SPLIT_COL: usize = 600;

} // verus!
