//! Frame pacing and the mapping from cells to screen squares.

use vstd::prelude::*;
use crate::geometry::{Pos, in_grid};

verus! {

/// Ticks per second.
pub const TICKS_PER_SECOND: u64 = 15;

/// Target length of one tick, in nanoseconds.
pub const FRAME_NANOS: u64 = 1_000_000_000 / TICKS_PER_SECOND;

/// Side of the square drawn for one cell, in pixels.
pub const CELL_PIXELS: u32 = 16;

/// Side of the window, in pixels.
pub const WINDOW_PIXELS: u32 = 1024;

/// How long to sleep at the end of a tick that took `elapsed_nanos` so that it
/// lasts `period_nanos`: the remainder, or nothing when the tick ran over.
pub fn remaining_sleep(period_nanos: u64, elapsed_nanos: u64) -> (r: u64)
    ensures
        r == if elapsed_nanos < period_nanos {
            period_nanos - elapsed_nanos
        } else {
            0
        },
{
    if elapsed_nanos < period_nanos {
        period_nanos - elapsed_nanos
    } else {
        0
    }
}

/// The top-left pixel of the square drawn for cell `p`: column times the cell
/// side across, row times the cell side down.
pub fn cell_origin(p: Pos) -> (r: (i32, i32))
    requires
        in_grid(p),
    ensures
        r.0 == p.col * CELL_PIXELS,
        r.1 == p.row * CELL_PIXELS,
{
    let x = (p.col as u32) * CELL_PIXELS;
    let y = (p.row as u32) * CELL_PIXELS;
    (x as i32, y as i32)
}

} // verus!
