use vstd::prelude::*;

verus! {

/// Image width in pixels.
pub const WIDTH: u32 = 400;

/// Image height in pixels.
pub const HEIGHT: u32 = 300;

/// Iteration cap of the escape-time recurrence.
pub const MAX_ITERATIONS: u32 = 20;

/// Number of concurrent workers.
pub const NUM_THREADS: u32 = 8;

/// Period of the redraw timer in milliseconds.
pub const TICK_MS: u32 = 500;

} // verus!
