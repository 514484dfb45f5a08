//! The fixed-point units that the library computes in.
//!
//! Angles are whole microarcseconds, image coordinates whole micropixels, durations whole
//! nanoseconds and epochs whole tenths of a year.

use vstd::prelude::*;

verus! {

/// Microarcseconds in one degree. The same number of microseconds makes up one hour.
pub const MICROARCSECONDS_PER_DEGREE: i64 = 3_600_000_000;

/// Microarcseconds in a full turn.
pub const FULL_TURN: i64 = 1_296_000_000_000;

/// Degrees of right ascension in one hour of right ascension.
pub const DEGREES_PER_HOUR: i64 = 15;

/// Micropixels in one pixel.
pub const MICROPIXELS_PER_PIXEL: i64 = 1_000_000;

/// Nanoseconds in one second.
pub const NANOSECONDS_PER_SECOND: u64 = 1_000_000_000;

/// Nanoseconds in one millisecond.
pub const NANOSECONDS_PER_MILLISECOND: u64 = 1_000_000;

/// The epoch J2000 in tenths of a year.
pub const EPOCH_J2000: i32 = 20_000;

} // verus!
