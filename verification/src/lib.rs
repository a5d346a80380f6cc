//! A wavetable oscillator bank: a precomputed table holding one cycle of a sine
//! wave, a list of voices (phase increment + current phase), linear interpolation
//! between adjacent table entries, and additive mixing across all voices.
//!
//! Amplitudes and phases are fixed-point integers: an amplitude of one is
//! `SCALE` units, and one table index step is `SCALE` phase units. A consumer
//! that needs floating-point samples divides by `SCALE` at the boundary.

use vstd::prelude::*;

pub mod laws;
pub mod model;
pub mod oscillator;
pub mod table;

verus! {

/// Fixed-point scale: an amplitude of one, and one table index step of phase,
/// are both this many units.
pub const SCALE: i64 = 65536;

/// Largest table size the fixed-point arithmetic supports without overflow.
pub const MAX_TABLE_SIZE: usize = 65536;

/// Largest magnitude accepted for a fixed-point frequency.
pub const FREQ_LIMIT: i64 = 0x100_0000_0000;

/// Largest magnitude a stored phase increment can have:
/// `FREQ_LIMIT * MAX_TABLE_SIZE`, since a sample rate is at least one.
pub const INC_LIMIT: i64 = 0x100_0000_0000_0000;

} // verus!
