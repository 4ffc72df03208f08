//! Time as whole ticks.
//!
//! One second is 1 024 000 000 ticks. That rate holds every cFE packet timestamp
//! (multiples of 2^-16 s, [`TICKS_PER_SUBSECOND`] ticks each) and every whole
//! microsecond (1024 ticks each) exactly, and the whole range of a 32-bit seconds
//! field fits a signed 64-bit count.

use vstd::prelude::*;

verus! {

pub const TICKS_PER_SECOND: i64 = 1_024_000_000;

/// Ticks in one subsecond count of a packet timestamp, 2^-16 s.
pub const TICKS_PER_SUBSECOND: i64 = 15_625;

} // verus!
