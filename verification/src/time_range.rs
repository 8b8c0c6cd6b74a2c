//! Time instants and intervals.
//!
//! An instant is a count of seconds relative to the Unix epoch, the value
//! that the calendar wrappers in [`crate::clock`] produce from a
//! `YYYY-MM-DD HH:MM:SS` timestamp string.

use vstd::prelude::*;

verus! {

/// Number of seconds in one day.
pub const SECONDS_PER_DAY: i64 = 86400;

/// A half-open span of time: the instant `start` up to the instant `end`.
#[derive(Clone, Copy, PartialEq, Eq, Structural, Debug)]
pub struct TimeRange {
    pub start: i64,
    pub end: i64,
}

} // verus!
