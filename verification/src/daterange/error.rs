//! Why a range, or a list of ranges, could not be produced.

use vstd::prelude::*;

verus! {

/// The ways in which a request for a range can fail.
#[derive(Clone, Copy, Debug, PartialEq, Eq, Structural, Hash)]
pub enum RangeError {
    /// The boundaries given do not form a range: the end lies before the
    /// start, or the dates do not fit the cadence.
    InvalidRange,
    /// No range of the cadence that can be stored covers the date asked for.
    NotCovered,
}

} // verus!
