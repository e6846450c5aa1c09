//! The failures that the reactor model reports to its callers.

use vstd::prelude::*;

verus! {

/// Every failure is local and synchronous: a malformed request is reported
/// to the immediate caller and never retried internally.
#[derive(Clone, Copy, Debug, PartialEq, Eq, Structural)]
pub enum HaberBoschError {
    /// Text does not name a catalyst of the closed set.
    UnknownCatalyst,
    /// A reactor instance was requested with no beds at all.
    EmptyBedList,
    /// A bed index beyond the configured bed count.
    BedIndexOutOfRange,
    /// A result was offered although every bed already has one.
    ResultsExhausted,
    /// Solver inputs for a bed whose predecessor has produced no result yet.
    PredecessorMissing,
    /// A trajectory series for a component index outside the state vector.
    InvalidComponentIndex,
}

} // verus!
