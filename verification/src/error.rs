//! The ways in which an estimation can fail.

use vstd::prelude::*;

verus! {

/// Why an estimation was refused.
#[derive(Clone, Copy, Debug, PartialEq, Eq, Structural)]
pub enum EstimateError {
    /// The end of the span lies before its start.
    NegativeSpan,
    /// A date that the estimation needs lies outside the supported years.
    CalendarOverflow,
}

} // verus!
