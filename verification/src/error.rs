//! The ways in which an operation of the oracle can fail.

use vstd::prelude::*;
use crate::decimal::Decimal;
use crate::decimal::PreciseDecimal;

verus! {

/// Why an operation did not complete. A failed operation leaves the state
/// it was called on as it was.
#[derive(Clone, Copy, Debug, PartialEq, Eq, Structural)]
pub enum OracleError {
    /// A query was made while no observation is stored.
    QueryBeforeAnyObservation,
    /// The queried minute is older than the oldest stored minute, or later
    /// than the current minute.
    TimestampOutOfRange,
    /// An interval whose two ends fall into the same minute, or whose end
    /// comes before its start.
    EmptyInterval,
    /// The open minute's average was asked for before the first minute was
    /// closed.
    PreviewBeforeFirstFinalise,
    /// A decimal result is outside the range that the arithmetic gives: a
    /// sum or a difference that does not fit its type, or a product, a
    /// quotient or a rounded logarithm whose magnitude is `2^191` or more
    /// (`2^255` for a price).
    Overflow,
    /// The operation needs the logarithms of the open minute's prices, and
    /// none were handed in.
    LogsNeeded,
}

/// A subunit count, or an overflow where there is none.
pub open spec fn or_overflow(v: Option<int>) -> Result<int, OracleError> {
    match v {
        Some(x) => Ok(x),
        None => Err(OracleError::Overflow),
    }
}

/// Whether a decimal result holds exactly the given count, or fails with
/// exactly the given error.
pub open spec fn decimal_result_is(
    r: Result<Decimal, OracleError>,
    v: Result<int, OracleError>,
) -> bool {
    match (r, v) {
        (Ok(d), Ok(x)) => d@ == x,
        (Err(e), Err(f)) => e == f,
        _ => false,
    }
}

/// Whether a precise decimal result holds exactly the given count, or fails
/// with exactly the given error.
pub open spec fn precise_result_is(
    r: Result<PreciseDecimal, OracleError>,
    v: Result<int, OracleError>,
) -> bool {
    match (r, v) {
        (Ok(d), Ok(x)) => d@ == x,
        (Err(e), Err(f)) => e == f,
        _ => false,
    }
}

} // verus!
