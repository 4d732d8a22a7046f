//! Arithmetic on the logarithmic accumulator.
//!
//! The accumulator is a running sum of natural logarithms of prices, one
//! term for each minute. The logarithms themselves are taken by the caller
//! and handed in with the precision of a [`PreciseDecimal`]; they are
//! rounded toward negative infinity to the precision of a [`Decimal`] here.

use vstd::prelude::*;
use crate::decimal::decimal_add;
use crate::decimal::decimal_difference;
use crate::decimal::decimal_div_u64;
use crate::decimal::decimal_mul_u64;
use crate::decimal::decimal_product;
use crate::decimal::decimal_quotient;
use crate::decimal::decimal_sub;
use crate::decimal::decimal_sum;
use crate::decimal::floored;
use crate::decimal::precise_floor;
use crate::decimal::precise_per_subunit;
use crate::decimal::trunc_div;
use crate::decimal::Decimal;
use crate::decimal::PreciseDecimal;
use crate::error::decimal_result_is;
use crate::error::or_overflow;
use crate::error::OracleError;

verus! {

/// The prices whose logarithms close a minute, as subunit counts.
pub struct PricesModel {
    /// The minute's time-weighted average price.
    pub finalized: int,
    /// The latest price.
    pub last: int,
}

/// The prices whose logarithms close a minute. The caller takes the natural
/// logarithm of each and hands them in as [`MinuteLogs`].
#[derive(Clone, Copy, Debug, PartialEq, Eq)]
pub struct MinutePrices {
    /// The minute's time-weighted average price.
    pub finalized: PreciseDecimal,
    /// The latest price.
    pub last: PreciseDecimal,
}

impl View for MinutePrices {
    type V = PricesModel;

    open spec fn view(&self) -> PricesModel {
        PricesModel { finalized: self.finalized@, last: self.last@ }
    }
}

/// The natural logarithms that close a minute, as subunit counts.
pub struct LogsModel {
    /// The logarithm of the minute's time-weighted average price.
    pub finalized_ln: int,
    /// The logarithm of the latest price.
    pub last_ln: int,
}

/// The natural logarithms that close a minute.
#[derive(Clone, Copy, Debug, PartialEq, Eq)]
pub struct MinuteLogs {
    /// The logarithm of the minute's time-weighted average price.
    pub finalized_ln: PreciseDecimal,
    /// The logarithm of the latest price.
    pub last_ln: PreciseDecimal,
}

impl View for MinuteLogs {
    type V = LogsModel;

    open spec fn view(&self) -> LogsModel {
        LogsModel { finalized_ln: self.finalized_ln@, last_ln: self.last_ln@ }
    }
}

/// The view of optional logarithms.
pub open spec fn logs_view(logs: Option<MinuteLogs>) -> Option<LogsModel> {
    match logs {
        Some(l) => Some(l@),
        None => None,
    }
}

/// The accumulator after `minutes_since_last` minutes: the rounded logarithm
/// of the average of the minute that was closed, once, and the rounded
/// logarithm of the latest price for each further minute, during which that
/// price stayed in force.
pub open spec fn accumulated_log_value(
    acc_value: int,
    finalized_ln: int,
    last_value_ln: int,
    minutes_since_last: int,
) -> Result<int, OracleError> {
    match floored(finalized_ln) {
        None => Err(OracleError::Overflow),
        Some(finalized_log) => match floored(last_value_ln) {
            None => Err(OracleError::Overflow),
            Some(last_value_log) => match decimal_sum(acc_value, finalized_log) {
                None => Err(OracleError::Overflow),
                Some(closed) => match decimal_product(last_value_log, minutes_since_last - 1) {
                    None => Err(OracleError::Overflow),
                    Some(idle) => or_overflow(decimal_sum(closed, idle)),
                },
            },
        },
    }
}

/// The slope of the line through two points, rounded toward zero.
pub open spec fn arithmetic_mean_value(
    x_left: int,
    x_right: int,
    y_left: int,
    y_right: int,
) -> Result<int, OracleError> {
    match decimal_difference(y_right, y_left) {
        None => Err(OracleError::Overflow),
        Some(rise) => or_overflow(decimal_quotient(rise, x_right - x_left)),
    }
}

/// The value at `x_target` of the line through two points, with the slope
/// rounded toward zero.
pub open spec fn linear_interpolation_value(
    x_left: int,
    x_right: int,
    y_left: int,
    y_right: int,
    x_target: int,
) -> Result<int, OracleError> {
    match arithmetic_mean_value(x_left, x_right, y_left, y_right) {
        Err(e) => Err(e),
        Ok(slope) => match decimal_product(slope, x_target - x_left) {
            None => Err(OracleError::Overflow),
            Some(climb) => or_overflow(decimal_sum(y_left, climb)),
        },
    }
}

/// Adds to the accumulator what `minutes_since_last` minutes contribute,
/// given the logarithm of the closed minute's average and the logarithm of
/// the latest price.
pub fn accumulated_log(
    acc_value: Decimal,
    finalized_ln: PreciseDecimal,
    last_value_ln: PreciseDecimal,
    minutes_since_last: u64,
) -> (r: Result<Decimal, OracleError>)
    requires
        minutes_since_last >= 1,
    ensures
        decimal_result_is(
            r,
            accumulated_log_value(
                acc_value@,
                finalized_ln@,
                last_value_ln@,
                minutes_since_last as int,
            ),
        ),
        r matches Ok(acc) ==> acc@ == acc_value@ + finalized_ln@ / precise_per_subunit() + (
        minutes_since_last - 1) * (last_value_ln@ / precise_per_subunit()),
{
    let finalized_log = match precise_floor(finalized_ln) {
        Some(log) => log,
        None => {
            return Err(OracleError::Overflow);
        },
    };
    let last_value_log = match precise_floor(last_value_ln) {
        Some(log) => log,
        None => {
            return Err(OracleError::Overflow);
        },
    };
    let closed = match decimal_add(acc_value, finalized_log) {
        Some(closed) => closed,
        None => {
            return Err(OracleError::Overflow);
        },
    };
    let idle = match decimal_mul_u64(last_value_log, minutes_since_last - 1) {
        Some(idle) => idle,
        None => {
            return Err(OracleError::Overflow);
        },
    };
    proof {
        assert(last_value_log@ * (minutes_since_last - 1) == (minutes_since_last - 1)
            * last_value_log@) by (nonlinear_arith);
    }
    match decimal_add(closed, idle) {
        Some(acc) => Ok(acc),
        None => Err(OracleError::Overflow),
    }
}

/// The slope between two points of the accumulator: the mean logarithm per
/// minute over the interval.
pub fn arithmetic_mean(x_left: u64, x_right: u64, y_left: Decimal, y_right: Decimal) -> (r: Result<
    Decimal,
    OracleError,
>)
    requires
        x_left < x_right,
    ensures
        decimal_result_is(
            r,
            arithmetic_mean_value(x_left as int, x_right as int, y_left@, y_right@),
        ),
        r matches Ok(mean) ==> mean@ == trunc_div(y_right@ - y_left@, x_right - x_left),
{
    let rise = match decimal_sub(y_right, y_left) {
        Some(rise) => rise,
        None => {
            return Err(OracleError::Overflow);
        },
    };
    match decimal_div_u64(rise, x_right - x_left) {
        Some(mean) => Ok(mean),
        None => Err(OracleError::Overflow),
    }
}

/// The accumulator at `x_target`, on the line through two of its points.
pub fn linear_interpolation(
    x_left: u64,
    x_right: u64,
    y_left: Decimal,
    y_right: Decimal,
    x_target: u64,
) -> (r: Result<Decimal, OracleError>)
    requires
        x_left < x_right,
        x_left <= x_target,
    ensures
        decimal_result_is(
            r,
            linear_interpolation_value(
                x_left as int,
                x_right as int,
                y_left@,
                y_right@,
                x_target as int,
            ),
        ),
        r matches Ok(y) ==> y@ == y_left@ + trunc_div(y_right@ - y_left@, x_right - x_left) * (
        x_target - x_left),
{
    let slope = match arithmetic_mean(x_left, x_right, y_left, y_right) {
        Ok(slope) => slope,
        Err(e) => {
            return Err(e);
        },
    };
    let climb = match decimal_mul_u64(slope, x_target - x_left) {
        Some(climb) => climb,
        None => {
            return Err(OracleError::Overflow);
        },
    };
    match decimal_add(y_left, climb) {
        Some(y) => Ok(y),
        None => Err(OracleError::Overflow),
    }
}

} // verus!
