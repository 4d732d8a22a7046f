//! The accumulator of the one open minute.
//!
//! Within a minute every price is weighted by the number of seconds during
//! which it was the latest one. When the minute is closed the weighted sum
//! is divided by the minute's length, and the latest price is carried into
//! the next minute.

use vstd::prelude::*;
use crate::decimal::precise_add;
use crate::decimal::precise_div_u64;
use crate::decimal::precise_mul_u64;
use crate::decimal::precise_product;
use crate::decimal::precise_sum;
use crate::decimal::precise_quotient;
use crate::decimal::PreciseDecimal;
use crate::error::precise_result_is;
use crate::error::OracleError;
use crate::time::Instant;

verus! {

/// What an open-minute accumulator holds, with prices as subunit counts.
pub struct SubModel {
    /// The sum over the seconds of the minute so far of the price that was
    /// the latest in that second.
    pub price_sqrt_sum: int,
    /// The latest price.
    pub price_sqrt_last: int,
    /// The instant up to which the sum is taken.
    pub last_updated: Instant,
    /// The instant of creation, until the first minute is closed.
    pub initialization: Option<Instant>,
}

impl SubModel {
    /// The accumulator as it is created at `now`.
    pub open spec fn fresh(now: Instant) -> SubModel {
        SubModel {
            price_sqrt_sum: 0,
            price_sqrt_last: 0,
            last_updated: now,
            initialization: Some(now),
        }
    }

    /// Whether a price seen at `now` belongs to the open minute: `now` lies
    /// in the minute of the last update and not before it.
    pub open spec fn accepts(self, now: Instant) -> bool {
        &&& now.minute() == self.last_updated.minute()
        &&& now.seconds_since_unix_epoch >= self.last_updated.seconds_since_unix_epoch
    }

    /// The accumulator after a price seen at `now`. Where time has moved on
    /// since the last update, the price that was the latest until `now` is
    /// added once for each second that passed. Several prices in one second
    /// replace each other.
    pub open spec fn new_subobservation(self, price_sqrt: int, now: Instant) -> Result<
        SubModel,
        OracleError,
    > {
        if now != self.last_updated {
            let delta = now.second_of_minute() - self.last_updated.second_of_minute();
            match precise_product(self.price_sqrt_last, delta) {
                None => Err(OracleError::Overflow),
                Some(held) => match precise_sum(self.price_sqrt_sum, held) {
                    None => Err(OracleError::Overflow),
                    Some(sum) => Ok(
                        SubModel {
                            price_sqrt_sum: sum,
                            price_sqrt_last: price_sqrt,
                            last_updated: now,
                            initialization: self.initialization,
                        },
                    ),
                },
            }
        } else {
            Ok(
                SubModel {
                    price_sqrt_sum: self.price_sqrt_sum,
                    price_sqrt_last: price_sqrt,
                    last_updated: self.last_updated,
                    initialization: self.initialization,
                },
            )
        }
    }

    /// The time-weighted average of the minute over `duration` seconds: the
    /// latest price is held until the end of the minute, and the sum is
    /// divided by `duration`, rounding toward zero.
    pub open spec fn price_sqrt_average(self, duration: int) -> Result<int, OracleError> {
        let tail = 60 - self.last_updated.second_of_minute();
        match precise_product(self.price_sqrt_last, tail) {
            None => Err(OracleError::Overflow),
            Some(held) => match precise_sum(self.price_sqrt_sum, held) {
                None => Err(OracleError::Overflow),
                Some(sum) => match precise_quotient(sum, duration) {
                    None => Err(OracleError::Overflow),
                    Some(average) => Ok(average),
                },
            },
        }
    }

    /// The number of seconds over which the minute is averaged when it is
    /// closed: the whole minute, but for the first minute only what was left
    /// of it at creation.
    pub open spec fn closing_duration(self) -> int {
        match self.initialization {
            Some(instant) => 60 - instant.second_of_minute(),
            None => 60,
        }
    }

    /// The accumulator made ready for the minute of `now`: nothing summed
    /// yet, from the first second of that minute on, with the latest price
    /// carried over.
    pub open spec fn reset(self, now: Instant) -> SubModel {
        SubModel {
            price_sqrt_sum: 0,
            price_sqrt_last: self.price_sqrt_last,
            last_updated: now.minute_start(),
            initialization: None,
        }
    }

    /// The average of the minute that is closed at `now`, and the
    /// accumulator after it.
    pub open spec fn finalize(self, now: Instant) -> Result<(int, SubModel), OracleError> {
        match self.price_sqrt_average(self.closing_duration()) {
            Err(e) => Err(e),
            Ok(average) => Ok((average, self.reset(now))),
        }
    }

    /// The average that the open minute would have if it were closed with
    /// the latest price held to its end, taken over a whole minute.
    pub open spec fn finalize_preview(self) -> Result<int, OracleError> {
        if self.initialization is Some {
            Err(OracleError::PreviewBeforeFirstFinalise)
        } else {
            self.price_sqrt_average(60)
        }
    }
}

/// The accumulator of the open minute.
#[derive(Clone, Copy, Debug, PartialEq, Eq)]
pub struct SubObservations {
    price_sqrt_sum: PreciseDecimal,
    price_sqrt_last: PreciseDecimal,
    last_updated: Instant,
    initialization: Option<Instant>,
}

impl View for SubObservations {
    type V = SubModel;

    closed spec fn view(&self) -> SubModel {
        SubModel {
            price_sqrt_sum: self.price_sqrt_sum@,
            price_sqrt_last: self.price_sqrt_last@,
            last_updated: self.last_updated,
            initialization: self.initialization,
        }
    }
}

impl SubObservations {
    /// An accumulator created at `now`, with nothing summed and no price
    /// seen.
    pub fn new(now: Instant) -> (r: SubObservations)
        ensures
            r@ == SubModel::fresh(now),
    {
        SubObservations {
            last_updated: now,
            initialization: Some(now),
            price_sqrt_sum: PreciseDecimal::zero(),
            price_sqrt_last: PreciseDecimal::zero(),
        }
    }

    /// The accumulator that is made up of the given parts.
    pub fn from_parts(
        price_sqrt_sum: PreciseDecimal,
        price_sqrt_last: PreciseDecimal,
        last_updated: Instant,
        initialization: Option<Instant>,
    ) -> (r: SubObservations)
        ensures
            r@ == (SubModel {
                price_sqrt_sum: price_sqrt_sum@,
                price_sqrt_last: price_sqrt_last@,
                last_updated,
                initialization,
            }),
    {
        SubObservations { price_sqrt_sum, price_sqrt_last, last_updated, initialization }
    }

    /// Takes in the price seen at `now`.
    pub fn new_subobservation(&mut self, price_sqrt: PreciseDecimal, now: Instant) -> (r: Result<
        (),
        OracleError,
    >)
        requires
            old(self)@.accepts(now),
        ensures
            match old(self)@.new_subobservation(price_sqrt@, now) {
                Ok(next) => r is Ok && final(self)@ == next,
                Err(e) => r == Err::<(), OracleError>(e) && *final(self) == *old(self),
            },
    {
        if now.seconds_since_unix_epoch != self.last_updated.seconds_since_unix_epoch {
            let delta_marginal_seconds = now.seconds_marginal()
                - self.last_updated.seconds_marginal();
            let held = match precise_mul_u64(self.price_sqrt_last, delta_marginal_seconds) {
                Some(held) => held,
                None => {
                    return Err(OracleError::Overflow);
                },
            };
            let sum = match precise_add(self.price_sqrt_sum, held) {
                Some(sum) => sum,
                None => {
                    return Err(OracleError::Overflow);
                },
            };
            self.price_sqrt_sum = sum;
            self.last_updated = now;
        }
        self.price_sqrt_last = price_sqrt;
        Ok(())
    }

    /// Closes the minute at `now`: gives its time-weighted average and makes
    /// the accumulator ready for the minute of `now`.
    pub fn finalize(&mut self, now: Instant) -> (r: Result<PreciseDecimal, OracleError>)
        ensures
            match old(self)@.finalize(now) {
                Ok((average, next)) => r is Ok && r->Ok_0@ == average && final(self)@ == next,
                Err(e) => r == Err::<PreciseDecimal, OracleError>(e) && *final(self) == *old(self),
            },
    {
        let duration = match self.initialization {
            Some(instant) => 60 - instant.seconds_marginal(),
            None => 60,
        };
        let price_sqrt_avg = match self.price_sqrt_average(duration) {
            Ok(average) => average,
            Err(e) => {
                return Err(e);
            },
        };
        self.initialization = None;
        self.last_updated = now.rounded_to_minutes();
        self.price_sqrt_sum = PreciseDecimal::zero();
        Ok(price_sqrt_avg)
    }

    /// The average that the open minute has so far, taken over a whole
    /// minute; the accumulator stays as it is.
    pub fn finalize_preview(&self) -> (r: Result<PreciseDecimal, OracleError>)
        ensures
            precise_result_is(r, self@.finalize_preview()),
    {
        if self.initialization.is_some() {
            return Err(OracleError::PreviewBeforeFirstFinalise);
        }
        self.price_sqrt_average(60)
    }

    /// The time-weighted average of the open minute over `duration` seconds.
    pub fn price_sqrt_average(&self, duration: u64) -> (r: Result<PreciseDecimal, OracleError>)
        requires
            duration >= 1,
        ensures
            precise_result_is(r, self@.price_sqrt_average(duration as int)),
    {
        let delta_marginal_seconds = 60 - self.last_updated.seconds_marginal();
        let held = match precise_mul_u64(self.price_sqrt_last, delta_marginal_seconds) {
            Some(held) => held,
            None => {
                return Err(OracleError::Overflow);
            },
        };
        let price_sqrt_sum = match precise_add(self.price_sqrt_sum, held) {
            Some(sum) => sum,
            None => {
                return Err(OracleError::Overflow);
            },
        };
        match precise_div_u64(price_sqrt_sum, duration) {
            Some(average) => Ok(average),
            None => Err(OracleError::Overflow),
        }
    }

    /// The latest price.
    pub fn price_sqrt_last(&self) -> (r: PreciseDecimal)
        ensures
            r@ == self@.price_sqrt_last,
    {
        self.price_sqrt_last
    }

    /// The weighted sum of the open minute so far.
    pub fn price_sqrt_sum(&self) -> (r: PreciseDecimal)
        ensures
            r@ == self@.price_sqrt_sum,
    {
        self.price_sqrt_sum
    }

    /// The instant up to which the sum is taken.
    pub fn last_updated(&self) -> (r: Instant)
        ensures
            r == self@.last_updated,
    {
        self.last_updated
    }

    /// The instant of creation, until the first minute is closed.
    pub fn initialization(&self) -> (r: Option<Instant>)
        ensures
            r == self@.initialization,
    {
        self.initialization
    }
}

} // verus!
