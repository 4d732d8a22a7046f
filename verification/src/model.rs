//! The oracle as a mathematical object.
//!
//! A ring of per-minute observations, each the running sum of the rounded
//! logarithms of the minutes before it, and the accumulator of the open
//! minute. Everything here is specification: the executable oracle is
//! stated to behave as these functions say.

use vstd::prelude::*;
use crate::error::OracleError;
use crate::numeric::accumulated_log_value;
use crate::numeric::arithmetic_mean_value;
use crate::numeric::linear_interpolation_value;
use crate::numeric::LogsModel;
use crate::numeric::PricesModel;
use crate::sub_observations::SubModel;
use crate::time::Instant;

verus! {

/// A stored observation: a minute and the accumulator at its start.
pub struct ObservationModel {
    /// Minutes since the epoch.
    pub timestamp: int,
    /// The accumulator, as a count of `10^-18` subunits.
    pub price_sqrt_log_acc: int,
}

/// The mean logarithm of the price between two minutes.
pub struct IntervalModel {
    /// The first second of the interval's first minute.
    pub start: int,
    /// The first second of the interval's last minute.
    pub end: int,
    /// The accumulator's slope over the interval, per minute.
    pub price_sqrt_log: int,
}

/// An index taken once around a ring of `n` slots; for `0 <= x < 2 * n`
/// this is `x % n`.
pub open spec fn wrap(x: int, n: int) -> int {
    if x >= n {
        x - n
    } else {
        x
    }
}

/// The slots of a ring read from the oldest on: the element of age `k` lies
/// in slot `(oldest + k) % stored`.
pub open spec fn ring_history(slots: Seq<ObservationModel>, oldest: int, stored: int) -> Seq<
    ObservationModel,
> {
    Seq::new(stored as nat, |k: int| slots[wrap(oldest + k, stored)])
}

/// Whether the minutes of a sequence of observations strictly increase.
pub open spec fn increasing(h: Seq<ObservationModel>) -> bool {
    forall|j: int, k: int| 0 <= j < k < h.len() ==> h[j].timestamp < h[k].timestamp
}

/// Whether every minute of a sequence can be given in seconds as a `u64`.
pub open spec fn in_seconds_range(h: Seq<ObservationModel>) -> bool {
    forall|k: int| 0 <= k < h.len() ==> 0 <= #[trigger] h[k].timestamp && h[k].timestamp * 60
        <= u64::MAX
}

/// Whether `i` is the place of the latest observation that is not after
/// `target`.
pub open spec fn is_floor_index(h: Seq<ObservationModel>, target: int, i: int) -> bool {
    &&& 0 <= i < h.len()
    &&& h[i].timestamp <= target
    &&& i + 1 < h.len() ==> target < h[i + 1].timestamp
}

/// The place of the latest observation that is not after `target`.
pub open spec fn floor_index(h: Seq<ObservationModel>, target: int) -> int {
    choose|i: int| is_floor_index(h, target, i)
}

/// The observation at minute `target`, for a target between the first and
/// the last minute of `h`: the stored one where there is one, otherwise the
/// point on the line between the two stored neighbours.
pub open spec fn interpolated(h: Seq<ObservationModel>, target: int) -> Result<
    ObservationModel,
    OracleError,
> {
    let i = floor_index(h, target);
    if h[i].timestamp == target {
        Ok(h[i])
    } else {
        match linear_interpolation_value(
            h[i].timestamp,
            h[i + 1].timestamp,
            h[i].price_sqrt_log_acc,
            h[i + 1].price_sqrt_log_acc,
            target,
        ) {
            Ok(y) => Ok(ObservationModel { timestamp: target, price_sqrt_log_acc: y }),
            Err(e) => Err(e),
        }
    }
}

/// A history with one more observation, in a ring of `limit` slots: the
/// oldest one leaves where the ring is full.
pub open spec fn appended(h: Seq<ObservationModel>, o: ObservationModel, limit: int) -> Seq<
    ObservationModel,
> {
    if h.len() < limit {
        h.push(o)
    } else {
        h.subrange(1, h.len() as int).push(o)
    }
}

/// The state of an oracle.
pub struct OracleModel {
    /// The slot table: slot `i` is the observation stored under key `i`.
    pub observations: Seq<ObservationModel>,
    /// The slot of the newest observation.
    pub last_observation_index: Option<int>,
    /// The number of observations stored.
    pub observations_stored: int,
    /// The number of slots.
    pub observations_limit: int,
    /// The accumulator of the open minute.
    pub sub_observations: Option<SubModel>,
}

impl OracleModel {
    /// An oracle with `limit` slots that has seen nothing.
    pub open spec fn empty(limit: int) -> OracleModel {
        OracleModel {
            observations: Seq::empty(),
            last_observation_index: None,
            observations_stored: 0,
            observations_limit: limit,
            sub_observations: None,
        }
    }

    /// The slot of the oldest observation: one past the newest, modulo the
    /// number stored.
    pub open spec fn oldest_index(self) -> int {
        match self.last_observation_index {
            Some(i) => wrap(i + 1, self.observations_stored),
            None => 0,
        }
    }

    /// The stored observations from the oldest to the newest.
    pub open spec fn history(self) -> Seq<ObservationModel> {
        ring_history(self.observations, self.oldest_index(), self.observations_stored)
    }

    /// The newest observation.
    pub open spec fn last(self) -> ObservationModel {
        self.observations[self.last_observation_index.unwrap()]
    }

    /// What holds of the ring between any two operations.
    pub open spec fn ring_wf(self) -> bool {
        &&& 1 <= self.observations_limit <= u16::MAX
        &&& 0 <= self.observations_stored <= self.observations_limit
        &&& self.observations.len() == self.observations_stored
        &&& (self.observations_stored == 0 <==> self.last_observation_index is None)
        &&& self.last_observation_index matches Some(i) ==> {
            &&& 0 <= i < self.observations_stored
            &&& self.observations_stored < self.observations_limit ==> i
                == self.observations_stored - 1
        }
        &&& increasing(self.history())
        &&& in_seconds_range(self.history())
    }

    /// What holds of an oracle between any two operations: the ring is in
    /// order, and the open minute is the minute of the newest observation
    /// or, while nothing is stored, the minute in which the accumulator was
    /// created.
    pub open spec fn wf(self) -> bool {
        &&& self.ring_wf()
        &&& self.observations_stored > 0 ==> {
            &&& self.sub_observations matches Some(sub)
            &&& sub.initialization is None
            &&& sub.last_updated.minute() == self.last().timestamp
        }
        &&& self.observations_stored == 0 ==> (self.sub_observations matches Some(sub) ==> {
            &&& sub.initialization matches Some(created)
            &&& created.minute() == sub.last_updated.minute()
            &&& created.seconds_since_unix_epoch <= sub.last_updated.seconds_since_unix_epoch
        })
    }

    /// Whether `now` is not before the last update of the open minute.
    pub open spec fn accepts(self, now: Instant) -> bool {
        self.sub_observations matches Some(sub) ==> now.seconds_since_unix_epoch
            >= sub.last_updated.seconds_since_unix_epoch
    }

    /// Whether a price seen at `now` closes the open minute.
    pub open spec fn crosses_minute(self, now: Instant) -> bool {
        self.sub_observations matches Some(sub) && now.minute() != sub.last_updated.minute()
    }

    /// The slot that the next observation goes to: one past the newest,
    /// modulo the number of slots.
    pub open spec fn next_index(self) -> int {
        match self.last_observation_index {
            Some(i) => wrap(i + 1, self.observations_limit),
            None => 0,
        }
    }

    /// The oracle with one more observation stored.
    pub open spec fn insert_observation(self, o: ObservationModel) -> OracleModel {
        let index = self.next_index();
        OracleModel {
            observations: if index < self.observations.len() {
                self.observations.update(index, o)
            } else {
                self.observations.push(o)
            },
            last_observation_index: Some(index),
            observations_stored: if self.observations_stored < self.observations_limit {
                self.observations_stored + 1
            } else {
                self.observations_limit
            },
            observations_limit: self.observations_limit,
            sub_observations: self.sub_observations,
        }
    }

    /// The oracle with another accumulator of the open minute.
    pub open spec fn with_sub(self, sub: SubModel) -> OracleModel {
        OracleModel {
            observations: self.observations,
            last_observation_index: self.last_observation_index,
            observations_stored: self.observations_stored,
            observations_limit: self.observations_limit,
            sub_observations: Some(sub),
        }
    }

    /// The prices whose logarithms a price seen at `now` needs: those of
    /// the open minute where it is closed, none otherwise.
    pub open spec fn closing_prices(self, now: Instant) -> Result<
        Option<PricesModel>,
        OracleError,
    > {
        match self.sub_observations {
            None => Ok(None),
            Some(open) => if now.minute() != open.last_updated.minute() {
                match open.finalize(now) {
                    Err(e) => Err(e),
                    Ok((average, next)) => Ok(
                        Some(PricesModel { finalized: average, last: next.price_sqrt_last }),
                    ),
                }
            } else {
                Ok(None)
            },
        }
    }

    /// The prices whose logarithms a query after the newest stored minute
    /// needs: those of the open minute as it stands, none while nothing is
    /// stored.
    pub open spec fn live_prices(self) -> Result<Option<PricesModel>, OracleError> {
        if self.observations_stored == 0 {
            Ok(None)
        } else {
            let open = self.sub_observations.unwrap();
            match open.finalize_preview() {
                Err(e) => Err(e),
                Ok(average) => Ok(
                    Some(PricesModel { finalized: average, last: open.price_sqrt_last }),
                ),
            }
        }
    }

    /// The observation for the minute of `now`, which closes the open
    /// minute, and the accumulator after it. The open minute contributes the
    /// logarithm of its average once; each further minute that passed
    /// without a price contributes the logarithm of the latest price.
    pub open spec fn create_observation(self, now: Instant, logs: LogsModel) -> Result<
        (ObservationModel, SubModel),
        OracleError,
    > {
        let sub = self.sub_observations.unwrap();
        match sub.finalize(now) {
            Err(e) => Err(e),
            Ok((_, next)) => {
                let acc = if self.observations_stored == 0 {
                    0
                } else {
                    self.last().price_sqrt_log_acc
                };
                match accumulated_log_value(
                    acc,
                    logs.finalized_ln,
                    logs.last_ln,
                    now.minute() - sub.last_updated.minute(),
                ) {
                    Err(e) => Err(e),
                    Ok(price_sqrt_log_acc) => Ok(
                        (ObservationModel { timestamp: now.minute(), price_sqrt_log_acc }, next),
                    ),
                }
            },
        }
    }

    /// The oracle after a price seen at `now`. The first price opens the
    /// first minute. A price in a later minute than the open one closes it,
    /// for which the logarithms are needed, and stores an observation; the
    /// price then goes into the new open minute.
    pub open spec fn observe(
        self,
        price_sqrt: int,
        now: Instant,
        logs: Option<LogsModel>,
    ) -> Result<OracleModel, OracleError> {
        match self.sub_observations {
            None => match SubModel::fresh(now).new_subobservation(price_sqrt, now) {
                Err(e) => Err(e),
                Ok(sub) => Ok(self.with_sub(sub)),
            },
            Some(open) => if now.minute() != open.last_updated.minute() {
                match logs {
                    None => Err(OracleError::LogsNeeded),
                    Some(l) => match self.create_observation(now, l) {
                        Err(e) => Err(e),
                        Ok((observation, next)) => match next.new_subobservation(price_sqrt, now) {
                            Err(e) => Err(e),
                            Ok(sub) => Ok(self.insert_observation(observation).with_sub(sub)),
                        },
                    },
                }
            } else {
                match open.new_subobservation(price_sqrt, now) {
                    Err(e) => Err(e),
                    Ok(sub) => Ok(self.with_sub(sub)),
                }
            },
        }
    }

    /// The observation at minute `target`, at the time `now`: the newest
    /// one, one read or interpolated from the ring, or for a later minute
    /// one extended from the newest by the logarithms of the open minute.
    pub open spec fn observation_internal(
        self,
        target: int,
        now: Instant,
        logs: Option<LogsModel>,
    ) -> Result<ObservationModel, OracleError> {
        if self.observations_stored == 0 {
            Err(OracleError::QueryBeforeAnyObservation)
        } else if target < self.history()[0].timestamp || target > now.minute() {
            Err(OracleError::TimestampOutOfRange)
        } else if target == self.last().timestamp {
            Ok(self.last())
        } else if target > self.last().timestamp {
            match logs {
                None => Err(OracleError::LogsNeeded),
                Some(l) => match accumulated_log_value(
                    self.last().price_sqrt_log_acc,
                    l.finalized_ln,
                    l.last_ln,
                    target - self.last().timestamp,
                ) {
                    Err(e) => Err(e),
                    Ok(price_sqrt_log_acc) => Ok(
                        ObservationModel { timestamp: target, price_sqrt_log_acc },
                    ),
                },
            }
        } else {
            interpolated(self.history(), target)
        }
    }

    /// The observation at the minute of the second `seconds`, with its
    /// minute given in seconds.
    pub open spec fn observation(
        self,
        seconds: int,
        now: Instant,
        logs: Option<LogsModel>,
    ) -> Result<ObservationModel, OracleError> {
        match self.observation_internal(seconds / 60, now, logs) {
            Err(e) => Err(e),
            Ok(o) => Ok(
                ObservationModel {
                    timestamp: o.timestamp * 60,
                    price_sqrt_log_acc: o.price_sqrt_log_acc,
                },
            ),
        }
    }

    /// The mean logarithm of the price between the minutes of two seconds.
    pub open spec fn observation_interval(
        self,
        left_seconds: int,
        right_seconds: int,
        now: Instant,
        logs: Option<LogsModel>,
    ) -> Result<IntervalModel, OracleError> {
        let left = left_seconds / 60;
        let right = right_seconds / 60;
        if left >= right {
            Err(OracleError::EmptyInterval)
        } else {
            match self.observation_internal(left, now, logs) {
                Err(e) => Err(e),
                Ok(o_l) => match self.observation_internal(right, now, logs) {
                    Err(e) => Err(e),
                    Ok(o_r) => match arithmetic_mean_value(
                        left,
                        right,
                        o_l.price_sqrt_log_acc,
                        o_r.price_sqrt_log_acc,
                    ) {
                        Err(e) => Err(e),
                        Ok(price_sqrt_log) => Ok(
                            IntervalModel { start: left * 60, end: right * 60, price_sqrt_log },
                        ),
                    },
                },
            }
        }
    }

    /// The mean logarithms over several intervals, in their order; the
    /// first interval that fails decides the error.
    pub open spec fn observation_intervals(
        self,
        intervals: Seq<(u64, u64)>,
        now: Instant,
        logs: Option<LogsModel>,
    ) -> Result<Seq<IntervalModel>, OracleError>
        decreases intervals.len(),
    {
        if intervals.len() == 0 {
            Ok(Seq::empty())
        } else {
            match self.observation_intervals(intervals.drop_last(), now, logs) {
                Err(e) => Err(e),
                Ok(means) => match self.observation_interval(
                    intervals.last().0 as int,
                    intervals.last().1 as int,
                    now,
                    logs,
                ) {
                    Err(e) => Err(e),
                    Ok(mean) => Ok(means.push(mean)),
                },
            }
        }
    }
}

} // verus!
