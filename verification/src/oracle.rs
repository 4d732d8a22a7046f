//! The minute-level oracle.
//!
//! After every swap the oracle is told the pool's square-root price. It
//! averages the prices of the open minute by time, and on each new minute
//! adds the logarithm of the closed minute's average to a running sum, which
//! it stores in a ring. The mean logarithm of the price over an interval is
//! then the slope of that sum between the interval's ends.
//!
//! The oracle takes no logarithm itself. Where it needs the logarithms of
//! the open minute's average and latest price it fails with
//! [`OracleError::LogsNeeded`], and the caller hands them in.

use vstd::prelude::*;
use crate::decimal::Decimal;
use crate::decimal::PreciseDecimal;
use crate::error::OracleError;
use crate::model::in_seconds_range;
use crate::model::increasing;
use crate::model::interpolated;
use crate::model::ring_history;
use crate::model::IntervalModel;
use crate::model::ObservationModel;
use crate::model::OracleModel;
pub use crate::numeric::accumulated_log;
pub use crate::numeric::arithmetic_mean;
pub use crate::numeric::linear_interpolation;
use crate::numeric::logs_view;
use crate::numeric::MinuteLogs;
use crate::numeric::MinutePrices;
use crate::numeric::PricesModel;
use crate::ring::lemma_floor_index;
use crate::ring::lemma_wrap_is_mod;
use crate::sub_observations::SubObservations;
use crate::time::Instant;

verus! {

/// The accumulator at the start of a minute.
#[derive(Clone, Copy, Debug, PartialEq, Eq)]
pub struct AccumulatedObservation {
    /// The minute; in minutes since the epoch where it is stored, in seconds
    /// where it answers a query by seconds.
    pub timestamp: u64,
    /// The sum of the rounded logarithms of the minutes before it.
    pub price_sqrt_log_acc: Decimal,
}

impl View for AccumulatedObservation {
    type V = ObservationModel;

    open spec fn view(&self) -> ObservationModel {
        ObservationModel {
            timestamp: self.timestamp as int,
            price_sqrt_log_acc: self.price_sqrt_log_acc@,
        }
    }
}

impl AccumulatedObservation {
    /// The observation at minute 0 with nothing accumulated.
    pub fn empty() -> (r: AccumulatedObservation)
        ensures
            r@ == (ObservationModel { timestamp: 0, price_sqrt_log_acc: 0 }),
    {
        AccumulatedObservation { timestamp: 0, price_sqrt_log_acc: Decimal::zero() }
    }
}

/// The geometric mean of the square-root price over an interval.
#[derive(Clone, Copy, Debug, PartialEq, Eq)]
pub struct ObservationInterval {
    /// The first second of the interval's first minute.
    pub start: u64,
    /// The first second of the interval's last minute.
    pub end: u64,
    /// The geometric mean of the square-root price.
    pub price_sqrt: Decimal,
}

/// The mean logarithm of the square-root price over an interval. Its
/// exponential is the geometric mean of the price.
#[derive(Clone, Copy, Debug, PartialEq, Eq)]
pub struct LogInterval {
    /// The first second of the interval's first minute.
    pub start: u64,
    /// The first second of the interval's last minute.
    pub end: u64,
    /// The mean logarithm per minute.
    pub price_sqrt_log: Decimal,
}

impl View for LogInterval {
    type V = IntervalModel;

    open spec fn view(&self) -> IntervalModel {
        IntervalModel {
            start: self.start as int,
            end: self.end as int,
            price_sqrt_log: self.price_sqrt_log@,
        }
    }
}

impl LogInterval {
    /// The interval with the geometric mean `price_sqrt`, which the caller
    /// has from the exponential of the mean logarithm.
    pub fn with_price_sqrt(&self, price_sqrt: Decimal) -> (r: ObservationInterval)
        ensures
            r.start == self.start,
            r.end == self.end,
            r.price_sqrt == price_sqrt,
    {
        ObservationInterval { start: self.start, end: self.end, price_sqrt }
    }
}

/// The views of a table of observations.
pub open spec fn slots_view(slots: Seq<AccumulatedObservation>) -> Seq<ObservationModel> {
    slots.map_values(|o: AccumulatedObservation| o@)
}

/// The observations of a table read as a ring, from the slot of the oldest
/// on.
pub open spec fn table_history(
    observations: Seq<AccumulatedObservation>,
    oldest_index: u16,
    observations_stored: u16,
) -> Seq<ObservationModel> {
    ring_history(slots_view(observations), oldest_index as int, observations_stored as int)
}

/// The views of a list of intervals.
pub open spec fn intervals_view(intervals: Seq<LogInterval>) -> Seq<IntervalModel> {
    intervals.map_values(|i: LogInterval| i@)
}

/// Whether a result is exactly the given observation, or exactly the given
/// error.
pub open spec fn observation_result_is(
    r: Result<AccumulatedObservation, OracleError>,
    v: Result<ObservationModel, OracleError>,
) -> bool {
    match (r, v) {
        (Ok(o), Ok(m)) => o@ == m,
        (Err(e), Err(f)) => e == f,
        _ => false,
    }
}

/// Whether a result is exactly the given prices, or exactly the given
/// error.
pub open spec fn prices_result_is(
    r: Result<Option<MinutePrices>, OracleError>,
    v: Result<Option<PricesModel>, OracleError>,
) -> bool {
    match (r, v) {
        (Ok(Some(p)), Ok(Some(m))) => p@ == m,
        (Ok(None), Ok(None)) => true,
        (Err(e), Err(f)) => e == f,
        _ => false,
    }
}

/// Whether a result is exactly the given interval, or exactly the given
/// error.
pub open spec fn interval_result_is(
    r: Result<LogInterval, OracleError>,
    v: Result<IntervalModel, OracleError>,
) -> bool {
    match (r, v) {
        (Ok(i), Ok(m)) => i@ == m,
        (Err(e), Err(f)) => e == f,
        _ => false,
    }
}

/// Whether a result is exactly the given list of intervals, or exactly the
/// given error.
pub open spec fn intervals_result_is(
    r: Result<Vec<LogInterval>, OracleError>,
    v: Result<Seq<IntervalModel>, OracleError>,
) -> bool {
    match (r, v) {
        (Ok(i), Ok(m)) => intervals_view(i@) == m,
        (Err(e), Err(f)) => e == f,
        _ => false,
    }
}

/// Finds the observation at minute `target_timestamp` in a ring whose
/// oldest observation lies in slot `oldest_index`: the stored one where
/// there is one, otherwise the point on the line between the two stored
/// neighbours.
pub fn binary_search_and_interpolation(
    observations: &Vec<AccumulatedObservation>,
    oldest_index: u16,
    observations_stored: u16,
    target_timestamp: u64,
) -> (r: Result<AccumulatedObservation, OracleError>)
    requires
        observations.len() == observations_stored,
        oldest_index < observations_stored,
        increasing(table_history(observations@, oldest_index, observations_stored)),
        table_history(observations@, oldest_index, observations_stored)[0].timestamp
            <= target_timestamp,
        target_timestamp <= table_history(
            observations@,
            oldest_index,
            observations_stored,
        ).last().timestamp,
    ensures
        observation_result_is(
            r,
            interpolated(
                table_history(observations@, oldest_index, observations_stored),
                target_timestamp as int,
            ),
        ),
        r matches Ok(o) ==> o.timestamp == target_timestamp,
{
    let ghost h = table_history(observations@, oldest_index, observations_stored);
    let stored: u32 = observations_stored as u32;
    let oldest: u32 = oldest_index as u32;
    let mut left: u32 = oldest;
    let mut right: u32 = oldest + stored - 1;
    loop
        invariant
            stored == observations_stored,
            oldest == oldest_index,
            observations.len() == stored,
            oldest < stored,
            h == table_history(observations@, oldest_index, observations_stored),
            increasing(h),
            oldest <= left <= right < oldest + stored,
            h[left - oldest].timestamp <= target_timestamp <= h[right - oldest].timestamp,
        decreases right - left,
    {
        let mid: u32 = (left + right) / 2;
        proof {
            lemma_wrap_is_mod(mid as int, stored as int);
        }
        let index_mid: usize = (mid % stored) as usize;
        let observation_mid = observations[index_mid];
        assert(observation_mid@ == h[mid - oldest]);
        if observation_mid.timestamp == target_timestamp {
            proof {
                if mid - oldest + 1 < h.len() {
                    assert(h[mid - oldest].timestamp < h[mid - oldest + 1].timestamp);
                }
                lemma_floor_index(h, target_timestamp as int, mid - oldest);
            }
            return Ok(observation_mid);
        }
        if mid == left {
            proof {
                lemma_wrap_is_mod(right as int, stored as int);
            }
            let index_right: usize = (right % stored) as usize;
            let observation_right = observations[index_right];
            assert(observation_right@ == h[right - oldest]);
            if observation_right.timestamp == target_timestamp {
                proof {
                    if right - oldest + 1 < h.len() {
                        assert(h[right - oldest].timestamp < h[right - oldest + 1].timestamp);
                    }
                    lemma_floor_index(h, target_timestamp as int, right - oldest);
                }
                return Ok(observation_right);
            }
            proof {
                assert(right == left + 1);
                lemma_floor_index(h, target_timestamp as int, left - oldest);
            }
            return match linear_interpolation(
                observation_mid.timestamp,
                observation_right.timestamp,
                observation_mid.price_sqrt_log_acc,
                observation_right.price_sqrt_log_acc,
                target_timestamp,
            ) {
                Ok(price_sqrt_log_acc) => Ok(
                    AccumulatedObservation { timestamp: target_timestamp, price_sqrt_log_acc },
                ),
                Err(e) => Err(e),
            };
        }
        if observation_mid.timestamp < target_timestamp {
            left = mid;
        } else {
            right = mid;
        }
    }
}

/// The time-weighted price oracle: a ring of per-minute observations and
/// the accumulator of the open minute.
#[derive(Clone, Debug, PartialEq, Eq)]
pub struct Oracle {
    observations: Vec<AccumulatedObservation>,
    last_observation_index: Option<u16>,
    observations_stored: u16,
    sub_observations: Option<SubObservations>,
    observations_limit: u16,
}

/// The state that the parts of an oracle make up.
pub open spec fn model_of(
    observations: Seq<AccumulatedObservation>,
    last_observation_index: Option<u16>,
    observations_stored: u16,
    observations_limit: u16,
    sub_observations: Option<SubObservations>,
) -> OracleModel {
    OracleModel {
        observations: slots_view(observations),
        last_observation_index: match last_observation_index {
            Some(i) => Some(i as int),
            None => None,
        },
        observations_stored: observations_stored as int,
        observations_limit: observations_limit as int,
        sub_observations: match sub_observations {
            Some(sub) => Some(sub@),
            None => None,
        },
    }
}

impl View for Oracle {
    type V = OracleModel;

    closed spec fn view(&self) -> OracleModel {
        model_of(
            self.observations@,
            self.last_observation_index,
            self.observations_stored,
            self.observations_limit,
            self.sub_observations,
        )
    }
}

/// Whether the minutes of a ring strictly increase from the oldest
/// observation on and can each be given in seconds.
pub fn ring_in_order(
    observations: &Vec<AccumulatedObservation>,
    oldest_index: u16,
    observations_stored: u16,
) -> (r: bool)
    requires
        observations.len() == observations_stored,
        oldest_index < observations_stored,
    ensures
        r == (increasing(table_history(observations@, oldest_index, observations_stored))
            && in_seconds_range(table_history(observations@, oldest_index, observations_stored))),
{
    let ghost h = table_history(observations@, oldest_index, observations_stored);
    let stored: u32 = observations_stored as u32;
    let oldest: u32 = oldest_index as u32;
    let mut age: u32 = 0;
    let mut previous: u64 = 0;
    while age < stored
        invariant
            stored == observations_stored,
            oldest == oldest_index,
            observations.len() == stored,
            oldest < stored,
            h == table_history(observations@, oldest_index, observations_stored),
            age <= stored,
            age > 0 ==> previous == h[age - 1].timestamp,
            forall|k: int| 0 <= k < age ==> 0 <= #[trigger] h[k].timestamp && h[k].timestamp * 60
                <= u64::MAX,
            forall|j: int, k: int| 0 <= j < k < age ==> h[j].timestamp < h[k].timestamp,
        decreases stored - age,
    {
        proof {
            lemma_wrap_is_mod(oldest + age, stored as int);
        }
        let slot: usize = ((oldest + age) % stored) as usize;
        let timestamp = observations[slot].timestamp;
        assert(timestamp == h[age as int].timestamp);
        if timestamp > u64::MAX / 60 {
            return false;
        }
        if age > 0 && !(previous < timestamp) {
            assert(!(h[age - 1].timestamp < h[age as int].timestamp));
            return false;
        }
        assert forall|j: int, k: int| 0 <= j < k < age + 1 implies h[j].timestamp
            < h[k].timestamp by {
            if k == age && j < age - 1 {
                assert(h[j].timestamp < h[age - 1].timestamp);
            }
        }
        previous = timestamp;
        age += 1;
    }
    true
}

impl Oracle {
    /// What holds of an oracle between any two operations.
    pub open spec fn wf(&self) -> bool {
        self@.wf()
    }

    /// An oracle that keeps up to `observations_limit` observations.
    pub fn new(observations_limit: u16) -> (r: Oracle)
        requires
            observations_limit >= 1,
        ensures
            r.wf(),
            r@ == OracleModel::empty(observations_limit as int),
    {
        let r = Oracle {
            observations: Vec::new(),
            observations_stored: 0,
            last_observation_index: None,
            sub_observations: None,
            observations_limit,
        };
        assert(r@.observations =~= Seq::empty());
        r
    }

    /// The oracle that is made up of the given parts: the slot table, the
    /// slot of the newest observation, the number stored, the number of
    /// slots, and the accumulator of the open minute. There is one exactly
    /// where the parts are well formed.
    pub fn from_parts(
        observations: Vec<AccumulatedObservation>,
        last_observation_index: Option<u16>,
        observations_stored: u16,
        observations_limit: u16,
        sub_observations: Option<SubObservations>,
    ) -> (r: Option<Oracle>)
        ensures
            r is Some <==> model_of(
                observations@,
                last_observation_index,
                observations_stored,
                observations_limit,
                sub_observations,
            ).wf(),
            r matches Some(oracle) ==> oracle.wf() && oracle@ == model_of(
                observations@,
                last_observation_index,
                observations_stored,
                observations_limit,
                sub_observations,
            ),
    {
        let ghost m = model_of(
            observations@,
            last_observation_index,
            observations_stored,
            observations_limit,
            sub_observations,
        );
        if observations_limit < 1 || observations_stored > observations_limit
            || observations.len() != observations_stored as usize {
            return None;
        }
        match last_observation_index {
            None => {
                if observations_stored != 0 {
                    return None;
                }
                match sub_observations {
                    Some(sub) => {
                        match sub.initialization() {
                            None => {
                                return None;
                            },
                            Some(created) => {
                                if created.minutes() != sub.last_updated().minutes()
                                    || created.seconds_since_unix_epoch
                                    > sub.last_updated().seconds_since_unix_epoch {
                                    return None;
                                }
                            },
                        }
                    },
                    None => {},
                }
                assert(m.history() =~= Seq::<ObservationModel>::empty());
            },
            Some(last) => {
                if last >= observations_stored {
                    return None;
                }
                if observations_stored < observations_limit && last != observations_stored - 1 {
                    return None;
                }
                proof {
                    lemma_wrap_is_mod(last + 1, observations_stored as int);
                }
                let oldest_index = (last + 1) % observations_stored;
                if !ring_in_order(&observations, oldest_index, observations_stored) {
                    return None;
                }
                match sub_observations {
                    None => {
                        return None;
                    },
                    Some(sub) => {
                        if sub.initialization().is_some() || sub.last_updated().minutes()
                            != observations[last as usize].timestamp {
                            return None;
                        }
                    },
                }
            },
        }
        Some(
            Oracle {
                observations,
                last_observation_index,
                observations_stored,
                sub_observations,
                observations_limit,
            },
        )
    }

    /// The slot table: the observation stored under key `i` is element `i`.
    pub fn observations(&self) -> (r: &Vec<AccumulatedObservation>)
        ensures
            slots_view(r@) == self@.observations,
    {
        &self.observations
    }

    /// Takes in the square-root price `price_sqrt` that a swap at `now` left
    /// behind. Where `now` lies in a later minute than the open one, the
    /// open minute is closed and an observation stored, for which `logs`
    /// must hold the logarithms of the closed minute's average and of the
    /// latest price.
    pub fn observe(
        &mut self,
        price_sqrt: PreciseDecimal,
        now: Instant,
        logs: Option<MinuteLogs>,
    ) -> (r: Result<(), OracleError>)
        requires
            old(self).wf(),
            old(self)@.accepts(now),
        ensures
            final(self).wf(),
            match old(self)@.observe(price_sqrt@, now, logs_view(logs)) {
                Ok(next) => r is Ok && final(self)@ == next,
                Err(e) => r == Err::<(), OracleError>(e) && *final(self) == *old(self),
            },
            r == Err::<(), OracleError>(OracleError::LogsNeeded) <==> old(self)@.crosses_minute(now)
                && logs is None,
            r matches Err(e) ==> e == OracleError::LogsNeeded || e == OracleError::Overflow,
    {
        match self.sub_observations {
            None => {
                let mut sub = SubObservations::new(now);
                match sub.new_subobservation(price_sqrt, now) {
                    Ok(()) => {},
                    Err(e) => {
                        return Err(e);
                    },
                }
                self.sub_observations = Some(sub);
                Ok(())
            },
            Some(open) => {
                if now.minutes() != open.last_updated().minutes() {
                    let logs = match logs {
                        Some(logs) => logs,
                        None => {
                            return Err(OracleError::LogsNeeded);
                        },
                    };
                    let (observation, mut sub) = match self.create_observation(now, logs) {
                        Ok(created) => created,
                        Err(e) => {
                            return Err(e);
                        },
                    };
                    match sub.new_subobservation(price_sqrt, now) {
                        Ok(()) => {},
                        Err(e) => {
                            return Err(e);
                        },
                    }
                    self.insert_observation(observation);
                    self.sub_observations = Some(sub);
                    Ok(())
                } else {
                    let mut sub = open;
                    match sub.new_subobservation(price_sqrt, now) {
                        Ok(()) => {},
                        Err(e) => {
                            return Err(e);
                        },
                    }
                    self.sub_observations = Some(sub);
                    Ok(())
                }
            },
        }
    }

    /// The prices whose logarithms `observe` needs at `now`: the average of
    /// the open minute and the latest price where `now` closes the open
    /// minute, none otherwise.
    pub fn closing_prices(&self, now: Instant) -> (r: Result<Option<MinutePrices>, OracleError>)
        ensures
            prices_result_is(r, self@.closing_prices(now)),
            r matches Ok(prices) ==> (prices is Some <==> self@.crosses_minute(now)),
    {
        match self.sub_observations {
            None => Ok(None),
            Some(open) => {
                if now.minutes() != open.last_updated().minutes() {
                    let mut sub = open;
                    match sub.finalize(now) {
                        Ok(finalized) => Ok(
                            Some(MinutePrices { finalized, last: sub.price_sqrt_last() }),
                        ),
                        Err(e) => Err(e),
                    }
                } else {
                    Ok(None)
                }
            },
        }
    }

    /// The prices whose logarithms a query after the newest stored minute
    /// needs: the average of the open minute as it stands and the latest
    /// price, none while nothing is stored.
    pub fn live_prices(&self) -> (r: Result<Option<MinutePrices>, OracleError>)
        requires
            self.wf(),
        ensures
            prices_result_is(r, self@.live_prices()),
            r matches Ok(prices) ==> (prices is Some <==> self@.observations_stored > 0),
            r matches Err(e) ==> e == OracleError::Overflow,
    {
        if self.observations_stored == 0 {
            return Ok(None);
        }
        match self.sub_observations {
            None => Ok(None),
            Some(open) => match open.finalize_preview() {
                Ok(finalized) => Ok(Some(MinutePrices { finalized, last: open.price_sqrt_last() })),
                Err(e) => Err(e),
            },
        }
    }

    /// Builds the observation for the minute of `now`, which closes the open
    /// minute, and the accumulator for the new open minute.
    pub fn create_observation(&self, now: Instant, logs: MinuteLogs) -> (r: Result<
        (AccumulatedObservation, SubObservations),
        OracleError,
    >)
        requires
            self.wf(),
            self@.accepts(now),
            self@.crosses_minute(now),
        ensures
            match self@.create_observation(now, logs@) {
                Ok((observation, sub)) => r matches Ok(created) && created.0@ == observation
                    && created.1@ == sub,
                Err(e) => r == Err::<(AccumulatedObservation, SubObservations), OracleError>(e),
            },
            r matches Ok(created) ==> {
                &&& created.0.timestamp == now.minute()
                &&& self@.observations_stored > 0 ==> self@.last().timestamp
                    < created.0.timestamp
                &&& created.1@.accepts(now)
                &&& created.1@.initialization is None
            },
    {
        let now_minutes = now.minutes();
        let mut sub_observations = match self.sub_observations {
            Some(sub) => sub,
            None => {
                return Err(OracleError::Overflow);
            },
        };
        let minutes_since_last = now_minutes - sub_observations.last_updated().minutes();
        match sub_observations.finalize(now) {
            Ok(_) => {},
            Err(e) => {
                return Err(e);
            },
        }
        let acc_value = match self.last_observation_index {
            None => Decimal::zero(),
            Some(index) => self.observations[index as usize].price_sqrt_log_acc,
        };
        let price_sqrt_log_acc = match accumulated_log(
            acc_value,
            logs.finalized_ln,
            logs.last_ln,
            minutes_since_last,
        ) {
            Ok(acc) => acc,
            Err(e) => {
                return Err(e);
            },
        };
        let observation = AccumulatedObservation { timestamp: now_minutes, price_sqrt_log_acc };
        Ok((observation, sub_observations))
    }

    /// Stores `observation` in the slot after the newest one.
    fn insert_observation(&mut self, observation: AccumulatedObservation)
        requires
            old(self)@.ring_wf(),
            old(self)@.observations_stored > 0 ==> old(self)@.last().timestamp
                < observation.timestamp,
            observation.timestamp * 60 <= u64::MAX,
        ensures
            final(self)@ == old(self)@.insert_observation(observation@),
            final(self)@.ring_wf(),
            final(self)@.last() == observation@,
    {
        proof {
            self@.lemma_insert(observation@);
        }
        let index: u16 = match self.last_observation_index {
            None => 0,
            Some(last_observation_index) => {
                proof {
                    lemma_wrap_is_mod(
                        last_observation_index + 1,
                        self.observations_limit as int,
                    );
                }
                (last_observation_index + 1) % self.observations_limit
            },
        };
        self.last_observation_index = Some(index);
        if (index as usize) < self.observations.len() {
            self.observations.set(index as usize, observation);
        } else {
            self.observations.push(observation);
        }
        self.observations_stored = if self.observations_stored < self.observations_limit {
            self.observations_stored + 1
        } else {
            self.observations_limit
        };
        assert(self@.observations =~= old(self)@.insert_observation(observation@).observations);
    }

    /// The observation at the minute of the second `seconds`, with the
    /// minute given in seconds.
    pub fn observation(&self, seconds: u64, now: Instant, logs: Option<MinuteLogs>) -> (r: Result<
        AccumulatedObservation,
        OracleError,
    >)
        requires
            self.wf(),
        ensures
            observation_result_is(r, self@.observation(seconds as int, now, logs_view(logs))),
            r matches Ok(o) ==> o.timestamp == (seconds / 60) * 60,
    {
        match self.observation_internal(seconds / 60, now, logs) {
            Ok(observation) => Ok(
                AccumulatedObservation {
                    timestamp: observation.timestamp * 60,
                    price_sqrt_log_acc: observation.price_sqrt_log_acc,
                },
            ),
            Err(e) => Err(e),
        }
    }

    /// The observation at minute `target_minutes`. For the newest stored
    /// minute it is the newest observation; for an older minute it is read
    /// or interpolated from the ring; for a later minute up to the minute of
    /// `now` it is extended from the newest one, for which `logs` must hold
    /// the logarithms of the open minute's average and of the latest price.
    pub fn observation_internal(
        &self,
        target_minutes: u64,
        now: Instant,
        logs: Option<MinuteLogs>,
    ) -> (r: Result<AccumulatedObservation, OracleError>)
        requires
            self.wf(),
        ensures
            observation_result_is(
                r,
                self@.observation_internal(target_minutes as int, now, logs_view(logs)),
            ),
            r matches Ok(o) ==> o.timestamp == target_minutes,
            r == Err::<AccumulatedObservation, OracleError>(OracleError::LogsNeeded) <==> {
                &&& self@.observations_stored > 0
                &&& self@.last().timestamp < target_minutes <= now.minute()
                &&& logs is None
            },
    {
        let now_minutes = now.minutes();
        let oldest_timestamp = match self.oldest_observation_timestamp_minutes() {
            Some(timestamp) => timestamp,
            None => {
                return Err(OracleError::QueryBeforeAnyObservation);
            },
        };
        proof {
            self@.lemma_ends();
        }
        if !(target_minutes >= oldest_timestamp && target_minutes <= now_minutes) {
            return Err(OracleError::TimestampOutOfRange);
        }
        let last_index = match self.last_observation_index {
            Some(index) => index,
            None => {
                return Err(OracleError::QueryBeforeAnyObservation);
            },
        };
        let last_observation = self.observations[last_index as usize];
        if target_minutes == last_observation.timestamp {
            return Ok(last_observation);
        }
        if target_minutes > last_observation.timestamp {
            let logs = match logs {
                Some(logs) => logs,
                None => {
                    return Err(OracleError::LogsNeeded);
                },
            };
            let minutes_since_last = target_minutes - last_observation.timestamp;
            return match accumulated_log(
                last_observation.price_sqrt_log_acc,
                logs.finalized_ln,
                logs.last_ln,
                minutes_since_last,
            ) {
                Ok(price_sqrt_log_acc) => Ok(
                    AccumulatedObservation { timestamp: target_minutes, price_sqrt_log_acc },
                ),
                Err(e) => Err(e),
            };
        }
        let oldest_index = match self.oldest_index() {
            Some(index) => index,
            None => {
                return Err(OracleError::QueryBeforeAnyObservation);
            },
        };
        binary_search_and_interpolation(
            &self.observations,
            oldest_index,
            self.observations_stored,
            target_minutes,
        )
    }

    /// The mean logarithm of the square-root price between the minutes of
    /// two seconds, which must be different minutes in their order.
    pub fn observation_interval(
        &self,
        t_left_seconds: u64,
        t_right_seconds: u64,
        now: Instant,
        logs: Option<MinuteLogs>,
    ) -> (r: Result<LogInterval, OracleError>)
        requires
            self.wf(),
        ensures
            interval_result_is(
                r,
                self@.observation_interval(
                    t_left_seconds as int,
                    t_right_seconds as int,
                    now,
                    logs_view(logs),
                ),
            ),
    {
        let t_left_minutes = t_left_seconds / 60;
        let t_right_minutes = t_right_seconds / 60;
        if !(t_left_minutes < t_right_minutes) {
            return Err(OracleError::EmptyInterval);
        }
        let o_l = match self.observation_internal(t_left_minutes, now, logs) {
            Ok(o) => o,
            Err(e) => {
                return Err(e);
            },
        };
        let o_r = match self.observation_internal(t_right_minutes, now, logs) {
            Ok(o) => o,
            Err(e) => {
                return Err(e);
            },
        };
        let price_sqrt_log = match arithmetic_mean(
            t_left_minutes,
            t_right_minutes,
            o_l.price_sqrt_log_acc,
            o_r.price_sqrt_log_acc,
        ) {
            Ok(mean) => mean,
            Err(e) => {
                return Err(e);
            },
        };
        Ok(LogInterval { start: t_left_minutes * 60, end: t_right_minutes * 60, price_sqrt_log })
    }

    /// The mean logarithms of the square-root price over several intervals,
    /// each given by two seconds, in their order.
    pub fn observation_intervals(
        &self,
        intervals_in_seconds: Vec<(u64, u64)>,
        now: Instant,
        logs: Option<MinuteLogs>,
    ) -> (r: Result<Vec<LogInterval>, OracleError>)
        requires
            self.wf(),
        ensures
            intervals_result_is(
                r,
                self@.observation_intervals(intervals_in_seconds@, now, logs_view(logs)),
            ),
    {
        let mut averages: Vec<LogInterval> = Vec::with_capacity(intervals_in_seconds.len());
        let mut i: usize = 0;
        assert(intervals_in_seconds@.take(0) =~= Seq::empty());
        assert(intervals_view(averages@) =~= Seq::empty());
        while i < intervals_in_seconds.len()
            invariant
                self.wf(),
                0 <= i <= intervals_in_seconds.len(),
                self@.observation_intervals(
                    intervals_in_seconds@.take(i as int),
                    now,
                    logs_view(logs),
                ) == Ok::<Seq<IntervalModel>, OracleError>(intervals_view(averages@)),
            decreases intervals_in_seconds.len() - i,
        {
            let pair = intervals_in_seconds[i];
            let ghost prefix = intervals_in_seconds@.take(i + 1);
            assert(prefix.drop_last() =~= intervals_in_seconds@.take(i as int));
            assert(prefix.last() == pair);
            match self.observation_interval(pair.0, pair.1, now, logs) {
                Ok(mean) => {
                    let ghost before = intervals_view(averages@);
                    averages.push(mean);
                    assert(intervals_view(averages@) =~= before.push(mean@));
                },
                Err(e) => {
                    proof {
                        self@.lemma_intervals_fail(
                            intervals_in_seconds@,
                            i + 1,
                            now,
                            logs_view(logs),
                        );
                    }
                    return Err(e);
                },
            }
            i += 1;
        }
        assert(intervals_in_seconds@.take(i as int) =~= intervals_in_seconds@);
        Ok(averages)
    }

    /// The number of observations that the oracle keeps at most.
    pub fn observations_limit(&self) -> (r: u16)
        ensures
            r == self@.observations_limit,
    {
        self.observations_limit
    }

    /// The number of observations that are stored.
    pub fn observations_stored(&self) -> (r: u16)
        ensures
            r == self@.observations_stored,
    {
        self.observations_stored
    }

    /// The minute of the oldest stored observation.
    pub fn oldest_observation_timestamp_minutes(&self) -> (r: Option<u64>)
        requires
            self.wf(),
        ensures
            match r {
                Some(timestamp) => self@.observations_stored > 0 && timestamp
                    == self@.history()[0].timestamp,
                None => self@.observations_stored == 0,
            },
    {
        match self.oldest_index() {
            Some(index) => {
                proof {
                    self@.lemma_ends();
                }
                Some(self.observations[index as usize].timestamp)
            },
            None => None,
        }
    }

    /// The first second of the minute of the oldest stored observation.
    pub fn oldest_observation_timestamp(&self) -> (r: Option<u64>)
        requires
            self.wf(),
        ensures
            match r {
                Some(timestamp) => self@.observations_stored > 0 && timestamp
                    == self@.history()[0].timestamp * 60,
                None => self@.observations_stored == 0,
            },
    {
        match self.oldest_observation_timestamp_minutes() {
            Some(timestamp) => {
                assert(0 <= self@.history()[0].timestamp);
                Some(timestamp * 60)
            },
            None => None,
        }
    }

    /// The slot of the newest observation.
    pub fn last_observation_index(&self) -> (r: Option<u16>)
        ensures
            match r {
                Some(index) => self@.last_observation_index == Some(index as int),
                None => self@.last_observation_index is None,
            },
    {
        self.last_observation_index
    }

    /// The slot of the oldest observation.
    pub fn oldest_index(&self) -> (r: Option<u16>)
        requires
            self.wf(),
        ensures
            match r {
                Some(index) => self@.observations_stored > 0 && index == self@.oldest_index(),
                None => self@.observations_stored == 0,
            },
    {
        match self.last_observation_index {
            Some(index) => {
                proof {
                    lemma_wrap_is_mod(index + 1, self.observations_stored as int);
                }
                Some((index + 1) % self.observations_stored)
            },
            None => None,
        }
    }

    /// The accumulator of the open minute.
    pub fn sub_observations(&self) -> (r: Option<SubObservations>)
        ensures
            match r {
                Some(sub) => self@.sub_observations == Some(sub@),
                None => self@.sub_observations is None,
            },
    {
        self.sub_observations
    }
}

} // verus!
