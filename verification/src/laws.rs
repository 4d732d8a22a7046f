//! What holds of the oracle over many operations.
//!
//! Each proof function here is a statement about the oracle as the model
//! defines it; the executable oracle is proved to behave as the model.

use vstd::prelude::*;
use vstd::arithmetic::div_mod::lemma_div_multiples_vanish;
use vstd::arithmetic::div_mod::lemma_fundamental_div_mod;
use vstd::arithmetic::div_mod::lemma_fundamental_div_mod_converse;
use vstd::arithmetic::div_mod::lemma_mod_multiples_vanish;
use crate::decimal::precise_per_subunit;
use crate::decimal::trunc_div;
use crate::model::appended;
use crate::model::increasing;
use crate::ring::lemma_floor_index;
use crate::model::wrap;
use crate::model::ObservationModel;
use crate::model::OracleModel;
use crate::error::OracleError;
use crate::numeric::LogsModel;
use crate::numeric::PricesModel;
use crate::sub_observations::SubModel;
use crate::time::Instant;

verus! {

/// One call of `observe`: a price, the time at which it was seen, and the
/// logarithms that were handed in with it.
pub struct ObserveEvent {
    pub price_sqrt: int,
    pub now: Instant,
    pub logs: Option<LogsModel>,
}

/// The oracle after one call of `observe`; a call that fails leaves it as
/// it was.
pub open spec fn after(m: OracleModel, e: ObserveEvent) -> OracleModel {
    match m.observe(e.price_sqrt, e.now, e.logs) {
        Ok(next) => next,
        Err(_) => m,
    }
}

/// Whether a call of `observe` stores an observation: it succeeds and closes
/// the open minute.
pub open spec fn stores(m: OracleModel, e: ObserveEvent) -> bool {
    m.crosses_minute(e.now) && m.observe(e.price_sqrt, e.now, e.logs) is Ok
}

/// The oracle after a sequence of calls of `observe`.
pub open spec fn after_all(m: OracleModel, events: Seq<ObserveEvent>) -> OracleModel
    decreases events.len(),
{
    if events.len() == 0 {
        m
    } else {
        after(after_all(m, events.drop_last()), events.last())
    }
}

/// The observations that a sequence of calls of `observe` stores, in the
/// order in which they are stored.
pub open spec fn stored_by(m: OracleModel, events: Seq<ObserveEvent>) -> Seq<ObservationModel>
    decreases events.len(),
{
    if events.len() == 0 {
        Seq::empty()
    } else {
        let before = after_all(m, events.drop_last());
        if stores(before, events.last()) {
            stored_by(m, events.drop_last()).push(after(before, events.last()).last())
        } else {
            stored_by(m, events.drop_last())
        }
    }
}

/// Whether time does not go back from one call to the next.
pub open spec fn in_order(events: Seq<ObserveEvent>) -> bool {
    forall|i: int, j: int| 0 <= i < j < events.len() ==> at(events[i]) <= at(events[j])
}

/// The second at which a call is made.
pub open spec fn at(e: ObserveEvent) -> int {
    e.now.seconds_since_unix_epoch as int
}

/// The smaller of two integers.
pub open spec fn least(a: int, b: int) -> int {
    if a <= b {
        a
    } else {
        b
    }
}

/// The index after `a` in a ring of `n` slots is the one after `a % n`.
pub proof fn lemma_next_in_ring(a: int, n: int)
    requires
        0 <= a,
        1 <= n,
    ensures
        (a + 1) % n == wrap(a % n + 1, n),
{
    lemma_fundamental_div_mod(a, n);
    let q = a / n;
    let r = a % n;
    assert(0 <= r < n) by (nonlinear_arith)
        requires
            r == a % n,
            n >= 1,
    ;
    if r + 1 < n {
        assert(a + 1 == q * n + (r + 1)) by (nonlinear_arith)
            requires
                a == n * q + r,
        ;
        lemma_fundamental_div_mod_converse(a + 1, n, q, r + 1);
    } else {
        assert(a + 1 == (q + 1) * n + 0) by (nonlinear_arith)
            requires
                a == n * q + r,
                r + 1 == n,
        ;
        lemma_fundamental_div_mod_converse(a + 1, n, q + 1, 0);
    }
}

/// A successful `observe` keeps the oracle well formed and leaves the open
/// minute updated at `now`. Where it closes a minute it appends one
/// observation for the minute of `now`, later than every stored one, in
/// the slot after the newest; otherwise it leaves the ring as it is.
pub proof fn lemma_observe(m: OracleModel, price_sqrt: int, now: Instant, logs: Option<LogsModel>)
    requires
        m.wf(),
        m.accepts(now),
    ensures
        m.observe(price_sqrt, now, logs) matches Ok(next) ==> {
            &&& next.wf()
            &&& next.observations_limit == m.observations_limit
            &&& next.sub_observations matches Some(sub) && sub.last_updated == now
            &&& m.crosses_minute(now) ==> {
                &&& next.history() == appended(m.history(), next.last(), m.observations_limit)
                &&& next.last().timestamp == now.minute()
                &&& next.last_observation_index == Some(m.next_index())
                &&& next.observations_stored == least(
                    m.observations_stored + 1,
                    m.observations_limit,
                )
                &&& m.observations_stored > 0 ==> m.last().timestamp < next.last().timestamp
            }
            &&& !m.crosses_minute(now) ==> {
                &&& next.observations == m.observations
                &&& next.last_observation_index == m.last_observation_index
                &&& next.observations_stored == m.observations_stored
            }
        },
{
    if m.observe(price_sqrt, now, logs) is Ok {
        let next = m.observe(price_sqrt, now, logs)->Ok_0;
        if m.crosses_minute(now) {
            let created = m.create_observation(now, logs.unwrap())->Ok_0;
            m.lemma_insert(created.0);
            let inserted = m.insert_observation(created.0);
            assert(next.observations == inserted.observations);
            assert(next.history() =~= inserted.history());
        } else {
            assert(next.history() =~= m.history());
        }
    }
}

/// From an oracle that has seen nothing, after any calls of `observe` among
/// which time does not go back: the oracle is well formed, so the minutes
/// of its stored observations strictly increase from the oldest on; it
/// holds as many observations as were stored, up to its limit; these are
/// exactly the latest that were stored, in their order; and the newest lies
/// in the slot that is the number stored so far, less one, modulo the
/// limit, which after `limit + k` observations is `k - 1` modulo the limit.
pub proof fn law_ring_keeps_latest(limit: int, events: Seq<ObserveEvent>)
    requires
        1 <= limit <= u16::MAX,
        in_order(events),
    ensures
        ({
            let m = after_all(OracleModel::empty(limit), events);
            let made = stored_by(OracleModel::empty(limit), events);
            let n = made.len() as int;
            &&& m.wf()
            &&& increasing(m.history())
            &&& increasing(made)
            &&& m.observations_limit == limit
            &&& m.observations_stored == least(n, limit)
            &&& m.history() == made.subrange(n - m.observations_stored, n)
            &&& n == 0 ==> m.last_observation_index is None
            &&& n > 0 ==> m.last_observation_index == Some((n - 1) % limit)
            &&& n >= limit ==> m.last_observation_index == Some((n - limit - 1) % limit)
            &&& m.sub_observations matches Some(sub) ==> events.len() > 0
                && sub.last_updated.seconds_since_unix_epoch
                <= events.last().now.seconds_since_unix_epoch
        }),
    decreases events.len(),
{
    let start = OracleModel::empty(limit);
    let total = stored_by(start, events).len() as int;
    if total >= limit {
        lemma_mod_multiples_vanish(1, total - limit - 1, limit);
    }
    if events.len() == 0 {
        assert(start.history() =~= Seq::<ObservationModel>::empty());
        assert(start.history() =~= stored_by(start, events).subrange(0, 0));
    } else {
        let earlier = events.drop_last();
        let e = events.last();
        assert(in_order(earlier)) by {
            assert forall|i: int, j: int| 0 <= i < j < earlier.len() implies at(earlier[i]) <= at(
                earlier[j],
            ) by {
                assert(earlier[i] == events[i]);
                assert(earlier[j] == events[j]);
            }
        }
        law_ring_keeps_latest(limit, earlier);
        let before = after_all(start, earlier);
        let made = stored_by(start, earlier);
        let n = made.len() as int;
        if earlier.len() > 0 {
            assert(earlier.last() == events[events.len() - 2]);
        }
        assert(before.accepts(e.now));
        lemma_observe(before, e.price_sqrt, e.now, e.logs);
        let m = after(before, e);
        if stores(before, e) {
            let o = m.last();
            let all = made.push(o);
            assert(stored_by(start, events) == all);
            assert(m.history() =~= all.subrange(n + 1 - m.observations_stored, n + 1));
            assert(increasing(all)) by {
                assert forall|j: int, k: int| 0 <= j < k < all.len() implies all[j].timestamp
                    < all[k].timestamp by {
                    if k < n {
                        assert(made[j].timestamp < made[k].timestamp);
                    } else {
                        before.lemma_ends();
                        assert(before.history().last() == made[n - 1]);
                        if j < n - 1 {
                            assert(made[j].timestamp < made[n - 1].timestamp);
                        }
                    }
                }
            }
            if n > 0 {
                lemma_next_in_ring(n - 1, limit);
            } else {
                assert(0int % limit == 0) by (nonlinear_arith)
                    requires
                        limit >= 1,
                ;
            }
        }
    }
}

/// A price seen in the same second as the one before replaces it: two
/// calls of `observe` at one instant leave the oracle as the second call
/// alone would, given the logarithms of the first. Where the first call
/// fails, the second alone fails in the same way.
pub proof fn lemma_replay(
    m: OracleModel,
    first: int,
    second: int,
    now: Instant,
    logs: Option<LogsModel>,
    later_logs: Option<LogsModel>,
)
    requires
        m.wf(),
        m.accepts(now),
    ensures
        match m.observe(first, now, logs) {
            Ok(next) => next.observe(second, now, later_logs) == m.observe(second, now, logs),
            Err(e) => m.observe(second, now, logs) == Err::<OracleModel, OracleError>(e),
        },
{
    lemma_observe(m, first, now, logs);
}

/// Whether all calls are made at the instant `now` with the logarithms
/// `logs`.
pub open spec fn all_at(events: Seq<ObserveEvent>, now: Instant, logs: Option<LogsModel>) -> bool {
    forall|i: int|
        0 <= i < events.len() ==> (#[trigger] events[i]).now == now && events[i].logs == logs
}

/// Several calls of `observe` in one second leave the oracle as the last of
/// them alone would: only the last price of a second counts.
pub proof fn law_same_second_replays(
    m: OracleModel,
    events: Seq<ObserveEvent>,
    now: Instant,
    logs: Option<LogsModel>,
)
    requires
        m.wf(),
        m.accepts(now),
        events.len() > 0,
        all_at(events, now, logs),
    ensures
        after_all(m, events) == after(m, events.last()),
    decreases events.len(),
{
    let e = events.last();
    let earlier = events.drop_last();
    if earlier.len() == 0 {
        assert(after_all(m, earlier) == m);
    } else {
        assert(all_at(earlier, now, logs)) by {
            assert forall|i: int| 0 <= i < earlier.len() implies (#[trigger] earlier[i]).now == now
                && earlier[i].logs == logs by {
                assert(earlier[i] == events[i]);
            }
        }
        law_same_second_replays(m, earlier, now, logs);
        let d = earlier.last();
        assert(d == events[events.len() - 2]);
        assert(d.now == now && d.logs == logs);
        assert(e.now == now && e.logs == logs);
        lemma_replay(m, d.price_sqrt, e.price_sqrt, now, logs, logs);
    }
}

/// Division that rounds toward zero leaves a remainder smaller than the
/// divisor.
pub proof fn lemma_trunc_div_remainder(x: int, n: int)
    requires
        n > 0,
    ensures
        -n < x - trunc_div(x, n) * n < n,
{
    if x >= 0 {
        lemma_fundamental_div_mod(x, n);
        assert(0 <= x % n < n) by (nonlinear_arith)
            requires
                n > 0,
        ;
        assert((x / n) * n == n * (x / n)) by (nonlinear_arith);
    } else {
        lemma_fundamental_div_mod(-x, n);
        assert(0 <= (-x) % n < n) by (nonlinear_arith)
            requires
                n > 0,
        ;
        assert((-((-x) / n)) * n == -(n * ((-x) / n))) by (nonlinear_arith);
    }
}

/// The accumulator is additive in time: over an interval split at any
/// minute, the mean logarithm weighted by the interval's length is the sum
/// of the means over the two parts weighted by their lengths, up to what
/// the three divisions round away, which is less than one subunit for each
/// minute of each interval.
pub proof fn law_interval_split(
    m: OracleModel,
    left_seconds: int,
    split_seconds: int,
    right_seconds: int,
    now: Instant,
    logs: Option<LogsModel>,
)
    requires
        m.wf(),
        m.observation_interval(left_seconds, right_seconds, now, logs) is Ok,
        m.observation_interval(left_seconds, split_seconds, now, logs) is Ok,
        m.observation_interval(split_seconds, right_seconds, now, logs) is Ok,
    ensures
        ({
            let a = left_seconds / 60;
            let s = split_seconds / 60;
            let b = right_seconds / 60;
            let whole = m.observation_interval(left_seconds, right_seconds, now, logs)->Ok_0;
            let first = m.observation_interval(left_seconds, split_seconds, now, logs)->Ok_0;
            let second = m.observation_interval(split_seconds, right_seconds, now, logs)->Ok_0;
            let y_a = m.observation_internal(a, now, logs)->Ok_0.price_sqrt_log_acc;
            let y_s = m.observation_internal(s, now, logs)->Ok_0.price_sqrt_log_acc;
            let y_b = m.observation_internal(b, now, logs)->Ok_0.price_sqrt_log_acc;
            let parts = first.price_sqrt_log * (s - a) + second.price_sqrt_log * (b - s);
            &&& a < s < b
            &&& y_b - y_a == (y_s - y_a) + (y_b - y_s)
            &&& -(b - a) < (y_b - y_a) - whole.price_sqrt_log * (b - a) < b - a
            &&& -(b - a) < (y_b - y_a) - parts < b - a
            &&& -2 * (b - a) < whole.price_sqrt_log * (b - a) - parts < 2 * (b - a)
        }),
{
    let a = left_seconds / 60;
    let s = split_seconds / 60;
    let b = right_seconds / 60;
    let y_a = m.observation_internal(a, now, logs)->Ok_0.price_sqrt_log_acc;
    let y_s = m.observation_internal(s, now, logs)->Ok_0.price_sqrt_log_acc;
    let y_b = m.observation_internal(b, now, logs)->Ok_0.price_sqrt_log_acc;
    lemma_trunc_div_remainder(y_b - y_a, b - a);
    lemma_trunc_div_remainder(y_s - y_a, s - a);
    lemma_trunc_div_remainder(y_b - y_s, b - s);
}

/// The three states of an oracle.
pub enum Phase {
    /// Nothing seen: no open minute, nothing stored.
    Empty,
    /// The first minute is open and nothing is stored.
    OpenFirstMinute,
    /// A later minute is open and at least one observation is stored.
    OpenLaterMinute,
}

/// The state that an oracle is in.
pub open spec fn phase(m: OracleModel) -> Phase {
    if m.sub_observations is None {
        Phase::Empty
    } else if m.observations_stored == 0 {
        Phase::OpenFirstMinute
    } else {
        Phase::OpenLaterMinute
    }
}

/// A well-formed oracle is in one of the three states, and a successful
/// `observe` moves it on as follows: the first price opens the first
/// minute; a price in a later minute closes the first minute and stores
/// the first observation; from then on a later minute stays open, and an
/// observation is stored with each price that comes in a new minute. No
/// state is left backwards.
pub proof fn law_state_machine(
    m: OracleModel,
    price_sqrt: int,
    now: Instant,
    logs: Option<LogsModel>,
)
    requires
        m.wf(),
        m.accepts(now),
    ensures
        phase(m) == Phase::Empty ==> m.observations_stored == 0,
        phase(m) == Phase::OpenFirstMinute ==> m.sub_observations.unwrap().initialization is Some,
        phase(m) == Phase::OpenLaterMinute ==> m.sub_observations.unwrap().initialization is None,
        m.observe(price_sqrt, now, logs) matches Ok(next) ==> phase(next) == match phase(m) {
            Phase::Empty => Phase::OpenFirstMinute,
            Phase::OpenFirstMinute => if m.crosses_minute(now) {
                Phase::OpenLaterMinute
            } else {
                Phase::OpenFirstMinute
            },
            Phase::OpenLaterMinute => Phase::OpenLaterMinute,
        },
{
    lemma_observe(m, price_sqrt, now, logs);
}

/// A price and the instant at which it was seen.
pub struct PriceSample {
    pub price_sqrt: int,
    pub now: Instant,
}

/// The accumulator of the open minute after a sequence of prices, where
/// none of them overflows.
pub open spec fn sub_after_all(sub: SubModel, samples: Seq<PriceSample>) -> Result<
    SubModel,
    OracleError,
>
    decreases samples.len(),
{
    if samples.len() == 0 {
        Ok(sub)
    } else {
        match sub_after_all(sub, samples.drop_last()) {
            Err(e) => Err(e),
            Ok(before) => before.new_subobservation(
                samples.last().price_sqrt,
                samples.last().now,
            ),
        }
    }
}

/// Whether the prices are seen in the minute that is open, one after the
/// other, none before the last update.
pub open spec fn within_open_minute(sub: SubModel, samples: Seq<PriceSample>) -> bool {
    &&& forall|i: int| 0 <= i < samples.len() ==> sub.accepts((#[trigger] samples[i]).now)
    &&& forall|i: int, j: int| 0 <= i < j < samples.len() ==> seen(samples[i]) <= seen(samples[j])
}

/// The second at which a price is seen.
pub open spec fn seen(sample: PriceSample) -> int {
    sample.now.seconds_since_unix_epoch as int
}

/// The sum, over a sequence of prices, of each price that was in force
/// times the seconds for which it was: the price `last` from the second
/// `since` until the first of the sequence, and each price of the sequence
/// until the next.
pub open spec fn held_sum(last: int, since: int, samples: Seq<PriceSample>) -> int
    decreases samples.len(),
{
    if samples.len() == 0 {
        0
    } else {
        let earlier = samples.drop_last();
        let until = samples.last().now.seconds_since_unix_epoch;
        if earlier.len() == 0 {
            last * (until - since)
        } else {
            held_sum(last, since, earlier) + earlier.last().price_sqrt * (until
                - earlier.last().now.seconds_since_unix_epoch)
        }
    }
}

/// Within a minute every price is weighted by the seconds during which it
/// was the latest: after a sequence of prices the sum has grown by each
/// price in force times the seconds for which it was. Of several prices in
/// one second only the last gets a weight.
pub proof fn law_time_weighted_sum(sub: SubModel, samples: Seq<PriceSample>)
    requires
        within_open_minute(sub, samples),
    ensures
        sub_after_all(sub, samples) matches Ok(after) ==> {
            &&& after.price_sqrt_sum == sub.price_sqrt_sum + held_sum(
                sub.price_sqrt_last,
                sub.last_updated.seconds_since_unix_epoch as int,
                samples,
            )
            &&& after.initialization == sub.initialization
            &&& samples.len() > 0 ==> after.price_sqrt_last == samples.last().price_sqrt
                && after.last_updated == samples.last().now
        },
    decreases samples.len(),
{
    if samples.len() > 0 {
        let earlier = samples.drop_last();
        assert(within_open_minute(sub, earlier)) by {
            assert forall|i: int| 0 <= i < earlier.len() implies sub.accepts(
                (#[trigger] earlier[i]).now,
            ) by {
                assert(earlier[i] == samples[i]);
            }
            assert forall|i: int, j: int| 0 <= i < j < earlier.len() implies seen(earlier[i])
                <= seen(earlier[j]) by {
                assert(earlier[i] == samples[i]);
                assert(earlier[j] == samples[j]);
            }
        }
        law_time_weighted_sum(sub, earlier);
        if sub_after_all(sub, samples) is Ok {
            let before = sub_after_all(sub, earlier)->Ok_0;
            let sample = samples.last();
            assert(sample == samples[samples.len() - 1]);
            assert(sub.accepts(sample.now));
            if earlier.len() > 0 {
                assert(earlier.last() == samples[samples.len() - 2]);
                assert(sub.accepts(earlier.last().now));
            }
            let delta = sample.now.second_of_minute() - before.last_updated.second_of_minute();
            assert(delta == sample.now.seconds_since_unix_epoch
                - before.last_updated.seconds_since_unix_epoch);
            if sample.now == before.last_updated {
                assert(before.price_sqrt_last * 0 == 0) by (nonlinear_arith);
            }
        }
    }
}

/// Whether the calls are made one a minute, each at the first second of
/// its minute, from the minute `first_minute` on.
pub open spec fn once_a_minute(events: Seq<ObserveEvent>, first_minute: int) -> bool {
    forall|i: int| 0 <= i < events.len() ==> at(#[trigger] events[i]) == (first_minute + i) * 60
}

/// Whether every call of a sequence succeeds.
pub open spec fn all_succeed(m: OracleModel, events: Seq<ObserveEvent>) -> bool
    decreases events.len(),
{
    if events.len() == 0 {
        true
    } else {
        let before = after_all(m, events.drop_last());
        let e = events.last();
        all_succeed(m, events.drop_last()) && before.observe(e.price_sqrt, e.now, e.logs) is Ok
    }
}

/// The sum of the rounded logarithms of the closed minutes' averages that
/// were handed in with the calls from the second to the one at `count`.
pub open spec fn floor_sum(events: Seq<ObserveEvent>, count: int) -> int
    decreases count,
{
    if count <= 0 {
        0
    } else {
        floor_sum(events, count - 1) + events[count].logs.unwrap().finalized_ln
            / precise_per_subunit()
    }
}

/// The sum of the rounded logarithms depends on the calls up to `count`
/// only.
pub proof fn lemma_floor_sum_prefix(
    events: Seq<ObserveEvent>,
    earlier: Seq<ObserveEvent>,
    count: int,
)
    requires
        count < earlier.len() <= events.len(),
        forall|i: int| 0 <= i < earlier.len() ==> earlier[i] == events[i],
    ensures
        floor_sum(events, count) == floor_sum(earlier, count),
    decreases count,
{
    if count > 0 {
        lemma_floor_sum_prefix(events, earlier, count - 1);
    }
}

/// What an oracle holds after one price a minute: the open minute stands at
/// the last call with nothing summed, and the ring holds the latest minutes
/// without a gap, each with the sum of the rounded logarithms handed in up
/// to it.
pub open spec fn holds_every_minute(
    m: OracleModel,
    limit: int,
    first_minute: int,
    events: Seq<ObserveEvent>,
) -> bool {
    let newest = first_minute + events.len() - 1;
    let kept = least(events.len() - 1, limit);
    &&& m.wf()
    &&& m.observations_limit == limit
    &&& m.observations_stored == kept
    &&& m.history().len() == kept
    &&& forall|a: int|
        0 <= a < kept ==> (#[trigger] m.history()[a]) == (ObservationModel {
            timestamp: newest - kept + 1 + a,
            price_sqrt_log_acc: floor_sum(events, newest - kept + 1 + a - first_minute),
        })
    &&& m.sub_observations matches Some(sub)
    &&& sub.last_updated == events.last().now
    &&& sub.price_sqrt_last == events.last().price_sqrt
    &&& sub.price_sqrt_sum == 0
    &&& sub.initialization matches Some(created) ==> created.second_of_minute() == 0
}

/// After one price a minute, each call succeeding, the oracle holds every
/// minute.
pub proof fn lemma_every_minute(limit: int, first_minute: int, events: Seq<ObserveEvent>)
    requires
        1 <= limit <= u16::MAX,
        0 <= first_minute,
        events.len() >= 1,
        once_a_minute(events, first_minute),
        all_succeed(OracleModel::empty(limit), events),
    ensures
        holds_every_minute(
            after_all(OracleModel::empty(limit), events),
            limit,
            first_minute,
            events,
        ),
        events.len() >= 2 ==> after_all(
            OracleModel::empty(limit),
            events.drop_last(),
        ).closing_prices(events.last().now) == Ok::<Option<PricesModel>, OracleError>(
            Some(
                PricesModel {
                    finalized: events[events.len() - 2].price_sqrt,
                    last: events[events.len() - 2].price_sqrt,
                },
            ),
        ),
    decreases events.len(),
{
    let start = OracleModel::empty(limit);
    let e = events.last();
    let earlier = events.drop_last();
    assert(e == events[events.len() - 1]);
    assert(at(e) == (first_minute + events.len() - 1) * 60);
    assert(e.now.minute() == first_minute + events.len() - 1);
    assert(e.now.second_of_minute() == 0);
    assert(e.now.minute_start() == e.now);
    if events.len() == 1 {
        assert(after_all(start, earlier) == start);
        let m = after_all(start, events);
        assert(m.history() =~= Seq::<ObservationModel>::empty());
    } else {
        assert(once_a_minute(earlier, first_minute)) by {
            assert forall|i: int| 0 <= i < earlier.len() implies at(#[trigger] earlier[i]) == (
            first_minute + i) * 60 by {
                assert(earlier[i] == events[i]);
            }
        }
        lemma_every_minute(limit, first_minute, earlier);
        let before = after_all(start, earlier);
        let d = earlier.last();
        assert(d == events[events.len() - 2]);
        assert(at(d) == (first_minute + events.len() - 2) * 60);
        assert(d.now.minute() == first_minute + events.len() - 2);
        assert(d.now.second_of_minute() == 0);
        let open = before.sub_observations.unwrap();
        assert(before.accepts(e.now));
        assert(before.crosses_minute(e.now));
        lemma_observe(before, e.price_sqrt, e.now, e.logs);
        let m = after_all(start, events);
        assert(m == before.observe(e.price_sqrt, e.now, e.logs)->Ok_0);
        let l = e.logs.unwrap();
        // the minute that closes held one price for its sixty seconds
        assert(open.closing_duration() == 60);
        assert(trunc_div(open.price_sqrt_last * 60, 60) == open.price_sqrt_last) by {
            lemma_div_multiples_vanish(open.price_sqrt_last, 60);
            lemma_div_multiples_vanish(-open.price_sqrt_last, 60);
        }
        let closed = open.finalize(e.now)->Ok_0;
        assert(closed.0 == open.price_sqrt_last);
        assert(closed.1 == open.reset(e.now));
        // one minute has passed, so the latest price's logarithm counts no time
        let newest = first_minute + events.len() - 1;
        let kept_before = least(events.len() - 2, limit);
        let kept = least(events.len() - 1, limit);
        let acc = if before.observations_stored == 0 {
            0
        } else {
            before.last().price_sqrt_log_acc
        };
        let created = before.create_observation(e.now, l)->Ok_0;
        let last_log = l.last_ln / precise_per_subunit();
        assert(last_log * (e.now.minute() - open.last_updated.minute() - 1) == 0)
            by (nonlinear_arith)
            requires
                e.now.minute() - open.last_updated.minute() == 1,
        ;
        assert(created.0.price_sqrt_log_acc == acc + l.finalized_ln / precise_per_subunit());
        if before.observations_stored > 0 {
            before.lemma_ends();
            assert(before.history()[kept_before - 1] == before.last());
            lemma_floor_sum_prefix(events, earlier, events.len() - 2);
        }
        assert(acc == floor_sum(events, events.len() - 2));
        assert(m.last() == created.0);
        assert(m.last().price_sqrt_log_acc == floor_sum(events, events.len() - 1));
        let h = m.history();
        let g = before.history();
        assert(h == appended(g, m.last(), limit));
        assert forall|a: int| 0 <= a < kept implies (#[trigger] h[a]) == (ObservationModel {
            timestamp: newest - kept + 1 + a,
            price_sqrt_log_acc: floor_sum(events, newest - kept + 1 + a - first_minute),
        }) by {
            if a < kept - 1 {
                let b = if g.len() < limit {
                    a
                } else {
                    a + 1
                };
                assert(h[a] == g[b]);
                lemma_floor_sum_prefix(events, earlier, newest - kept + 1 + a - first_minute);
            }
        }
    }
}

/// Where every call of a sequence succeeds, every call of its first `n`
/// does.
pub proof fn lemma_all_succeed_prefix(m: OracleModel, events: Seq<ObserveEvent>, n: int)
    requires
        0 <= n <= events.len(),
        all_succeed(m, events),
    ensures
        all_succeed(m, events.take(n)),
    decreases events.len(),
{
    if n == events.len() {
        assert(events.take(n) =~= events);
    } else {
        assert(events.drop_last().take(n) =~= events.take(n));
        lemma_all_succeed_prefix(m, events.drop_last(), n);
    }
}

/// One price a minute, then a query. From an oracle of any limit that has
/// seen nothing, after one price at the first second of each minute from
/// `first_minute` on, each call succeeding:
///
/// - the prices whose logarithms each call after the first needs are the
///   price of the call before it, as the average of the closed minute and
///   as the latest price;
/// - the oracle holds the latest minutes without a gap, as many as there
///   were calls after the first, up to its limit;
/// - a query is out of range exactly below the oldest of these minutes or
///   above the minute of `now`;
/// - a query at a minute that is held gives that minute in seconds, with
///   the sum of the rounded logarithms handed in by the calls up to the one
///   that stored it.
///
/// With the first price at minute 1 and the last at minute 19, the minute 9
/// is held exactly where the limit is 11 or more.
pub proof fn law_one_price_a_minute(
    limit: int,
    first_minute: int,
    events: Seq<ObserveEvent>,
    seconds: int,
    now: Instant,
    logs: Option<LogsModel>,
)
    requires
        1 <= limit <= u16::MAX,
        0 <= first_minute,
        events.len() >= 1,
        once_a_minute(events, first_minute),
        all_succeed(OracleModel::empty(limit), events),
        0 <= seconds,
    ensures
        ({
            let m = after_all(OracleModel::empty(limit), events);
            let newest = first_minute + events.len() - 1;
            let kept = least(events.len() - 1, limit);
            let oldest = newest - kept + 1;
            let target = seconds / 60;
            let found = m.observation(seconds, now, logs);
            &&& m.observations_stored == kept
            &&& kept == 0 ==> found == Err::<ObservationModel, OracleError>(
                OracleError::QueryBeforeAnyObservation,
            )
            &&& kept > 0 ==> (found == Err::<ObservationModel, OracleError>(
                OracleError::TimestampOutOfRange,
            ) <==> target < oldest || target > now.minute())
            &&& kept > 0 && oldest <= target <= newest && target <= now.minute() ==> found == Ok::<
                ObservationModel,
                OracleError,
            >(
                ObservationModel {
                    timestamp: target * 60,
                    price_sqrt_log_acc: floor_sum(events, target - first_minute),
                },
            )
            &&& first_minute == 1 && events.len() == 19 && now.minute() == 19 ==> (
            m.observation(540int, now, logs) is Ok <==> limit >= 11)
            &&& forall|j: int|
                1 <= j < events.len() ==> #[trigger] after_all(
                    OracleModel::empty(limit),
                    events.take(j),
                ).closing_prices(events[j].now) == Ok::<Option<PricesModel>, OracleError>(
                    Some(
                        PricesModel {
                            finalized: events[j - 1].price_sqrt,
                            last: events[j - 1].price_sqrt,
                        },
                    ),
                )
        }),
{
    let start = OracleModel::empty(limit);
    assert forall|j: int| 1 <= j < events.len() implies #[trigger] after_all(
        start,
        events.take(j),
    ).closing_prices(events[j].now) == Ok::<Option<PricesModel>, OracleError>(
        Some(
            PricesModel {
                finalized: events[j - 1].price_sqrt,
                last: events[j - 1].price_sqrt,
            },
        ),
    ) by {
        let upto = events.take(j + 1);
        lemma_all_succeed_prefix(start, events, j + 1);
        assert(once_a_minute(upto, first_minute)) by {
            assert forall|i: int| 0 <= i < upto.len() implies at(#[trigger] upto[i]) == (
            first_minute + i) * 60 by {
                assert(upto[i] == events[i]);
            }
        }
        lemma_every_minute(limit, first_minute, upto);
        assert(upto.drop_last() =~= events.take(j));
        assert(upto.last() == events[j]);
        assert(upto[upto.len() - 2] == events[j - 1]);
    }
    lemma_every_minute(limit, first_minute, events);
    lemma_query_every_minute(limit, first_minute, events, seconds / 60, now, logs);
    lemma_query_every_minute(limit, first_minute, events, 9, now, logs);
}

/// The query of [`law_one_price_a_minute`], by minutes.
pub proof fn lemma_query_every_minute(
    limit: int,
    first_minute: int,
    events: Seq<ObserveEvent>,
    target: int,
    now: Instant,
    logs: Option<LogsModel>,
)
    requires
        1 <= limit <= u16::MAX,
        0 <= first_minute,
        events.len() >= 1,
        holds_every_minute(
            after_all(OracleModel::empty(limit), events),
            limit,
            first_minute,
            events,
        ),
    ensures
        ({
            let m = after_all(OracleModel::empty(limit), events);
            let newest = first_minute + events.len() - 1;
            let kept = least(events.len() - 1, limit);
            let oldest = newest - kept + 1;
            let found = m.observation_internal(target, now, logs);
            &&& kept == 0 ==> found == Err::<ObservationModel, OracleError>(
                OracleError::QueryBeforeAnyObservation,
            )
            &&& kept > 0 ==> (found == Err::<ObservationModel, OracleError>(
                OracleError::TimestampOutOfRange,
            ) <==> target < oldest || target > now.minute())
            &&& kept > 0 && oldest <= target <= newest && target <= now.minute() ==> found == Ok::<
                ObservationModel,
                OracleError,
            >(
                ObservationModel {
                    timestamp: target,
                    price_sqrt_log_acc: floor_sum(events, target - first_minute),
                },
            )
        }),
{
    let m = after_all(OracleModel::empty(limit), events);
    let newest = first_minute + events.len() - 1;
    let kept = least(events.len() - 1, limit);
    let oldest = newest - kept + 1;
    if kept > 0 {
        m.lemma_ends();
        let h = m.history();
        assert(h[0].timestamp == oldest);
        assert(h[kept - 1].timestamp == newest);
        assert(m.last().timestamp == newest);
        if oldest <= target < newest && target <= now.minute() {
            let i = target - oldest;
            assert(h[i].timestamp == target);
            assert(h[i + 1].timestamp == target + 1);
            lemma_floor_index(h, target, i);
        }
    }
}

} // verus!
