//! Facts about the ring of observations.

use vstd::prelude::*;
use crate::model::appended;
use crate::model::floor_index;
use crate::model::in_seconds_range;
use crate::model::increasing;
use crate::model::is_floor_index;
use crate::model::wrap;
use crate::model::ObservationModel;
use crate::model::OracleModel;
use crate::numeric::LogsModel;
use crate::time::Instant;

verus! {

/// Going once around a ring of `n` slots is taking the index modulo `n`.
pub proof fn lemma_wrap_is_mod(x: int, n: int)
    requires
        0 <= x < 2 * n,
    ensures
        x % n == wrap(x, n),
{
    if x >= n {
        assert(x % n == x - n) by (nonlinear_arith)
            requires
                n <= x < 2 * n,
        ;
    } else {
        assert(x % n == x) by (nonlinear_arith)
            requires
                0 <= x < n,
        ;
    }
}

/// In a sequence whose minutes strictly increase, at most one place is the
/// latest that is not after `target`.
pub proof fn lemma_floor_index(h: Seq<ObservationModel>, target: int, i: int)
    requires
        increasing(h),
        is_floor_index(h, target, i),
    ensures
        floor_index(h, target) == i,
{
    let c = floor_index(h, target);
    assert(is_floor_index(h, target, c));
    if c < i {
        assert(h[c + 1].timestamp <= h[i].timestamp) by {
            if c + 1 < i {
                assert(h[c + 1].timestamp < h[i].timestamp);
            }
        }
    } else if i < c {
        assert(h[i + 1].timestamp <= h[c].timestamp) by {
            if i + 1 < c {
                assert(h[i + 1].timestamp < h[c].timestamp);
            }
        }
    }
}

impl OracleModel {
    /// The newest observation is the last of the history, and the oldest the
    /// first.
    pub proof fn lemma_ends(self)
        requires
            self.ring_wf(),
            self.observations_stored > 0,
        ensures
            self.history().len() == self.observations_stored,
            self.history().last() == self.last(),
            self.history()[0] == self.observations[self.oldest_index()],
            0 <= self.oldest_index() < self.observations_stored,
            self.history()[0].timestamp <= self.last().timestamp,
    {
        let h = self.history();
        if self.observations_stored > 1 {
            assert(h[0].timestamp < h[self.observations_stored - 1].timestamp);
        }
    }

    /// Storing an observation that is later than every stored one appends
    /// it to the history, from which the oldest one leaves where the ring is
    /// full, and keeps the ring in order.
    pub proof fn lemma_insert(self, o: ObservationModel)
        requires
            self.ring_wf(),
            self.observations_stored > 0 ==> self.last().timestamp < o.timestamp,
            0 <= o.timestamp,
            o.timestamp * 60 <= u64::MAX,
        ensures
            self.insert_observation(o).ring_wf(),
            self.insert_observation(o).history() == appended(
                self.history(),
                o,
                self.observations_limit,
            ),
            self.insert_observation(o).last() == o,
    {
        let next = self.insert_observation(o);
        let h = self.history();
        let g = next.history();
        let a = appended(h, o, self.observations_limit);
        if self.observations_stored > 0 {
            self.lemma_ends();
        }
        assert(g.len() == a.len());
        assert forall|k: int| 0 <= k < g.len() implies g[k] == a[k] by {
            if self.observations_stored < self.observations_limit {
                if k < self.observations_stored {
                    assert(h[k] == self.observations[k]);
                }
            } else {
                if k < self.observations_stored - 1 {
                    assert(h[k + 1] == a[k]);
                }
            }
        }
        assert(g =~= a);
        assert forall|j: int, k: int| 0 <= j < k < a.len() implies a[j].timestamp
            < a[k].timestamp by {
            if self.observations_stored < self.observations_limit {
                if k < h.len() {
                    assert(h[j].timestamp < h[k].timestamp);
                } else if h.len() > 0 {
                    if j < h.len() - 1 {
                        assert(h[j].timestamp < h[h.len() - 1].timestamp);
                    }
                }
            } else {
                if k < h.len() - 1 {
                    assert(h[j + 1].timestamp < h[k + 1].timestamp);
                } else {
                    if j + 1 < h.len() - 1 {
                        assert(h[j + 1].timestamp < h[h.len() - 1].timestamp);
                    }
                }
            }
        }
        assert forall|k: int| 0 <= k < a.len() implies 0 <= #[trigger] a[k].timestamp
            && a[k].timestamp * 60 <= u64::MAX by {
            if self.observations_stored < self.observations_limit {
                if k < h.len() {
                    assert(0 <= h[k].timestamp);
                }
            } else {
                if k < h.len() - 1 {
                    assert(0 <= h[k + 1].timestamp);
                }
            }
        }
        assert(increasing(g));
        assert(in_seconds_range(g));
    }

    /// Where the first `n` of a list of intervals fail, the whole list fails
    /// in the same way.
    pub proof fn lemma_intervals_fail(
        self,
        intervals: Seq<(u64, u64)>,
        n: int,
        now: Instant,
        logs: Option<LogsModel>,
    )
        requires
            0 <= n <= intervals.len(),
            self.observation_intervals(intervals.take(n), now, logs) is Err,
        ensures
            self.observation_intervals(intervals, now, logs) == self.observation_intervals(
                intervals.take(n),
                now,
                logs,
            ),
        decreases intervals.len(),
    {
        if n == intervals.len() {
            assert(intervals.take(n) =~= intervals);
        } else {
            assert(intervals.drop_last().take(n) =~= intervals.take(n));
            self.lemma_intervals_fail(intervals.drop_last(), n, now, logs);
        }
    }
}

} // verus!
