//! Weighted sliding-window rate limiter.
//!
//! Every successful mutating action appends an activity event carrying the
//! operation's weight; a subject is limited while the summed weight of its
//! events inside the trailing window exceeds the threshold. Old events can
//! be pruned without changing any answer.

use vstd::prelude::*;

verus! {

/// One append-only ledger entry: a weighted action by a subject at a time.
#[derive(Clone, Copy, Debug)]
pub struct ActivityEvent {
    pub subject_id: i64,
    pub weight: u32,
    /// Unix seconds at which the action succeeded.
    pub occurred_at: u64,
}

/// Bounds how much weighted activity a subject may perform inside a
/// trailing window of `window_secs` seconds before actions are refused.
pub struct RateLimiter {
    pub events: Vec<ActivityEvent>,
    pub window_secs: u64,
    pub threshold: u64,
}

/// Whether an event is still inside the trailing window ending at `now`.
pub open spec fn spec_fresh(e: ActivityEvent, now: u64, window: u64) -> bool {
    e.occurred_at + window > now
}

/// Whether an event counts towards `id`'s total at time `now`.
pub open spec fn spec_counted(e: ActivityEvent, id: i64, now: u64, window: u64) -> bool {
    e.subject_id == id && spec_fresh(e, now, window)
}

/// Summed weight of `id`'s events inside the window ending at `now`.
pub open spec fn spec_window_weight(s: Seq<ActivityEvent>, id: i64, now: u64, window: u64) -> int
    decreases s.len(),
{
    if s.len() == 0 {
        0
    } else {
        spec_window_weight(s.drop_last(), id, now, window) + if spec_counted(
            s.last(),
            id,
            now,
            window,
        ) {
            s.last().weight as int
        } else {
            0int
        }
    }
}

/// The events that survive pruning at time `now`: exactly the ones still
/// inside the window, in their original order.
pub open spec fn spec_pruned(s: Seq<ActivityEvent>, now: u64, window: u64) -> Seq<ActivityEvent>
    decreases s.len(),
{
    if s.len() == 0 {
        Seq::empty()
    } else {
        spec_pruned(s.drop_last(), now, window) + if spec_fresh(s.last(), now, window) {
            seq![s.last()]
        } else {
            Seq::empty()
        }
    }
}

/// Appending one event raises the window total by the event's weight when
/// the event is counted for the queried subject, and leaves it unchanged
/// otherwise.
pub proof fn lemma_weight_push(
    s: Seq<ActivityEvent>,
    e: ActivityEvent,
    id: i64,
    now: u64,
    window: u64,
)
    ensures
        spec_window_weight(s.push(e), id, now, window) == spec_window_weight(s, id, now, window)
            + if spec_counted(e, id, now, window) {
            e.weight as int
        } else {
            0int
        },
{
    assert(s.push(e).drop_last() =~= s);
}

/// Pruning at time `now` does not change any subject's window total at
/// `now`: every discarded event was outside the window already.
pub proof fn lemma_prune_preserves_weight(s: Seq<ActivityEvent>, id: i64, now: u64, window: u64)
    ensures
        spec_window_weight(spec_pruned(s, now, window), id, now, window) == spec_window_weight(
            s,
            id,
            now,
            window,
        ),
    decreases s.len(),
{
    if s.len() > 0 {
        lemma_prune_preserves_weight(s.drop_last(), id, now, window);
        let p = spec_pruned(s.drop_last(), now, window);
        if spec_fresh(s.last(), now, window) {
            assert(spec_pruned(s, now, window) =~= p.push(s.last()));
            lemma_weight_push(p, s.last(), id, now, window);
        } else {
            assert(spec_pruned(s, now, window) =~= p);
        }
    }
}

impl RateLimiter {
    /// The threshold must leave headroom so that a saturated sum still
    /// compares correctly.
    pub open spec fn wf(&self) -> bool {
        self.threshold < u64::MAX
    }

    pub fn new(window_secs: u64, threshold: u64) -> (r: RateLimiter)
        requires
            threshold < u64::MAX,
        ensures
            r.events@.len() == 0,
            r.window_secs == window_secs,
            r.threshold == threshold,
            r.wf(),
    {
        RateLimiter { events: Vec::new(), window_secs, threshold }
    }

    /// Append one activity event for `subject_id` with the operation's
    /// weight, occurring at `now`.
    pub fn record(&mut self, subject_id: i64, weight: u32, now: u64)
        ensures
            final(self).window_secs == old(self).window_secs,
            final(self).threshold == old(self).threshold,
            final(self).events@ == old(self).events@.push(
                ActivityEvent { subject_id, weight, occurred_at: now },
            ),
            forall|id: i64, t: u64|
                #[trigger] spec_window_weight(final(self).events@, id, t, old(self).window_secs)
                    == spec_window_weight(old(self).events@, id, t, old(self).window_secs)
                    + if spec_counted(
                    ActivityEvent { subject_id, weight, occurred_at: now },
                    id,
                    t,
                    old(self).window_secs,
                ) {
                    weight as int
                } else {
                    0int
                },
    {
        let e = ActivityEvent { subject_id, weight, occurred_at: now };
        self.events.push(e);
        proof {
            assert forall|id: i64, t: u64|
                #[trigger] spec_window_weight(final(self).events@, id, t, old(self).window_secs)
                    == spec_window_weight(old(self).events@, id, t, old(self).window_secs)
                    + if spec_counted(e, id, t, old(self).window_secs) {
                    weight as int
                } else {
                    0int
                } by {
                lemma_weight_push(old(self).events@, e, id, t, old(self).window_secs);
            }
        }
    }

    /// Whether `subject_id` has spent more than the threshold inside the
    /// trailing window ending at `now`.
    pub fn is_limited(&self, subject_id: i64, now: u64) -> (r: bool)
        requires
            self.wf(),
        ensures
            r == (spec_window_weight(self.events@, subject_id, now, self.window_secs)
                > self.threshold),
    {
        let n = self.events.len();
        let mut acc: u64 = 0;
        let mut i: usize = 0;
        while i < n
            invariant
                i <= n,
                n == self.events.len(),
                acc <= spec_window_weight(
                    self.events@.take(i as int),
                    subject_id,
                    now,
                    self.window_secs,
                ),
                acc == u64::MAX || acc == spec_window_weight(
                    self.events@.take(i as int),
                    subject_id,
                    now,
                    self.window_secs,
                ),
            decreases n - i,
        {
            proof {
                assert(self.events@.take(i + 1).drop_last() =~= self.events@.take(i as int));
                assert(self.events@.take(i + 1).last() == self.events@[i as int]);
            }
            let e = self.events[i];
            let fresh = e.occurred_at as u128 + self.window_secs as u128 > now as u128;
            if e.subject_id == subject_id && fresh {
                let w = e.weight as u64;
                acc = if acc > u64::MAX - w {
                    u64::MAX
                } else {
                    acc + w
                };
            }
            i += 1;
        }
        proof {
            assert(self.events@.take(n as int) =~= self.events@);
        }
        acc > self.threshold
    }

    /// Discard the events that have aged out of the window ending at `now`.
    /// Required hardening: the append-only ledger would otherwise grow
    /// without bound. No answer changes: see `lemma_prune_preserves_weight`.
    pub fn prune(&mut self, now: u64)
        ensures
            final(self).window_secs == old(self).window_secs,
            final(self).threshold == old(self).threshold,
            final(self).events@ == spec_pruned(old(self).events@, now, old(self).window_secs),
    {
        let n = self.events.len();
        let mut out: Vec<ActivityEvent> = Vec::new();
        let mut i: usize = 0;
        while i < n
            invariant
                i <= n,
                n == self.events.len(),
                out@ =~= spec_pruned(self.events@.take(i as int), now, self.window_secs),
            decreases n - i,
        {
            proof {
                assert(self.events@.take(i + 1).drop_last() =~= self.events@.take(i as int));
                assert(self.events@.take(i + 1).last() == self.events@[i as int]);
            }
            let e = self.events[i];
            let fresh = e.occurred_at as u128 + self.window_secs as u128 > now as u128;
            if fresh {
                out.push(e);
            }
            i += 1;
        }
        proof {
            assert(self.events@.take(n as int) =~= self.events@);
        }
        self.events = out;
    }
}

} // verus!
