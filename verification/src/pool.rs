//! The two bounded-concurrency constructs of a scan. `WorkPool` is the
//! plain bound: a counter of running tasks that can never pass its
//! configured limit; the fleet level uses one to bound simultaneous
//! namespace scans. `ProbeDispatcher` drives one namespace's probes through
//! such a bound: it hands out the filtered pods one at a time, takes each
//! probe's outcome back, and accounts for every pod — at any point the pods
//! still pending, the probes in flight and the outcomes gathered add up to
//! the filtered total. The caller performs the actual probe between
//! `dispatch` and `complete`; every decision in between is made here.

use crate::probe::ProbeOutcome;
use crate::types::{filter_pods, spec_filter_pods, Pod};
use vstd::prelude::*;

verus! {

/// A bounded pool of running tasks: however acquisition and release are
/// interleaved, the number of tasks running at once never passes the
/// configured limit.
#[derive(Debug, Clone, Copy)]
pub struct WorkPool {
    active: usize,
    limit: usize,
}

impl WorkPool {
    /// How many tasks run right now.
    pub closed spec fn spec_active(&self) -> int {
        self.active as int
    }

    /// The configured bound.
    pub closed spec fn spec_limit(&self) -> int {
        self.limit as int
    }

    /// The pool's invariant: a positive bound that the running count never
    /// passes.
    pub open spec fn wf(&self) -> bool {
        &&& 1 <= self.spec_limit()
        &&& 0 <= self.spec_active() <= self.spec_limit()
    }

    /// An idle pool with the given bound.
    pub fn new(limit: usize) -> (p: Self)
        requires
            limit >= 1,
        ensures
            p.wf(),
            p.spec_active() == 0,
            p.spec_limit() == limit,
    {
        WorkPool { active: 0, limit }
    }

    /// Whether one more task may start right now.
    pub fn has_capacity(&self) -> (r: bool)
        ensures
            r == (self.spec_active() < self.spec_limit()),
    {
        self.active < self.limit
    }

    /// Starts one task if the bound allows it; a caller that holds no slot
    /// must wait and ask again, never run unaccounted.
    pub fn try_acquire(&mut self) -> (ok: bool)
        requires
            old(self).wf(),
        ensures
            final(self).wf(),
            final(self).spec_limit() == old(self).spec_limit(),
            ok == (old(self).spec_active() < old(self).spec_limit()),
            ok ==> final(self).spec_active() == old(self).spec_active() + 1,
            !ok ==> final(self).spec_active() == old(self).spec_active(),
    {
        if self.active < self.limit {
            self.active = self.active + 1;
            true
        } else {
            false
        }
    }

    /// Ends one running task.
    pub fn release(&mut self)
        requires
            old(self).wf(),
            old(self).spec_active() >= 1,
        ensures
            final(self).wf(),
            final(self).spec_limit() == old(self).spec_limit(),
            final(self).spec_active() == old(self).spec_active() - 1,
    {
        self.active = self.active - 1;
    }

    /// The instrumented running-task counter.
    pub fn active_count(&self) -> (n: usize)
        ensures
            n == self.spec_active(),
    {
        self.active
    }

    /// The configured bound, as configured.
    pub fn limit(&self) -> (n: usize)
        ensures
            n == self.spec_limit(),
    {
        self.limit
    }
}

/// At no point does a well-formed pool run more tasks at once than its
/// configured limit.
pub proof fn lemma_pool_bounded(p: WorkPool)
    requires
        p.wf(),
    ensures
        p.spec_active() <= p.spec_limit(),
{
}

/// One namespace's probe run: the filtered pods still pending, the probes
/// in flight (bounded by the probe pool), and the outcomes gathered so far.
#[derive(Debug)]
pub struct ProbeDispatcher {
    pending: Vec<Pod>,
    pool: WorkPool,
    outcomes: Vec<ProbeOutcome>,
    total: usize,
}

impl ProbeDispatcher {
    /// The pods not yet handed out.
    pub closed spec fn spec_pending(&self) -> Seq<Pod> {
        self.pending@
    }

    /// The outcomes taken back so far, in completion order.
    pub closed spec fn spec_outcomes(&self) -> Seq<ProbeOutcome> {
        self.outcomes@
    }

    /// How many probes run right now.
    pub closed spec fn spec_in_flight(&self) -> int {
        self.pool.spec_active()
    }

    /// The configured probe-concurrency bound.
    pub closed spec fn spec_limit(&self) -> int {
        self.pool.spec_limit()
    }

    /// How many pods the namespace scan covers: the filtered pod count,
    /// fixed at creation.
    pub closed spec fn spec_total(&self) -> int {
        self.total as int
    }

    /// The dispatcher's invariant: the probe bound holds, and every pod is
    /// accounted for — pending, in flight, or finished.
    pub open spec fn wf(&self) -> bool {
        &&& 1 <= self.spec_limit()
        &&& 0 <= self.spec_in_flight() <= self.spec_limit()
        &&& self.spec_outcomes().len() + self.spec_in_flight() + self.spec_pending().len()
            == self.spec_total()
    }

    /// Sets up one namespace's probe run: applies DaemonSet filtering to
    /// the listed pods, so that a skipped pod is never dispatched and never
    /// counted, and fixes the probe-concurrency bound.
    pub fn new(pods: Vec<Pod>, skip_daemonset: bool, limit: usize) -> (d: Self)
        requires
            limit >= 1,
        ensures
            d.wf(),
            d.spec_pending() == spec_filter_pods(pods@, skip_daemonset),
            d.spec_total() == spec_filter_pods(pods@, skip_daemonset).len(),
            d.spec_outcomes().len() == 0,
            d.spec_in_flight() == 0,
            d.spec_limit() == limit,
    {
        let pending = filter_pods(pods, skip_daemonset);
        let total = pending.len();
        ProbeDispatcher { pending, pool: WorkPool::new(limit), outcomes: Vec::new(), total }
    }

    /// Whether a probe may start right now: a pod is pending and the bound
    /// leaves room.
    pub fn can_dispatch(&self) -> (r: bool)
        ensures
            r == (self.spec_pending().len() > 0 && self.spec_in_flight() < self.spec_limit()),
    {
        self.pending.len() > 0 && self.pool.has_capacity()
    }

    /// Hands out the next pending pod and accounts its probe as running.
    pub fn dispatch(&mut self) -> (p: Pod)
        requires
            old(self).wf(),
            old(self).spec_pending().len() > 0,
            old(self).spec_in_flight() < old(self).spec_limit(),
        ensures
            final(self).wf(),
            p == old(self).spec_pending()[0],
            final(self).spec_pending() == old(self).spec_pending().remove(0),
            final(self).spec_outcomes() == old(self).spec_outcomes(),
            final(self).spec_in_flight() == old(self).spec_in_flight() + 1,
            final(self).spec_limit() == old(self).spec_limit(),
            final(self).spec_total() == old(self).spec_total(),
    {
        let p = self.pending.remove(0);
        let got = self.pool.try_acquire();
        proof {
            assert(got);
        }
        p
    }

    /// Takes one probe's outcome back and accounts its task as finished.
    pub fn complete(&mut self, outcome: ProbeOutcome)
        requires
            old(self).wf(),
            old(self).spec_in_flight() >= 1,
        ensures
            final(self).wf(),
            final(self).spec_outcomes() == old(self).spec_outcomes().push(outcome),
            final(self).spec_pending() == old(self).spec_pending(),
            final(self).spec_in_flight() == old(self).spec_in_flight() - 1,
            final(self).spec_limit() == old(self).spec_limit(),
            final(self).spec_total() == old(self).spec_total(),
    {
        self.outcomes.push(outcome);
        self.pool.release();
    }

    /// Surrenders the gathered outcomes once the run is being folded.
    pub(crate) fn into_outcomes(self) -> (v: Vec<ProbeOutcome>)
        ensures
            v@ == self.spec_outcomes(),
    {
        self.outcomes
    }

    /// Whether the namespace's probe run is over: nothing pending, nothing
    /// in flight.
    pub fn is_done(&self) -> (r: bool)
        ensures
            r == (self.spec_pending().len() == 0 && self.spec_in_flight() == 0),
    {
        self.pending.len() == 0 && self.pool.active_count() == 0
    }

    /// The instrumented in-flight probe counter.
    pub fn in_flight_count(&self) -> (n: usize)
        ensures
            n == self.spec_in_flight(),
    {
        self.pool.active_count()
    }

    /// How many pods this run covers, as fixed at creation.
    pub fn total_count(&self) -> (n: usize)
        ensures
            n == self.spec_total(),
    {
        self.total
    }
}

/// At no point do more probes run at once within one namespace than the
/// configured maximum.
pub proof fn lemma_probes_bounded(d: ProbeDispatcher)
    requires
        d.wf(),
    ensures
        d.spec_in_flight() <= d.spec_limit(),
{
}

/// Once a namespace's probe run is over, exactly the pods that survived
/// filtering have an outcome: no pod was lost and none probed twice,
/// whatever the interleaving of dispatches and completions was.
pub proof fn lemma_all_pods_accounted(d: ProbeDispatcher)
    requires
        d.wf(),
        d.spec_pending().len() == 0,
        d.spec_in_flight() == 0,
    ensures
        d.spec_outcomes().len() == d.spec_total(),
{
}

} // verus!
