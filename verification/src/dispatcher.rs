//! The dispatcher ties the shared job queue to the worker-permit controller.
//!
//! A submission pushes the request and then makes exactly one atomic permit
//! acquisition attempt; a worker's drain turn pops the oldest request, or —
//! when that final emptiness check comes back empty — releases the permit in
//! the same step, so no job can slip in between the check and the release
//! without a later submission seeing a free permit.
//!
//! The module also carries an abstract model of these transitions, over which
//! the pool-wide laws are proved: the permit count never exceeds the limit, a
//! burst of submissions within the limit spawns one worker each, and workers
//! alone drain any backlog and hand every permit back.

use vstd::prelude::*;
use crate::permits::PermitController;
use crate::queue::JobQueue;
use crate::request::SftpRequest;

verus! {

/// The dispatcher's observable state: how many requests are pending and how
/// many workers hold a permit.
pub struct DispatchModel {
    pub queued: nat,
    pub active: nat,
}

/// The idle dispatcher: nothing pending, no worker running.
pub open spec fn idle() -> DispatchModel {
    DispatchModel { queued: 0, active: 0 }
}

/// One submission: the request is queued unconditionally, then one permit
/// acquisition is attempted; a worker is spawned exactly when the count was
/// below the limit.
pub open spec fn submit_transition(s: DispatchModel, max: nat) -> DispatchModel {
    if s.active < max {
        DispatchModel { queued: s.queued + 1, active: s.active + 1 }
    } else {
        DispatchModel { queued: s.queued + 1, active: s.active }
    }
}

/// One drain turn of a running worker: it pops a job while any is pending,
/// and otherwise releases its permit and exits.
pub open spec fn worker_transition(s: DispatchModel) -> DispatchModel
    recommends
        s.active > 0,
{
    if s.queued > 0 {
        DispatchModel { queued: (s.queued - 1) as nat, active: s.active }
    } else if s.active > 0 {
        DispatchModel { queued: s.queued, active: (s.active - 1) as nat }
    } else {
        s
    }
}

/// `n` consecutive submissions.
pub open spec fn run_submits(s: DispatchModel, max: nat, n: nat) -> DispatchModel
    decreases n,
{
    if n == 0 {
        s
    } else {
        run_submits(submit_transition(s, max), max, (n - 1) as nat)
    }
}

/// `n` consecutive worker drain turns.
pub open spec fn run_workers(s: DispatchModel, n: nat) -> DispatchModel
    decreases n,
{
    if n == 0 {
        s
    } else {
        run_workers(worker_transition(s), (n - 1) as nat)
    }
}

/// A step of the system: either the submission path runs once, or some
/// running worker takes a drain turn.
pub enum DispatchOp {
    Submit,
    WorkerTurn,
}

/// The state change of one step.
pub open spec fn dispatch_transition(s: DispatchModel, max: nat, op: DispatchOp) -> DispatchModel {
    match op {
        DispatchOp::Submit => submit_transition(s, max),
        DispatchOp::WorkerTurn => worker_transition(s),
    }
}

/// The state after a sequence of steps, in order.
pub open spec fn run_ops(s: DispatchModel, max: nat, ops: Seq<DispatchOp>) -> DispatchModel
    decreases ops.len(),
{
    if ops.len() == 0 {
        s
    } else {
        run_ops(dispatch_transition(s, max, ops.first()), max, ops.drop_first())
    }
}

/// Under any interleaving of submissions and worker turns, the permit count
/// observed after every prefix of the run stays within the configured
/// maximum.
pub proof fn lemma_active_never_exceeds(s: DispatchModel, max: nat, ops: Seq<DispatchOp>)
    requires
        s.active <= max,
    ensures
        forall|i: int|
            0 <= i <= ops.len() ==> (#[trigger] run_ops(s, max, ops.take(i))).active <= max,
    decreases ops.len(),
{
    assert(ops.take(0) =~= Seq::<DispatchOp>::empty());
    if ops.len() > 0 {
        let s1 = dispatch_transition(s, max, ops.first());
        lemma_active_never_exceeds(s1, max, ops.drop_first());
        assert forall|i: int|
            0 <= i <= ops.len() implies (#[trigger] run_ops(s, max, ops.take(i))).active <= max by {
            if i > 0 {
                let pre = ops.take(i);
                assert(pre.first() == ops.first());
                assert(pre.drop_first() =~= ops.drop_first().take(i - 1));
                assert(run_ops(s1, max, ops.drop_first().take(i - 1)).active <= max);
            }
        }
    }
}

/// After `n` submissions the backlog has grown by `n`, and the permit count
/// has risen to the limit or by the full `n`, whichever is smaller: every
/// submission that found a free permit spawned a worker.
pub proof fn lemma_run_submits(s: DispatchModel, max: nat, n: nat)
    requires
        s.active <= max,
    ensures
        run_submits(s, max, n).queued == s.queued + n,
        run_submits(s, max, n).active == if s.active + n <= max {
            s.active + n
        } else {
            max
        },
    decreases n,
{
    if n > 0 {
        lemma_run_submits(submit_transition(s, max), max, (n - 1) as nat);
    }
}

/// While every pending job implies a running worker, the workers alone drain
/// the whole backlog and then retire: after `queued + active` turns nothing
/// is pending and every permit is back.
pub proof fn lemma_workers_drain(s: DispatchModel)
    requires
        s.queued > 0 ==> s.active > 0,
    ensures
        run_workers(s, s.queued + s.active).queued == 0,
        run_workers(s, s.queued + s.active).active == 0,
    decreases s.queued + s.active,
{
    if s.queued + s.active > 0 {
        let s1 = worker_transition(s);
        lemma_workers_drain(s1);
        assert(run_workers(s, s.queued + s.active) == run_workers(s1, s1.queued + s1.active));
    }
}

/// A burst of `n ≤ max` submissions against an idle dispatcher spawns exactly
/// `n` workers — one permit per submission — and once those workers drain the
/// `n` jobs and exit, the permit count returns to zero.
pub proof fn lemma_burst_within_limit(n: nat, max: nat)
    requires
        n <= max,
    ensures
        run_submits(idle(), max, n).queued == n,
        run_submits(idle(), max, n).active == n,
        run_workers(run_submits(idle(), max, n), n + n).queued == 0,
        run_workers(run_submits(idle(), max, n), n + n).active == 0,
{
    lemma_run_submits(idle(), max, n);
    lemma_workers_drain(run_submits(idle(), max, n));
}

/// Submitting twice the limit against an idle dispatcher spawns the full
/// complement of workers; those workers drain the queue to empty within
/// `3 × max` turns, and the final permit count is zero.
pub proof fn lemma_double_burst_drains(max: nat)
    ensures
        run_submits(idle(), max, 2 * max).queued == 2 * max,
        run_submits(idle(), max, 2 * max).active == max,
        run_workers(run_submits(idle(), max, 2 * max), 3 * max).queued == 0,
        run_workers(run_submits(idle(), max, 2 * max), 3 * max).active == 0,
{
    lemma_run_submits(idle(), max, 2 * max);
    lemma_workers_drain(run_submits(idle(), max, 2 * max));
}

/// The dispatcher shared by the submission path and every worker.
pub struct Dispatcher {
    jobs: JobQueue,
    permits: PermitController,
}

impl Dispatcher {
    /// The permit controller never counts past its limit.
    pub closed spec fn wf(&self) -> bool {
        self.permits.wf()
    }

    /// The pending requests, oldest first.
    pub closed spec fn pending(&self) -> Seq<SftpRequest> {
        self.jobs.contents()
    }

    /// How many workers currently hold a permit.
    pub closed spec fn active_workers(&self) -> nat {
        self.permits.active_count()
    }

    /// The configured maximum number of workers.
    pub closed spec fn limit(&self) -> nat {
        self.permits.limit()
    }

    /// The abstract state this dispatcher is in.
    pub open spec fn model(&self) -> DispatchModel {
        DispatchModel { queued: self.pending().len(), active: self.active_workers() }
    }

    /// A fresh dispatcher: nothing pending, no worker running.
    pub fn new(max_workers: usize) -> (d: Dispatcher)
        ensures
            d.wf(),
            d.pending() == Seq::<SftpRequest>::empty(),
            d.active_workers() == 0,
            d.limit() == max_workers,
    {
        Dispatcher { jobs: JobQueue::new(), permits: PermitController::new(max_workers) }
    }

    /// The submission path: queue the request, then make exactly one atomic
    /// permit acquisition attempt. Returns whether the caller must spawn a
    /// new worker loop; when it must not, the request stays pending for a
    /// running worker. Either way the submission returns immediately.
    pub fn submit(&mut self, req: SftpRequest) -> (spawn: bool)
        requires
            old(self).wf(),
        ensures
            final(self).wf(),
            final(self).limit() == old(self).limit(),
            final(self).pending() == old(self).pending().push(req),
            final(self).model() == submit_transition(old(self).model(), old(self).limit()),
            spawn == (old(self).active_workers() < old(self).limit()),
    {
        self.jobs.push(req);
        self.permits.try_acquire()
    }

    /// One drain turn of a worker holding a permit: the oldest pending
    /// request when any is pending; otherwise this very emptiness check and
    /// the release of the permit happen as one step, and the worker must
    /// exit.
    pub fn next_job_or_release(&mut self) -> (r: Option<SftpRequest>)
        requires
            old(self).wf(),
            old(self).active_workers() > 0,
        ensures
            final(self).wf(),
            final(self).limit() == old(self).limit(),
            final(self).model() == worker_transition(old(self).model()),
            r matches Some(req) ==> old(self).pending().len() > 0 && req == old(
                self,
            ).pending().first() && final(self).pending() == old(self).pending().drop_first()
                && final(self).active_workers() == old(self).active_workers(),
            r is None ==> old(self).pending().len() == 0 && final(self).pending() == old(
                self,
            ).pending() && final(self).active_workers() == old(self).active_workers() - 1,
    {
        match self.jobs.try_pop() {
            Some(req) => Some(req),
            None => {
                self.permits.release();
                None
            },
        }
    }

    /// A worker whose session setup failed exits without processing any job:
    /// it only returns its permit, and every pending request stays queued for
    /// a worker spawned by a later submission.
    pub fn abort_worker(&mut self)
        requires
            old(self).wf(),
            old(self).active_workers() > 0,
        ensures
            final(self).wf(),
            final(self).limit() == old(self).limit(),
            final(self).pending() == old(self).pending(),
            final(self).active_workers() == old(self).active_workers() - 1,
    {
        self.permits.release();
    }

    /// The telemetry gauge: how many workers currently hold a permit.
    pub fn active_count(&self) -> (n: usize)
        ensures
            n == self.active_workers(),
    {
        self.permits.active_workers()
    }
}

} // verus!
