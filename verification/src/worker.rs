//! The worker loop as a state machine.
//!
//! A worker is spawned holding a permit, allocates a session, authenticates,
//! drains the job queue, and exits; authentication failure is fatal to the
//! worker (it processes no job), while a failed job only ends that job — the
//! worker moves on to the next one.

use vstd::prelude::*;

verus! {

/// Where a worker loop stands.
#[derive(PartialEq, Eq, Structural, Clone, Copy, Debug)]
pub enum WorkerState {
    /// The permit is held; the session is being allocated.
    Starting,
    /// The transport is connected; the handshake and authentication run.
    Authenticating,
    /// The queue is being drained, one job at a time.
    Draining,
    /// The permit is released and the session closed; the worker terminates.
    Exiting,
}

/// What the outside world reports back to the loop.
#[derive(PartialEq, Eq, Structural, Clone, Copy, Debug)]
pub enum WorkerEvent {
    /// A session object exists; connect, handshake and authentication may run.
    SessionAllocated,
    /// Connect, handshake and authentication all succeeded.
    AuthSucceeded,
    /// Session setup failed: fatal to this worker, no job is processed.
    AuthFailed,
    /// A transfer job ran to completion.
    JobSucceeded,
    /// A transfer job failed; only that job is lost.
    JobFailed,
    /// The drain turn found the queue empty and released the permit.
    QueueEmpty,
}

/// The loop's transition function. Events that cannot occur in a state leave
/// the state unchanged.
pub open spec fn worker_next(s: WorkerState, e: WorkerEvent) -> WorkerState {
    match (s, e) {
        (WorkerState::Starting, WorkerEvent::SessionAllocated) => WorkerState::Authenticating,
        (WorkerState::Authenticating, WorkerEvent::AuthSucceeded) => WorkerState::Draining,
        (WorkerState::Authenticating, WorkerEvent::AuthFailed) => WorkerState::Exiting,
        (WorkerState::Draining, WorkerEvent::JobSucceeded) => WorkerState::Draining,
        (WorkerState::Draining, WorkerEvent::JobFailed) => WorkerState::Draining,
        (WorkerState::Draining, WorkerEvent::QueueEmpty) => WorkerState::Exiting,
        _ => s,
    }
}

/// How far along its lifetime a state is; transitions never move backward.
pub open spec fn worker_rank(s: WorkerState) -> int {
    match s {
        WorkerState::Starting => 0,
        WorkerState::Authenticating => 1,
        WorkerState::Draining => 2,
        WorkerState::Exiting => 3,
    }
}

/// Advances the loop by one observed event.
pub fn worker_step(s: WorkerState, e: WorkerEvent) -> (r: WorkerState)
    ensures
        r == worker_next(s, e),
{
    match (s, e) {
        (WorkerState::Starting, WorkerEvent::SessionAllocated) => WorkerState::Authenticating,
        (WorkerState::Authenticating, WorkerEvent::AuthSucceeded) => WorkerState::Draining,
        (WorkerState::Authenticating, WorkerEvent::AuthFailed) => WorkerState::Exiting,
        (WorkerState::Draining, WorkerEvent::JobSucceeded) => WorkerState::Draining,
        (WorkerState::Draining, WorkerEvent::JobFailed) => WorkerState::Draining,
        (WorkerState::Draining, WorkerEvent::QueueEmpty) => WorkerState::Exiting,
        (_, _) => s,
    }
}

/// No event moves a worker backward through its lifetime, and a worker that
/// has exited stays exited.
pub proof fn lemma_worker_never_backward(s: WorkerState, e: WorkerEvent)
    ensures
        worker_rank(worker_next(s, e)) >= worker_rank(s),
        s is Exiting ==> worker_next(s, e) is Exiting,
{
}

/// A failed job never terminates the worker: after either outcome of a job
/// the worker is still draining, ready for the next pop; only the queue
/// running dry makes it exit.
pub proof fn lemma_failed_job_keeps_worker(e: WorkerEvent)
    ensures
        worker_next(WorkerState::Draining, WorkerEvent::JobFailed) is Draining,
        worker_next(WorkerState::Draining, WorkerEvent::JobSucceeded) is Draining,
        worker_next(WorkerState::Draining, e) is Exiting <==> e is QueueEmpty,
{
}

/// Session setup failure aborts the worker before any job: the only path out
/// of `Authenticating` leads to `Draining` on success and straight to
/// `Exiting` on failure, and no event revives an exited worker.
pub proof fn lemma_auth_failure_is_fatal(e: WorkerEvent)
    ensures
        worker_next(WorkerState::Authenticating, WorkerEvent::AuthFailed) is Exiting,
        worker_next(WorkerState::Exiting, e) is Exiting,
{
}

} // verus!
