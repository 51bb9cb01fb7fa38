use plex_downloader::worker::worker_step;
use plex_downloader::worker::WorkerEvent;
use plex_downloader::worker::WorkerState;

#[test]
fn happy_path_runs_start_to_exit() {
    let s = WorkerState::Starting;
    let s = worker_step(s, WorkerEvent::SessionAllocated);
    assert_eq!(WorkerState::Authenticating, s);
    let s = worker_step(s, WorkerEvent::AuthSucceeded);
    assert_eq!(WorkerState::Draining, s);
    let s = worker_step(s, WorkerEvent::JobSucceeded);
    assert_eq!(WorkerState::Draining, s);
    let s = worker_step(s, WorkerEvent::QueueEmpty);
    assert_eq!(WorkerState::Exiting, s);
}

#[test]
fn failed_job_keeps_the_worker_draining() {
    let s = worker_step(WorkerState::Draining, WorkerEvent::JobFailed);
    assert_eq!(WorkerState::Draining, s);
    // It goes on to the next job or to a clean exit, never backward.
    assert_eq!(
        WorkerState::Exiting,
        worker_step(s, WorkerEvent::QueueEmpty)
    );
}

#[test]
fn auth_failure_is_fatal_to_the_worker() {
    let s = worker_step(WorkerState::Authenticating, WorkerEvent::AuthFailed);
    assert_eq!(WorkerState::Exiting, s);
    // No event revives an exited worker.
    assert_eq!(WorkerState::Exiting, worker_step(s, WorkerEvent::JobSucceeded));
    assert_eq!(WorkerState::Exiting, worker_step(s, WorkerEvent::SessionAllocated));
}

#[test]
fn unexpected_events_leave_the_state_alone() {
    assert_eq!(
        WorkerState::Starting,
        worker_step(WorkerState::Starting, WorkerEvent::JobSucceeded)
    );
    assert_eq!(
        WorkerState::Authenticating,
        worker_step(WorkerState::Authenticating, WorkerEvent::QueueEmpty)
    );
}
