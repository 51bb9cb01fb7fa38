use plex_downloader::dispatcher::Dispatcher;
use plex_downloader::request::SftpRequest;
use plex_downloader::transfer::begin_job;
use plex_downloader::transfer::TransferError;
use plex_downloader::worker::worker_step;
use plex_downloader::worker::WorkerEvent;
use plex_downloader::worker::WorkerState;

fn req(n: u32) -> SftpRequest {
    SftpRequest {
        destination: format!("dest-{}", n),
        link: format!("link-{}", n),
    }
}

#[test]
fn burst_within_limit_spawns_one_worker_each() {
    // As many submissions as the limit, from idle: every one spawns.
    let mut d = Dispatcher::new(4);
    for i in 0..3 {
        assert!(d.submit(req(i)));
        assert_eq!((i + 1) as usize, d.active_count());
    }
    // The three workers drain three jobs, then each finds the queue empty
    // and gives its permit back: the count returns to zero.
    for _ in 0..3 {
        assert!(d.next_job_or_release().is_some());
    }
    for expected_left in [2usize, 1, 0] {
        assert!(d.next_job_or_release().is_none());
        assert_eq!(expected_left, d.active_count());
    }
}

#[test]
fn permit_count_never_exceeds_the_limit() {
    let mut d = Dispatcher::new(2);
    let mut spawned = 0usize;
    for i in 0..5 {
        if d.submit(req(i)) {
            spawned += 1;
        }
        assert!(d.active_count() <= 2);
    }
    assert_eq!(2, spawned);
    assert_eq!(2, d.active_count());
}

#[test]
fn jobs_come_back_in_submission_order() {
    let mut d = Dispatcher::new(1);
    d.submit(req(0));
    d.submit(req(1));
    d.submit(req(2));
    assert_eq!("link-0", d.next_job_or_release().unwrap().link);
    assert_eq!("link-1", d.next_job_or_release().unwrap().link);
    assert_eq!("link-2", d.next_job_or_release().unwrap().link);
    assert!(d.next_job_or_release().is_none());
    assert_eq!(0, d.active_count());
}

#[test]
fn denied_submission_leaves_request_queued() {
    let mut d = Dispatcher::new(1);
    assert!(d.submit(req(0)));
    assert!(!d.submit(req(1)));
    // The single worker still receives both requests.
    assert!(d.next_job_or_release().is_some());
    assert!(d.next_job_or_release().is_some());
    assert!(d.next_job_or_release().is_none());
    assert_eq!(0, d.active_count());
}

#[test]
fn aborted_worker_returns_permit_and_keeps_queue() {
    let mut d = Dispatcher::new(2);
    assert!(d.submit(req(0)));
    assert_eq!(1, d.active_count());
    // Session setup fails: the worker exits without consuming the job.
    d.abort_worker();
    assert_eq!(0, d.active_count());
    // A later submission spawns a fresh worker, which finds both requests.
    assert!(d.submit(req(1)));
    assert!(d.next_job_or_release().is_some());
    assert!(d.next_job_or_release().is_some());
    assert!(d.next_job_or_release().is_none());
    assert_eq!(0, d.active_count());
}

#[test]
fn failed_job_does_not_leak_a_permit() {
    // One worker, two jobs; the first names a remote path that does not
    // exist. The job fails, the worker moves on to the second job, and the
    // permit still comes back once the queue is dry.
    let mut d = Dispatcher::new(1);
    d.submit(req(0));
    d.submit(req(1));
    let mut ws = WorkerState::Draining;

    let first = d.next_job_or_release().unwrap();
    assert_eq!("link-0", first.link);
    let outcome = begin_job(None, first.dst());
    assert_eq!(TransferError::NotFound, outcome.err().unwrap());
    ws = worker_step(ws, WorkerEvent::JobFailed);
    assert_eq!(WorkerState::Draining, ws);

    let second = d.next_job_or_release().unwrap();
    assert_eq!("link-1", second.link);
    ws = worker_step(ws, WorkerEvent::JobSucceeded);
    assert_eq!(WorkerState::Draining, ws);

    assert!(d.next_job_or_release().is_none());
    assert_eq!(0, d.active_count());
}

#[test]
fn double_the_limit_drains_to_empty() {
    // Twice the limit of submissions, then only worker turns: the queue
    // drains and the final permit count is zero.
    let max = 3usize;
    let mut d = Dispatcher::new(max);
    for i in 0..(2 * max) {
        d.submit(req(i as u32));
    }
    assert_eq!(max, d.active_count());
    let mut jobs = 0usize;
    let mut turns = 0usize;
    while d.active_count() > 0 {
        if d.next_job_or_release().is_some() {
            jobs += 1;
        }
        turns += 1;
        assert!(turns <= 3 * max);
    }
    assert_eq!(2 * max, jobs);
    assert_eq!(3 * max, turns);
    assert_eq!(0, d.active_count());
}
