//! The shared job queue: an unbounded multi-producer multi-consumer FIFO of
//! pending transfer requests, backed by crossbeam's segmented queue.
//!
//! Pushing never blocks and never fails; popping never waits for new work.
//! Each pushed request stays queued until it is popped, and is popped at most
//! once.

use vstd::prelude::*;
use crate::request::SftpRequest;
use crossbeam::queue::SegQueue;

verus! {

#[verifier::external_type_specification]
#[verifier::external_body]
#[verifier::reject_recursive_types(T)]
pub struct ExSegQueue<T>(SegQueue<T>);

/// The requests held by a segmented queue, oldest first.
pub uninterp spec fn seg_queue_contents(q: SegQueue<SftpRequest>) -> Seq<SftpRequest>;

/// Relies on crossbeam's SegQueue::new: a fresh queue holds nothing.
#[verifier::external_body]
fn seg_queue_new() -> (q: SegQueue<SftpRequest>)
    ensures
        seg_queue_contents(q) == Seq::<SftpRequest>::empty(),
{
    SegQueue::new()
}

/// Relies on crossbeam's SegQueue::push: appends the value at the tail and
/// keeps everything already queued.
#[verifier::external_body]
fn seg_queue_push(q: &mut SegQueue<SftpRequest>, req: SftpRequest)
    ensures
        seg_queue_contents(*final(q)) == seg_queue_contents(*old(q)).push(req),
{
    q.push(req);
}

/// Relies on crossbeam's SegQueue::pop: removes and returns the element at
/// the head, or returns `None` when the queue is empty.
#[verifier::external_body]
fn seg_queue_pop(q: &mut SegQueue<SftpRequest>) -> (r: Option<SftpRequest>)
    ensures
        seg_queue_contents(*old(q)).len() == 0 ==> r is None && seg_queue_contents(
            *final(q),
        ) == seg_queue_contents(*old(q)),
        seg_queue_contents(*old(q)).len() > 0 ==> r == Some(
            seg_queue_contents(*old(q)).first(),
        ) && seg_queue_contents(*final(q)) == seg_queue_contents(*old(q)).drop_first(),
{
    q.pop()
}

/// The shared job queue holding pending transfer requests.
pub struct JobQueue {
    inner: SegQueue<SftpRequest>,
}

impl JobQueue {
    /// The pending requests, oldest first.
    pub closed spec fn contents(&self) -> Seq<SftpRequest> {
        seg_queue_contents(self.inner)
    }

    /// A fresh, empty queue.
    pub fn new() -> (q: JobQueue)
        ensures
            q.contents() == Seq::<SftpRequest>::empty(),
    {
        JobQueue { inner: seg_queue_new() }
    }

    /// Accepts a request unconditionally: it is appended behind every request
    /// already pending, and nothing pending is lost.
    pub fn push(&mut self, req: SftpRequest)
        ensures
            final(self).contents() == old(self).contents().push(req),
    {
        seg_queue_push(&mut self.inner, req);
    }

    /// Non-blocking pop: the oldest pending request, or `None` exactly when
    /// the queue is empty; never an error, never a wait.
    pub fn try_pop(&mut self) -> (r: Option<SftpRequest>)
        ensures
            old(self).contents().len() == 0 ==> r is None && final(self).contents() == old(
                self,
            ).contents(),
            old(self).contents().len() > 0 ==> r == Some(old(self).contents().first())
                && final(self).contents() == old(self).contents().drop_first(),
    {
        seg_queue_pop(&mut self.inner)
    }
}

} // verus!
