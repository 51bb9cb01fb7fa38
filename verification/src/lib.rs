//! Core of an asynchronous remote-to-local mirroring service: a shared job
//! queue, a bounded worker-permit controller, a worker-loop state machine and
//! a work-list transfer engine, together with the request helpers that turn a
//! submitted link into a remote path and a local destination.
//!
//! All I/O (the remote session, the local filesystem, the HTTP intake) lives
//! outside this crate; the library makes every decision on plain values and
//! states each decision in a contract.

pub mod dispatcher;
pub mod permits;
pub mod queue;
pub mod request;
pub mod strutil;
pub mod transfer;
pub mod worker;
