//! A lifecycle-watching task: supervises one long-running pollable unit,
//! detects its termination exactly once, and fans a one-shot `Stopped`
//! notification out to a fixed set of subscribers, draining every delivery
//! before reporting itself done.
//!
//! The watcher itself is a pure state machine: the host runtime polls the
//! supervised future and the outstanding deliveries, and hands the observed
//! outcomes to the methods in [`watch`]. The deferred-bootstrap path buffers
//! early messages in the bounded FIFO of [`mailbox`].

pub mod mailbox;
pub mod watch;
