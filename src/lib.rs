//! Building blocks of an HTTP load generator: many virtual users, each on its
//! own keep-alive connection, start together at a barrier, loop over
//! request/response cycles and are stopped cooperatively between batches;
//! their latencies are reduced per task, per worker and per run.
//!
//! Stopping is flag based: the driver sets one shared flag when the run's
//! duration has elapsed, and each task reads it only when a batch is used up,
//! so a task stops at most one batch after the flag is set.
pub mod barrier;
pub mod config;
pub mod framing;
pub mod partition;
pub mod report;
pub mod request;
pub mod stats;
pub mod task;
