//! Orchestration core for asynchronous security-scan jobs.
//!
//! The library turns stored scan configurations into dispatched job
//! payloads, models the shared queue store that external scanner workers
//! consume, reads per-job status snapshots, lists in-flight jobs, and
//! decides how a live status stream advances and terminates.

pub mod codec;
pub mod dispatch;
pub mod ids;
pub mod models;
pub mod queue;
pub mod stream;
