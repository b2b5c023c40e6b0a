//! Dispatch control plane for a distributed collection-email worker.
//!
//! The library holds the verified core: batch-message lifecycle decisions
//! (defer, retry gate, pause gate, process, acknowledge, dead-letter),
//! execution-completion aggregation, the lease-protected wake-up planning,
//! the per-recipient dispatch pipeline, and the pure rendering helpers.
//! I/O (queue, store, timer, providers) lives outside, behind plain values.

use vstd::prelude::*;

pub mod batch;
pub mod currency;
pub mod dispatch;
pub mod email;
pub mod events;
pub mod json;
pub mod models;
pub mod preprocess;
pub mod render;
pub mod scheduler;
pub mod text;

verus! {

/// Ceiling on queue-visibility extension, in seconds (twelve hours).
pub const MAX_VISIBILITY_SECONDS: u64 = 43200;

} // verus!
