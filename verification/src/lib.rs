//! Task scheduling and dispatch core of an image-translation gateway.
//!
//! The library holds the gateway's hard part: the in-memory dispatch
//! queue, the per-task progress channels, the task registry, deduplicated
//! task creation against the task table, recovery on restart, and the
//! retry-on-failure rules, together with the wire formats the gateway
//! speaks — the parameter enums, the subscriber JSON envelope, and the
//! framed worker protocol. The global guarantees — deduplication,
//! registry/queue coherence, terminal delivery, the retry bound, retry
//! priority, and queue-position monotonicity — are stated and proved in
//! [`laws`]. The surrounding process supplies sockets, blob store,
//! clock and identifiers, serializes access to the scheduling state,
//! and takes every decision through this library.

use vstd::prelude::*;

pub mod channel;
pub mod db;
pub mod laws;
pub mod mit_worker;
pub mod params;
pub mod query;
pub mod r2;
pub mod secret;
pub mod strfmt;
pub mod task;
pub mod upload;
pub mod wire;

verus! {

/// Current worker protocol generation; recovery only replays rows
/// tagged with this revision.
pub const WORKER_REVISION: i32 = 1;

} // verus!
