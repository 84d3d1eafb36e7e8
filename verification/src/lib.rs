//! A local service supervisor and message fabric.
//!
//! The crate supervises a fixed set of co-located worker processes
//! (registry, lifecycle state machine, restart bookkeeping), monitors
//! their health on a bounded per-service history, routes correlated
//! requests to them, and passes messages whose large payloads are
//! promoted to a shared buffer store with a fixed time-to-live.
//! A bridge module tracks the lifecycle of an embedded foreign parser
//! runtime and marshals its tagged replies.
//!
//! All process spawning, HTTP probing and timer loops are left to the
//! embedding program; the decision logic here is verified and takes
//! clock readings and probe outcomes as plain values.

pub mod bridge;
pub mod decimal;
pub mod health;
pub mod ipc;
pub mod memory;
mod platform;
pub mod process;
pub mod table;
pub mod types;
