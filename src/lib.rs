//! Control-plane core of a container-orchestration platform: the per-instance
//! deployment state machine and the deployer's bookkeeping, the worker fleet
//! directory with liveness tracking, and the round-robin request balancer.
//!
//! Everything here is a decision function over plain values: the actors'
//! message loops, timers, calls to workers and HTTP plumbing run around it
//! and feed it the events (and the current time) it needs.

pub mod allocation;
pub mod args;
pub mod balancer;
pub mod deployer;
pub mod fmt;
pub mod instance;
pub mod proto;
pub mod types;
pub mod well_known;
pub mod worker_mgr;
