//! Constants shared by the controller and the workers.
use vstd::prelude::*;

verus! {

/// How long a worker lets an instance shut down gracefully before it kills
/// it, in seconds.
pub const GRACEFUL_SHUTDOWN_DEADLINE_SECS: u64 = 20;

/// The header that carries the address of the client a proxied request came
/// from.
pub const PROXY_FORWARDED_HEADER_NAME: &'static str = "X-Tuc-Fwd-For";

/// The header that carries the id of the instance a proxied request was
/// routed to.
pub const PROXY_INSTANCE_HEADER_NAME: &'static str = "X-Tuc-Inst";

pub const CTL_HTTP_PORT: u16 = 7070;

pub const CTL_BALANCER_PORT: u16 = 8080;

pub const WORKER_HTTP_PORT: u16 = 7071;

pub const WORKER_PROXY_PORT: u16 = 8081;

} // verus!
