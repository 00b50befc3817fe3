//! The messages of the controller's HTTP interface and of its calls to
//! workers.
use vstd::prelude::*;

use crate::types::{InstanceId, InstanceSpec, NetAddr, ServiceId, ServiceSpec, Status};
use crate::worker_mgr::{HelloStatus, PushMetricsStatus};

verus! {

#[derive(Clone, Copy, Debug, PartialEq, Eq, Structural)]
pub enum NodeKind {
    Ctl,
    Worker,
}

/// A worker asks to join the fleet; its address is the peer address.
#[derive(Debug)]
pub struct HelloReq {}

#[derive(Debug)]
pub struct HelloRes {
    pub status: HelloStatus,
}

/// A worker leaves the fleet.
#[derive(Debug)]
pub struct ByeReq {}

#[derive(Debug)]
pub struct ByeRes {}

#[derive(Debug)]
pub struct PushWorkerMetricsRes {
    pub status: PushMetricsStatus,
}

#[derive(Debug)]
pub struct QueryWorkersReq {}

#[derive(Debug)]
pub struct QueryWorkersRes {
    pub workers: Vec<NetAddr>,
}

#[derive(Clone, Copy, Debug, PartialEq, Eq, Structural)]
pub enum RedeploymentPolicy {
    /// Disallow re-deployments if the service is already deployed with
    /// running instances.
    Disallow,
}

/// Starts a new deploy in the system.
#[derive(Debug)]
pub struct DeployServiceReq {
    pub service_spec: ServiceSpec,
    pub redeployment_policy: RedeploymentPolicy,
}

/// Stops a given service from running in the system.
#[derive(Debug)]
pub struct TerminateServiceReq {
    pub service_id: ServiceId,
}

#[derive(Debug)]
pub struct TerminateServiceRes {}

/// A worker reports the status of one of its instances.
#[derive(Debug)]
pub struct ReportDeployInstanceStatusReq {
    pub instance_id: InstanceId,
    pub status: Status,
}

#[derive(Debug)]
pub struct ReportDeployInstanceStatusRes {}

/// Asks a worker to deploy an instance.
#[derive(Debug)]
pub struct DeployInstanceReq {
    pub instance_spec: InstanceSpec,
}

#[derive(Debug)]
pub struct DeployInstanceRes {}

/// Asks a worker to terminate an instance.
#[derive(Debug)]
pub struct TerminateInstanceReq {
    pub instance_id: InstanceId,
}

#[derive(Debug)]
pub struct TerminateInstanceRes {}

} // verus!
