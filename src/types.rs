//! Identifiers, addresses and the specifications of services and instances.
use vstd::prelude::*;

verus! {

/// A node's network address: an IPv4 address as its 32-bit value, or an IPv6
/// address as its 128-bit value.
#[derive(Clone, Copy, Debug, PartialEq, Eq, Structural, Hash)]
pub enum NetAddr {
    V4(u32),
    V6(u128),
}

/// Identifies one instance for its whole life; the 128 bits of a time-ordered
/// UUID.
#[derive(Clone, Copy, Debug, PartialEq, Eq, Structural, Hash)]
pub struct InstanceId(pub u128);

/// Identifies one deploy-service invocation; the 128 bits of a UUID.
#[derive(Clone, Copy, Debug, PartialEq, Eq, Structural, Hash)]
pub struct DeploymentId(pub u128);

/// The service ID (i.e., its name), unique in the cluster.
#[derive(Clone, Debug, Hash)]
pub struct ServiceId(pub String);

impl View for ServiceId {
    type V = Seq<char>;

    open spec fn view(&self) -> Seq<char> {
        self.0@
    }
}

impl PartialEq for ServiceId {
    fn eq(&self, o: &ServiceId) -> (r: bool)
        ensures
            r == (self@ == o@),
    {
        self.0 == o.0
    }
}

impl vstd::std_specs::cmp::PartialEqSpecImpl for ServiceId {
    open spec fn obeys_eq_spec() -> bool {
        true
    }

    open spec fn eq_spec(&self, o: &ServiceId) -> bool {
        self@ == o@
    }
}

impl ServiceId {
    /// A copy of this id with the same characters.
    pub fn duplicate(&self) -> (r: ServiceId)
        ensures
            r == *self,
    {
        ServiceId(self.0.clone())
    }
}

/// The image a service runs.
#[derive(Clone, Debug, Hash)]
pub struct ServiceImage(pub String);

impl ServiceImage {
    /// A copy of this image name with the same characters.
    pub fn duplicate(&self) -> (r: ServiceImage)
        ensures
            r == *self,
    {
        ServiceImage(self.0.clone())
    }
}

/// The allocation of resources for a service.
#[derive(Clone, Copy, Debug, PartialEq, Eq, Structural)]
pub struct ResourceConfig {
    pub cpu_shares: i64,
    pub memory_limit: i64,
}

#[derive(Debug)]
pub struct ServiceSpec {
    /// The service domain.
    pub service_id: ServiceId,
    pub image: ServiceImage,
    /// Whether this service is visible to the public load balancer.
    pub public: bool,
    /// The number of instances to run for this service.
    pub concurrency: u32,
    pub resource_config: ResourceConfig,
}

#[derive(Debug)]
pub struct InstanceSpec {
    pub instance_id: InstanceId,
    pub image: ServiceImage,
    pub public: bool,
    pub resource_config: ResourceConfig,
}

/// The instance specification that a service specification gives for the
/// instance `instance_id`.
pub open spec fn instance_spec_of(spec: ServiceSpec, instance_id: InstanceId) -> InstanceSpec {
    InstanceSpec {
        instance_id,
        image: spec.image,
        public: spec.public,
        resource_config: spec.resource_config,
    }
}

impl InstanceSpec {
    pub fn from_service_spec_cloned(spec: &ServiceSpec, instance_id: InstanceId) -> (r: InstanceSpec)
        ensures
            r == instance_spec_of(*spec, instance_id),
    {
        InstanceSpec {
            instance_id,
            image: spec.image.duplicate(),
            public: spec.public,
            resource_config: spec.resource_config,
        }
    }

    /// A copy of this specification, field by field.
    pub fn duplicate(&self) -> (r: InstanceSpec)
        ensures
            r == *self,
    {
        InstanceSpec {
            instance_id: self.instance_id,
            image: self.image.duplicate(),
            public: self.public,
            resource_config: self.resource_config,
        }
    }
}

/// A status report that a worker sends about one of its instances.
#[derive(Debug)]
pub enum Status {
    /// The instance has successfully started.
    Started,
    /// The instance has gracefully terminated.
    Terminated,
    /// The instance stopped due to an abrupt error.
    Crashed { error: String },
    /// The instance was killed by the system due to an error.
    Killed { reason: String },
    /// The instance failed during attempted execution.
    FailedToStart { error: String },
}

} // verus!
