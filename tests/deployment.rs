use tucano_ctl::allocation::{rand_many, rand_single, rr_alloc_many};
use tucano_ctl::deployer::{DeployError, Deployer, Routing};
use tucano_ctl::instance::{Action, State};
use tucano_ctl::types::{
    DeploymentId, InstanceId, NetAddr, ResourceConfig, ServiceId, ServiceImage, ServiceSpec,
    Status,
};

const W1: NetAddr = NetAddr::V4(0x0a00_0001);
const W2: NetAddr = NetAddr::V4(0x0a00_0002);

fn spec(concurrency: u32) -> ServiceSpec {
    ServiceSpec {
        service_id: ServiceId("web".to_string()),
        image: ServiceImage("nginx:latest".to_string()),
        public: true,
        concurrency,
        resource_config: ResourceConfig { cpu_shares: 256, memory_limit: 64 << 20 },
    }
}

#[test]
fn deploy_three_on_two_workers_then_start() {
    let mut d = Deployer::new();
    let pool = vec![W1, W2];
    let (res, actions) = d.deploy_service(&spec(3), &pool).unwrap();
    assert_eq!(res.instances.len(), 3);
    assert_eq!(actions.len(), 3);
    assert_eq!(d.len(), 3);
    for (i, (id, addr)) in res.instances.iter().enumerate() {
        assert!(pool.contains(addr));
        for (other, _) in &res.instances[i + 1..] {
            assert_ne!(id, other);
        }
        let c = d.instance(*id).unwrap();
        assert!(matches!(c.state, State::Deploying { attempt: 1, .. }));
        assert_eq!(c.deployment_id(), res.deployment_id);
        match &actions[i] {
            Action::DeployInstance { worker_addr, spec } => {
                assert_eq!(worker_addr, addr);
                assert_eq!(spec.instance_id, *id);
                assert_eq!(spec.image.0, "nginx:latest");
            }
            _ => panic!("expected a deployment"),
        }
    }
    for (id, addr) in &res.instances {
        let e = d.report_instance_status(*id, Status::Started).unwrap();
        assert!(matches!(e.action, Action::Nothing));
        match e.routing {
            Routing::Add { service_id, instance_id, addr: a } => {
                assert_eq!(service_id.0, "web");
                assert_eq!(instance_id, *id);
                assert_eq!(a, *addr);
            }
            _ => panic!("expected the instance to take traffic"),
        }
        assert!(matches!(d.instance(*id).unwrap().state, State::Started));
    }
}

#[test]
fn empty_pool_is_refused() {
    let mut d = Deployer::new();
    assert_eq!(d.deploy_service(&spec(2), &vec![]).err(), Some(DeployError::NoWorkers));
    assert_eq!(d.deploy_service(&spec(0), &vec![]).err(), Some(DeployError::NoWorkers));
    assert_eq!(d.len(), 0);
}

#[test]
fn zero_concurrency_creates_nothing() {
    let mut d = Deployer::new();
    let (res, actions) = d.deploy_service(&spec(0), &vec![W1]).unwrap();
    assert!(res.instances.is_empty());
    assert!(actions.is_empty());
    assert_eq!(d.len(), 0);
}

#[test]
fn repeated_ids_are_refused() {
    let mut d = Deployer::new();
    let dup = vec![(InstanceId(1), W1), (InstanceId(1), W2)];
    assert_eq!(
        d.deploy_allocated(&spec(2), DeploymentId(5), dup).err(),
        Some(DeployError::DuplicateInstance)
    );
    d.deploy_allocated(&spec(1), DeploymentId(5), vec![(InstanceId(1), W1)]).unwrap();
    assert_eq!(
        d.deploy_allocated(&spec(1), DeploymentId(6), vec![(InstanceId(1), W2)]).err(),
        Some(DeployError::DuplicateInstance)
    );
    assert_eq!(d.len(), 1);
}

#[test]
fn terminal_state_drops_context_and_routing() {
    let mut d = Deployer::new();
    d.deploy_allocated(&spec(1), DeploymentId(5), vec![(InstanceId(1), W1)]).unwrap();
    d.report_instance_status(InstanceId(1), Status::Started).unwrap();
    let e = d
        .report_instance_status(InstanceId(1), Status::Crashed { error: "segv".to_string() })
        .unwrap();
    assert!(matches!(e.routing, Routing::Drop { instance_id: InstanceId(1), .. }));
    assert!(d.instance(InstanceId(1)).is_none());
    // Reports about an instance that is no longer tracked are ignored.
    let e = d.report_instance_status(InstanceId(1), Status::Started).unwrap();
    assert!(matches!(e.action, Action::Nothing));
    assert!(matches!(e.routing, Routing::Unchanged));
}

#[test]
fn invalid_report_is_refused() {
    let mut d = Deployer::new();
    d.deploy_allocated(&spec(1), DeploymentId(5), vec![(InstanceId(1), W1)]).unwrap();
    d.report_instance_status(InstanceId(1), Status::Started).unwrap();
    assert!(d.report_instance_status(InstanceId(1), Status::Started).is_err());
    assert!(matches!(d.instance(InstanceId(1)).unwrap().state, State::Started));
}

#[test]
fn terminate_service_sends_terminate() {
    let mut d = Deployer::new();
    let alloc = vec![(InstanceId(1), W1), (InstanceId(2), W2), (InstanceId(3), W1)];
    d.deploy_allocated(&spec(3), DeploymentId(5), alloc).unwrap();
    let mut other = spec(1);
    other.service_id = ServiceId("api".to_string());
    d.deploy_allocated(&other, DeploymentId(6), vec![(InstanceId(4), W2)]).unwrap();
    d.report_instance_status(InstanceId(1), Status::Started).unwrap();
    d.report_instance_status(InstanceId(4), Status::Started).unwrap();
    let actions = d.terminate_service(&ServiceId("web".to_string()));
    assert_eq!(actions.len(), 1);
    assert!(matches!(
        actions[0],
        Action::TerminateInstance { worker_addr: W1, instance_id: InstanceId(1) }
    ));
    assert!(matches!(d.instance(InstanceId(1)).unwrap().state, State::Terminating { attempt: 1 }));
    assert!(matches!(d.instance(InstanceId(2)).unwrap().state, State::PreTerminating));
    assert!(matches!(d.instance(InstanceId(4)).unwrap().state, State::Started));
    // A second request leaves instances already on their way out alone.
    assert!(d.terminate_service(&ServiceId("web".to_string())).is_empty());
}

#[test]
fn random_allocation_uses_the_pool() {
    let pool = vec![W1, W2];
    let alloc = rand_many(&pool, 50).unwrap();
    assert_eq!(alloc.len(), 50);
    assert!(alloc.iter().all(|(_, a)| pool.contains(a)));
    let mut ids: Vec<u128> = alloc.iter().map(|(id, _)| id.0).collect();
    ids.dedup();
    assert_eq!(ids.len(), 50);
    assert_eq!(rand_many(&vec![], 0).map(|v| v.len()), Some(0));
    assert!(rand_many(&vec![], 3).is_none());
    assert_eq!(rand_single(&vec![W2]).1, W2);
}

#[test]
fn round_robin_allocation_continues_counter() {
    let pool = vec![W1, W2];
    let mut counter = 1usize;
    let alloc = rr_alloc_many(&pool, 3, &mut counter);
    let addrs: Vec<NetAddr> = alloc.iter().map(|(_, a)| *a).collect();
    assert_eq!(addrs, vec![W2, W1, W2]);
    assert_eq!(counter, 4);
    let mut top = usize::MAX;
    let alloc = rr_alloc_many(&pool, 2, &mut top);
    assert_eq!(alloc[0].1, pool[usize::MAX % 2]);
    assert_eq!(alloc[1].1, W1);
    assert_eq!(top, 1);
}
