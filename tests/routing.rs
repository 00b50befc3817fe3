use tucano_ctl::balancer::BalancerState;
use tucano_ctl::types::{InstanceId, NetAddr, ServiceId};

fn sid(s: &str) -> ServiceId {
    ServiceId(s.to_string())
}

#[test]
fn unknown_or_empty_service_gives_nothing() {
    let mut b = BalancerState::new();
    assert_eq!(b.next(&sid("web")), None);
    b.add_instance(sid("web"), InstanceId(1), NetAddr::V4(1));
    assert!(b.drop_instance(&sid("web"), InstanceId(1)));
    assert_eq!(b.next(&sid("web")), None);
    assert!(!b.drop_instance(&sid("api"), InstanceId(1)));
}

#[test]
fn round_robin_visits_each_k_times() {
    let mut b = BalancerState::new();
    for i in 0..3u128 {
        b.add_instance(sid("web"), InstanceId(i), NetAddr::V4(i as u32));
    }
    b.add_instance(sid("api"), InstanceId(9), NetAddr::V6(9));
    let mut seen = vec![0; 3];
    let mut order = Vec::new();
    for _ in 0..(4 * 3) {
        let (id, addr) = b.next(&sid("web")).unwrap();
        assert_eq!(addr, NetAddr::V4(id.0 as u32));
        seen[id.0 as usize] += 1;
        order.push(id.0);
    }
    assert_eq!(seen, vec![4, 4, 4]);
    assert_eq!(&order[..6], &[0, 1, 2, 0, 1, 2]);
    assert_eq!(b.next(&sid("api")), Some((InstanceId(9), NetAddr::V6(9))));
}

#[test]
fn drop_removes_every_entry_of_the_instance() {
    let mut b = BalancerState::new();
    b.add_instance(sid("web"), InstanceId(1), NetAddr::V4(1));
    b.add_instance(sid("web"), InstanceId(2), NetAddr::V4(2));
    b.add_instance(sid("web"), InstanceId(1), NetAddr::V4(3));
    assert!(b.drop_instance(&sid("web"), InstanceId(1)));
    for _ in 0..3 {
        assert_eq!(b.next(&sid("web")), Some((InstanceId(2), NetAddr::V4(2))));
    }
}
