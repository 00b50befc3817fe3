use tucano_ctl::args::{parse_duration, InvalidDuration};
use tucano_ctl::types::NetAddr;
use tucano_ctl::worker_mgr::{HelloStatus, PushMetricsStatus, WorkerMgr};

const A: NetAddr = NetAddr::V4(0x0a00_0001);
const B: NetAddr = NetAddr::V4(0x0a00_0002);

#[test]
fn hello_twice_registers_once() {
    let mut m: WorkerMgr<u32> = WorkerMgr::new(10_000);
    assert_eq!(m.hello(A, 0, 100), HelloStatus::Joined);
    assert_eq!(m.hello(A, 1, 200), HelloStatus::AlreadyRegistered);
    let ws = m.query_workers();
    assert_eq!(ws.len(), 1);
    assert_eq!(ws[0].addr, A);
    assert_eq!(ws[0].collected_at, 100);
    assert_eq!(ws[0].metrics, 0);
}

#[test]
fn bye_and_push_metrics() {
    let mut m: WorkerMgr<u32> = WorkerMgr::new(10_000);
    m.hello(A, 0, 0);
    m.hello(B, 0, 0);
    assert_eq!(m.push_metrics(B, 42, 500), PushMetricsStatus::Ack);
    assert_eq!(m.query_workers()[1].metrics, 42);
    assert_eq!(m.query_workers()[1].collected_at, 500);
    assert!(m.bye(A));
    assert!(!m.bye(A));
    assert_eq!(m.push_metrics(A, 1, 600), PushMetricsStatus::Removed);
    assert_eq!(m.worker_addrs(), vec![B]);
}

#[test]
fn eviction_at_timeout_and_not_before() {
    let mut m: WorkerMgr<()> = WorkerMgr::new(1_000);
    m.hello(A, (), 5_000);
    m.hello(B, (), 5_500);
    assert_eq!(m.handle_tick(5_999), Vec::<NetAddr>::new());
    assert_eq!(m.handle_tick(6_000), vec![A]);
    m.reap(5_999);
    assert_eq!(m.query_workers().len(), 2);
    m.reap(6_000);
    assert_eq!(m.worker_addrs(), vec![B]);
    // A report newer than the tick's instant keeps the worker alive.
    m.push_metrics(B, (), 9_000);
    m.reap(8_000);
    assert_eq!(m.worker_addrs(), vec![B]);
    m.reap(10_000);
    assert!(m.worker_addrs().is_empty());
}

#[test]
fn silent_worker_goes_on_first_late_tick() {
    // Ticks every 1000 ms from 0; last report at 2500: dead from 3500, so the
    // tick at 4000 removes it and the one at 3000 does not.
    let mut m: WorkerMgr<()> = WorkerMgr::new(1_000);
    m.hello(A, (), 2_500);
    m.reap(3_000);
    assert_eq!(m.worker_addrs(), vec![A]);
    m.reap(4_000);
    assert!(m.worker_addrs().is_empty());
}

#[test]
fn durations_in_seconds() {
    assert_eq!(parse_duration("10"), Ok(10));
    assert_eq!(parse_duration("+5"), Ok(5));
    assert_eq!(parse_duration("0"), Ok(0));
    assert_eq!(parse_duration("18446744073709551615"), Ok(u64::MAX));
    assert_eq!(parse_duration("18446744073709551616"), Err(InvalidDuration));
    assert_eq!(parse_duration(""), Err(InvalidDuration));
    assert_eq!(parse_duration("1s"), Err(InvalidDuration));
    assert_eq!(parse_duration(" 1"), Err(InvalidDuration));
    assert_eq!(parse_duration("-1"), Err(InvalidDuration));
}
