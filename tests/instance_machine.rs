use tucano_ctl::fmt::ElideDebug;
use tucano_ctl::instance::{
    accepts, next, Action, State, StateCtx, TerminalKind, Transition, MAX_INSTANCE_DEPLOY_RETRIES,
    MAX_INSTANCE_TERMINATION_RETRIES,
};
use tucano_ctl::types::{
    DeploymentId, InstanceId, InstanceSpec, NetAddr, ResourceConfig, ServiceId, ServiceImage,
    Status,
};

fn ispec(id: u128) -> InstanceSpec {
    InstanceSpec {
        instance_id: InstanceId(id),
        image: ServiceImage("nginx:latest".to_string()),
        public: true,
        resource_config: ResourceConfig { cpu_shares: 512, memory_limit: 1 << 20 },
    }
}

fn ctx(state: State) -> StateCtx {
    StateCtx {
        state,
        id: InstanceId(7),
        worker_addr: NetAddr::V4(0x0a00_0001),
        deployment_id: DeploymentId(1),
        service_id: ServiceId("web".to_string()),
    }
}

fn deploying(attempt: u8) -> State {
    State::Deploying { attempt, spec: ElideDebug(ispec(7)) }
}

#[test]
fn init_deploy_starts_first_attempt() {
    let c = StateCtx::new_init(
        InstanceId(7),
        NetAddr::V4(0x0a00_0001),
        DeploymentId(1),
        ServiceId("web".to_string()),
    );
    assert!(matches!(c.state(), State::Init));
    let (n, a) = next(c, Transition::Deploy { spec: ElideDebug(ispec(7)) });
    assert!(matches!(n.state, State::Deploying { attempt: 1, .. }));
    match a {
        Action::DeployInstance { worker_addr, spec } => {
            assert_eq!(worker_addr, NetAddr::V4(0x0a00_0001));
            assert_eq!(spec.instance_id, InstanceId(7));
            assert_eq!(spec.image.0, "nginx:latest");
        }
        _ => panic!("expected a deployment"),
    }
}

#[test]
fn deploy_failures_exhaust_retries() {
    let mut c = ctx(deploying(1));
    let mut attempts = 1;
    for i in 0..=MAX_INSTANCE_DEPLOY_RETRIES {
        let t = if i % 2 == 0 {
            Transition::FailedToDeploy("connection refused".to_string())
        } else {
            Transition::Status(Status::FailedToStart { error: "bad image".to_string() })
        };
        let (n, a) = next(c, t);
        if let State::Deploying { attempt, .. } = n.state {
            assert!(matches!(a, Action::DeployInstance { .. }));
            attempts += 1;
            assert_eq!(attempt, attempts);
        } else {
            assert!(matches!(n.state, State::FailedToStart));
            assert!(matches!(a, Action::Nothing));
            assert_eq!(n.state.kind(), TerminalKind::UnsuccessfulTerminal);
        }
        c = n;
    }
    assert_eq!(attempts, MAX_INSTANCE_DEPLOY_RETRIES + 1);
    assert!(matches!(c.state, State::FailedToStart));
    assert!(!accepts(&c, &Transition::FailedToDeploy("again".to_string())));
}

#[test]
fn termination_failures_exhaust_retries() {
    let (mut c, a) = next(ctx(State::Started), Transition::Terminate);
    assert!(matches!(
        a,
        Action::TerminateInstance { instance_id: InstanceId(7), .. }
    ));
    for expected in 2..=(MAX_INSTANCE_TERMINATION_RETRIES + 1) {
        let (n, a) = next(c, Transition::FailedToTerminate("timeout".to_string()));
        assert!(matches!(n.state, State::Terminating { attempt } if attempt == expected));
        assert!(matches!(a, Action::TerminateInstance { .. }));
        c = n;
    }
    let (n, a) = next(c, Transition::FailedToTerminate("timeout".to_string()));
    assert!(matches!(n.state, State::FailedToTerminate));
    assert!(matches!(a, Action::Nothing));
}

#[test]
fn lifecycle_table() {
    let started = |s: State, t: Transition| next(ctx(s), t).0.state;
    assert!(matches!(started(deploying(3), Transition::Status(Status::Started)), State::Started));
    assert!(matches!(started(deploying(2), Transition::Terminate), State::PreTerminating));
    assert!(matches!(
        started(State::PreTerminating, Transition::FailedToDeploy("x".to_string())),
        State::NeverStarted
    ));
    assert!(matches!(
        started(
            State::PreTerminating,
            Transition::Status(Status::FailedToStart { error: "x".to_string() })
        ),
        State::NeverStarted
    ));
    assert!(matches!(
        started(State::Started, Transition::Status(Status::Terminated)),
        State::UnexpectedTerminated
    ));
    assert!(matches!(
        started(State::Started, Transition::Status(Status::Crashed { error: "segv".to_string() })),
        State::UnexpectedCrashed
    ));
    assert!(matches!(
        started(State::Started, Transition::Status(Status::Killed { reason: "oom".to_string() })),
        State::UnexpectedCrashed
    ));
    assert!(matches!(
        started(State::Terminating { attempt: 1 }, Transition::Status(Status::Terminated)),
        State::Terminated
    ));
    assert!(matches!(
        started(
            State::Terminating { attempt: 1 },
            Transition::Status(Status::Killed { reason: "oom".to_string() })
        ),
        State::Crashed
    ));
    let (n, a) = next(ctx(State::PreTerminating), Transition::Status(Status::Started));
    assert!(matches!(n.state, State::Terminating { attempt: 1 }));
    assert!(matches!(a, Action::TerminateInstance { .. }));
}

#[test]
fn undefined_transitions_are_refused() {
    assert!(!accepts(&ctx(State::Terminated), &Transition::Status(Status::Started)));
    assert!(!accepts(&ctx(State::Init), &Transition::Terminate));
    assert!(!accepts(&ctx(State::Started), &Transition::Status(Status::Started)));
    assert!(!accepts(&ctx(State::PreTerminating), &Transition::Terminate));
    assert!(!accepts(
        &ctx(State::Terminating { attempt: 1 }),
        &Transition::Deploy { spec: ElideDebug(ispec(7)) }
    ));
    assert!(!accepts(
        &ctx(deploying(1)),
        &Transition::Status(Status::Crashed { error: "x".to_string() })
    ));
    assert!(accepts(&ctx(State::Started), &Transition::Terminate));
    assert!(accepts(&ctx(deploying(1)), &Transition::FailedToDeploy("x".to_string())));
}

#[test]
fn terminal_kinds() {
    assert_eq!(State::Init.kind(), TerminalKind::NonTerminal);
    assert_eq!(deploying(1).kind(), TerminalKind::NonTerminal);
    assert_eq!(State::Terminated.kind(), TerminalKind::SuccessfulTerminal);
    assert_eq!(State::NeverStarted.kind(), TerminalKind::UnsuccessfulTerminal);
    assert_eq!(State::Crashed.kind(), TerminalKind::UnsuccessfulTerminal);
    assert_eq!(State::Terminating { attempt: 4 }.kind(), TerminalKind::NonTerminal);
}

#[test]
fn elide_debug_accessors() {
    let mut e = ElideDebug(5u32);
    assert_eq!(*e.get(), 5);
    *e.get_mut() = 9;
    assert_eq!(e.into(), 9);
}
