//! The per-instance deployment state machine.
//!
//! [`step`] is the transition table as a mathematical function; [`next`]
//! computes it. A transition also names at most one [`Action`]: the call to a
//! worker that must be issued in the background, whose outcome later comes
//! back as another [`Transition`].
use vstd::prelude::*;

use crate::fmt::ElideDebug;
use crate::types::{DeploymentId, InstanceId, InstanceSpec, NetAddr, ServiceId, Status};

verus! {

/// How many times a failed deployment is retried after the first attempt.
pub const MAX_INSTANCE_DEPLOY_RETRIES: u8 = 5;

/// How many times a failed termination is retried after the first attempt.
pub const MAX_INSTANCE_TERMINATION_RETRIES: u8 = 5;

/// Attempts are counted from one and compared with "less than or equal" to
/// the retry bound, so a bound of `n` allows `n + 1` attempts in all.
pub const INITIAL_ATTEMPT: u8 = 1;

pub enum State {
    Init,
    Deploying { attempt: u8, spec: ElideDebug<InstanceSpec> },
    FailedToStart,
    PreTerminating,
    NeverStarted,
    Started,
    UnexpectedTerminated,
    UnexpectedCrashed,
    Terminating { attempt: u8 },
    Terminated,
    Crashed,
    FailedToTerminate,
}

/// Describes whether a state machine state is terminal or not, and if a
/// terminal state is (or not) successful.
#[derive(Copy, Clone, Debug, PartialEq, Eq, Structural)]
pub enum TerminalKind {
    NonTerminal,
    SuccessfulTerminal,
    UnsuccessfulTerminal,
}

pub open spec fn kind_of(s: State) -> TerminalKind {
    match s {
        State::Init | State::Deploying { .. } | State::PreTerminating | State::Started
        | State::Terminating { .. } => TerminalKind::NonTerminal,
        State::Terminated => TerminalKind::SuccessfulTerminal,
        _ => TerminalKind::UnsuccessfulTerminal,
    }
}

impl State {
    pub fn kind(&self) -> (r: TerminalKind)
        ensures
            r == kind_of(*self),
    {
        match self {
            State::Init => TerminalKind::NonTerminal,
            State::Deploying { .. } => TerminalKind::NonTerminal,
            State::FailedToStart => TerminalKind::UnsuccessfulTerminal,
            State::PreTerminating => TerminalKind::NonTerminal,
            State::NeverStarted => TerminalKind::UnsuccessfulTerminal,
            State::Started => TerminalKind::NonTerminal,
            State::UnexpectedTerminated => TerminalKind::UnsuccessfulTerminal,
            State::UnexpectedCrashed => TerminalKind::UnsuccessfulTerminal,
            State::Terminating { .. } => TerminalKind::NonTerminal,
            State::Terminated => TerminalKind::SuccessfulTerminal,
            State::Crashed => TerminalKind::UnsuccessfulTerminal,
            State::FailedToTerminate => TerminalKind::UnsuccessfulTerminal,
        }
    }
}

/// An event fed into an instance's state machine.
pub enum Transition {
    Deploy { spec: ElideDebug<InstanceSpec> },
    Terminate,
    /// A status report from the worker that hosts the instance.
    Status(Status),
    /// The call that asked the worker to terminate the instance failed; the
    /// message says why.
    FailedToTerminate(String),
    /// The call that asked the worker to deploy the instance failed; the
    /// message says why.
    FailedToDeploy(String),
}

/// A call to a worker that a transition asks for.
pub enum Action {
    Nothing,
    DeployInstance { worker_addr: NetAddr, spec: InstanceSpec },
    TerminateInstance { worker_addr: NetAddr, instance_id: InstanceId },
}

/// The state of one instance together with what identifies it.
pub struct StateCtx {
    pub state: State,
    pub id: InstanceId,
    /// The address of the worker in which this instance lives.
    pub worker_addr: NetAddr,
    pub deployment_id: DeploymentId,
    /// The service this instance belongs to.
    pub service_id: ServiceId,
}

/// The same context in another state.
pub open spec fn with_state(c: StateCtx, s: State) -> StateCtx {
    StateCtx { state: s, ..c }
}

pub open spec fn deploy_action(c: StateCtx, spec: InstanceSpec) -> Action {
    Action::DeployInstance { worker_addr: c.worker_addr, spec }
}

pub open spec fn terminate_action(c: StateCtx) -> Action {
    Action::TerminateInstance { worker_addr: c.worker_addr, instance_id: c.id }
}

/// A failed deployment attempt: retried while the bound allows, else final.
pub open spec fn deploy_failed(c: StateCtx, attempt: u8, spec: ElideDebug<InstanceSpec>) -> (
    StateCtx,
    Action,
) {
    if attempt <= MAX_INSTANCE_DEPLOY_RETRIES {
        (
            with_state(c, State::Deploying { attempt: (attempt + 1) as u8, spec }),
            deploy_action(c, spec.0),
        )
    } else {
        (with_state(c, State::FailedToStart), Action::Nothing)
    }
}

/// A failed termination attempt: retried while the bound allows, else final.
pub open spec fn terminate_failed(c: StateCtx, attempt: u8) -> (StateCtx, Action) {
    if attempt <= MAX_INSTANCE_TERMINATION_RETRIES {
        (with_state(c, State::Terminating { attempt: (attempt + 1) as u8 }), terminate_action(c))
    } else {
        (with_state(c, State::FailedToTerminate), Action::Nothing)
    }
}

/// The transition table: the next context and the action that a transition
/// asks for, or `None` where the table defines no transition.
pub open spec fn step(c: StateCtx, t: Transition) -> Option<(StateCtx, Action)> {
    match (c.state, t) {
        (State::Init, Transition::Deploy { spec }) => Some(
            (
                with_state(c, State::Deploying { attempt: INITIAL_ATTEMPT, spec }),
                deploy_action(c, spec.0),
            ),
        ),
        (State::Deploying { attempt, spec }, Transition::FailedToDeploy(_)) => Some(
            deploy_failed(c, attempt, spec),
        ),
        (State::Deploying { attempt, spec }, Transition::Status(Status::FailedToStart { .. })) => Some(
            deploy_failed(c, attempt, spec),
        ),
        (State::Deploying { .. }, Transition::Status(Status::Started)) => Some(
            (with_state(c, State::Started), Action::Nothing),
        ),
        (State::Deploying { .. }, Transition::Terminate) => Some(
            (with_state(c, State::PreTerminating), Action::Nothing),
        ),
        (State::PreTerminating, Transition::Status(Status::Started)) => Some(
            (with_state(c, State::Terminating { attempt: INITIAL_ATTEMPT }), terminate_action(c)),
        ),
        (State::PreTerminating, Transition::FailedToDeploy(_)) => Some(
            (with_state(c, State::NeverStarted), Action::Nothing),
        ),
        (State::PreTerminating, Transition::Status(Status::FailedToStart { .. })) => Some(
            (with_state(c, State::NeverStarted), Action::Nothing),
        ),
        (State::Started, Transition::Status(Status::Terminated)) => Some(
            (with_state(c, State::UnexpectedTerminated), Action::Nothing),
        ),
        (State::Started, Transition::Status(Status::Crashed { .. })) => Some(
            (with_state(c, State::UnexpectedCrashed), Action::Nothing),
        ),
        (State::Started, Transition::Status(Status::Killed { .. })) => Some(
            (with_state(c, State::UnexpectedCrashed), Action::Nothing),
        ),
        (State::Started, Transition::Terminate) => Some(
            (with_state(c, State::Terminating { attempt: INITIAL_ATTEMPT }), terminate_action(c)),
        ),
        (State::Terminating { attempt }, Transition::FailedToTerminate(_)) => Some(
            terminate_failed(c, attempt),
        ),
        (State::Terminating { .. }, Transition::Status(Status::Terminated)) => Some(
            (with_state(c, State::Terminated), Action::Nothing),
        ),
        (State::Terminating { .. }, Transition::Status(Status::Crashed { .. })) => Some(
            (with_state(c, State::Crashed), Action::Nothing),
        ),
        (State::Terminating { .. }, Transition::Status(Status::Killed { .. })) => Some(
            (with_state(c, State::Crashed), Action::Nothing),
        ),
        _ => None,
    }
}

/// A transition that the table does not define for the current state: a
/// logic error in whoever sent it.
#[derive(Debug)]
pub struct InvalidTransition;

impl StateCtx {
    pub fn new_init(
        id: InstanceId,
        worker_addr: NetAddr,
        deployment_id: DeploymentId,
        service_id: ServiceId,
    ) -> (r: StateCtx)
        ensures
            r == (StateCtx { state: State::Init, id, worker_addr, deployment_id, service_id }),
    {
        StateCtx { state: State::Init, id, worker_addr, deployment_id, service_id }
    }

    pub fn state(&self) -> (r: &State)
        ensures
            *r == self.state,
    {
        &self.state
    }

    pub fn deployment_id(&self) -> (r: DeploymentId)
        ensures
            r == self.deployment_id,
    {
        self.deployment_id
    }
}

fn rebuild(
    state: State,
    id: InstanceId,
    worker_addr: NetAddr,
    deployment_id: DeploymentId,
    service_id: ServiceId,
) -> (r: StateCtx)
    ensures
        r == (StateCtx { state, id, worker_addr, deployment_id, service_id }),
{
    StateCtx { state, id, worker_addr, deployment_id, service_id }
}

/// Whether the table defines a transition `t` for the state of `c`.
pub fn accepts(c: &StateCtx, t: &Transition) -> (r: bool)
    ensures
        r == step(*c, *t) is Some,
{
    match &c.state {
        State::Init => matches!(t, Transition::Deploy { .. }),
        State::Deploying { .. } => match t {
            Transition::FailedToDeploy(_) | Transition::Terminate => true,
            Transition::Status(Status::FailedToStart { .. }) | Transition::Status(Status::Started) => true,
            _ => false,
        },
        State::PreTerminating => match t {
            Transition::FailedToDeploy(_) => true,
            Transition::Status(Status::FailedToStart { .. }) | Transition::Status(Status::Started) => true,
            _ => false,
        },
        State::Started => match t {
            Transition::Terminate => true,
            Transition::Status(Status::Terminated) => true,
            Transition::Status(Status::Crashed { .. }) | Transition::Status(Status::Killed { .. }) => true,
            _ => false,
        },
        State::Terminating { .. } => match t {
            Transition::FailedToTerminate(_) => true,
            Transition::Status(Status::Terminated) => true,
            Transition::Status(Status::Crashed { .. }) | Transition::Status(Status::Killed { .. }) => true,
            _ => false,
        },
        _ => false,
    }
}

/// Computes the next context given the current one and a transition, and the
/// call to a worker that the transition asks for. Only transitions that the
/// table defines may be fed in: any other one is a logic error in the
/// caller, which must stop rather than go on (see [`accepts`]).
pub fn next(current: StateCtx, t: Transition) -> (r: (StateCtx, Action))
    requires
        step(current, t) is Some,
    ensures
        r == step(current, t).unwrap(),
{
    match apply(current, t) {
        Ok(p) => p,
        Err(c) => {
            // The precondition rules this branch out.
            assert(false);
            (c, Action::Nothing)
        },
    }
}

/// The transition table in executable form; a pair that it does not define
/// gives back a context (of no meaning) as `Err`.
fn apply(current: StateCtx, t: Transition) -> (r: Result<(StateCtx, Action), StateCtx>)
    ensures
        match step(current, t) {
            Some(p) => r == Ok::<(StateCtx, Action), StateCtx>(p),
            None => r is Err,
        },
{
    let StateCtx { state, id, worker_addr, deployment_id, service_id } = current;
    match state {
        State::Init => match t {
            Transition::Deploy { spec } => {
                let action = Action::DeployInstance { worker_addr, spec: spec.get().duplicate() };
                let s = State::Deploying { attempt: INITIAL_ATTEMPT, spec };
                Ok((rebuild(s, id, worker_addr, deployment_id, service_id), action))
            },
            _ => Err(rebuild(State::Init, id, worker_addr, deployment_id, service_id)),
        },
        State::Deploying { attempt, spec } => {
            let failed = match t {
                Transition::FailedToDeploy(_) => true,
                Transition::Status(Status::FailedToStart { .. }) => true,
                Transition::Status(Status::Started) => {
                    return Ok(
                        (
                            rebuild(State::Started, id, worker_addr, deployment_id, service_id),
                            Action::Nothing,
                        ),
                    );
                },
                Transition::Terminate => {
                    return Ok(
                        (
                            rebuild(
                                State::PreTerminating,
                                id,
                                worker_addr,
                                deployment_id,
                                service_id,
                            ),
                            Action::Nothing,
                        ),
                    );
                },
                _ => false,
            };
            if !failed {
                return Err(rebuild(State::Init, id, worker_addr, deployment_id, service_id));
            }
            if attempt <= MAX_INSTANCE_DEPLOY_RETRIES {
                let action = Action::DeployInstance { worker_addr, spec: spec.get().duplicate() };
                let s = State::Deploying { attempt: attempt + 1, spec };
                Ok((rebuild(s, id, worker_addr, deployment_id, service_id), action))
            } else {
                Ok(
                    (
                        rebuild(State::FailedToStart, id, worker_addr, deployment_id, service_id),
                        Action::Nothing,
                    ),
                )
            }
        },
        State::PreTerminating => {
            let s = match t {
                Transition::Status(Status::Started) => {
                    let action = Action::TerminateInstance { worker_addr, instance_id: id };
                    let s = State::Terminating { attempt: INITIAL_ATTEMPT };
                    return Ok((rebuild(s, id, worker_addr, deployment_id, service_id), action));
                },
                Transition::FailedToDeploy(_) => State::NeverStarted,
                Transition::Status(Status::FailedToStart { .. }) => State::NeverStarted,
                _ => {
                    return Err(rebuild(State::Init, id, worker_addr, deployment_id, service_id));
                },
            };
            Ok((rebuild(s, id, worker_addr, deployment_id, service_id), Action::Nothing))
        },
        State::Started => {
            let s = match t {
                Transition::Status(Status::Terminated) => State::UnexpectedTerminated,
                Transition::Status(Status::Crashed { .. }) => State::UnexpectedCrashed,
                Transition::Status(Status::Killed { .. }) => State::UnexpectedCrashed,
                Transition::Terminate => {
                    let action = Action::TerminateInstance { worker_addr, instance_id: id };
                    let s = State::Terminating { attempt: INITIAL_ATTEMPT };
                    return Ok((rebuild(s, id, worker_addr, deployment_id, service_id), action));
                },
                _ => {
                    return Err(rebuild(State::Init, id, worker_addr, deployment_id, service_id));
                },
            };
            Ok((rebuild(s, id, worker_addr, deployment_id, service_id), Action::Nothing))
        },
        State::Terminating { attempt } => {
            let s = match t {
                Transition::FailedToTerminate(_) => {
                    if attempt <= MAX_INSTANCE_TERMINATION_RETRIES {
                        let action = Action::TerminateInstance { worker_addr, instance_id: id };
                        let s = State::Terminating { attempt: attempt + 1 };
                        return Ok(
                            (rebuild(s, id, worker_addr, deployment_id, service_id), action),
                        );
                    }
                    State::FailedToTerminate
                },
                Transition::Status(Status::Terminated) => State::Terminated,
                Transition::Status(Status::Crashed { .. }) => State::Crashed,
                Transition::Status(Status::Killed { .. }) => State::Crashed,
                _ => {
                    return Err(rebuild(State::Init, id, worker_addr, deployment_id, service_id));
                },
            };
            Ok((rebuild(s, id, worker_addr, deployment_id, service_id), Action::Nothing))
        },
        _ => Err(rebuild(State::Init, id, worker_addr, deployment_id, service_id)),
    }
}

/// The context reached by feeding the transitions `ts` in order, or `None`
/// where one of them is not defined for the state it meets.
pub open spec fn run(c: StateCtx, ts: Seq<Transition>) -> Option<StateCtx>
    decreases ts.len(),
{
    if ts.len() == 0 {
        Some(c)
    } else {
        match run(c, ts.drop_last()) {
            Some(d) => match step(d, ts.last()) {
                Some(p) => Some(p.0),
                None => None,
            },
            None => None,
        }
    }
}

/// A report that a deployment attempt failed.
pub open spec fn is_deploy_failure(t: Transition) -> bool {
    match t {
        Transition::FailedToDeploy(_) => true,
        Transition::Status(Status::FailedToStart { .. }) => true,
        _ => false,
    }
}

/// A state from which the table defines no transition: whatever arrives
/// there is refused, so nothing is ever attempted again.
pub proof fn lemma_terminal_is_final(c: StateCtx, t: Transition)
    requires
        kind_of(c.state) != TerminalKind::NonTerminal,
    ensures
        step(c, t) is None,
{
}

proof fn lemma_failures_prefix(c: StateCtx, spec: ElideDebug<InstanceSpec>, fs: Seq<Transition>, i: int)
    requires
        c.state == (State::Deploying { attempt: INITIAL_ATTEMPT, spec }),
        forall|j: int| 0 <= j < fs.len() ==> is_deploy_failure(#[trigger] fs[j]),
        0 <= i <= MAX_INSTANCE_DEPLOY_RETRIES,
        i <= fs.len(),
    ensures
        run(c, fs.take(i)) == Some(
            with_state(c, State::Deploying { attempt: (i + 1) as u8, spec }),
        ),
    decreases i,
{
    if i > 0 {
        lemma_failures_prefix(c, spec, fs, i - 1);
        assert(fs.take(i).drop_last() =~= fs.take(i - 1));
        assert(fs.take(i).last() == fs[i - 1]);
    } else {
        assert(fs.take(0).len() == 0);
    }
}

/// An instance whose deployment fails every time goes through exactly
/// `MAX_INSTANCE_DEPLOY_RETRIES + 1` attempts: attempt `i + 1` is in progress
/// after `i` failures, each failure but the last re-issues the deployment,
/// the last one ends in `FailedToStart`, and any later report is refused.
pub proof fn lemma_deploy_retries_bounded(
    c: StateCtx,
    spec: ElideDebug<InstanceSpec>,
    fs: Seq<Transition>,
)
    requires
        c.state == (State::Deploying { attempt: INITIAL_ATTEMPT, spec }),
        forall|j: int| 0 <= j < fs.len() ==> is_deploy_failure(#[trigger] fs[j]),
    ensures
        forall|i: int|
            0 <= i <= MAX_INSTANCE_DEPLOY_RETRIES && i <= fs.len() ==> #[trigger] run(c, fs.take(i))
                == Some(with_state(c, State::Deploying { attempt: (i + 1) as u8, spec })),
        forall|i: int|
            0 <= i < MAX_INSTANCE_DEPLOY_RETRIES && i < fs.len() ==> step(
                with_state(c, State::Deploying { attempt: (i + 1) as u8, spec }),
                #[trigger] fs[i],
            ) == Some(
                (
                    with_state(c, State::Deploying { attempt: (i + 2) as u8, spec }),
                    deploy_action(c, spec.0),
                ),
            ),
        fs.len() > MAX_INSTANCE_DEPLOY_RETRIES ==> run(
            c,
            fs.take(MAX_INSTANCE_DEPLOY_RETRIES + 1),
        ) == Some(with_state(c, State::FailedToStart)),
        fs.len() > MAX_INSTANCE_DEPLOY_RETRIES ==> step(
            with_state(c, State::Deploying { attempt: (MAX_INSTANCE_DEPLOY_RETRIES + 1) as u8, spec }),
            fs[MAX_INSTANCE_DEPLOY_RETRIES as int],
        ) == Some((with_state(c, State::FailedToStart), Action::Nothing)),
        fs.len() > MAX_INSTANCE_DEPLOY_RETRIES + 1 ==> run(c, fs) is None,
{
    assert forall|i: int|
        0 <= i <= MAX_INSTANCE_DEPLOY_RETRIES && i <= fs.len() implies #[trigger] run(c, fs.take(i))
        == Some(with_state(c, State::Deploying { attempt: (i + 1) as u8, spec })) by {
        lemma_failures_prefix(c, spec, fs, i);
    }
    let m = MAX_INSTANCE_DEPLOY_RETRIES as int;
    if fs.len() > m {
        lemma_failures_prefix(c, spec, fs, m);
        assert(fs.take(m + 1).drop_last() =~= fs.take(m));
        assert(fs.take(m + 1).last() == fs[m]);
        let failed = with_state(c, State::FailedToStart);
        assert(run(c, fs.take(m + 1)) == Some(failed));
        if fs.len() > m + 1 {
            lemma_run_refused_after(c, fs, m + 1, failed);
        }
    }
}

proof fn lemma_run_refused_after(c: StateCtx, fs: Seq<Transition>, k: int, d: StateCtx)
    requires
        0 < k < fs.len(),
        run(c, fs.take(k)) == Some(d),
        kind_of(d.state) != TerminalKind::NonTerminal,
    ensures
        run(c, fs) is None,
{
    if k + 1 == fs.len() {
        assert(fs.drop_last() =~= fs.take(k));
        lemma_terminal_is_final(d, fs.last());
    } else {
        assert(fs.take(k + 1).drop_last() =~= fs.take(k));
        lemma_terminal_is_final(d, fs.take(k + 1).last());
        lemma_run_none_extends(c, fs, k + 1);
    }
}

proof fn lemma_run_none_extends(c: StateCtx, fs: Seq<Transition>, k: int)
    requires
        0 < k <= fs.len(),
        run(c, fs.take(k)) is None,
    ensures
        run(c, fs) is None,
    decreases fs.len() - k,
{
    if k < fs.len() {
        assert(fs.take(k + 1).drop_last() =~= fs.take(k));
        lemma_run_none_extends(c, fs, k + 1);
    } else {
        assert(fs.take(k) =~= fs);
    }
}

} // verus!
