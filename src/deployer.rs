//! The deployer's bookkeeping: one state machine per live instance, the
//! deploy-service and terminate-service workflows, and the routing changes
//! that instance transitions imply for the balancer.
use vstd::prelude::*;

use crate::allocation::{fresh_uuid, rand_many};
use crate::fmt::ElideDebug;
use crate::instance::{
    accepts, kind_of, next, step, terminate_action, Action, InvalidTransition, State, StateCtx,
    TerminalKind, Transition, INITIAL_ATTEMPT,
};
use crate::types::{
    instance_spec_of, DeploymentId, InstanceId, InstanceSpec, NetAddr, ServiceId, ServiceSpec,
    Status,
};

verus! {

/// What a deploy-service call created.
pub struct DeployServiceRes {
    pub deployment_id: DeploymentId,
    /// Each new instance with the worker it was allocated to.
    pub instances: Vec<(InstanceId, NetAddr)>,
}

#[derive(Debug, PartialEq, Eq, Structural)]
pub enum DeployError {
    /// There is no live worker to allocate instances to.
    NoWorkers,
    /// A freshly generated instance id was already in use.
    DuplicateInstance,
}

/// How a transition changes the balancer's view of an instance: an instance
/// that has started takes traffic, and one that has reached a terminal state
/// no longer does.
pub enum Routing {
    Unchanged,
    Add { service_id: ServiceId, instance_id: InstanceId, addr: NetAddr },
    Drop { service_id: ServiceId, instance_id: InstanceId },
}

/// What a transition asks of the world outside the deployer.
pub struct Effect {
    pub action: Action,
    pub routing: Routing,
}

pub open spec fn routing_for(n: StateCtx) -> Routing {
    if n.state is Started {
        Routing::Add { service_id: n.service_id, instance_id: n.id, addr: n.worker_addr }
    } else if kind_of(n.state) != TerminalKind::NonTerminal {
        Routing::Drop { service_id: n.service_id, instance_id: n.id }
    } else {
        Routing::Unchanged
    }
}

pub open spec fn no_effect() -> Effect {
    Effect { action: Action::Nothing, routing: Routing::Unchanged }
}

pub open spec fn has_instance(s: Seq<StateCtx>, id: InstanceId) -> bool {
    exists|i: int| 0 <= i < s.len() && s[i].id == id
}

/// Where the instance `id` stands, if it does.
pub open spec fn instance_index(s: Seq<StateCtx>, id: InstanceId) -> int {
    choose|i: int| 0 <= i < s.len() && s[i].id == id
}

/// Exactly one context per instance, and only live (non-terminal) ones.
pub open spec fn statems_wf(s: Seq<StateCtx>) -> bool {
    &&& forall|i: int, j: int| 0 <= i < s.len() && 0 <= j < s.len() && i != j ==> s[i].id != s[j].id
    &&& forall|i: int| 0 <= i < s.len() ==> kind_of(#[trigger] s[i].state) == TerminalKind::NonTerminal
}

proof fn lemma_wf_push(s: Seq<StateCtx>, n: StateCtx)
    requires
        statems_wf(s),
        !has_instance(s, n.id),
        kind_of(n.state) == TerminalKind::NonTerminal,
    ensures
        statems_wf(s.push(n)),
{
    let t = s.push(n);
    assert forall|a: int, b: int| 0 <= a < t.len() && 0 <= b < t.len() && a != b implies t[a].id
        != t[b].id by {
        if a < s.len() && b < s.len() {
            assert(t[a] == s[a] && t[b] == s[b]);
        } else if a < s.len() {
            assert(t[a] == s[a]);
        } else {
            assert(t[b] == s[b]);
        }
    }
    assert forall|a: int| 0 <= a < t.len() implies kind_of(#[trigger] t[a].state)
        == TerminalKind::NonTerminal by {
        if a < s.len() {
            assert(t[a] == s[a]);
        }
    }
}

proof fn lemma_wf_update(s: Seq<StateCtx>, i: int, n: StateCtx)
    requires
        statems_wf(s),
        0 <= i < s.len(),
        n.id == s[i].id,
        kind_of(n.state) == TerminalKind::NonTerminal,
    ensures
        statems_wf(s.update(i, n)),
{
    let t = s.update(i, n);
    assert forall|a: int, b: int| 0 <= a < t.len() && 0 <= b < t.len() && a != b implies t[a].id
        != t[b].id by {
        if a != i && b != i {
            assert(t[a] == s[a] && t[b] == s[b]);
        } else if a == i {
            assert(t[b] == s[b]);
        } else {
            assert(t[a] == s[a]);
        }
    }
    assert forall|a: int| 0 <= a < t.len() implies kind_of(#[trigger] t[a].state)
        == TerminalKind::NonTerminal by {
        if a != i {
            assert(t[a] == s[a]);
        }
    }
}

proof fn lemma_wf_remove(s: Seq<StateCtx>, i: int)
    requires
        statems_wf(s),
        0 <= i < s.len(),
    ensures
        statems_wf(s.remove(i)),
{
    let t = s.remove(i);
    assert forall|a: int, b: int| 0 <= a < t.len() && 0 <= b < t.len() && a != b implies t[a].id
        != t[b].id by {
        let a2 = if a < i { a } else { a + 1 };
        let b2 = if b < i { b } else { b + 1 };
        assert(t[a] == s[a2] && t[b] == s[b2]);
    }
    assert forall|a: int| 0 <= a < t.len() implies kind_of(#[trigger] t[a].state)
        == TerminalKind::NonTerminal by {
        let a2 = if a < i { a } else { a + 1 };
        assert(t[a] == s[a2]);
    }
}

/// The ids of `alloc` are pairwise distinct and none of them is live in `s`.
pub open spec fn fresh_ids(s: Seq<StateCtx>, alloc: Seq<(InstanceId, NetAddr)>) -> bool {
    &&& forall|i: int, j: int|
        0 <= i < alloc.len() && 0 <= j < alloc.len() && i != j ==> alloc[i].0 != alloc[j].0
    &&& forall|i: int| 0 <= i < alloc.len() ==> !has_instance(s, #[trigger] alloc[i].0)
}

/// The context of an instance just allocated and sent its first deployment.
pub open spec fn deploying_ctx(
    spec: ServiceSpec,
    deployment_id: DeploymentId,
    a: (InstanceId, NetAddr),
) -> StateCtx {
    StateCtx {
        state: State::Deploying {
            attempt: INITIAL_ATTEMPT,
            spec: ElideDebug(instance_spec_of(spec, a.0)),
        },
        id: a.0,
        worker_addr: a.1,
        deployment_id,
        service_id: spec.service_id,
    }
}

pub open spec fn deploy_instance_action(spec: ServiceSpec, a: (InstanceId, NetAddr)) -> Action {
    Action::DeployInstance { worker_addr: a.1, spec: instance_spec_of(spec, a.0) }
}

/// Whether terminating a service sends `Terminate` to this instance: it
/// belongs to the service and is deploying or running. Instances already on
/// their way out are left to finish.
pub open spec fn terminates(c: StateCtx, service: Seq<char>) -> bool {
    c.service_id@ == service && (c.state is Deploying || c.state is Started)
}

/// A running instance of `service`: terminating the service asks its
/// worker to stop it.
pub open spec fn running_in(service: Seq<char>) -> spec_fn(StateCtx) -> bool {
    |c: StateCtx| c.service_id@ == service && c.state is Started
}

/// The calls to workers that terminating `service` issues for the contexts
/// `s`: one per running instance of the service, in order.
pub open spec fn termination_actions(s: Seq<StateCtx>, service: Seq<char>) -> Seq<Action> {
    s.filter(running_in(service)).map_values(|c: StateCtx| terminate_action(c))
}

proof fn lemma_termination_actions_step(s: Seq<StateCtx>, i: int, service: Seq<char>)
    requires
        0 <= i < s.len(),
    ensures
        termination_actions(s.take(i + 1), service) == if running_in(service)(s[i]) {
            termination_actions(s.take(i), service).push(terminate_action(s[i]))
        } else {
            termination_actions(s.take(i), service)
        },
{
    reveal(Seq::filter);
    let pred = running_in(service);
    assert(s.take(i + 1).drop_last() =~= s.take(i));
    assert(s.take(i + 1).last() == s[i]);
    let f = s.take(i).filter(pred);
    if pred(s[i]) {
        assert(s.take(i + 1).filter(pred) == f.push(s[i]));
        assert(f.push(s[i]).map_values(|c: StateCtx| terminate_action(c)) =~= f.map_values(
            |c: StateCtx| terminate_action(c),
        ).push(terminate_action(s[i])));
    } else {
        assert(s.take(i + 1).filter(pred) == f);
    }
}

/// The contexts after terminating `service`.
pub open spec fn after_termination(s: Seq<StateCtx>, service: Seq<char>) -> Seq<StateCtx> {
    s.map_values(
        |c: StateCtx|
            if terminates(c, service) {
                step(c, Transition::Terminate).unwrap().0
            } else {
                c
            },
    )
}

pub struct Deployer {
    instance_statems: Vec<StateCtx>,
}

impl View for Deployer {
    type V = Seq<StateCtx>;

    closed spec fn view(&self) -> Seq<StateCtx> {
        self.instance_statems@
    }
}

impl Deployer {
    pub open spec fn wf(&self) -> bool {
        statems_wf(self@)
    }

    pub fn new() -> (r: Deployer)
        ensures
            r.wf(),
            r@ == Seq::<StateCtx>::empty(),
    {
        Deployer { instance_statems: Vec::new() }
    }

    fn find(&self, id: InstanceId) -> (r: Option<usize>)
        ensures
            match r {
                Some(i) => i < self@.len() && self@[i as int].id == id,
                None => !has_instance(self@, id),
            },
    {
        let mut i: usize = 0;
        while i < self.instance_statems.len()
            invariant
                i <= self.instance_statems@.len(),
                forall|j: int| 0 <= j < i ==> self.instance_statems@[j].id != id,
            decreases self.instance_statems@.len() - i,
        {
            if self.instance_statems[i].id == id {
                return Some(i);
            }
            i += 1;
        }
        None
    }

    /// The live context of the instance `id`, if there is one.
    pub fn instance(&self, id: InstanceId) -> (r: Option<&StateCtx>)
        requires
            self.wf(),
        ensures
            has_instance(self@, id) ==> r == Some(&self@[instance_index(self@, id)]),
            !has_instance(self@, id) ==> r is None,
    {
        match self.find(id) {
            Some(i) => {
                assert(instance_index(self@, id) == i as int);
                Some(&self.instance_statems[i])
            },
            None => None,
        }
    }

    /// The number of live instances.
    pub fn len(&self) -> (r: usize)
        ensures
            r == self@.len(),
    {
        self.instance_statems.len()
    }

    /// Whether the ids of `alloc` are pairwise distinct and none is live.
    fn check_fresh(&self, alloc: &Vec<(InstanceId, NetAddr)>) -> (r: bool)
        ensures
            r == fresh_ids(self@, alloc@),
    {
        let mut i: usize = 0;
        while i < alloc.len()
            invariant
                i <= alloc@.len(),
                forall|a: int, b: int|
                    0 <= a < i && 0 <= b < alloc@.len() && a != b ==> alloc@[a].0 != alloc@[b].0,
                forall|a: int| 0 <= a < i ==> !has_instance(self@, #[trigger] alloc@[a].0),
            decreases alloc@.len() - i,
        {
            if self.find(alloc[i].0).is_some() {
                return false;
            }
            let mut j: usize = 0;
            while j < alloc.len()
                invariant
                    i < alloc@.len(),
                    j <= alloc@.len(),
                    forall|b: int| 0 <= b < j && b != i ==> alloc@[i as int].0 != alloc@[b].0,
                decreases alloc@.len() - j,
            {
                if j != i && alloc[j].0 == alloc[i].0 {
                    return false;
                }
                j += 1;
            }
            i += 1;
        }
        true
    }

    /// Creates the instances of `alloc` for the service `spec`: each gets a
    /// context that starts in `Init` and at once takes the `Deploy`
    /// transition, and the deployments to issue are returned in the same
    /// order. Ids that are repeated or already live are refused, and nothing
    /// changes.
    pub fn deploy_allocated(
        &mut self,
        spec: &ServiceSpec,
        deployment_id: DeploymentId,
        alloc: Vec<(InstanceId, NetAddr)>,
    ) -> (r: Result<(DeployServiceRes, Vec<Action>), DeployError>)
        requires
            old(self).wf(),
        ensures
            final(self).wf(),
            r is Err <==> !fresh_ids(old(self)@, alloc@),
            r is Err ==> r == Err::<(DeployServiceRes, Vec<Action>), DeployError>(
                DeployError::DuplicateInstance,
            ) && final(self)@ == old(self)@,
            r matches Ok((res, actions)) ==> {
                &&& res.deployment_id == deployment_id
                &&& res.instances@ == alloc@
                &&& final(self)@ == old(self)@ + alloc@.map_values(
                    |a: (InstanceId, NetAddr)| deploying_ctx(*spec, deployment_id, a),
                )
                &&& actions@ == alloc@.map_values(
                    |a: (InstanceId, NetAddr)| deploy_instance_action(*spec, a),
                )
            },
    {
        if !self.check_fresh(&alloc) {
            return Err(DeployError::DuplicateInstance);
        }
        let ghost s = self@;
        let mut actions: Vec<Action> = Vec::new();
        let mut i: usize = 0;
        while i < alloc.len()
            invariant
                i <= alloc@.len(),
                statems_wf(s),
                fresh_ids(s, alloc@),
                self.wf(),
                self@ == s + alloc@.take(i as int).map_values(
                    |a: (InstanceId, NetAddr)| deploying_ctx(*spec, deployment_id, a),
                ),
                actions@ == alloc@.take(i as int).map_values(
                    |a: (InstanceId, NetAddr)| deploy_instance_action(*spec, a),
                ),
            decreases alloc@.len() - i,
        {
            let (id, addr) = alloc[i];
            let init = StateCtx::new_init(id, addr, deployment_id, spec.service_id.duplicate());
            let ispec = InstanceSpec::from_service_spec_cloned(spec, id);
            let (n, action) = next(init, Transition::Deploy { spec: ElideDebug(ispec) });
            let ghost prev = self@;
            self.instance_statems.push(n);
            actions.push(action);
            proof {
                let f = |a: (InstanceId, NetAddr)| deploying_ctx(*spec, deployment_id, a);
                let g = |a: (InstanceId, NetAddr)| deploy_instance_action(*spec, a);
                assert(alloc@.take(i + 1) =~= alloc@.take(i as int).push(alloc@[i as int]));
                assert(alloc@.take(i + 1).map_values(f) =~= alloc@.take(i as int).map_values(
                    f,
                ).push(f(alloc@[i as int])));
                assert(self@ =~= s + alloc@.take(i + 1).map_values(f));
                assert(actions@ =~= alloc@.take(i + 1).map_values(g));
                assert(!has_instance(s, id));
                assert forall|a: int| 0 <= a < prev.len() implies prev[a].id != id by {
                    if a < s.len() {
                        assert(prev[a] == s[a]);
                    } else {
                        let k = a - s.len();
                        assert(prev[a] == f(alloc@[k]));
                        assert(alloc@[k].0 != alloc@[i as int].0);
                    }
                }
                lemma_wf_push(prev, f(alloc@[i as int]));
            }
            i += 1;
        }
        assert(alloc@.take(i as int) =~= alloc@);
        Ok((DeployServiceRes { deployment_id, instances: alloc }, actions))
    }

    /// Deploys the service `spec`: allocates `spec.concurrency` instances to
    /// workers drawn at random from the live pool `workers`, under a fresh
    /// deployment id, and sends each its first deployment. An empty pool is
    /// refused. The new instances' ids are distinct and new, or nothing is
    /// deployed.
    pub fn deploy_service(&mut self, spec: &ServiceSpec, workers: &Vec<NetAddr>) -> (r: Result<
        (DeployServiceRes, Vec<Action>),
        DeployError,
    >)
        requires
            old(self).wf(),
        ensures
            final(self).wf(),
            r == Err::<(DeployServiceRes, Vec<Action>), DeployError>(DeployError::NoWorkers)
                <==> workers@.len() == 0,
            r is Err ==> final(self)@ == old(self)@,
            workers@.len() > 0 && spec.concurrency == 0 ==> r is Ok,
            r matches Ok((res, actions)) ==> {
                &&& res.instances@.len() == spec.concurrency
                &&& fresh_ids(old(self)@, res.instances@)
                &&& forall|i: int|
                    0 <= i < res.instances@.len() ==> workers@.contains(
                        #[trigger] res.instances@[i].1,
                    )
                &&& final(self)@ == old(self)@ + res.instances@.map_values(
                    |a: (InstanceId, NetAddr)| deploying_ctx(*spec, res.deployment_id, a),
                )
                &&& actions@ == res.instances@.map_values(
                    |a: (InstanceId, NetAddr)| deploy_instance_action(*spec, a),
                )
            },
    {
        if workers.len() == 0 {
            return Err(DeployError::NoWorkers);
        }
        let alloc = match rand_many(workers, spec.concurrency) {
            Some(alloc) => alloc,
            None => {
                return Err(DeployError::NoWorkers);
            },
        };
        let deployment_id = DeploymentId(fresh_uuid());
        self.deploy_allocated(spec, deployment_id, alloc)
    }

    /// Terminates the service `service_id`: each of its instances that is
    /// deploying or running takes the `Terminate` transition; the calls to
    /// workers that this asks for are returned in order.
    pub fn terminate_service(&mut self, service_id: &ServiceId) -> (r: Vec<Action>)
        requires
            old(self).wf(),
        ensures
            final(self).wf(),
            final(self)@ == after_termination(old(self)@, service_id@),
            r@ == termination_actions(old(self)@, service_id@),
    {
        let ghost s = self@;
        let mut actions: Vec<Action> = Vec::new();
        let mut i: usize = 0;
        while i < self.instance_statems.len()
            invariant
                i <= self@.len(),
                self@.len() == s.len(),
                statems_wf(s),
                self.wf(),
                forall|j: int| 0 <= j < i ==> self@[j] == after_termination(s, service_id@)[j],
                forall|j: int| i <= j < s.len() ==> self@[j] == s[j],
                actions@ == termination_actions(s.take(i as int), service_id@),
            decreases s.len() - i,
        {
            let applies = self.instance_statems[i].service_id == *service_id && match self.instance_statems[i].state {
                State::Deploying { .. } | State::Started => true,
                _ => false,
            };
            let ghost c = s[i as int];
            proof {
                lemma_termination_actions_step(s, i as int, service_id@);
                assert(self@[i as int] == c);
            }
            if applies {
                let ghost prev = self@;
                let cur = self.instance_statems.remove(i);
                let (n, action) = next(cur, Transition::Terminate);
                let ghost nn = n;
                self.instance_statems.insert(i, n);
                match action {
                    Action::Nothing => {},
                    _ => {
                        actions.push(action);
                    },
                }
                proof {
                    assert(self@ =~= prev.update(i as int, nn));
                    lemma_wf_update(prev, i as int, nn);
                }
            }
            i += 1;
        }
        proof {
            assert(s.take(s.len() as int) =~= s);
            assert(self@ =~= after_termination(s, service_id@));
        }
        actions
    }

    /// Feeds a transition to the instance `id`'s state machine. An unknown
    /// instance is ignored. A transition that the table does not define is
    /// refused and changes nothing: it is a logic error, on which the caller
    /// must stop rather than go on. A context that reaches a terminal state is
    /// dropped.
    pub fn trans_instance_state(&mut self, id: InstanceId, t: Transition) -> (r: Result<
        Effect,
        InvalidTransition,
    >)
        requires
            old(self).wf(),
        ensures
            final(self).wf(),
            !has_instance(old(self)@, id) ==> r == Ok::<Effect, InvalidTransition>(no_effect())
                && final(self)@ == old(self)@,
            has_instance(old(self)@, id) ==> {
                let i = instance_index(old(self)@, id);
                match step(old(self)@[i], t) {
                    None => r is Err && final(self)@ == old(self)@,
                    Some(p) => {
                        &&& r == Ok::<Effect, InvalidTransition>(
                            Effect { action: p.1, routing: routing_for(p.0) },
                        )
                        &&& final(self)@ == if kind_of(p.0.state) == TerminalKind::NonTerminal {
                            old(self)@.update(i, p.0)
                        } else {
                            old(self)@.remove(i)
                        }
                    },
                }
            },
    {
        let i = match self.find(id) {
            Some(i) => i,
            None => {
                return Ok(Effect { action: Action::Nothing, routing: Routing::Unchanged });
            },
        };
        let ghost s = self@;
        assert(instance_index(s, id) == i as int);
        if !accepts(&self.instance_statems[i], &t) {
            return Err(InvalidTransition);
        }
        let c = self.instance_statems.remove(i);
        proof {
            lemma_wf_remove(s, i as int);
        }
        let (n, action) = next(c, t);
        let routing = match n.state {
            State::Started => Routing::Add {
                service_id: n.service_id.duplicate(),
                instance_id: n.id,
                addr: n.worker_addr,
            },
            _ => if n.state.kind() == TerminalKind::NonTerminal {
                Routing::Unchanged
            } else {
                Routing::Drop { service_id: n.service_id.duplicate(), instance_id: n.id }
            },
        };
        if n.state.kind() == TerminalKind::NonTerminal {
            let ghost nn = n;
            self.instance_statems.insert(i, n);
            proof {
                assert(self@ =~= s.update(i as int, nn));
                lemma_wf_update(s, i as int, nn);
            }
        }
        Ok(Effect { action, routing })
    }

    /// Feeds a worker's status report about the instance `id` to its state
    /// machine.
    pub fn report_instance_status(&mut self, id: InstanceId, status: Status) -> (r: Result<
        Effect,
        InvalidTransition,
    >)
        requires
            old(self).wf(),
        ensures
            final(self).wf(),
            !has_instance(old(self)@, id) ==> r == Ok::<Effect, InvalidTransition>(no_effect())
                && final(self)@ == old(self)@,
            has_instance(old(self)@, id) ==> {
                let i = instance_index(old(self)@, id);
                match step(old(self)@[i], Transition::Status(status)) {
                    None => r is Err && final(self)@ == old(self)@,
                    Some(p) => {
                        &&& r == Ok::<Effect, InvalidTransition>(
                            Effect { action: p.1, routing: routing_for(p.0) },
                        )
                        &&& final(self)@ == if kind_of(p.0.state) == TerminalKind::NonTerminal {
                            old(self)@.update(i, p.0)
                        } else {
                            old(self)@.remove(i)
                        }
                    },
                }
            },
    {
        self.trans_instance_state(id, Transition::Status(status))
    }
}

} // verus!
