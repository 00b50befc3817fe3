//! The worker fleet directory: membership, heartbeats and liveness.
//!
//! Times are milliseconds on a monotonic clock that the caller reads; the
//! metrics a worker reports are carried through unread, so their type is a
//! parameter.
use vstd::prelude::*;

use crate::types::NetAddr;

verus! {

pub struct WorkerDetails<M> {
    pub addr: NetAddr,
    pub metrics: M,
    /// When the worker last said hello or reported metrics.
    pub collected_at: u64,
}

#[derive(Clone, Copy, Debug, PartialEq, Eq, Structural)]
pub enum HelloStatus {
    /// The worker joined the fleet.
    Joined,
    AlreadyRegistered,
}

#[derive(Clone, Copy, Debug, PartialEq, Eq, Structural)]
pub enum PushMetricsStatus {
    /// Acknowledged.
    Ack,
    /// The worker has been removed from the cluster (at some moment in the
    /// past), and this metrics call is refused.
    Removed,
}

/// No address appears twice.
pub open spec fn unique_addrs<M>(s: Seq<WorkerDetails<M>>) -> bool {
    forall|i: int, j: int|
        0 <= i < s.len() && 0 <= j < s.len() && i != j ==> s[i].addr != s[j].addr
}

pub open spec fn has_addr<M>(s: Seq<WorkerDetails<M>>, addr: NetAddr) -> bool {
    exists|i: int| 0 <= i < s.len() && s[i].addr == addr
}

/// Where `addr` stands in `s`, if it does.
pub open spec fn index_of<M>(s: Seq<WorkerDetails<M>>, addr: NetAddr) -> int {
    choose|i: int| 0 <= i < s.len() && s[i].addr == addr
}

/// A worker last heard from at `collected_at` is presumed dead at `instant`
/// once `timeout` has passed. One heard from after `instant` is alive.
pub open spec fn is_stale(collected_at: int, instant: int, timeout: int) -> bool {
    collected_at <= instant && instant - collected_at >= timeout
}

/// The directory and the reply after a hello from `addr` at `now`.
pub open spec fn hello_outcome<M>(s: Seq<WorkerDetails<M>>, addr: NetAddr, metrics: M, now: u64) -> (
    Seq<WorkerDetails<M>>,
    HelloStatus,
) {
    if has_addr(s, addr) {
        (s, HelloStatus::AlreadyRegistered)
    } else {
        (s.push(WorkerDetails { addr, metrics, collected_at: now }), HelloStatus::Joined)
    }
}

/// Two hellos from one new address: the first joins it, the second is told
/// that it is already registered and changes nothing, and the address stands
/// in the directory exactly once.
pub proof fn lemma_hello_twice<M>(
    s0: Seq<WorkerDetails<M>>,
    addr: NetAddr,
    m1: M,
    t1: u64,
    m2: M,
    t2: u64,
)
    requires
        unique_addrs(s0),
        !has_addr(s0, addr),
    ensures
        hello_outcome(s0, addr, m1, t1).1 == HelloStatus::Joined,
        hello_outcome(hello_outcome(s0, addr, m1, t1).0, addr, m2, t2).1
            == HelloStatus::AlreadyRegistered,
        hello_outcome(hello_outcome(s0, addr, m1, t1).0, addr, m2, t2).0 == hello_outcome(
            s0,
            addr,
            m1,
            t1,
        ).0,
        unique_addrs(hello_outcome(s0, addr, m1, t1).0),
        has_addr(hello_outcome(s0, addr, m1, t1).0, addr),
{
    let s1 = hello_outcome(s0, addr, m1, t1).0;
    assert(s1[s0.len() as int].addr == addr);
}

/// With ticks every `period` from `start`, a worker last heard from at
/// `collected_at` (no more than one period before `start`) is first found
/// dead at tick `k`: no earlier tick finds it dead, and tick `k` comes less
/// than one period after its timeout ran out.
pub proof fn lemma_evicted_within_one_tick(start: int, period: int, collected_at: int) -> (k: nat)
    requires
        period > 0,
        start <= collected_at + period,
    ensures
        is_stale(collected_at, start + k * period, period),
        start + k * period < collected_at + 2 * period,
        forall|j: nat| j < k ==> !#[trigger] is_stale(collected_at, start + j * period, period),
{
    let d = collected_at + period - start;
    let k = ((d + period - 1) / period) as nat;
    assert(k * period >= d && (k - 1) * period < d && k * period < d + period) by (nonlinear_arith)
        requires
            d >= 0,
            period > 0,
            k == (d + period - 1) / period,
    ;
    assert forall|j: nat| j < k implies !#[trigger] is_stale(collected_at, start + j * period, period) by {
        assert(j * period <= (k - 1) * period) by (nonlinear_arith)
            requires
                j < k,
                period > 0,
        ;
    }
    k
}

pub struct WorkerMgr<M> {
    workers: Vec<WorkerDetails<M>>,
    liveness_timeout: u64,
}

impl<M> View for WorkerMgr<M> {
    type V = Seq<WorkerDetails<M>>;

    closed spec fn view(&self) -> Seq<WorkerDetails<M>> {
        self.workers@
    }
}

impl<M> WorkerMgr<M> {
    /// The interval after which a silent worker is presumed dead.
    pub closed spec fn timeout(&self) -> u64 {
        self.liveness_timeout
    }

    pub open spec fn wf(&self) -> bool {
        unique_addrs(self@)
    }

    pub fn new(liveness_timeout: u64) -> (r: WorkerMgr<M>)
        ensures
            r.wf(),
            r@ == Seq::<WorkerDetails<M>>::empty(),
            r.timeout() == liveness_timeout,
    {
        WorkerMgr { workers: Vec::new(), liveness_timeout }
    }

    pub fn liveness_timeout(&self) -> (r: u64)
        ensures
            r == self.timeout(),
    {
        self.liveness_timeout
    }

    fn find(&self, addr: NetAddr) -> (r: Option<usize>)
        ensures
            match r {
                Some(i) => i < self@.len() && self@[i as int].addr == addr,
                None => !has_addr(self@, addr),
            },
    {
        let mut i: usize = 0;
        while i < self.workers.len()
            invariant
                i <= self.workers@.len(),
                forall|j: int| 0 <= j < i ==> self.workers@[j].addr != addr,
            decreases self.workers@.len() - i,
        {
            if self.workers[i].addr == addr {
                return Some(i);
            }
            i += 1;
        }
        None
    }

    /// Registers a new worker, heard from at `now` with `metrics`; a
    /// worker that is already registered is left as it is.
    pub fn hello(&mut self, addr: NetAddr, metrics: M, now: u64) -> (r: HelloStatus)
        requires
            old(self).wf(),
        ensures
            final(self).wf(),
            final(self).timeout() == old(self).timeout(),
            (final(self)@, r) == hello_outcome(old(self)@, addr, metrics, now),
            has_addr(old(self)@, addr) ==> r == HelloStatus::AlreadyRegistered && final(self)@
                == old(self)@,
            !has_addr(old(self)@, addr) ==> r == HelloStatus::Joined && final(self)@ == old(self)@.push(
                WorkerDetails { addr, metrics, collected_at: now },
            ),
    {
        match self.find(addr) {
            Some(_) => HelloStatus::AlreadyRegistered,
            None => {
                self.workers.push(WorkerDetails { addr, metrics, collected_at: now });
                assert(self@.last().addr == addr);
                HelloStatus::Joined
            },
        }
    }

    /// Removes a worker; returns whether it was registered.
    pub fn bye(&mut self, addr: NetAddr) -> (r: bool)
        requires
            old(self).wf(),
        ensures
            final(self).wf(),
            final(self).timeout() == old(self).timeout(),
            r == has_addr(old(self)@, addr),
            !has_addr(final(self)@, addr),
            r ==> final(self)@ == old(self)@.remove(index_of(old(self)@, addr)),
            !r ==> final(self)@ == old(self)@,
            forall|w: WorkerDetails<M>|
                final(self)@.contains(w) <==> old(self)@.contains(w) && w.addr != addr,
    {
        match self.find(addr) {
            Some(i) => {
                let ghost s = self@;
                let _ = self.workers.remove(i);
                let ghost t = self@;
                assert(index_of(s, addr) == i as int);
                assert forall|w: WorkerDetails<M>| t.contains(w) <==> s.contains(w) && w.addr
                    != addr by {
                    if t.contains(w) {
                        let k = choose|k: int| 0 <= k < t.len() && t[k] == w;
                        if k < i {
                            assert(s[k] == w);
                        } else {
                            assert(s[k + 1] == w);
                        }
                    }
                    if s.contains(w) && w.addr != addr {
                        let k = choose|k: int| 0 <= k < s.len() && s[k] == w;
                        if k < i {
                            assert(t[k] == w);
                        } else {
                            assert(k != i);
                            assert(t[k - 1] == w);
                        }
                    }
                }
                true
            },
            None => false,
        }
    }

    /// Stores a known worker's latest metrics, heard at `now`; an unknown
    /// worker is told that it was removed.
    pub fn push_metrics(&mut self, addr: NetAddr, metrics: M, now: u64) -> (r: PushMetricsStatus)
        requires
            old(self).wf(),
        ensures
            final(self).wf(),
            final(self).timeout() == old(self).timeout(),
            !has_addr(old(self)@, addr) ==> r == PushMetricsStatus::Removed && final(self)@ == old(
                self,
            )@,
            has_addr(old(self)@, addr) ==> r == PushMetricsStatus::Ack && final(self)@ == old(
                self,
            )@.update(
                index_of(old(self)@, addr),
                WorkerDetails { addr, metrics, collected_at: now },
            ),
    {
        match self.find(addr) {
            Some(i) => {
                assert(index_of(self@, addr) == i as int);
                self.workers.set(i, WorkerDetails { addr, metrics, collected_at: now });
                PushMetricsStatus::Ack
            },
            None => PushMetricsStatus::Removed,
        }
    }

    /// A snapshot of the current fleet.
    pub fn query_workers(&self) -> (r: &Vec<WorkerDetails<M>>)
        ensures
            r@ == self@,
    {
        &self.workers
    }

    /// The addresses of the current fleet, in directory order.
    pub fn worker_addrs(&self) -> (r: Vec<NetAddr>)
        ensures
            r@ == self@.map_values(|w: WorkerDetails<M>| w.addr),
    {
        let mut r: Vec<NetAddr> = Vec::new();
        let mut i: usize = 0;
        while i < self.workers.len()
            invariant
                i <= self.workers@.len(),
                r@ == self.workers@.take(i as int).map_values(|w: WorkerDetails<M>| w.addr),
            decreases self.workers@.len() - i,
        {
            r.push(self.workers[i].addr);
            i += 1;
            assert(self.workers@.take(i as int).drop_last() =~= self.workers@.take(i - 1));
            assert(r@ =~= self.workers@.take(i as int).map_values(|w: WorkerDetails<M>| w.addr));
        }
        assert(self.workers@.take(i as int) =~= self.workers@);
        r
    }

    /// The workers presumed dead at `instant`: those last heard from at
    /// least one timeout before it.
    pub fn handle_tick(&self, instant: u64) -> (r: Vec<NetAddr>)
        ensures
            forall|a: NetAddr|
                r@.contains(a) <==> exists|i: int|
                    0 <= i < self@.len() && self@[i].addr == a && is_stale(
                        self@[i].collected_at as int,
                        instant as int,
                        self.timeout() as int,
                    ),
    {
        let mut r: Vec<NetAddr> = Vec::new();
        let mut i: usize = 0;
        while i < self.workers.len()
            invariant
                i <= self.workers@.len(),
                forall|a: NetAddr|
                    r@.contains(a) <==> exists|j: int|
                        0 <= j < i && self.workers@[j].addr == a && is_stale(
                            self.workers@[j].collected_at as int,
                            instant as int,
                            self.liveness_timeout as int,
                        ),
            decreases self.workers@.len() - i,
        {
            let w = &self.workers[i];
            let alive = match instant.checked_sub(w.collected_at) {
                None => true,
                Some(elapsed) => elapsed < self.liveness_timeout,
            };
            assert(alive == !is_stale(
                w.collected_at as int,
                instant as int,
                self.liveness_timeout as int,
            ));
            let ghost prev = r@;
            if !alive {
                r.push(w.addr);
            }
            proof {
                let ii = i as int;
                assert forall|a: NetAddr|
                    r@.contains(a) <==> exists|j: int|
                        0 <= j < ii + 1 && self.workers@[j].addr == a && is_stale(
                            self.workers@[j].collected_at as int,
                            instant as int,
                            self.liveness_timeout as int,
                        ) by {
                    if !alive {
                        assert(r@ == prev.push(w.addr));
                        if r@.contains(a) {
                            let k = choose|k: int| 0 <= k < r@.len() && r@[k] == a;
                            if k < prev.len() {
                                assert(prev[k] == a);
                                assert(prev.contains(a));
                            } else {
                                assert(self.workers@[ii].addr == a);
                            }
                        }
                        if exists|j: int|
                            0 <= j < ii + 1 && self.workers@[j].addr == a && is_stale(
                                self.workers@[j].collected_at as int,
                                instant as int,
                                self.liveness_timeout as int,
                            ) {
                            if a == w.addr {
                                assert(r@[prev.len() as int] == a);
                            } else {
                                let j = choose|j: int|
                                    0 <= j < ii + 1 && self.workers@[j].addr == a && is_stale(
                                        self.workers@[j].collected_at as int,
                                        instant as int,
                                        self.liveness_timeout as int,
                                    );
                                assert(j < ii);
                                assert(prev.contains(a));
                                let k = choose|k: int| 0 <= k < prev.len() && prev[k] == a;
                                assert(r@[k] == a);
                            }
                        }
                    } else {
                        assert(r@ == prev);
                        if exists|j: int|
                            0 <= j < ii + 1 && self.workers@[j].addr == a && is_stale(
                                self.workers@[j].collected_at as int,
                                instant as int,
                                self.liveness_timeout as int,
                            ) {
                            let j = choose|j: int|
                                0 <= j < ii + 1 && self.workers@[j].addr == a && is_stale(
                                    self.workers@[j].collected_at as int,
                                    instant as int,
                                    self.liveness_timeout as int,
                                );
                            assert(j != ii);
                        }
                    }
                }
            }
            i += 1;
        }
        r
    }

    /// One liveness tick: every worker presumed dead at `instant` is removed,
    /// through the same path as an explicit goodbye.
    pub fn reap(&mut self, instant: u64)
        requires
            old(self).wf(),
        ensures
            final(self).wf(),
            final(self).timeout() == old(self).timeout(),
            forall|w: WorkerDetails<M>|
                final(self)@.contains(w) <==> old(self)@.contains(w) && !is_stale(
                    w.collected_at as int,
                    instant as int,
                    old(self).timeout() as int,
                ),
    {
        let dead = self.handle_tick(instant);
        let ghost s = self@;
        let mut k: usize = 0;
        while k < dead.len()
            invariant
                self.wf(),
                self.timeout() == old(self).timeout(),
                s == old(self)@,
                unique_addrs(s),
                k <= dead@.len(),
                forall|a: NetAddr|
                    dead@.contains(a) <==> exists|i: int|
                        0 <= i < s.len() && s[i].addr == a && is_stale(
                            s[i].collected_at as int,
                            instant as int,
                            old(self).timeout() as int,
                        ),
                forall|w: WorkerDetails<M>|
                    #[trigger] self@.contains(w) <==> s.contains(w) && !dead@.take(k as int).contains(
                        w.addr,
                    ),
            decreases dead@.len() - k,
        {
            let a = dead[k];
            let ghost before = self@;
            self.bye(a);
            k += 1;
            proof {
                let t1 = dead@.take(k - 1);
                let t2 = dead@.take(k as int);
                assert(t2 =~= t1.push(a));
                assert(t2[k - 1] == a);
                assert forall|w: WorkerDetails<M>|
                    #[trigger] self@.contains(w) <==> s.contains(w) && !t2.contains(w.addr) by {
                    assert(before.contains(w) <==> s.contains(w) && !t1.contains(w.addr));
                    if t2.contains(w.addr) && !t1.contains(w.addr) {
                        let j = choose|j: int| 0 <= j < t2.len() && t2[j] == w.addr;
                        assert(j == k - 1);
                    }
                    if t1.contains(w.addr) {
                        let j = choose|j: int| 0 <= j < t1.len() && t1[j] == w.addr;
                        assert(t2[j] == w.addr);
                    }
                }
            }
        }
        proof {
            assert(dead@.take(dead@.len() as int) =~= dead@);
            assert forall|w: WorkerDetails<M>|
                self@.contains(w) <==> s.contains(w) && !is_stale(
                    w.collected_at as int,
                    instant as int,
                    old(self).timeout() as int,
                ) by {
                if s.contains(w) {
                    let m = choose|m: int| 0 <= m < s.len() && s[m] == w;
                    if dead@.contains(w.addr) {
                        let i = choose|i: int|
                            0 <= i < s.len() && s[i].addr == w.addr && is_stale(
                                s[i].collected_at as int,
                                instant as int,
                                old(self).timeout() as int,
                            );
                        assert(i == m);
                    }
                }
            }
        }
    }
}

} // verus!
