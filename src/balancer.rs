//! Service request routing: each service's live instances and a round-robin
//! pick among them.
use vstd::prelude::*;

use crate::types::{InstanceId, NetAddr, ServiceId};

verus! {

/// The live instances of one service, in the order they were added, and the
/// number of picks made so far (wrapping around at the word size).
pub struct InstanceBag {
    pub instances: Vec<(InstanceId, NetAddr)>,
    pub count: usize,
}

/// One service's entry as seen by contracts: its name, its instances and
/// its pick counter.
pub type BagView = (Seq<char>, Seq<(InstanceId, NetAddr)>, usize);

pub open spec fn bag_view(e: (ServiceId, InstanceBag)) -> BagView {
    (e.0@, e.1.instances@, e.1.count)
}

pub open spec fn has_service(v: Seq<BagView>, id: Seq<char>) -> bool {
    exists|i: int| 0 <= i < v.len() && v[i].0 == id
}

/// Where the service `id` stands, if it does.
pub open spec fn service_index(v: Seq<BagView>, id: Seq<char>) -> int {
    choose|i: int| 0 <= i < v.len() && v[i].0 == id
}

pub open spec fn unique_services(v: Seq<BagView>) -> bool {
    forall|i: int, j: int| 0 <= i < v.len() && 0 <= j < v.len() && i != j ==> v[i].0 != v[j].0
}

/// Entries other than the instance `instance_id`.
pub open spec fn other_than(instance_id: InstanceId) -> spec_fn((InstanceId, NetAddr)) -> bool {
    |e: (InstanceId, NetAddr)| e.0 != instance_id
}

/// The counter after one more pick.
pub open spec fn next_count(c: usize) -> usize {
    if c == usize::MAX {
        0
    } else {
        (c + 1) as usize
    }
}

/// The position picked when the counter is at `count` in a bag of `len`.
pub open spec fn pick_index(count: int, len: int) -> int {
    count % len
}

pub struct BalancerState {
    addrs: Vec<(ServiceId, InstanceBag)>,
}

impl View for BalancerState {
    type V = Seq<BagView>;

    closed spec fn view(&self) -> Seq<BagView> {
        self.addrs@.map_values(|e: (ServiceId, InstanceBag)| bag_view(e))
    }
}

impl BalancerState {
    pub open spec fn wf(&self) -> bool {
        unique_services(self@)
    }

    pub fn new() -> (r: BalancerState)
        ensures
            r.wf(),
            r@ == Seq::<BagView>::empty(),
    {
        let r = BalancerState { addrs: Vec::new() };
        assert(r@ =~= Seq::<BagView>::empty());
        r
    }

    fn find(&self, id: &ServiceId) -> (r: Option<usize>)
        ensures
            match r {
                Some(i) => i < self@.len() && self@[i as int].0 == id@,
                None => !has_service(self@, id@),
            },
    {
        let mut i: usize = 0;
        while i < self.addrs.len()
            invariant
                i <= self.addrs@.len(),
                forall|j: int| 0 <= j < i ==> self@[j].0 != id@,
            decreases self.addrs@.len() - i,
        {
            if self.addrs[i].0 == *id {
                return Some(i);
            }
            i += 1;
        }
        None
    }

    /// Takes out the entry at `i`.
    fn take_entry(&mut self, i: usize) -> (r: (ServiceId, InstanceBag))
        requires
            i < old(self)@.len(),
        ensures
            final(self).addrs@ == old(self).addrs@.remove(i as int),
            r == old(self).addrs@[i as int],
            bag_view(r) == old(self)@[i as int],
    {
        self.addrs.remove(i)
    }

    /// Puts back at `i` an entry of the same service as the one taken out.
    proof fn lemma_put_back(
        s: Seq<(ServiceId, InstanceBag)>,
        i: int,
        e: (ServiceId, InstanceBag),
        t: Seq<(ServiceId, InstanceBag)>,
    )
        requires
            0 <= i < s.len(),
            unique_services(s.map_values(|e: (ServiceId, InstanceBag)| bag_view(e))),
            e.0@ == s[i].0@,
            t == s.remove(i).insert(i, e),
        ensures
            t.map_values(|e: (ServiceId, InstanceBag)| bag_view(e)) == s.map_values(
                |e: (ServiceId, InstanceBag)| bag_view(e),
            ).update(i, bag_view(e)),
            unique_services(t.map_values(|e: (ServiceId, InstanceBag)| bag_view(e))),
    {
        let v = s.map_values(|e: (ServiceId, InstanceBag)| bag_view(e));
        let w = t.map_values(|e: (ServiceId, InstanceBag)| bag_view(e));
        assert(w =~= v.update(i, bag_view(e)));
        assert forall|a: int, b: int| 0 <= a < w.len() && 0 <= b < w.len() && a != b implies w[a].0
            != w[b].0 by {
            assert(v[i].0 == w[i].0);
            if a != i && b != i {
                assert(v[a] == w[a] && v[b] == w[b]);
            } else if a == i {
                assert(v[b] == w[b]);
            } else {
                assert(v[a] == w[a]);
            }
        }
    }

    /// Adds an instance at the end of its service's bag; a service seen for
    /// the first time gets a bag of its own.
    pub fn add_instance(&mut self, id: ServiceId, instance_id: InstanceId, addr: NetAddr)
        requires
            old(self).wf(),
        ensures
            final(self).wf(),
            has_service(old(self)@, id@) ==> final(self)@ == old(self)@.update(
                service_index(old(self)@, id@),
                (
                    id@,
                    old(self)@[service_index(old(self)@, id@)].1.push((instance_id, addr)),
                    old(self)@[service_index(old(self)@, id@)].2,
                ),
            ),
            !has_service(old(self)@, id@) ==> final(self)@ == old(self)@.push(
                (id@, seq![(instance_id, addr)], 0usize),
            ),
    {
        match self.find(&id) {
            Some(i) => {
                assert(service_index(self@, id@) == i as int);
                let ghost s = self.addrs@;
                let (_, mut bag) = self.take_entry(i);
                bag.instances.push((instance_id, addr));
                self.addrs.insert(i, (id, bag));
                proof {
                    Self::lemma_put_back(s, i as int, self.addrs@[i as int], self.addrs@);
                }
            },
            None => {
                let ghost s = self@;
                let mut instances: Vec<(InstanceId, NetAddr)> = Vec::new();
                instances.push((instance_id, addr));
                self.addrs.push((id, InstanceBag { instances, count: 0 }));
                assert(self@ =~= s.push((id@, seq![(instance_id, addr)], 0usize)));
            },
        }
    }

    /// Removes every entry of the instance `instance_id` from its service's
    /// bag; returns whether the service is known (an unknown one is left
    /// alone).
    pub fn drop_instance(&mut self, id: &ServiceId, instance_id: InstanceId) -> (r: bool)
        requires
            old(self).wf(),
        ensures
            final(self).wf(),
            r == has_service(old(self)@, id@),
            r ==> final(self)@ == old(self)@.update(
                service_index(old(self)@, id@),
                (
                    id@,
                    old(self)@[service_index(old(self)@, id@)].1.filter(other_than(instance_id)),
                    old(self)@[service_index(old(self)@, id@)].2,
                ),
            ),
            !r ==> final(self)@ == old(self)@,
    {
        match self.find(id) {
            Some(i) => {
                assert(service_index(self@, id@) == i as int);
                let ghost s = self.addrs@;
                let (sid, bag) = self.take_entry(i);
                let kept = keep_others(&bag.instances, instance_id);
                self.addrs.insert(i, (sid, InstanceBag { instances: kept, count: bag.count }));
                proof {
                    Self::lemma_put_back(s, i as int, self.addrs@[i as int], self.addrs@);
                }
                true
            },
            None => false,
        }
    }

    /// Picks the next instance of `service` by round robin: the one at the
    /// counter modulo the bag's length. An unknown service or an empty bag
    /// gives no instance.
    pub fn next(&mut self, service: &ServiceId) -> (r: Option<(InstanceId, NetAddr)>)
        requires
            old(self).wf(),
        ensures
            final(self).wf(),
            (!has_service(old(self)@, service@) || old(self)@[service_index(
                old(self)@,
                service@,
            )].1.len() == 0) ==> r is None && final(self)@ == old(self)@,
            has_service(old(self)@, service@) && old(self)@[service_index(
                old(self)@,
                service@,
            )].1.len() > 0 ==> {
                let i = service_index(old(self)@, service@);
                let b = old(self)@[i];
                &&& r == Some(b.1[pick_index(b.2 as int, b.1.len() as int)])
                &&& final(self)@ == old(self)@.update(i, (b.0, b.1, next_count(b.2)))
            },
    {
        match self.find(service) {
            Some(i) => {
                assert(service_index(self@, service@) == i as int);
                let len = self.addrs[i].1.instances.len();
                if len == 0 {
                    return None;
                }
                let count = self.addrs[i].1.count;
                let picked = self.addrs[i].1.instances[count % len];
                let ghost s = self.addrs@;
                let (sid, bag) = self.take_entry(i);
                let next = count.wrapping_add(1);
                self.addrs.insert(i, (sid, InstanceBag { instances: bag.instances, count: next }));
                proof {
                    Self::lemma_put_back(s, i as int, self.addrs@[i as int], self.addrs@);
                }
                Some(picked)
            },
            None => None,
        }
    }
}

/// The entries of `v` other than those of `instance_id`, in order.
fn keep_others(v: &Vec<(InstanceId, NetAddr)>, instance_id: InstanceId) -> (r: Vec<
    (InstanceId, NetAddr),
>)
    ensures
        r@ == v@.filter(other_than(instance_id)),
{
    let mut r: Vec<(InstanceId, NetAddr)> = Vec::new();
    let mut i: usize = 0;
    while i < v.len()
        invariant
            i <= v@.len(),
            r@ == v@.take(i as int).filter(other_than(instance_id)),
        decreases v@.len() - i,
    {
        let e = v[i];
        proof {
            reveal(Seq::filter);
            assert(v@.take(i + 1).drop_last() =~= v@.take(i as int));
            assert(v@.take(i + 1).last() == e);
        }
        if e.0 != instance_id {
            r.push(e);
        }
        i += 1;
    }
    assert(v@.take(i as int) =~= v@);
    r
}

/// How many of `n` consecutive picks, the first made with the counter at
/// `c + a`, land on position `p` of a bag of `len`.
pub open spec fn window_visits(c: int, len: int, a: int, n: nat, p: int) -> nat
    decreases n,
{
    if n == 0 {
        0
    } else {
        window_visits(c, len, a, (n - 1) as nat, p) + if pick_index(c + a + n - 1, len) == p {
            1nat
        } else {
            0nat
        }
    }
}

/// How many of `m` consecutive picks, the first made with the counter at
/// `c`, land on position `p` of a bag of `len`.
pub open spec fn visits(c: int, len: int, m: nat, p: int) -> nat {
    window_visits(c, len, 0, m, p)
}

proof fn lemma_visits_split(c: int, len: int, m0: nat, n: nat, p: int)
    ensures
        window_visits(c, len, 0, m0 + n, p) == window_visits(c, len, 0, m0, p) + window_visits(
            c,
            len,
            m0 as int,
            n,
            p,
        ),
    decreases n,
{
    if n > 0 {
        lemma_visits_split(c, len, m0, (n - 1) as nat, p);
        assert((m0 + n - 1) as nat == m0 + (n - 1) as nat);
    }
}

proof fn lemma_pick_value(x: int, len: int, i: int)
    requires
        x >= 0,
        len > 0,
        0 <= i < len,
    ensures
        pick_index(x + i, len) == if x % len + i < len {
            x % len + i
        } else {
            x % len + i - len
        },
{
    vstd::arithmetic::div_mod::lemma_fundamental_div_mod(x, len);
    let q = x / len;
    let r0 = x % len;
    assert(x == q * len + r0) by (nonlinear_arith)
        requires
            x == len * q + r0,
    ;
    if r0 + i < len {
        vstd::arithmetic::div_mod::lemma_fundamental_div_mod_converse(x + i, len, q, r0 + i);
    } else {
        assert(x + i == (q + 1) * len + (r0 + i - len)) by (nonlinear_arith)
            requires
                x == q * len + r0,
        ;
        vstd::arithmetic::div_mod::lemma_fundamental_div_mod_converse(
            x + i,
            len,
            q + 1,
            r0 + i - len,
        );
    }
}

proof fn lemma_window(c: int, len: int, a: int, n: nat, p: int)
    requires
        c >= 0,
        a >= 0,
        len > 0,
        n <= len,
        0 <= p < len,
    ensures
        window_visits(c, len, a, n, p) == if ((c + a) % len <= p && p < (c + a) % len + n) || p
            + len < (c + a) % len + n {
            1nat
        } else {
            0nat
        },
    decreases n,
{
    if n > 0 {
        lemma_window(c, len, a, (n - 1) as nat, p);
        lemma_pick_value(c + a, len, n - 1);
        vstd::arithmetic::div_mod::lemma_mod_bound(c + a, len);
    }
}

/// Round-robin fairness: `k` rounds of picks, `k` times the bag's length,
/// land on every position of the bag exactly `k` times, wherever the
/// counter stood before.
pub proof fn lemma_round_robin_fair(c: nat, len: nat, k: nat, p: int)
    requires
        len > 0,
        k >= 1,
        0 <= p < len,
    ensures
        visits(c as int, len as int, k * len, p) == k,
    decreases k,
{
    if k == 1 {
        assert(1 * len == len);
        lemma_window(c as int, len as int, 0, len, p);
        vstd::arithmetic::div_mod::lemma_mod_bound(c as int, len as int);
    } else {
        let m0 = ((k - 1) * len) as nat;
        assert(k * len == m0 + len) by (nonlinear_arith)
            requires
                m0 == (k - 1) * len,
        ;
        assert(m0 >= 0) by (nonlinear_arith)
            requires
                k >= 1,
                len > 0,
                m0 == (k - 1) * len,
        ;
        lemma_round_robin_fair(c, len, (k - 1) as nat, p);
        lemma_visits_split(c as int, len as int, m0, len, p);
        lemma_window(c as int, len as int, m0 as int, len, p);
        vstd::arithmetic::div_mod::lemma_mod_bound(c + m0 as int, len as int);
    }
}

/// The counter after `j` more picks, starting from `c`.
pub open spec fn count_after(c: usize, j: nat) -> usize
    decreases j,
{
    if j == 0 {
        c
    } else {
        next_count(count_after(c, (j - 1) as nat))
    }
}

/// How many of `m` consecutive calls of `next` on a bag of `len`, the first
/// made with the counter at `c`, pick position `p`.
pub open spec fn call_visits(c: usize, len: int, m: nat, p: int) -> nat
    decreases m,
{
    if m == 0 {
        0
    } else {
        call_visits(c, len, (m - 1) as nat, p) + if pick_index(
            count_after(c, (m - 1) as nat) as int,
            len,
        ) == p {
            1nat
        } else {
            0nat
        }
    }
}

proof fn lemma_count_after(c: usize, j: nat)
    requires
        c + j <= usize::MAX,
    ensures
        count_after(c, j) == c + j,
    decreases j,
{
    if j > 0 {
        lemma_count_after(c, (j - 1) as nat);
    }
}

proof fn lemma_call_visits(c: usize, len: int, m: nat, p: int)
    requires
        c + m <= usize::MAX as int + 1,
    ensures
        call_visits(c, len, m, p) == visits(c as int, len, m, p),
    decreases m,
{
    if m > 0 {
        lemma_call_visits(c, len, (m - 1) as nat, p);
        lemma_count_after(c, (m - 1) as nat);
    }
}

/// Round-robin fairness of `next` itself: `k` rounds of calls on a bag of
/// `len` instances pick every position exactly `k` times, provided the
/// counter does not wrap around during those calls.
pub proof fn lemma_next_fair(c: usize, len: nat, k: nat, p: int)
    requires
        len > 0,
        k >= 1,
        0 <= p < len,
        c + k * len <= usize::MAX as int + 1,
    ensures
        call_visits(c, len as int, k * len, p) == k,
{
    lemma_call_visits(c, len as int, k * len, p);
    lemma_round_robin_fair(c as nat, len, k, p);
}

} // verus!
