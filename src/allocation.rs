//! Worker allocation: which worker each new instance goes to.
use vstd::prelude::*;

use crate::types::{InstanceId, NetAddr};

verus! {

/// Relies on rand's `SliceRandom::choose` with the thread-local generator:
/// it gives one element of the slice, and `None` only when the slice is
/// empty.
#[verifier::external_body]
fn choose_addr(addrs: &Vec<NetAddr>) -> (r: Option<NetAddr>)
    ensures
        r is None <==> addrs@.len() == 0,
        r matches Some(a) ==> addrs@.contains(a),
{
    rand::seq::SliceRandom::choose(addrs.as_slice(), &mut rand::thread_rng()).copied()
}

/// Relies on uuid's `Uuid::now_v7`: a time-ordered UUID made from the clock
/// and random bits, taken here as its 128-bit value.
#[verifier::external_body]
pub(crate) fn fresh_uuid() -> (r: u128) {
    uuid::Uuid::now_v7().as_u128()
}

/// Allocates `instances` new instances, each to a worker drawn uniformly at
/// random, with replacement, from `workers`, and each under a freshly
/// generated id. Instances cannot be allocated from an empty pool.
pub fn rand_many(workers: &Vec<NetAddr>, instances: u32) -> (r: Option<Vec<(InstanceId, NetAddr)>>)
    ensures
        r is None <==> workers@.len() == 0 && instances > 0,
        r matches Some(v) ==> v@.len() == instances && forall|i: int|
            0 <= i < v@.len() ==> workers@.contains(#[trigger] v@[i].1),
{
    let mut r: Vec<(InstanceId, NetAddr)> = Vec::new();
    let mut n: u32 = 0;
    while n < instances
        invariant
            n <= instances,
            r@.len() == n,
            n > 0 ==> workers@.len() > 0,
            forall|i: int| 0 <= i < r@.len() ==> workers@.contains(#[trigger] r@[i].1),
        decreases instances - n,
    {
        match choose_addr(workers) {
            Some(addr) => {
                r.push((InstanceId(fresh_uuid()), addr));
            },
            None => {
                return None;
            },
        }
        n += 1;
    }
    Some(r)
}

/// Allocates a single instance to a worker drawn uniformly at random from
/// `workers`.
pub fn rand_single(workers: &Vec<NetAddr>) -> (r: (InstanceId, NetAddr))
    requires
        workers@.len() > 0,
    ensures
        workers@.contains(r.1),
{
    let addr = match choose_addr(workers) {
        Some(a) => a,
        None => workers[0],
    };
    (InstanceId(fresh_uuid()), addr)
}

/// The counter after `n` more increments, wrapping around at the word size.
pub open spec fn counter_after(c: usize, n: int) -> int {
    (c + n) % (usize::MAX as int + 1)
}

/// Allocates `instances` new instances to `workers` in turn, continuing from
/// the shared `counter`: the `i`-th goes to the worker at the counter's
/// value modulo the pool size, and the counter moves on by one each time.
pub fn rr_alloc_many(workers: &Vec<NetAddr>, instances: u32, counter: &mut usize) -> (r: Vec<
    (InstanceId, NetAddr),
>)
    requires
        workers@.len() > 0 || instances == 0,
    ensures
        r@.len() == instances,
        *final(counter) == counter_after(*old(counter), instances as int),
        forall|i: int|
            0 <= i < r@.len() ==> #[trigger] r@[i].1 == workers@[counter_after(*old(counter), i)
                % workers@.len() as int],
{
    let mut r: Vec<(InstanceId, NetAddr)> = Vec::new();
    let mut n: u32 = 0;
    proof {
        vstd::arithmetic::div_mod::lemma_small_mod(*counter as nat, usize::MAX as nat + 1);
    }
    while n < instances
        invariant
            n <= instances,
            workers@.len() > 0 || instances == 0,
            r@.len() == n,
            *counter == counter_after(*old(counter), n as int),
            forall|i: int|
                0 <= i < r@.len() ==> #[trigger] r@[i].1 == workers@[counter_after(
                    *old(counter),
                    i,
                ) % workers@.len() as int],
        decreases instances - n,
    {
        let i = *counter;
        *counter = i.wrapping_add(1);
        let addr = workers[i % workers.len()];
        r.push((InstanceId(fresh_uuid()), addr));
        proof {
            let m = usize::MAX as int + 1;
            let c0 = *old(counter) as int;
            assert(counter_after(*old(counter), n + 1) == (if i as int == usize::MAX as int { 0 } else { i + 1 })) by {
                vstd::arithmetic::div_mod::lemma_add_mod_noop(c0 + n, 1, m);
                vstd::arithmetic::div_mod::lemma_small_mod(1, m as nat);
                if i as int + 1 < m {
                    vstd::arithmetic::div_mod::lemma_small_mod((i + 1) as nat, m as nat);
                } else {
                    vstd::arithmetic::div_mod::lemma_mod_self_0(m);
                }
            }
        }
        n += 1;
    }
    r
}

} // verus!
