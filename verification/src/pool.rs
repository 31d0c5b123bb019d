use vstd::prelude::*;

use crate::backend::{
    addrs_unique, has_duplicate_addr, healthy_seq, lemma_healthy_seq_members, Backend, BackendSet,
    HealthStatus,
};
use crate::errors::GatewayError;
use crate::health::with_statuses;
use crate::selection::{rr_index, wrapping_inc};

verus! {

/// One logical service's pool: a backend set plus the round-robin
/// selection cursor shared by all selections from this pool.
///
/// The cursor is the only selection state; it advances by one on every
/// successful selection and wraps with unsigned modular arithmetic.
/// Health updates replace the set as a whole snapshot and never touch
/// the cursor.
pub struct BackendPool {
    set: BackendSet,
    cursor: u64,
}

impl BackendPool {
    /// The current backend snapshot, in configuration order.
    pub closed spec fn backends(&self) -> Seq<Backend> {
        self.set@
    }

    /// The current round-robin cursor value.
    pub closed spec fn cursor(&self) -> u64 {
        self.cursor
    }

    /// Invariant: at least one configured backend, no duplicate
    /// addresses.
    pub open spec fn wf(&self) -> bool {
        addrs_unique(self.backends()) && self.backends().len() > 0
    }

    /// Builds a pool from the configured address list, every backend
    /// initially `Healthy` and the cursor at zero. An empty list is
    /// refused outright: a pool that could never select anything and
    /// could never recover is a configuration fault, not a runtime
    /// state.
    pub fn new(addrs: Vec<String>) -> (r: Result<BackendPool, GatewayError>)
        ensures
            match r {
                Ok(p) => addrs@.len() > 0 && !has_duplicate_addr(addrs@) && p.wf() && p.cursor()
                    == 0 && p.backends().len() == addrs@.len() && forall|i: int|
                    0 <= i < addrs@.len() ==> (#[trigger] p.backends()[i]).addr@ == addrs@[i]@
                        && p.backends()[i].status == HealthStatus::Healthy,
                Err(e) => (e == GatewayError::ConfigurationError && addrs@.len() == 0) || (e
                    == GatewayError::DuplicateBackendAddress && has_duplicate_addr(addrs@)),
            },
    {
        if addrs.len() == 0 {
            return Err(GatewayError::ConfigurationError);
        }
        match BackendSet::new(addrs) {
            Ok(set) => Ok(BackendPool { set, cursor: 0 }),
            Err(e) => Err(e),
        }
    }

    /// Number of configured backends.
    pub fn len(&self) -> (n: usize)
        ensures
            n == self.backends().len(),
    {
        self.set.len()
    }

    /// The currently healthy backends, cloned in configuration order.
    pub fn healthy_backends(&self) -> (r: Vec<Backend>)
        ensures
            r@ == healthy_seq(self.backends()),
    {
        self.set.healthy_backends()
    }

    /// Picks one backend for a request. The healthy subset keeps the
    /// set's configuration order, the cursor picks a position in it by
    /// modular arithmetic, and every selection advances the cursor by
    /// one, so selection is deterministic and fair for a stable health
    /// snapshot: over a wrap-free window of selections every healthy
    /// backend is picked as often as the bounds of
    /// [`crate::selection::lemma_round_robin_fair`] say. With no
    /// healthy candidate the request fails with `NoHealthyBackend` and
    /// the cursor stays put; an unhealthy backend is never returned.
    ///
    /// `key` is accepted for future hash-based selection policies;
    /// round-robin ignores it.
    pub fn select(&mut self, key: &[u8]) -> (r: Result<Backend, GatewayError>)
        requires
            old(self).wf(),
        ensures
            final(self).wf(),
            final(self).backends() == old(self).backends(),
            ({
                let healthy = healthy_seq(old(self).backends());
                if healthy.len() == 0 {
                    r == Err::<Backend, GatewayError>(GatewayError::NoHealthyBackend)
                        && final(self).cursor() == old(self).cursor()
                } else {
                    r == Ok::<Backend, GatewayError>(
                        healthy[(old(self).cursor() as int) % (healthy.len() as int)],
                    ) && final(self).cursor() == wrapping_inc(old(self).cursor())
                }
            }),
            r matches Ok(b) ==> b.status == HealthStatus::Healthy
                && old(self).backends().contains(b),
    {
        proof {
            lemma_healthy_seq_members(self.backends());
        }
        let healthy = self.set.healthy_backends();
        let hlen = healthy.len();
        if hlen == 0 {
            return Err(GatewayError::NoHealthyBackend);
        }
        let idx = (self.cursor % (hlen as u64)) as usize;
        let chosen = healthy[idx].clone();
        if self.cursor == u64::MAX {
            self.cursor = 0;
        } else {
            self.cursor = self.cursor + 1;
        }
        Ok(chosen)
    }

    /// A window of sequential selections with no health change in
    /// between: performs `m` selections and returns the chosen
    /// backends in order. The `i`-th selection picks healthy position
    /// `rr_index(c0, i, n)`, so the fairness bounds of
    /// [`crate::selection::lemma_round_robin_fair`] hold of the
    /// returned trace: each healthy backend appears at least
    /// `m / n` and at most `m / n + 1` times. The window must not
    /// wrap the cursor, and at least one backend must be healthy.
    pub fn select_window(&mut self, m: usize) -> (r: Vec<Backend>)
        requires
            old(self).wf(),
            healthy_seq(old(self).backends()).len() > 0,
            old(self).cursor() + m <= u64::MAX,
        ensures
            final(self).wf(),
            final(self).backends() == old(self).backends(),
            final(self).cursor() == old(self).cursor() + m,
            r@.len() == m,
            forall|i: int|
                0 <= i < m ==> r@[i] == healthy_seq(old(self).backends())[rr_index(
                    old(self).cursor() as nat,
                    i as nat,
                    healthy_seq(old(self).backends()).len() as nat,
                ) as int],
    {
        let key: Vec<u8> = Vec::new();
        let mut r: Vec<Backend> = Vec::new();
        let mut i: usize = 0;
        while i < m
            invariant
                old(self).wf(),
                self.wf(),
                healthy_seq(old(self).backends()).len() > 0,
                old(self).cursor() + m <= u64::MAX,
                i <= m,
                self.backends() == old(self).backends(),
                self.cursor() == old(self).cursor() + i,
                r@.len() == i,
                forall|k: int|
                    0 <= k < i ==> r@[k] == healthy_seq(old(self).backends())[rr_index(
                        old(self).cursor() as nat,
                        k as nat,
                        healthy_seq(old(self).backends()).len() as nat,
                    ) as int],
            decreases m - i,
        {
            match self.select(key.as_slice()) {
                Ok(b) => {
                    r.push(b);
                },
                Err(_) => {
                    proof {
                        assert(false);
                    }
                },
            }
            i += 1;
        }
        r
    }

    /// Publishes one health tick's probe results as a whole-snapshot
    /// replacement: same addresses in the same order, each status
    /// recomputed from that backend's probe result. The selection
    /// cursor is not reset, so publishing identical results twice
    /// changes nothing after the first publication.
    pub fn publish_health(&mut self, probe_ok: &Vec<bool>)
        requires
            old(self).wf(),
            probe_ok@.len() == old(self).backends().len(),
        ensures
            final(self).wf(),
            final(self).backends() == with_statuses(old(self).backends(), probe_ok@),
            final(self).cursor() == old(self).cursor(),
    {
        let next = self.set.next_snapshot(probe_ok);
        self.set = next;
    }
}

} // verus!
