use vstd::prelude::*;

use crate::backend::{healthy_seq, Backend, BackendSet, HealthStatus};
use crate::errors::GatewayError;

verus! {

/// Per-backend health transition: a probe that succeeds makes the
/// backend `Healthy`, one that fails makes it `Unhealthy`. There is no
/// hysteresis and no terminal state; the next tick may flip it back.
pub open spec fn status_after_probe(probe_ok: bool) -> HealthStatus {
    if probe_ok {
        HealthStatus::Healthy
    } else {
        HealthStatus::Unhealthy
    }
}

/// The backends of `s` with statuses replaced by one tick's probe
/// results, addresses and order untouched.
pub open spec fn with_statuses(s: Seq<Backend>, probe_ok: Seq<bool>) -> Seq<Backend> {
    Seq::new(s.len(), |i: int| Backend { addr: s[i].addr, status: status_after_probe(probe_ok[i]) })
}

/// Publishing the same probe results twice in a row changes nothing
/// after the first publication: the snapshot, and with it the healthy
/// subset, are identical.
pub proof fn lemma_publish_idempotent(s: Seq<Backend>, probe_ok: Seq<bool>)
    requires
        probe_ok.len() == s.len(),
    ensures
        with_statuses(with_statuses(s, probe_ok), probe_ok) == with_statuses(s, probe_ok),
        healthy_seq(with_statuses(with_statuses(s, probe_ok), probe_ok)) == healthy_seq(
            with_statuses(s, probe_ok),
        ),
{
    assert(with_statuses(with_statuses(s, probe_ok), probe_ok) =~= with_statuses(s, probe_ok));
}

/// Timing of the background health-check loop: one probe round per
/// `interval_ms`, each probe cut off after `timeout_ms`.
///
/// Invariant: the per-probe timeout is strictly below the tick
/// interval and neither is zero, so a slow or hung probe can neither
/// block the next round nor make a tick miss its deadline.
pub struct HealthCheckConfig {
    pub interval_ms: u64,
    pub timeout_ms: u64,
}

impl HealthCheckConfig {
    pub open spec fn wf(&self) -> bool {
        0 < self.timeout_ms < self.interval_ms
    }

    /// Validates the configured timing; a timeout of zero or one not
    /// strictly below the interval is refused at startup.
    pub fn new(interval_ms: u64, timeout_ms: u64) -> (r: Result<HealthCheckConfig, GatewayError>)
        ensures
            match r {
                Ok(c) => 0 < timeout_ms < interval_ms && c.interval_ms == interval_ms
                    && c.timeout_ms == timeout_ms && c.wf(),
                Err(e) => e == GatewayError::ConfigurationError && !(0 < timeout_ms < interval_ms),
            },
    {
        if 0 < timeout_ms && timeout_ms < interval_ms {
            Ok(HealthCheckConfig { interval_ms, timeout_ms })
        } else {
            Err(GatewayError::ConfigurationError)
        }
    }
}

impl BackendSet {
    /// Builds the successor snapshot for one health tick: same
    /// addresses in the same order, each status recomputed from that
    /// backend's probe result. The caller publishes the returned set by
    /// a single replacement, so readers never observe a partial update.
    pub fn next_snapshot(&self, probe_ok: &Vec<bool>) -> (r: BackendSet)
        requires
            probe_ok@.len() == self@.len(),
        ensures
            r@ == with_statuses(self@, probe_ok@),
            self.wf() ==> r.wf(),
    {
        let n = self.len();
        let mut backends: Vec<Backend> = Vec::new();
        let mut i: usize = 0;
        while i < n
            invariant
                n == self@.len(),
                probe_ok@.len() == n,
                i <= n,
                backends@.len() == i,
                forall|p: int|
                    0 <= p < i ==> #[trigger] backends@[p] == (Backend {
                        addr: self@[p].addr,
                        status: status_after_probe(probe_ok@[p]),
                    }),
            decreases n - i,
        {
            let b = self.get(i);
            let st = if probe_ok[i] {
                HealthStatus::Healthy
            } else {
                HealthStatus::Unhealthy
            };
            backends.push(Backend { addr: b.addr.clone(), status: st });
            i += 1;
        }
        let r = BackendSet::from_backends(backends);
        proof {
            assert(r@ =~= with_statuses(self@, probe_ok@));
            if self.wf() {
                assert forall|p: int, q: int| 0 <= p < q < r@.len() implies r@[p].addr@
                    != r@[q].addr@ by {
                    assert(r@[p].addr == self@[p].addr);
                    assert(r@[q].addr == self@[q].addr);
                }
            }
        }
        r
    }
}

} // verus!
