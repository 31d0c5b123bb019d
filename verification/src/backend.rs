use vstd::prelude::*;

use crate::errors::GatewayError;

verus! {

/// Binary liveness classification of a backend, maintained by periodic
/// probing. A backend is presumed `Healthy` before its first probe
/// completes, so early-startup traffic is not refused outright.
#[derive(Clone, Copy, PartialEq, Eq, Structural, Debug)]
pub enum HealthStatus {
    Healthy,
    Unhealthy,
}

/// One upstream network endpoint eligible to receive proxied requests.
///
/// Identity is the network address (host and port, as written in the
/// configuration); the health status is the only mutable attribute and
/// is updated exclusively by health-snapshot publication.
pub struct Backend {
    pub addr: String,
    pub status: HealthStatus,
}

impl Clone for Backend {
    fn clone(&self) -> (r: Self)
        ensures
            r == *self,
    {
        Backend { addr: self.addr.clone(), status: self.status }
    }
}

/// No two backends in the sequence share an address.
pub open spec fn addrs_unique(s: Seq<Backend>) -> bool {
    forall|i: int, j: int| 0 <= i < j < s.len() ==> s[i].addr@ != s[j].addr@
}

/// Some address occurs twice in the configured list.
pub open spec fn has_duplicate_addr(addrs: Seq<String>) -> bool {
    exists|i: int, j: int| 0 <= i < j < addrs.len() && addrs[i]@ == addrs[j]@
}

/// The healthy backends of `s`, in the order they stand in `s`.
/// Round-robin selection rotates over exactly this subsequence.
pub open spec fn healthy_seq(s: Seq<Backend>) -> Seq<Backend>
    decreases s.len(),
{
    if s.len() == 0 {
        Seq::empty()
    } else if s.last().status == HealthStatus::Healthy {
        healthy_seq(s.drop_last()).push(s.last())
    } else {
        healthy_seq(s.drop_last())
    }
}

/// Every member of the healthy subsequence is a healthy element of `s`.
pub proof fn lemma_healthy_seq_members(s: Seq<Backend>)
    ensures
        forall|k: int| 0 <= k < healthy_seq(s).len() ==> (#[trigger] healthy_seq(s)[k]).status
            == HealthStatus::Healthy && s.contains(healthy_seq(s)[k]),
    decreases s.len(),
{
    if s.len() > 0 {
        lemma_healthy_seq_members(s.drop_last());
        assert forall|k: int| 0 <= k < healthy_seq(s.drop_last()).len() implies s.contains(
            healthy_seq(s.drop_last())[k],
        ) by {
            let b = healthy_seq(s.drop_last())[k];
            let i = choose|i: int| 0 <= i < s.drop_last().len() && s.drop_last()[i] == b;
            assert(s[i] == b);
        }
    }
}

/// Extending the scanned prefix of `s` by one element extends its
/// healthy subsequence by that element exactly when it is healthy.
proof fn lemma_healthy_seq_take_step(s: Seq<Backend>, i: int)
    requires
        0 <= i < s.len(),
    ensures
        healthy_seq(s.take(i + 1)) == if s[i].status == HealthStatus::Healthy {
            healthy_seq(s.take(i)).push(s[i])
        } else {
            healthy_seq(s.take(i))
        },
{
    assert(s.take(i + 1).drop_last() =~= s.take(i));
    assert(s.take(i + 1).last() == s[i]);
}

/// An immutable-snapshot, ordered collection of candidate backends,
/// unique by address. Insertion order defines the default selection
/// order for the round-robin policy. Health updates never mutate a set
/// in place: a fully built successor snapshot replaces it whole, so a
/// reader observes either the old set or the new one, never a mix.
pub struct BackendSet {
    backends: Vec<Backend>,
}

impl View for BackendSet {
    type V = Seq<Backend>;

    closed spec fn view(&self) -> Seq<Backend> {
        self.backends@
    }
}

impl BackendSet {
    /// Invariant: no duplicate addresses.
    pub open spec fn wf(&self) -> bool {
        addrs_unique(self@)
    }

    /// Builds a set from the configured address list, every backend
    /// initially `Healthy`. Fails fast on a duplicated address.
    pub fn new(addrs: Vec<String>) -> (r: Result<BackendSet, GatewayError>)
        ensures
            match r {
                Ok(set) => !has_duplicate_addr(addrs@) && set.wf() && set@.len() == addrs@.len()
                    && forall|i: int|
                    0 <= i < addrs@.len() ==> (#[trigger] set@[i]).addr@ == addrs@[i]@
                        && set@[i].status == HealthStatus::Healthy,
                Err(e) => e == GatewayError::DuplicateBackendAddress && has_duplicate_addr(addrs@),
            },
    {
        let n = addrs.len();
        let mut i: usize = 0;
        while i < n
            invariant
                n == addrs@.len(),
                i <= n,
                forall|p: int, q: int| 0 <= p < q < i ==> addrs@[p]@ != addrs@[q]@,
            decreases n - i,
        {
            let mut j: usize = 0;
            while j < i
                invariant
                    i < n,
                    n == addrs@.len(),
                    j <= i,
                    forall|p: int| 0 <= p < j ==> addrs@[p]@ != addrs@[i as int]@,
                decreases i - j,
            {
                if addrs[j] == addrs[i] {
                    return Err(GatewayError::DuplicateBackendAddress);
                }
                j += 1;
            }
            i += 1;
        }
        let mut backends: Vec<Backend> = Vec::new();
        let mut k: usize = 0;
        while k < n
            invariant
                n == addrs@.len(),
                k <= n,
                backends@.len() == k,
                forall|p: int|
                    0 <= p < k ==> (#[trigger] backends@[p]).addr@ == addrs@[p]@
                        && backends@[p].status == HealthStatus::Healthy,
                forall|p: int, q: int| 0 <= p < q < n ==> addrs@[p]@ != addrs@[q]@,
            decreases n - k,
        {
            backends.push(Backend { addr: addrs[k].clone(), status: HealthStatus::Healthy });
            k += 1;
        }
        Ok(BackendSet { backends })
    }

    /// Wraps an already validated backend sequence; used when one
    /// snapshot is derived from another.
    pub(crate) fn from_backends(backends: Vec<Backend>) -> (r: BackendSet)
        ensures
            r@ == backends@,
    {
        BackendSet { backends }
    }

    /// The backend at position `i` in configuration order.
    pub fn get(&self, i: usize) -> (b: &Backend)
        requires
            i < self@.len(),
        ensures
            *b == self@[i as int],
    {
        &self.backends[i]
    }

    /// Number of configured backends.
    pub fn len(&self) -> (n: usize)
        ensures
            n == self@.len(),
    {
        self.backends.len()
    }

    /// The healthy subset, cloned in configuration order.
    pub fn healthy_backends(&self) -> (r: Vec<Backend>)
        ensures
            r@ == healthy_seq(self@),
    {
        let n = self.backends.len();
        let mut r: Vec<Backend> = Vec::new();
        let mut i: usize = 0;
        while i < n
            invariant
                n == self@.len(),
                i <= n,
                r@ == healthy_seq(self@.take(i as int)),
            decreases n - i,
        {
            proof {
                lemma_healthy_seq_take_step(self@, i as int);
            }
            let b = &self.backends[i];
            if matches!(b.status, HealthStatus::Healthy) {
                r.push(b.clone());
            }
            i += 1;
        }
        proof {
            assert(self@.take(n as int) =~= self@);
        }
        r
    }
}

} // verus!
