use vstd::prelude::*;

verus! {

/// The logical services a gateway can route to, enumerated at
/// configuration time. An explicit tag keeps the routing decision
/// statically enumerable and exhaustively testable.
#[derive(Clone, Copy, PartialEq, Eq, Structural, Debug)]
pub enum ServiceId {
    ServiceA,
    ServiceB,
}

/// Decides which service's pool serves a request.
///
/// The only routing input is a single request-level marker (the
/// presence of a designated header): a request that carries the signal
/// goes to service B, one that lacks it falls back to the configured
/// default service. The router never mutates the request; it only
/// decides, as a pure function of that input.
pub struct Router {
    default_service: ServiceId,
}

impl Router {
    /// The service a request without the routing signal falls back to.
    pub closed spec fn default_service(&self) -> ServiceId {
        self.default_service
    }

    /// The routing decision as a function of the signal alone.
    pub open spec fn route_spec(&self, has_signal: bool) -> ServiceId {
        if has_signal {
            ServiceId::ServiceB
        } else {
            self.default_service()
        }
    }

    pub fn new(default_service: ServiceId) -> (r: Router)
        ensures
            r.default_service() == default_service,
    {
        Router { default_service }
    }

    /// Routes one request. A request carrying the routing signal is
    /// served by service B; one lacking it is served by the default
    /// service rather than failing.
    pub fn route(&self, has_signal: bool) -> (sid: ServiceId)
        ensures
            sid == self.route_spec(has_signal),
    {
        if has_signal {
            ServiceId::ServiceB
        } else {
            self.default_service
        }
    }
}

/// Routing determinism: for a fixed routing signal value, the routing
/// decision of one router is always the same service id; two calls on
/// the same input cannot disagree.
pub proof fn lemma_route_deterministic(
    router: Router,
    has_signal: bool,
    first: ServiceId,
    second: ServiceId,
)
    requires
        first == router.route_spec(has_signal),
        second == router.route_spec(has_signal),
    ensures
        first == second,
{
}

} // verus!
