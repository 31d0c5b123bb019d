use vstd::prelude::*;

verus! {

/// Error taxonomy of the gateway core.
///
/// Request-scoped errors terminate only the request that met them;
/// construction-time errors are fatal only at startup, before any
/// traffic is accepted.
#[derive(Clone, Copy, PartialEq, Eq, Structural, Debug)]
pub enum GatewayError {
    /// Every candidate backend is currently unhealthy. Recoverable: the
    /// caller surfaces it as a service-unavailable condition for one
    /// request, and a later health tick may restore a candidate.
    NoHealthyBackend,
    /// Two configured backends share one address. Rejected when the
    /// backend set is constructed, never a runtime condition.
    DuplicateBackendAddress,
    /// A configuration that cannot work: an empty backend list for a
    /// pool, or a per-probe timeout not strictly below the tick
    /// interval. Rejected at startup.
    ConfigurationError,
}

} // verus!
