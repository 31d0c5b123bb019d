use vstd::prelude::*;

use crate::router::ServiceId;

verus! {

/// Outbound request metadata handed to the transport after the
/// routing decision. Only the fields the gateway core reads or writes
/// are modelled; the wire format is the transport's business.
pub struct OutboundRequest {
    /// Request method, untouched by the core.
    pub method: String,
    /// Request path, untouched by the core.
    pub path: String,
    /// Virtual-host / forwarding identifier; the one field the
    /// mutator rewrites before the request is forwarded.
    pub host: String,
}

/// Rewrites outbound request metadata before forwarding: sets the
/// virtual-host identifier to the value statically configured for the
/// destination service, and touches nothing else. The side effect is
/// confined to the one designated field of the request object; there
/// is no global state.
pub struct RequestMutator {
    host_a: String,
    host_b: String,
}

impl RequestMutator {
    /// The virtual-host value configured for a destination service.
    pub closed spec fn host_for(&self, service: ServiceId) -> Seq<char> {
        match service {
            ServiceId::ServiceA => self.host_a@,
            ServiceId::ServiceB => self.host_b@,
        }
    }

    pub fn new(host_a: String, host_b: String) -> (r: RequestMutator)
        ensures
            r.host_for(ServiceId::ServiceA) == host_a@,
            r.host_for(ServiceId::ServiceB) == host_b@,
    {
        RequestMutator { host_a, host_b }
    }

    /// Sets the outbound virtual-host identifier for the chosen
    /// destination; method and path are left untouched.
    pub fn rewrite(&self, req: &mut OutboundRequest, service: ServiceId)
        ensures
            final(req).host@ == self.host_for(service),
            final(req).method == old(req).method,
            final(req).path == old(req).path,
    {
        req.host = match service {
            ServiceId::ServiceA => self.host_a.clone(),
            ServiceId::ServiceB => self.host_b.clone(),
        };
    }
}

} // verus!
