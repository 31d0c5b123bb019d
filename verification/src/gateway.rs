use vstd::prelude::*;

use crate::backend::{healthy_seq, Backend, HealthStatus};
use crate::errors::GatewayError;
use crate::health::with_statuses;
use crate::metrics::{CounterEntry, MetricsSink};
use crate::mutate::{OutboundRequest, RequestMutator};
use crate::pool::BackendPool;
use crate::router::{Router, ServiceId};
use crate::selection::wrapping_inc;

verus! {

/// Per-request scratch state, created when a request enters the
/// gateway and dropped when its response completes. It carries the
/// routing input and the resolved backend address through the
/// pipeline, so the response stage can attribute metrics without
/// re-deriving the decision.
pub struct GWCtx {
    /// Whether the request carried the routing signal for service B.
    pub service_b: bool,
    /// Address of the backend the request was resolved to; `None`
    /// until selection succeeds.
    pub upstream: Option<String>,
}

impl Default for GWCtx {
    fn default() -> (r: Self)
        ensures
            r.service_b == false,
            r.upstream is None,
    {
        GWCtx { service_b: false, upstream: None }
    }
}

/// The per-request decision pipeline: a router, one backend pool per
/// service, a request mutator and a metrics sink, composed in the
/// order route, select, rewrite, record. The gateway owns its metrics
/// sink outright; its counters live exactly as long as the gateway.
pub struct Gateway {
    router: Router,
    mutator: RequestMutator,
    pool_a: BackendPool,
    pool_b: BackendPool,
    sink: MetricsSink,
    service_a_name: String,
    service_b_name: String,
}

impl Gateway {
    /// The configured router.
    pub closed spec fn router(&self) -> Router {
        self.router
    }

    /// The configured request mutator.
    pub closed spec fn mutator(&self) -> RequestMutator {
        self.mutator
    }

    /// The owned metrics sink.
    pub closed spec fn sink(&self) -> MetricsSink {
        self.sink
    }

    /// The pool serving one service.
    pub closed spec fn pool(&self, sid: ServiceId) -> BackendPool {
        match sid {
            ServiceId::ServiceA => self.pool_a,
            ServiceId::ServiceB => self.pool_b,
        }
    }

    /// The metrics label configured for one service.
    pub closed spec fn service_name(&self, sid: ServiceId) -> Seq<char> {
        match sid {
            ServiceId::ServiceA => self.service_a_name@,
            ServiceId::ServiceB => self.service_b_name@,
        }
    }

    /// The service that serves a request whose context is `ctx`.
    pub open spec fn routed_service(&self, ctx: GWCtx) -> ServiceId {
        self.router().route_spec(ctx.service_b)
    }

    /// The counter key a completed request is attributed to.
    pub open spec fn metrics_key(&self, ctx: GWCtx) -> (Seq<char>, Seq<char>)
        recommends
            ctx.upstream is Some,
    {
        (self.service_name(self.routed_service(ctx)), ctx.upstream->0@)
    }

    /// Both pools valid, counters keyed uniquely.
    pub open spec fn wf(&self) -> bool {
        self.pool(ServiceId::ServiceA).wf() && self.pool(ServiceId::ServiceB).wf()
            && self.sink().wf()
    }

    /// The parts of a gateway that request handling never changes.
    pub open spec fn same_config(&self, other: &Gateway) -> bool {
        self.router() == other.router() && self.mutator() == other.mutator()
            && self.service_name(ServiceId::ServiceA) == other.service_name(ServiceId::ServiceA)
            && self.service_name(ServiceId::ServiceB) == other.service_name(ServiceId::ServiceB)
    }

    /// Composes a gateway from its configured collaborators, with a
    /// fresh metrics sink whose counters all read zero.
    pub fn new(
        router: Router,
        mutator: RequestMutator,
        pool_a: BackendPool,
        pool_b: BackendPool,
        service_a_name: String,
        service_b_name: String,
    ) -> (g: Gateway)
        requires
            pool_a.wf(),
            pool_b.wf(),
        ensures
            g.wf(),
            g.router() == router,
            g.mutator() == mutator,
            g.pool(ServiceId::ServiceA) == pool_a,
            g.pool(ServiceId::ServiceB) == pool_b,
            g.service_name(ServiceId::ServiceA) == service_a_name@,
            g.service_name(ServiceId::ServiceB) == service_b_name@,
            forall|s: Seq<char>, b: Seq<char>| g.sink().count_of(s, b) == 0,
    {
        Gateway {
            router,
            mutator,
            pool_a,
            pool_b,
            sink: MetricsSink::new(),
            service_a_name,
            service_b_name,
        }
    }

    /// A fresh per-request context: no signal seen, no backend
    /// resolved.
    pub fn new_ctx(&self) -> (ctx: GWCtx)
        ensures
            ctx.service_b == false,
            ctx.upstream is None,
    {
        GWCtx::default()
    }

    /// Records in the context whether the incoming request carries the
    /// routing signal; the rest of the context is untouched.
    pub fn request_filter(&self, ctx: &mut GWCtx, has_signal: bool)
        ensures
            final(ctx).service_b == has_signal,
            final(ctx).upstream == old(ctx).upstream,
    {
        ctx.service_b = has_signal;
    }

    /// Routes the request to its service's pool and selects a backend
    /// there. On success the chosen backend — always a healthy member
    /// of the routed pool — is recorded in the context and that pool's
    /// cursor advances by one; the other pool, the sink and the
    /// configuration are untouched. With no healthy candidate the
    /// request fails with `NoHealthyBackend` and nothing changes.
    pub fn upstream_peer(&mut self, ctx: &mut GWCtx, key: &[u8]) -> (r: Result<
        Backend,
        GatewayError,
    >)
        requires
            old(self).wf(),
        ensures
            final(self).wf(),
            final(self).same_config(&*old(self)),
            final(self).sink() == old(self).sink(),
            final(ctx).service_b == old(ctx).service_b,
            ({
                let sid = old(self).routed_service(*old(ctx));
                let other = if sid == ServiceId::ServiceA {
                    ServiceId::ServiceB
                } else {
                    ServiceId::ServiceA
                };
                let p = old(self).pool(sid);
                let healthy = healthy_seq(p.backends());
                final(self).pool(other) == old(self).pool(other)
                    && final(self).pool(sid).backends() == p.backends()
                    && if healthy.len() == 0 {
                    r == Err::<Backend, GatewayError>(GatewayError::NoHealthyBackend)
                        && final(self).pool(sid).cursor() == p.cursor()
                        && final(ctx).upstream == old(ctx).upstream
                } else {
                    let chosen = healthy[(p.cursor() as int) % (healthy.len() as int)];
                    r == Ok::<Backend, GatewayError>(chosen)
                        && final(self).pool(sid).cursor() == wrapping_inc(p.cursor())
                        && final(ctx).upstream == Some(chosen.addr)
                        && chosen.status == HealthStatus::Healthy
                }
            }),
            r matches Ok(b) ==> old(self).pool(
                old(self).routed_service(*old(ctx)),
            ).backends().contains(b),
    {
        let sid = self.router.route(ctx.service_b);
        let selected = match sid {
            ServiceId::ServiceA => self.pool_a.select(key),
            ServiceId::ServiceB => self.pool_b.select(key),
        };
        match selected {
            Ok(b) => {
                ctx.upstream = Some(b.addr.clone());
                Ok(b)
            },
            Err(e) => Err(e),
        }
    }

    /// Rewrites the outbound request for its destination: the
    /// virtual-host identifier becomes the value configured for the
    /// routed service, and every other field keeps its value.
    pub fn upstream_request_filter(&self, req: &mut OutboundRequest, ctx: &GWCtx)
        ensures
            final(req).host@ == self.mutator().host_for(self.routed_service(*ctx)),
            final(req).method == old(req).method,
            final(req).path == old(req).path,
    {
        let sid = self.router.route(ctx.service_b);
        self.mutator.rewrite(req, sid);
    }

    /// Attributes one completed request to (routed service, resolved
    /// backend): that counter grows by exactly one and every other
    /// counter is untouched, as are both pools and the configuration.
    /// The caller invokes this exactly once per request whose
    /// selection succeeded; a request that failed selection never
    /// resolved a backend and is not counted.
    pub fn response_filter(&mut self, ctx: &GWCtx)
        requires
            old(self).wf(),
            ctx.upstream is Some,
            old(self).sink().count_of(
                old(self).metrics_key(*ctx).0,
                old(self).metrics_key(*ctx).1,
            ) < u64::MAX,
        ensures
            final(self).wf(),
            final(self).same_config(&*old(self)),
            final(self).pool(ServiceId::ServiceA) == old(self).pool(ServiceId::ServiceA),
            final(self).pool(ServiceId::ServiceB) == old(self).pool(ServiceId::ServiceB),
            final(self).sink().count_of(old(self).metrics_key(*ctx).0, old(self).metrics_key(*ctx).1)
                == old(self).sink().count_of(
                old(self).metrics_key(*ctx).0,
                old(self).metrics_key(*ctx).1,
            ) + 1,
            forall|s: Seq<char>, b: Seq<char>|
                !(s == old(self).metrics_key(*ctx).0 && b == old(self).metrics_key(*ctx).1)
                    ==> final(self).sink().count_of(s, b) == old(self).sink().count_of(s, b),
    {
        let sid = self.router.route(ctx.service_b);
        let upstream = ctx.upstream.as_ref().unwrap();
        match sid {
            ServiceId::ServiceA => {
                let name = &self.service_a_name;
                self.sink.increment(name, upstream);
            },
            ServiceId::ServiceB => {
                let name = &self.service_b_name;
                self.sink.increment(name, upstream);
            },
        }
    }

    /// The current count for one (service label, backend address)
    /// counter, for external exposition.
    pub fn counter(&self, service: &String, backend: &String) -> (c: u64)
        requires
            self.wf(),
        ensures
            c == self.sink().count_of(service@, backend@),
    {
        self.sink.get(service, backend)
    }

    /// All counters, cloned for external exposition.
    pub fn metrics_snapshot(&self) -> (r: Vec<CounterEntry>)
        ensures
            r@ == self.sink()@,
    {
        self.sink.snapshot()
    }

    /// Number of configured backends in one service's pool; a health
    /// tick must hand `publish_health` one probe result per backend.
    pub fn pool_len(&self, sid: ServiceId) -> (n: usize)
        ensures
            n == self.pool(sid).backends().len(),
    {
        match sid {
            ServiceId::ServiceA => self.pool_a.len(),
            ServiceId::ServiceB => self.pool_b.len(),
        }
    }

    /// The currently healthy backends of one service's pool.
    pub fn healthy_backends(&self, sid: ServiceId) -> (r: Vec<Backend>)
        ensures
            r@ == healthy_seq(self.pool(sid).backends()),
    {
        match sid {
            ServiceId::ServiceA => self.pool_a.healthy_backends(),
            ServiceId::ServiceB => self.pool_b.healthy_backends(),
        }
    }

    /// Publishes one health tick's probe results into one service's
    /// pool as a whole-snapshot replacement; the other pool, the
    /// cursors, the sink and the configuration are untouched.
    pub fn publish_health(&mut self, sid: ServiceId, probe_ok: &Vec<bool>)
        requires
            old(self).wf(),
            probe_ok@.len() == old(self).pool(sid).backends().len(),
        ensures
            final(self).wf(),
            final(self).same_config(&*old(self)),
            final(self).sink() == old(self).sink(),
            final(self).pool(sid).backends() == with_statuses(
                old(self).pool(sid).backends(),
                probe_ok@,
            ),
            final(self).pool(sid).cursor() == old(self).pool(sid).cursor(),
            ({
                let other = if sid == ServiceId::ServiceA {
                    ServiceId::ServiceB
                } else {
                    ServiceId::ServiceA
                };
                final(self).pool(other) == old(self).pool(other)
            }),
    {
        match sid {
            ServiceId::ServiceA => self.pool_a.publish_health(probe_ok),
            ServiceId::ServiceB => self.pool_b.publish_health(probe_ok),
        }
    }
}

} // verus!
