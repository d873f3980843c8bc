//! The dispatch engine: the handler registry, routing, rate limiting and
//! the per-request decisions between direct and deferred execution.

use vstd::prelude::*;
use crate::assoc::Assoc;
use crate::key::{create_route_key_fast, route_key_of, select_worker, upper, worker_index};
use crate::ratelimit::{
    admits, after_request, RateLimitConfig, RateLimiter, Window, DEFAULT_REQUESTS_PER_MINUTE,
};
use crate::response::{
    decimal, diagnostic_response, diagnostic_view, error_view, handler_error_response,
    not_found_response, not_found_view, rate_limited_response, rate_limited_view, success_response,
    success_view, unavailable_response, unavailable_view, Response, ResponseView,
};
use crate::router::{match_view, resolves_to, RouteMap, RouteTable};
use crate::text::{chars_of, push_chars};

verus! {

/// The port used when none is given.
pub const DEFAULT_PORT: u16 = 8000;

/// A registered handler and whether it must run on a worker.
pub struct HandlerMetadata<H> {
    pub handler: H,
    pub is_deferred: bool,
}

/// What the engine decided for a request.
pub enum Plan {
    /// Send this response; no handler runs.
    Respond(Response),
    /// Run the handler registered under `route_key` on the current context.
    Direct { route_key: String },
    /// Hand the request to worker `worker`, which runs the handler
    /// registered under `route_key`.
    Deferred { route_key: String, worker: usize },
}

/// How a handler invocation ended.
pub enum HandlerOutcome {
    /// The handler's serialized result.
    Success(String),
    /// The handler's error text.
    Failure(String),
    /// The worker could not take the request or never answered.
    Unavailable,
}

/// Worker threads for the connection runtime: three per core, at most 24,
/// at least 8; four cores are assumed when the count is unknown.
pub open spec fn worker_threads_for(cpu_cores: Option<usize>) -> nat {
    let c: nat = match cpu_cores {
        Some(n) => n as nat,
        None => 4,
    };
    let t: nat = if 3 * c < 24 { 3 * c } else { 24 };
    if t < 8 { 8 } else { t }
}

/// Workers for deferred handlers: one per core, at least 8; 8 when the
/// count is unknown.
pub open spec fn deferred_workers_for(cpu_cores: Option<usize>) -> nat {
    match cpu_cores {
        Some(n) => if n < 8 { 8 } else { n as nat },
        None => 8,
    }
}

/// Worker threads for the connection runtime.
pub fn worker_threads(cpu_cores: Option<usize>) -> (r: usize)
    ensures
        r == worker_threads_for(cpu_cores),
{
    let c = match cpu_cores {
        Some(n) => n,
        None => 4,
    };
    let t = if c < 8 { c * 3 } else { 24 };
    let t = if t < 24 { t } else { 24 };
    if t < 8 { 8 } else { t }
}

/// Workers for deferred handlers.
pub fn deferred_worker_count(cpu_cores: Option<usize>) -> (r: usize)
    ensures
        r == deferred_workers_for(cpu_cores),
        r >= 8,
{
    match cpu_cores {
        Some(n) => if n < 8 { 8 } else { n },
        None => 8,
    }
}

/// What `plan_route` decides, given the handlers and the routes, and, for
/// requests that reach the route table without a handler, what the route
/// table resolves.
pub open spec fn route_plan_for<H>(
    handlers: Map<Seq<char>, HandlerMetadata<H>>,
    routes: RouteMap,
    method: Seq<char>,
    path: Seq<char>,
    worker_count: nat,
    found: Option<(Seq<char>, Seq<(Seq<char>, Seq<char>)>)>,
    plan: Plan,
) -> bool {
    let k = route_key_of(method, path);
    if handlers.contains_key(k) {
        if handlers[k].is_deferred {
            plan is Deferred && plan->Deferred_route_key@ == k && plan->Deferred_worker as nat == worker_index(
                k,
                worker_count,
            )
        } else {
            plan is Direct && plan->Direct_route_key@ == k
        }
    } else {
        &&& resolves_to(routes, method, path, found)
        &&& plan is Respond
        &&& plan->Respond_0.view() == match found {
            Some(f) => diagnostic_view(method, path, k, f.1),
            None => not_found_view(method, path),
        }
    }
}

/// What `begin_request` decides: the rate-limit response for a client over
/// its quota, else what `plan_route` decides.
pub open spec fn plan_for<H>(
    handlers: Map<Seq<char>, HandlerMetadata<H>>,
    routes: RouteMap,
    config: RateLimitConfig,
    window: Option<Window>,
    method: Seq<char>,
    path: Seq<char>,
    now: u64,
    worker_count: nat,
    found: Option<(Seq<char>, Seq<(Seq<char>, Seq<char>)>)>,
    plan: Plan,
) -> bool {
    if config.enabled && !admits(window, now, config.requests_per_minute) {
        plan is Respond && plan->Respond_0.view() == rate_limited_view()
    } else {
        route_plan_for(handlers, routes, method, path, worker_count, found, plan)
    }
}

/// What `finish_request` answers for a handler outcome.
pub open spec fn outcome_view(outcome: HandlerOutcome, method: Seq<char>, path: Seq<char>, now: u64) -> ResponseView {
    match outcome {
        HandlerOutcome::Success(s) => success_view(method, s@),
        HandlerOutcome::Failure(e) => error_view(e@, method, path, now),
        HandlerOutcome::Unavailable => unavailable_view(),
    }
}

/// The engine: handler registry, route table, rate limiting and settings.
pub struct TurboServer<H> {
    handlers: Assoc<HandlerMetadata<H>>,
    router: RouteTable,
    host: String,
    port: u16,
    worker_threads: usize,
    rate_limit: RateLimitConfig,
    limiter: RateLimiter,
}

impl<H> TurboServer<H> {
    /// Route key to handler.
    pub closed spec fn handlers(&self) -> Map<Seq<char>, HandlerMetadata<H>> {
        self.handlers.view()
    }

    /// Route key to `(method, template)`.
    pub closed spec fn routes(&self) -> RouteMap {
        self.router.view()
    }

    /// Client to window.
    pub closed spec fn windows(&self) -> Map<Seq<char>, Window> {
        self.limiter.view()
    }

    pub closed spec fn rate_limit(&self) -> RateLimitConfig {
        self.rate_limit
    }

    pub closed spec fn host_spec(&self) -> Seq<char> {
        self.host@
    }

    pub closed spec fn port_spec(&self) -> u16 {
        self.port
    }

    pub closed spec fn worker_threads_spec(&self) -> nat {
        self.worker_threads as nat
    }

    pub closed spec fn wf(&self) -> bool {
        &&& self.handlers.wf()
        &&& self.router.wf()
        &&& self.limiter.wf()
    }

    /// A server with no routes, rate limiting off, the given host and port
    /// (127.0.0.1 and 8000 by default), sized for `cpu_cores` cores.
    pub fn new(host: Option<String>, port: Option<u16>, cpu_cores: Option<usize>) -> (r: Self)
        ensures
            r.wf(),
            r.host_spec() == match host {
                Some(h) => h@,
                None => "127.0.0.1"@,
            },
            r.port_spec() == match port {
                Some(p) => p,
                None => DEFAULT_PORT,
            },
            r.worker_threads_spec() == worker_threads_for(cpu_cores),
            r.handlers() == Map::<Seq<char>, HandlerMetadata<H>>::empty(),
            r.routes() == RouteMap::empty(),
            r.windows() == Map::<Seq<char>, Window>::empty(),
            !r.rate_limit().enabled,
            r.rate_limit().requests_per_minute == DEFAULT_REQUESTS_PER_MINUTE,
    {
        let host = match host {
            Some(h) => h,
            None => "127.0.0.1".to_string(),
        };
        let port = match port {
            Some(p) => p,
            None => DEFAULT_PORT,
        };
        TurboServer {
            handlers: Assoc::new(),
            router: RouteTable::new(),
            host,
            port,
            worker_threads: worker_threads(cpu_cores),
            rate_limit: RateLimitConfig { enabled: false, requests_per_minute: DEFAULT_REQUESTS_PER_MINUTE },
            limiter: RateLimiter::new(),
        }
    }

    /// The host to bind.
    pub fn host(&self) -> (r: &String)
        ensures
            r@ == self.host_spec(),
    {
        &self.host
    }

    /// The port to bind.
    pub fn port(&self) -> (r: u16)
        ensures
            r == self.port_spec(),
    {
        self.port
    }

    /// Worker threads for the connection runtime.
    pub fn worker_thread_count(&self) -> (r: usize)
        ensures
            r == self.worker_threads_spec(),
    {
        self.worker_threads
    }

    /// The rate-limit settings.
    pub fn rate_limit_config(&self) -> (r: RateLimitConfig)
        ensures
            r == self.rate_limit(),
    {
        self.rate_limit
    }

    /// Replaces the rate-limit settings.
    pub fn set_rate_limit(&mut self, config: RateLimitConfig)
        requires
            old(self).wf(),
        ensures
            final(self).wf(),
            final(self).rate_limit() == config,
            final(self).handlers() == old(self).handlers(),
            final(self).routes() == old(self).routes(),
            final(self).windows() == old(self).windows(),
    {
        self.rate_limit = config;
    }

    /// Registers `handler` for `method` and `path`, with its classification
    /// made once here; a later registration of the same route replaces it.
    pub fn add_route(&mut self, method: &str, path: &str, handler: H, is_deferred: bool)
        requires
            old(self).wf(),
        ensures
            final(self).wf(),
            final(self).handlers() == old(self).handlers().insert(
                route_key_of(method@, path@),
                HandlerMetadata { handler, is_deferred },
            ),
            final(self).routes() == old(self).routes().insert(
                route_key_of(method@, path@),
                (upper(method@), path@),
            ),
            final(self).windows() == old(self).windows(),
            final(self).rate_limit() == old(self).rate_limit(),
    {
        let key = create_route_key_fast(method, path);
        self.handlers.insert(chars_of(key.as_str()), HandlerMetadata { handler, is_deferred });
        self.router.register(method, path);
    }

    /// The handler registered under `route_key`.
    pub fn handler(&self, route_key: &str) -> (r: Option<&HandlerMetadata<H>>)
        requires
            self.wf(),
        ensures
            match r {
                Some(m) => self.handlers().contains_key(route_key@) && *m == self.handlers()[route_key@],
                None => !self.handlers().contains_key(route_key@),
            },
    {
        self.handlers.get(&chars_of(route_key))
    }

    /// Decides what to do with a request: refuse it over the client's
    /// quota, run its handler directly or on the worker its route key
    /// hashes to, or answer from the route table.
    pub fn begin_request(&mut self, method: &str, path: &str, client: &str, now: u64, worker_count: usize) -> (r:
        Plan)
        requires
            old(self).wf(),
            worker_count > 0,
        ensures
            final(self).wf(),
            final(self).handlers() == old(self).handlers(),
            final(self).routes() == old(self).routes(),
            final(self).rate_limit() == old(self).rate_limit(),
            final(self).windows() == if old(self).rate_limit().enabled {
                after_request(old(self).windows(), client@, now)
            } else {
                old(self).windows()
            },
            exists|found: Option<(Seq<char>, Seq<(Seq<char>, Seq<char>)>)>|
                plan_for(
                    old(self).handlers(),
                    old(self).routes(),
                    old(self).rate_limit(),
                    old(self).windows().get(client@),
                    method@,
                    path@,
                    now,
                    worker_count as nat,
                    found,
                    r,
                ),
    {
        if self.rate_limit.enabled {
            let ok = self.limiter.check_rate_limit(client, now, self.rate_limit.requests_per_minute);
            if !ok {
                let r = Plan::Respond(rate_limited_response());
                assert(plan_for(
                    old(self).handlers(),
                    old(self).routes(),
                    old(self).rate_limit(),
                    old(self).windows().get(client@),
                    method@,
                    path@,
                    now,
                    worker_count as nat,
                    None,
                    r,
                ));
                return r;
            }
        }
        let r = self.plan_route(method, path, worker_count);
        proof {
            let found = choose|found: Option<(Seq<char>, Seq<(Seq<char>, Seq<char>)>)>|
                route_plan_for(self.handlers(), self.routes(), method@, path@, worker_count as nat, found, r);
            assert(plan_for(
                old(self).handlers(),
                old(self).routes(),
                old(self).rate_limit(),
                old(self).windows().get(client@),
                method@,
                path@,
                now,
                worker_count as nat,
                found,
                r,
            ));
        }
        r
    }

    /// Decides how to serve a request that was not rate limited: run its
    /// handler directly or on the worker its route key hashes to, or answer
    /// from the route table.
    pub fn plan_route(&self, method: &str, path: &str, worker_count: usize) -> (r: Plan)
        requires
            self.wf(),
            worker_count > 0,
        ensures
            exists|found: Option<(Seq<char>, Seq<(Seq<char>, Seq<char>)>)>|
                route_plan_for(self.handlers(), self.routes(), method@, path@, worker_count as nat, found, r),
    {
        let key = create_route_key_fast(method, path);
        match self.handlers.get(&chars_of(key.as_str())) {
            Some(meta) => {
                let r = if meta.is_deferred {
                    let worker = select_worker(key.as_str(), worker_count);
                    Plan::Deferred { route_key: key, worker }
                } else {
                    Plan::Direct { route_key: key }
                };
                assert(route_plan_for(self.handlers(), self.routes(), method@, path@, worker_count as nat, None, r));
                r
            },
            None => {
                let found = self.router.resolve(method, path);
                let r = match &found {
                    Some(rm) => Plan::Respond(diagnostic_response(method, path, key.as_str(), &rm.params)),
                    None => Plan::Respond(not_found_response(method, path)),
                };
                assert(route_plan_for(
                    self.handlers(),
                    self.routes(),
                    method@,
                    path@,
                    worker_count as nat,
                    match_view(found),
                    r,
                ));
                r
            },
        }
    }

    /// A summary of the server's address and settings.
    pub fn info(&self) -> (r: String)
        ensures
            r@ == info_text(self.host_spec(), self.port_spec(), self.worker_threads_spec()),
    {
        let mut s = String::new();
        s.append("TurboServer running on ");
        push_chars(&mut s, &chars_of(self.host.as_str()));
        s.append(":");
        crate::response::push_decimal(&mut s, self.port as u64);
        s.append("\n   Worker threads: ");
        crate::response::push_decimal(&mut s, self.worker_threads as u64);
        s.append(" (3x CPU cores, between 8 and 24)");
        assert(s@ =~= info_text(self.host_spec(), self.port_spec(), self.worker_threads_spec()));
        s
    }
}

/// The summary that `info` returns.
pub open spec fn info_text(host: Seq<char>, port: u16, worker_threads: nat) -> Seq<char> {
    "TurboServer running on "@ + host + ":"@ + decimal(port as nat) + "\n   Worker threads: "@ + decimal(
        worker_threads,
    ) + " (3x CPU cores, between 8 and 24)"@
}

/// Shapes the response for a handler's outcome.
pub fn finish_request(method: &str, path: &str, outcome: HandlerOutcome, now: u64) -> (r: Response)
    ensures
        r.view() == outcome_view(outcome, method@, path@, now),
{
    match outcome {
        HandlerOutcome::Success(s) => success_response(method, s),
        HandlerOutcome::Failure(e) => handler_error_response(e.as_str(), method, path, now),
        HandlerOutcome::Unavailable => unavailable_response(),
    }
}

/// Registering the same route and handler twice leaves the registry and
/// the route table as registering it once, so every later request is
/// planned alike.
pub proof fn lemma_add_route_idempotent<H>(
    handlers: Map<Seq<char>, HandlerMetadata<H>>,
    routes: RouteMap,
    method: Seq<char>,
    path: Seq<char>,
    meta: HandlerMetadata<H>,
)
    ensures
        handlers.insert(route_key_of(method, path), meta).insert(route_key_of(method, path), meta)
            == handlers.insert(route_key_of(method, path), meta),
        routes.insert(route_key_of(method, path), (upper(method), path)).insert(
            route_key_of(method, path),
            (upper(method), path),
        ) == routes.insert(route_key_of(method, path), (upper(method), path)),
{
    assert(handlers.insert(route_key_of(method, path), meta).insert(route_key_of(method, path), meta)
        =~= handlers.insert(route_key_of(method, path), meta));
    crate::router::lemma_register_idempotent(routes, method, path);
}

} // verus!
