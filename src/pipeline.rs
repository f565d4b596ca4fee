use vstd::prelude::*;
use vstd::string::*;

use crate::context::{is_uuid_v4_text, EdgeContext};
use crate::metrics::{admitted, counted, label_hash, MetricsRegistry};
use crate::plugin::{
    chain_request, chain_response, run_request_chain, run_response_chain, EdgePlugin, Header,
    PluginRequest, PluginResponse,
};
use crate::routes::{RouteError, RouteTable};

verus! {

/// The path that serves the metrics exposition instead of being forwarded.
pub const METRICS_PATH: &'static str = "/metrics";

/// Status of the response sent when the upstream call fails.
pub const BAD_GATEWAY: u16 = 502;

/// Body of the response sent when the upstream call fails.
pub const UPSTREAM_ERROR_BODY: &'static str = "upstream error";

/// Status of the response sent when no route matches the path.
pub const NOT_FOUND: u16 = 404;

/// The upstream call failed: connect, timeout or protocol error.
#[derive(Debug, Clone, Copy, PartialEq, Eq)]
pub enum UpstreamError {
    Unavailable,
}

/// What to do with an accepted request.
#[derive(Debug, Clone, Copy, PartialEq, Eq)]
pub enum Admission {
    /// Answer with the metrics exposition; nothing is counted.
    Metrics,
    /// Forward through the plugin chain; the request is now in flight.
    Forward,
}

/// Whether `path` is exactly the metrics path.
pub fn is_metrics_path(path: &str) -> (r: bool)
    ensures
        r == (path@ == METRICS_PATH@),
{
    String::from_str(path) == String::from_str(METRICS_PATH)
}

/// Accepts a request for `path`: the metrics path bypasses the pipeline and
/// leaves the registry as it is; any other path puts one more request in
/// flight.
pub fn accept_request(metrics: &mut MetricsRegistry, path: &str) -> (r: Admission)
    requires
        path@ != METRICS_PATH@ ==> old(metrics).active() < i64::MAX,
    ensures
        (r == Admission::Metrics) == (path@ == METRICS_PATH@),
        r == Admission::Metrics ==> *final(metrics) == *old(metrics),
        r == Admission::Forward ==> admitted(*old(metrics), *final(metrics)) && final(metrics).active() > 0,
{
    if is_metrics_path(path) {
        Admission::Metrics
    } else {
        metrics.gauge_inc();
        Admission::Forward
    }
}

/// `after` is `before` with one request of `route` answered with `status`
/// counted (its series grows by one, every series filed under another key
/// stays as it was) and taken out of flight.
pub open spec fn completed(
    before: MetricsRegistry,
    after: MetricsRegistry,
    route: Seq<char>,
    status: u16,
) -> bool {
    &&& after.active() == before.active() - 1
    &&& counted(before, after, route, status)
}

/// Finishes a forwarded request of `route_id` answered with `status`: it is
/// counted under that route and status and leaves flight. This runs once per
/// forwarded request, on success and on failure alike, so it needs a request
/// in flight: the gauge never goes below zero.
pub fn finish_request(metrics: &mut MetricsRegistry, route_id: &str, status: u16)
    requires
        old(metrics).count(route_id@, status) < u64::MAX,
        old(metrics).active() > 0,
    ensures
        completed(*old(metrics), *final(metrics), route_id@, status),
{
    metrics.increment(route_id, status);
    metrics.gauge_dec();
}

/// The path and query of an inbound request, `/` where it has none.
pub open spec fn path_and_query_or_root(path_and_query: Option<Seq<char>>) -> Seq<char> {
    match path_and_query {
        Some(pq) => pq,
        None => seq!['/'],
    }
}

/// The outbound target: the origin base followed by the inbound path and
/// query.
pub fn outbound_uri(origin: &str, path_and_query: Option<&str>) -> (r: String)
    ensures
        r@ == origin@ + path_and_query_or_root(
            match path_and_query {
                Some(pq) => Some(pq@),
                None => None,
            },
        ),
{
    let mut uri = String::from_str(origin);
    match path_and_query {
        Some(pq) => uri.append(pq),
        None => {
            proof {
                reveal_strlit("/");
            }
            uri.append("/");
        },
    }
    uri
}

/// The request handed to the first plugin: the inbound method, headers and
/// buffered body, aimed at the origin.
pub fn build_outbound(
    origin: &str,
    method: &str,
    path_and_query: Option<&str>,
    headers: Vec<Header>,
    body: Vec<u8>,
) -> (r: PluginRequest)
    ensures
        r.method@ == method@,
        r.uri@ == origin@ + path_and_query_or_root(
            match path_and_query {
                Some(pq) => Some(pq@),
                None => None,
            },
        ),
        r.headers == headers,
        r.body == body,
{
    PluginRequest {
        method: String::from_str(method),
        uri: outbound_uri(origin, path_and_query),
        headers,
        body,
    }
}

/// A forwarded request once its route is known: its context and the request
/// that the last plugin handed on, ready to be sent upstream.
pub struct Prepared {
    pub ctx: EdgeContext,
    pub outbound: PluginRequest,
}

/// Resolves the route of `path`, creates the request's context and runs the
/// request built from the inbound message through every plugin's
/// `on_request` hook in declared order.
pub fn prepare_forward<P: EdgePlugin, R: RouteTable>(
    routes: &R,
    chain: &Vec<P>,
    path: &str,
    method: &str,
    path_and_query: Option<&str>,
    headers: Vec<Header>,
    body: Vec<u8>,
) -> (r: Result<Prepared, RouteError>)
    ensures
        r is Err <==> routes.route_of(path@) is None,
        r is Err ==> r == Err::<Prepared, RouteError>(RouteError::NoRouteMatch),
        r matches Ok(p) ==> {
            &&& routes.route_of(path@) matches Some((id, origin))
            &&& p.ctx.route_id@ == id
            &&& is_uuid_v4_text(p.ctx.request_id@)
            &&& exists|first: PluginRequest|
                {
                    &&& first.method@ == method@
                    &&& first.uri@ == origin + path_and_query_or_root(
                        match path_and_query {
                            Some(pq) => Some(pq@),
                            None => None,
                        },
                    )
                    &&& first.headers == headers
                    &&& first.body == body
                    &&& p.outbound == chain_request(chain@, chain@.len(), p.ctx, first)
                }
        },
{
    let route = match routes.resolve(path) {
        Ok(route) => route,
        Err(e) => {
            return Err(e);
        },
    };
    let ctx = EdgeContext::new(route.route_id.as_str());
    let first = build_outbound(route.origin.as_str(), method, path_and_query, headers, body);
    let outbound = run_request_chain(chain, &ctx, first);
    Ok(Prepared { ctx, outbound })
}

/// The fixed response to a path that no route matches.
pub fn no_route_response() -> (r: PluginResponse)
    ensures
        r.status == NOT_FOUND,
        r.headers@.len() == 0,
        r.body@.len() == 0,
{
    PluginResponse { status: NOT_FOUND, headers: Vec::new(), body: Vec::new() }
}

/// The fixed response to a failed upstream call.
pub fn failure_response() -> (r: PluginResponse)
    ensures
        r.status == BAD_GATEWAY,
        r.headers@.len() == 0,
        r.body@ == UPSTREAM_ERROR_BODY.spec_bytes(),
{
    PluginResponse { status: BAD_GATEWAY, headers: Vec::new(), body: UPSTREAM_ERROR_BODY.as_bytes_vec() }
}

/// The response sent back for the upstream outcome. On success the
/// upstream status and body, without headers, go through every plugin's
/// `on_response` hook in declared order; the body that comes out is sent
/// with the upstream's own status and headers (the upstream wins over the
/// plugins on status and headers, the plugins decide the body). On failure
/// the fixed Bad Gateway response is sent.
pub fn finish_response<P: EdgePlugin>(
    chain: &Vec<P>,
    ctx: &EdgeContext,
    upstream: Result<PluginResponse, UpstreamError>,
) -> (r: PluginResponse)
    ensures
        match upstream {
            Ok(u) => exists|hooked: PluginResponse|
                {
                    &&& hooked.status == u.status
                    &&& hooked.headers@.len() == 0
                    &&& hooked.body == u.body
                    &&& r.status == u.status
                    &&& r.body == chain_response(chain@, chain@.len(), *ctx, hooked).body
                    &&& r.headers == u.headers
                },
            Err(_) => {
                &&& r.status == BAD_GATEWAY
                &&& r.headers@.len() == 0
                &&& r.body@ == UPSTREAM_ERROR_BODY.spec_bytes()
            },
        },
{
    match upstream {
        Ok(u) => {
            let PluginResponse { status, headers, body } = u;
            let hooked = PluginResponse { status, headers: Vec::new(), body };
            let out = run_response_chain(chain, ctx, hooked);
            PluginResponse { status, headers, body: out.body }
        },
        Err(_) => failure_response(),
    }
}

/// A forwarded request, accepted and then finished with `status`, adds
/// exactly one to `requests_total` of its route and status, and exactly one
/// to the sum over all series, and leaves the connection gauge at its value
/// from before the request.
pub proof fn lemma_request_accounting(
    before: MetricsRegistry,
    during: MetricsRegistry,
    after: MetricsRegistry,
    route: Seq<char>,
    status: u16,
)
    requires
        admitted(before, during),
        completed(during, after, route, status),
    ensures
        after.active() == before.active(),
        after.count(route, status) == before.count(route, status) + 1,
        after.total() == before.total() + 1,
        forall|r2: Seq<char>, s2: u16|
            label_hash(r2, s2) != label_hash(route, status) ==> #[trigger] after.count(r2, s2)
                == before.count(r2, s2),
{
    assert(during.count(route, status) == before.count(route, status));
    assert forall|r2: Seq<char>, s2: u16|
        label_hash(r2, s2) != label_hash(route, status) implies #[trigger] after.count(r2, s2)
            == before.count(r2, s2) by {
        assert(during.count(r2, s2) == before.count(r2, s2));
        assert(after.count(r2, s2) == during.count(r2, s2));
    }
}

/// A forwarded request whose upstream call failed, and which was therefore
/// answered with Bad Gateway, adds exactly one to `requests_total` of its
/// route and status 502, and one to the sum over all series; no series
/// filed under another key is counted.
pub proof fn lemma_upstream_failure_accounting(
    before: MetricsRegistry,
    during: MetricsRegistry,
    after: MetricsRegistry,
    route: Seq<char>,
)
    requires
        admitted(before, during),
        completed(during, after, route, BAD_GATEWAY),
    ensures
        after.active() == before.active(),
        after.count(route, BAD_GATEWAY) == before.count(route, BAD_GATEWAY) + 1,
        after.total() == before.total() + 1,
        forall|r2: Seq<char>, s2: u16|
            label_hash(r2, s2) != label_hash(route, BAD_GATEWAY) ==> #[trigger] after.count(r2, s2)
                == before.count(r2, s2),
{
    lemma_request_accounting(before, during, after, route, BAD_GATEWAY);
}

/// How many of the steps accept a request.
pub open spec fn num_accepted(accepts: Seq<bool>) -> int
    decreases accepts.len(),
{
    if accepts.len() == 0 {
        0
    } else {
        num_accepted(accepts.drop_last()) + if accepts.last() {
            1int
        } else {
            0int
        }
    }
}

/// How many of the steps finish a request.
pub open spec fn num_finished(accepts: Seq<bool>) -> int
    decreases accepts.len(),
{
    if accepts.len() == 0 {
        0
    } else {
        num_finished(accepts.drop_last()) + if accepts.last() {
            0int
        } else {
            1int
        }
    }
}

/// Step `i` of a run of the registry: `accepts[i]` says whether a request was
/// accepted (else one was finished, on any route with any status).
pub open spec fn registry_step(states: Seq<MetricsRegistry>, accepts: Seq<bool>, i: int) -> bool {
    if accepts[i] {
        admitted(states[i], states[i + 1])
    } else {
        exists|route: Seq<char>, status: u16| #[trigger] completed(states[i], states[i + 1], route, status)
    }
}

/// Over any interleaving of concurrent requests being accepted and finished,
/// the gauge moves by the number accepted less the number finished, and the
/// sum of `requests_total` over all routes and statuses grows by the number
/// finished. So once every accepted request has finished the gauge is back
/// where it started and the sum has grown by the number of requests. No
/// series ever decreases.
pub proof fn lemma_interleaved_requests(states: Seq<MetricsRegistry>, accepts: Seq<bool>)
    requires
        states.len() == accepts.len() + 1,
        forall|i: int| 0 <= i < accepts.len() ==> #[trigger] registry_step(states, accepts, i),
    ensures
        states.last().active() == states[0].active() + num_accepted(accepts) - num_finished(accepts),
        states.last().total() == states[0].total() + num_finished(accepts),
        num_accepted(accepts) == num_finished(accepts) ==> states.last().active() == states[0].active(),
        forall|route: Seq<char>, status: u16|
            #[trigger] states.last().count(route, status) >= states[0].count(route, status),
    decreases accepts.len(),
{
    if accepts.len() > 0 {
        let n = accepts.len() - 1;
        let shorter_states = states.drop_last();
        let shorter = accepts.drop_last();
        assert forall|i: int| 0 <= i < shorter.len() implies #[trigger] registry_step(shorter_states, shorter, i) by {
            assert(registry_step(states, accepts, i));
            assert(shorter[i] == accepts[i]);
            assert(shorter_states[i] == states[i]);
            assert(shorter_states[i + 1] == states[i + 1]);
        }
        lemma_interleaved_requests(shorter_states, shorter);
        assert(registry_step(states, accepts, n));
        if !accepts[n] {
            let (route, status) = choose|route: Seq<char>, status: u16| #[trigger] completed(states[n], states[n + 1], route, status);
            assert forall|r2: Seq<char>, s2: u16|
                #[trigger] states.last().count(r2, s2) >= states[0].count(r2, s2) by {
                assert(states[n + 1].count(r2, s2) >= states[n].count(r2, s2));
                assert(shorter_states.last().count(r2, s2) >= states[0].count(r2, s2));
            }
        } else {
            assert forall|r2: Seq<char>, s2: u16|
                #[trigger] states.last().count(r2, s2) >= states[0].count(r2, s2) by {
                assert(states[n + 1].count(r2, s2) == states[n].count(r2, s2));
                assert(shorter_states.last().count(r2, s2) >= states[0].count(r2, s2));
            }
        }
    }
}

} // verus!
