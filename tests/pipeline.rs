use planetedge::{
    accept_request, build_outbound, failure_response, finish_request, finish_response,
    is_metrics_path, no_route_response, outbound_uri, prepare_forward, run_request_chain, run_response_chain, Admission,
    EdgeContext, EdgePlugin, Header, MetricsRegistry, Nop, PluginRequest, PluginResponse,
    RouteTable, StaticRoutes, UpstreamError, BAD_GATEWAY, DEFAULT_ROUTE_ID, METRICS_PATH,
    UPSTREAM_ERROR_BODY,
};

fn header(name: &str, value: &str) -> Header {
    Header { name: name.to_string(), value: value.as_bytes().to_vec() }
}

fn sample_request() -> PluginRequest {
    PluginRequest {
        method: "POST".to_string(),
        uri: "http://origin.test/a".to_string(),
        headers: vec![header("accept", "*/*"), header("x-trace", "7")],
        body: vec![1, 2, 3],
    }
}

fn same_headers(a: &[Header], b: &[Header]) -> bool {
    a.len() == b.len() && a.iter().zip(b.iter()).all(|(x, y)| x.name == y.name && x.value == y.value)
}

fn context() -> EdgeContext {
    EdgeContext::new(DEFAULT_ROUTE_ID)
}

#[test]
fn nop_is_named_nop() {
    assert_eq!(Nop.name(), "nop");
}

#[test]
fn nop_chain_leaves_request_unchanged() {
    let chain = vec![Nop, Nop, Nop];
    let req = sample_request();
    let out = run_request_chain(&chain, &context(), req.clone());
    assert_eq!(out.method, req.method);
    assert_eq!(out.uri, req.uri);
    assert!(same_headers(&out.headers, &req.headers));
    assert_eq!(out.body, req.body);
}

#[test]
fn empty_chain_leaves_response_unchanged() {
    let chain: Vec<Nop> = Vec::new();
    let res = PluginResponse { status: 201, headers: vec![header("a", "b")], body: vec![9] };
    let out = run_response_chain(&chain, &context(), res.clone());
    assert_eq!(out.status, 201);
    assert!(same_headers(&out.headers, &res.headers));
    assert_eq!(out.body, vec![9]);
}

#[test]
fn outbound_targets_origin_with_path_and_query() {
    let headers = vec![header("host", "edge.local"), header("accept", "text/html")];
    let req = build_outbound("http://origin.test", "GET", Some("/widgets?x=1"), headers.clone(), Vec::new());
    assert_eq!(req.uri, "http://origin.test/widgets?x=1");
    assert_eq!(req.method, "GET");
    assert!(same_headers(&req.headers, &headers));
    assert!(req.body.is_empty());
    let out = run_request_chain(&vec![Nop, Nop], &context(), req);
    assert_eq!(out.uri, "http://origin.test/widgets?x=1");
    assert!(same_headers(&out.headers, &headers));
}

#[test]
fn outbound_uri_defaults_to_root() {
    assert_eq!(outbound_uri("http://origin.test", None), "http://origin.test/");
    assert_eq!(outbound_uri("", Some("/x")), "/x");
}

#[test]
fn metrics_path_is_matched_exactly() {
    assert!(is_metrics_path(METRICS_PATH));
    assert!(is_metrics_path("/metrics"));
    assert!(!is_metrics_path("/metrics/"));
    assert!(!is_metrics_path("/metric"));
    assert!(!is_metrics_path("/"));
    assert!(!is_metrics_path(""));
}

#[test]
fn metrics_path_changes_no_counter() {
    let mut m = MetricsRegistry::new().unwrap();
    assert_eq!(accept_request(&mut m, "/metrics"), Admission::Metrics);
    assert_eq!(m.active_connections(), 0);
    assert_eq!(m.requests_total("default", 200), 0);
}

#[test]
fn forwarded_request_is_counted_once() {
    let mut m = MetricsRegistry::new().unwrap();
    assert_eq!(accept_request(&mut m, "/widgets"), Admission::Forward);
    assert_eq!(m.active_connections(), 1);
    finish_request(&mut m, "default", 200);
    assert_eq!(m.active_connections(), 0);
    assert_eq!(m.requests_total("default", 200), 1);
    assert_eq!(m.requests_total("default", 404), 0);
    assert_eq!(m.requests_total("other", 200), 0);
}

#[test]
fn upstream_failure_gives_one_bad_gateway() {
    let mut m = MetricsRegistry::new().unwrap();
    assert_eq!(accept_request(&mut m, "/widgets"), Admission::Forward);
    let res = finish_response(&vec![Nop], &context(), Err(UpstreamError::Unavailable));
    assert_eq!(res.status, 502);
    assert_eq!(res.body, b"upstream error".to_vec());
    assert!(res.headers.is_empty());
    finish_request(&mut m, "default", res.status);
    assert_eq!(m.requests_total("default", 502), 1);
    assert_eq!(m.active_connections(), 0);
}

#[test]
fn failure_response_is_fixed() {
    let res = failure_response();
    assert_eq!(res.status, BAD_GATEWAY);
    assert_eq!(res.body, UPSTREAM_ERROR_BODY.as_bytes().to_vec());
}

#[test]
fn success_keeps_upstream_status_body_and_headers() {
    let upstream = PluginResponse { status: 404, headers: vec![header("content-type", "text/plain")], body: b"nope".to_vec() };
    let res = finish_response(&vec![Nop, Nop], &context(), Ok(upstream));
    assert_eq!(res.status, 404);
    assert_eq!(res.body, b"nope".to_vec());
    assert!(same_headers(&res.headers, &[header("content-type", "text/plain")]));
}

#[test]
fn hundred_interleaved_requests_balance() {
    let mut m = MetricsRegistry::new().unwrap();
    for _ in 0..100 {
        assert_eq!(accept_request(&mut m, "/slow"), Admission::Forward);
    }
    assert_eq!(m.active_connections(), 100);
    for i in 0..100u32 {
        let status: u16 = if i % 3 == 0 { 502 } else { 200 };
        finish_request(&mut m, "default", status);
    }
    assert_eq!(m.active_connections(), 0);
    assert_eq!(m.requests_total("default", 200) + m.requests_total("default", 502), 100);
    assert_eq!(m.requests_total("default", 502), 34);
}

#[test]
fn render_lists_gauge_and_counter() {
    let mut m = MetricsRegistry::new().unwrap();
    accept_request(&mut m, "/a");
    finish_request(&mut m, "default", 200);
    let text = m.render().unwrap();
    assert!(text.contains("active_connections"));
    assert!(text.contains("requests_total"));
    assert!(text.contains("requests_total{route=\"default\",status=\"200\"} 1"));
}

#[test]
fn context_has_route_and_fresh_id() {
    let a = EdgeContext::new("default");
    let b = EdgeContext::new("default");
    assert_eq!(a.route_id, "default");
    assert_eq!(a.request_id.len(), 36);
    assert_eq!(a.request_id.as_bytes()[8], b'-');
    assert_ne!(a.request_id, b.request_id);
}

#[test]
fn static_routes_match_every_path() {
    let routes = StaticRoutes::new("default", "http://origin.test");
    for path in ["/", "/widgets", "/metrics/x"] {
        let r = routes.resolve(path).unwrap();
        assert_eq!(r.route_id, "default");
        assert_eq!(r.origin, "http://origin.test");
    }
}

#[test]
fn prepare_forward_builds_context_and_outbound() {
    let routes = StaticRoutes::new("default", "http://origin.test");
    let headers = vec![header("accept", "*/*")];
    let p = prepare_forward(&routes, &vec![Nop], "/widgets", "GET", Some("/widgets?x=1"), headers.clone(), vec![7]).unwrap();
    assert_eq!(p.ctx.route_id, "default");
    assert_eq!(p.ctx.request_id.len(), 36);
    assert_eq!(p.outbound.method, "GET");
    assert_eq!(p.outbound.uri, "http://origin.test/widgets?x=1");
    assert!(same_headers(&p.outbound.headers, &headers));
    assert_eq!(p.outbound.body, vec![7]);
}

#[test]
fn no_route_is_not_found() {
    let res = no_route_response();
    assert_eq!(res.status, 404);
    assert!(res.body.is_empty());
    assert!(res.headers.is_empty());
}

#[test]
fn render_lists_gauge_before_any_request() {
    let m = MetricsRegistry::new().unwrap();
    let text = m.render().unwrap();
    assert!(text.contains("active_connections 0"));
    assert!(!text.contains("requests_total{"));
}

#[test]
fn counting_leaves_other_series_alone() {
    let mut m = MetricsRegistry::new().unwrap();
    accept_request(&mut m, "/a");
    finish_request(&mut m, "default", 200);
    accept_request(&mut m, "/b");
    finish_request(&mut m, "default", 502);
    assert_eq!(m.requests_total("default", 200), 1);
    assert_eq!(m.requests_total("default", 502), 1);
    assert_eq!(m.requests_total("default", 404), 0);
    assert_eq!(m.requests_total("other", 502), 0);
}

#[test]
fn upstream_status_wins_over_hooks() {
    let upstream = PluginResponse { status: 201, headers: Vec::new(), body: b"made".to_vec() };
    let res = finish_response(&vec![Nop], &context(), Ok(upstream));
    assert_eq!(res.status, 201);
    assert_eq!(res.body, b"made".to_vec());
}

#[test]
fn render_writes_exact_sample_lines() {
    let mut m = MetricsRegistry::new().unwrap();
    accept_request(&mut m, "/a");
    finish_request(&mut m, "default", 200);
    accept_request(&mut m, "/b");
    finish_request(&mut m, "default", 200);
    accept_request(&mut m, "/c");
    let text = m.render().unwrap();
    assert!(text.contains("\nactive_connections 1\n"));
    assert!(text.contains("requests_total{route=\"default\",status=\"200\"} 2\n"));
}

#[test]
fn render_escapes_route_labels() {
    let mut m = MetricsRegistry::new().unwrap();
    accept_request(&mut m, "/a");
    finish_request(&mut m, "we\"ird", 404);
    let text = m.render().unwrap();
    assert!(text.contains("requests_total{route=\"we\\\"ird\",status=\"404\"} 1\n"));
}

#[test]
fn request_id_is_a_version_four_uuid() {
    let ctx = EdgeContext::new("default");
    let id = ctx.request_id.as_bytes();
    assert_eq!(id.len(), 36);
    assert_eq!(id[14], b'4');
    assert!(matches!(id[19], b'8' | b'9' | b'a' | b'b'));
    for (i, c) in id.iter().enumerate() {
        if [8, 13, 18, 23].contains(&i) {
            assert_eq!(*c, b'-');
        } else {
            assert!(c.is_ascii_digit() || (b'a'..=b'f').contains(c));
        }
    }
}
