//! Request pipeline of an edge reverse proxy: per-request context, an ordered
//! chain of plugins, a metrics registry, a route table and the decisions that
//! drive one request from accept to response.

pub mod context;
pub mod metrics;
pub mod pipeline;
pub mod plugin;
pub mod routes;

pub use context::EdgeContext;
pub use metrics::{MetricsError, MetricsRegistry};
pub use pipeline::{
    accept_request, build_outbound, failure_response, finish_request, finish_response,
    is_metrics_path, no_route_response, outbound_uri, prepare_forward, Admission, Prepared,
    UpstreamError, BAD_GATEWAY, METRICS_PATH, NOT_FOUND, UPSTREAM_ERROR_BODY,
};
pub use plugin::{run_request_chain, run_response_chain, EdgePlugin, Header, Nop, PluginRequest, PluginResponse};
pub use routes::{ResolvedRoute, RouteError, RouteTable, StaticRoutes, DEFAULT_ROUTE_ID};
