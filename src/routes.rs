use vstd::prelude::*;
use vstd::string::*;

verus! {

/// Route identifier of the single route the proxy serves today.
pub const DEFAULT_ROUTE_ID: &'static str = "default";

/// What a route lookup yields: the identifier metrics are grouped by and
/// the origin base requests are forwarded to.
#[derive(Debug)]
pub struct ResolvedRoute {
    pub route_id: String,
    pub origin: String,
}

/// Why a path could not be routed.
#[derive(Debug, Clone, Copy, PartialEq, Eq)]
pub enum RouteError {
    /// No route matches the path.
    NoRouteMatch,
}

/// A lookup from a request path to its route. The pipeline depends on this
/// interface only, so another table can stand in for the static one.
pub trait RouteTable {
    /// The route identifier and origin base of `path`, if any route matches.
    spec fn route_of(&self, path: Seq<char>) -> Option<(Seq<char>, Seq<char>)>;

    /// Looks up the route of `path`.
    fn resolve(&self, path: &str) -> (r: Result<ResolvedRoute, RouteError>)
        ensures
            match self.route_of(path@) {
                Some((id, origin)) => r matches Ok(route) && route.route_id@ == id && route.origin@ == origin,
                None => r == Err::<ResolvedRoute, RouteError>(RouteError::NoRouteMatch),
            },
    ;
}

/// A route table with a single route that matches every path.
#[derive(Debug)]
pub struct StaticRoutes {
    pub route_id: String,
    pub origin: String,
}

impl StaticRoutes {
    /// The table that sends every path to `origin` under `route_id`.
    pub fn new(route_id: &str, origin: &str) -> (r: StaticRoutes)
        ensures
            r.route_id@ == route_id@,
            r.origin@ == origin@,
    {
        StaticRoutes { route_id: String::from_str(route_id), origin: String::from_str(origin) }
    }
}

impl RouteTable for StaticRoutes {
    open spec fn route_of(&self, path: Seq<char>) -> Option<(Seq<char>, Seq<char>)> {
        Some((self.route_id@, self.origin@))
    }

    /// Every path matches the one route.
    fn resolve(&self, path: &str) -> (r: Result<ResolvedRoute, RouteError>) {
        Ok(ResolvedRoute { route_id: self.route_id.clone(), origin: self.origin.clone() })
    }
}

} // verus!
