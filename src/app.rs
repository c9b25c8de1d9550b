//! The application: a builder that gathers routes, routers, global
//! middleware and configuration, and the built application, which resolves
//! each request to the handler and middleware that serve it, or to the
//! response that refuses it.
use vstd::prelude::*;
use crate::error::{
    Error, ErrorView, json_error_response, json_response, plain_error_response, plain_response,
    push_decimal, push_str,
};
use crate::extensions::{ErrorFormat, Extension};
use crate::method::{Method, method_name};
use crate::path::{bindings, path_segments, pattern_of, pattern_matches};
use crate::req::Req;
use crate::res::{Res, ResView, put_header};
use crate::router::{FlatRoute, FlatView, Route, Router, RouterView, flat_view, flatten_spec, nest_spec};
use crate::chain::{Stage, after_proceeds, next_stage};
use crate::table::{
    EntryView, HandlerView, Resolution, RouteError, RouteTable, copy_ids, has_handler, has_method,
    methods_of, params_view, table_wf, winner,
};
use crate::text::string_of;

verus! {

/// Limits and switches of the server; `None` means no limit.
#[derive(Clone, Copy, Debug)]
pub struct ServerConfig {
    /// Largest request body, in bytes.
    pub body_limit: Option<usize>,
    /// Longest time for a whole request, in milliseconds.
    pub request_timeout_ms: Option<u64>,
    /// Longest time for the handler chain, in milliseconds.
    pub handler_timeout_ms: Option<u64>,
    /// Whether connections speak HTTP/2.
    pub http2: bool,
    /// Most connections served at once.
    pub max_connections: Option<usize>,
    /// TCP keep-alive, in milliseconds.
    pub keep_alive_ms: Option<u64>,
}

impl ServerConfig {
    /// No limits, HTTP/1.
    pub fn new() -> (r: ServerConfig)
        ensures
            r.body_limit is None,
            r.request_timeout_ms is None,
            r.handler_timeout_ms is None,
            !r.http2,
            r.max_connections is None,
            r.keep_alive_ms is None,
    {
        ServerConfig {
            body_limit: None,
            request_timeout_ms: None,
            handler_timeout_ms: None,
            http2: false,
            max_connections: None,
            keep_alive_ms: None,
        }
    }
}

/// An application under construction.
pub struct Foton {
    routes: Vec<FlatRoute>,
    middlewares: Vec<usize>,
    error_format: ErrorFormat,
    config: ServerConfig,
}

/// The value of an application under construction.
pub ghost struct FotonView {
    /// The routes in registration order, each with its middleware (those
    /// of its routers, outermost first, then its own).
    pub routes: Seq<FlatView>,
    /// The global middleware, in registration order.
    pub middlewares: Seq<usize>,
    pub error_format: ErrorFormat,
    pub config: ServerConfig,
}

impl View for Foton {
    type V = FotonView;

    closed spec fn view(&self) -> FotonView {
        FotonView {
            routes: flat_view(self.routes@),
            middlewares: self.middlewares@,
            error_format: self.error_format,
            config: self.config,
        }
    }
}

/// A new application: no route, no middleware, plain-text errors, no
/// limits.
pub fn app() -> (r: Foton)
    ensures
        r@.routes.len() == 0,
        r@.middlewares.len() == 0,
        r@.error_format == ErrorFormat::Plain,
        r@.config == ServerConfig::new_spec(),
{
    Foton::new()
}

impl ServerConfig {
    /// The configuration without limits.
    pub open spec fn new_spec() -> ServerConfig {
        ServerConfig {
            body_limit: None,
            request_timeout_ms: None,
            handler_timeout_ms: None,
            http2: false,
            max_connections: None,
            keep_alive_ms: None,
        }
    }
}

/// Why an application could not be built: the route, by its position in
/// registration order, and what was wrong with it.
#[derive(Clone, Copy, PartialEq, Eq, Structural, Debug)]
pub struct BuildError {
    pub route: usize,
    pub error: RouteError,
}

impl Foton {
    /// A new application: no route, no middleware, plain-text errors, no
    /// limits.
    pub fn new() -> (r: Foton)
        ensures
            r@.routes.len() == 0,
            r@.middlewares.len() == 0,
            r@.error_format == ErrorFormat::Plain,
            r@.config == ServerConfig::new_spec(),
    {
        Foton {
            routes: Vec::new(),
            middlewares: Vec::new(),
            error_format: ErrorFormat::Plain,
            config: ServerConfig::new(),
        }
    }

    /// Chooses how errors become responses.
    pub fn set_error_handler(&mut self, format: ErrorFormat)
        ensures
            final(self)@ == (FotonView { error_format: format, ..old(self)@ }),
    {
        self.error_format = format;
    }

    /// Adds global middleware, which run for every route before all other
    /// middleware, in registration order.
    pub fn attach(&mut self, middleware: usize)
        ensures
            final(self)@ == (FotonView { middlewares: old(self)@.middlewares.push(middleware), ..old(self)@ }),
    {
        self.middlewares.push(middleware);
    }

    /// Adds a route with its own middleware.
    pub fn route(&mut self, route: Route)
        ensures
            final(self)@ == (FotonView { routes: old(self)@.routes.push(route@), ..old(self)@ }),
    {
        let f = FlatRoute {
            method: route.method,
            path: route.path,
            handler: route.handler,
            middlewares: route.middlewares,
        };
        self.routes.push(f);
        assert(self@.routes =~= old(self)@.routes.push(route@));
    }

    /// Adds a route for `method` on `path`.
    pub fn add(&mut self, method: Method, path: &str, handler: usize)
        ensures
            final(self)@ == (FotonView {
                routes: old(self)@.routes.push(FlatView { method, path: path@, handler, middlewares: Seq::empty() }),
                ..old(self)@
            }),
    {
        self.route(Route::new(method, path, handler));
    }

    /// Adds a GET route.
    pub fn get(&mut self, path: &str, handler: usize)
        ensures
            final(self)@ == (FotonView {
                routes: old(self)@.routes.push(FlatView { method: Method::Get, path: path@, handler, middlewares: Seq::empty() }),
                ..old(self)@
            }),
    {
        self.add(Method::Get, path, handler);
    }

    /// Adds a POST route.
    pub fn post(&mut self, path: &str, handler: usize)
        ensures
            final(self)@ == (FotonView {
                routes: old(self)@.routes.push(FlatView { method: Method::Post, path: path@, handler, middlewares: Seq::empty() }),
                ..old(self)@
            }),
    {
        self.add(Method::Post, path, handler);
    }

    /// Adds a PUT route.
    pub fn put(&mut self, path: &str, handler: usize)
        ensures
            final(self)@ == (FotonView {
                routes: old(self)@.routes.push(FlatView { method: Method::Put, path: path@, handler, middlewares: Seq::empty() }),
                ..old(self)@
            }),
    {
        self.add(Method::Put, path, handler);
    }

    /// Adds a DELETE route.
    pub fn delete(&mut self, path: &str, handler: usize)
        ensures
            final(self)@ == (FotonView {
                routes: old(self)@.routes.push(FlatView { method: Method::Delete, path: path@, handler, middlewares: Seq::empty() }),
                ..old(self)@
            }),
    {
        self.add(Method::Delete, path, handler);
    }

    /// Adds a PATCH route.
    pub fn patch(&mut self, path: &str, handler: usize)
        ensures
            final(self)@ == (FotonView {
                routes: old(self)@.routes.push(FlatView { method: Method::Patch, path: path@, handler, middlewares: Seq::empty() }),
                ..old(self)@
            }),
    {
        self.add(Method::Patch, path, handler);
    }

    /// Mounts `router` at `prefix`: its routes come after those present,
    /// each with the router's middleware before its own.
    pub fn nest(&mut self, prefix: &str, router: Router)
        ensures
            final(self)@ == (FotonView { routes: old(self)@.routes + flatten_spec(router@, prefix@), ..old(self)@ }),
    {
        let mut flat = router.flatten(prefix);
        let ghost added = flat_view(flat@);
        self.routes.append(&mut flat);
        assert(self@.routes =~= old(self)@.routes + added);
    }

    /// The number of routes.
    pub fn route_count(&self) -> (r: usize)
        ensures
            r == self@.routes.len(),
    {
        self.routes.len()
    }

    /// Whether some route has exactly the path `path`.
    pub fn has_route(&self, path: &str) -> (r: bool)
        ensures
            r == exists|i: int| 0 <= i < self@.routes.len() && (#[trigger] self@.routes[i]).path == path@,
    {
        let target = path.to_owned();
        let mut i: usize = 0;
        while i < self.routes.len()
            invariant
                i <= self.routes@.len(),
                target@ == path@,
                forall|j: int| 0 <= j < i ==> (#[trigger] self@.routes[j]).path != path@,
            decreases self.routes@.len() - i,
        {
            assert(self@.routes[i as int] == self.routes@[i as int]@);
            if self.routes[i].path == target {
                return true;
            }
            i = i + 1;
        }
        false
    }

    /// Sets the largest request body, in bytes.
    pub fn set_body_limit(&mut self, limit: usize)
        ensures
            final(self)@ == (FotonView { config: ServerConfig { body_limit: Some(limit), ..old(self)@.config }, ..old(self)@ }),
    {
        self.config.body_limit = Some(limit);
    }

    /// Sets the longest time for a whole request, in milliseconds.
    pub fn set_request_timeout(&mut self, ms: u64)
        ensures
            final(self)@ == (FotonView { config: ServerConfig { request_timeout_ms: Some(ms), ..old(self)@.config }, ..old(self)@ }),
    {
        self.config.request_timeout_ms = Some(ms);
    }

    /// Sets the longest time for the handler chain, in milliseconds.
    pub fn set_handler_timeout(&mut self, ms: u64)
        ensures
            final(self)@ == (FotonView { config: ServerConfig { handler_timeout_ms: Some(ms), ..old(self)@.config }, ..old(self)@ }),
    {
        self.config.handler_timeout_ms = Some(ms);
    }

    /// Switches HTTP/2 on or off.
    pub fn set_http2(&mut self, enabled: bool)
        ensures
            final(self)@ == (FotonView { config: ServerConfig { http2: enabled, ..old(self)@.config }, ..old(self)@ }),
    {
        self.config.http2 = enabled;
    }

    /// Sets the most connections served at once.
    pub fn set_max_connections(&mut self, max: usize)
        ensures
            final(self)@ == (FotonView { config: ServerConfig { max_connections: Some(max), ..old(self)@.config }, ..old(self)@ }),
    {
        self.config.max_connections = Some(max);
    }

    /// Sets the TCP keep-alive, in milliseconds.
    pub fn set_keep_alive(&mut self, ms: u64)
        ensures
            final(self)@ == (FotonView { config: ServerConfig { keep_alive_ms: Some(ms), ..old(self)@.config }, ..old(self)@ }),
    {
        self.config.keep_alive_ms = Some(ms);
    }

    /// Takes the limits that `config` sets; HTTP/2 and keep-alive as it
    /// says, the other limits only where it gives one.
    pub fn apply_config(&mut self, config: ServerConfig)
        ensures
            final(self)@ == (FotonView { config: merged_config(old(self)@.config, config), ..old(self)@ }),
    {
        if let Some(limit) = config.body_limit {
            self.config.body_limit = Some(limit);
        }
        if let Some(t) = config.request_timeout_ms {
            self.config.request_timeout_ms = Some(t);
        }
        if let Some(t) = config.handler_timeout_ms {
            self.config.handler_timeout_ms = Some(t);
        }
        self.config.http2 = config.http2;
        if let Some(max) = config.max_connections {
            self.config.max_connections = Some(max);
        }
        self.config.keep_alive_ms = config.keep_alive_ms;
    }

    /// The configuration.
    pub fn config(&self) -> (r: ServerConfig)
        ensures
            r == self@.config,
    {
        self.config
    }

    /// The application, ready to serve: every route registered with the
    /// global middleware before its own. Fails at the first route whose
    /// pattern has a wildcard before its end, repeats a pattern and method
    /// registered before it, or is ambiguous with an earlier pattern.
    pub fn build(&self) -> (r: Result<App, BuildError>)
        ensures
            r matches Ok(a) ==> {
                &&& table_wf(a.table@)
                &&& a.error_format == self@.error_format
                &&& a.config == self@.config
                &&& forall|i: int| 0 <= i < self@.routes.len() ==> registered(a.table@, #[trigger] self@.routes[i], self@.middlewares)
                &&& table_from(a.table@, self@.routes, self@.routes.len() as int, self@.middlewares)
            },
            r is Ok <==> routes_ok(self@.routes),
            r matches Err(e) ==> {
                &&& e.route < self@.routes.len()
                &&& routes_ok(self@.routes.subrange(0, e.route as int))
                &&& !routes_ok(self@.routes.subrange(0, e.route + 1))
                &&& (e.error == RouteError::InvalidPattern) == !crate::path::wild_last(
                    pattern_of(self@.routes[e.route as int].path),
                )
            },
    {
        let ghost rs = self@.routes;
        let mut table = RouteTable::new();
        proof {
            reveal(routes_ok);
            reveal(table_from);
        }
        let mut i: usize = 0;
        let n = self.routes.len();
        while i < n
            invariant
                i <= n,
                n == self.routes@.len(),
                table_wf(table@),
                rs == self@.routes,
                forall|j: int| 0 <= j < i ==> registered(table@, #[trigger] self@.routes[j], self@.middlewares),
                routes_ok(rs.subrange(0, i as int)),
                table_from(table@, rs, i as int, self@.middlewares),
            decreases n - i,
        {
            let f = &self.routes[i];
            assert(self@.routes[i as int] == f@);
            let mut mws = copy_ids(&self.middlewares);
            let mut own = copy_ids(&f.middlewares);
            mws.append(&mut own);
            let ghost before = table@;
            assert(mws@ == self@.middlewares + f@.middlewares);
            let ghost hv = HandlerView { method: f.method, handler: f.handler, middlewares: mws@ };
            match table.register(f.method, f.path.as_str(), f.handler, mws) {
                Ok(()) => {
                    proof {
                        lemma_register_keeps(before, table@, f.path@, hv);
                        assert forall|j: int| 0 <= j < i + 1 implies registered(table@, #[trigger] self@.routes[j], self@.middlewares) by {
                            if j < i {
                                let fj = self@.routes[j];
                                assert(registered(before, fj, self@.middlewares));
                            } else {
                                assert(self@.routes[j].middlewares == f@.middlewares);
                            }
                        }
                        assert forall|a: int| 0 <= a < i implies conflict_free(#[trigger] rs[a], rs[i as int]) by {
                            assert(registered(before, rs[a], self@.middlewares));
                            lemma_new_route_free(before, rs, i as int, a, self@.middlewares);
                        }
                        lemma_build_step_ok(rs, i as int);
                        lemma_build_step_table(before, table@, rs, i as int, hv, self@.middlewares);
                    }
                },
                Err(e) => {
                    proof {
                        lemma_build_step_err(before, rs, i as int, e, self@.middlewares);
                        lemma_routes_ok_prefix(rs, i + 1);
                    }
                    return Err(BuildError { route: i, error: e });
                },
            }
            i = i + 1;
        }
        assert(rs.subrange(0, n as int) =~= rs);
        Ok(App { table, error_format: self.error_format, config: self.config })
    }
}

/// Two routes can stand in one application: with the same pattern they
/// differ in method; with different patterns they are not ambiguous.
pub open spec fn conflict_free(a: FlatView, b: FlatView) -> bool {
    if pattern_of(a.path) == pattern_of(b.path) {
        a.method != b.method
    } else {
        !crate::path::ambiguous(pattern_of(a.path), pattern_of(b.path))
    }
}

/// Routes from which an application can be built: every pattern has its
/// wildcard last, and every earlier route is conflict-free with every later
/// one.
#[verifier::opaque]
pub open spec fn routes_ok(rs: Seq<FlatView>) -> bool {
    &&& forall|i: int| 0 <= i < rs.len() ==> crate::path::wild_last(pattern_of(#[trigger] rs[i].path))
    &&& forall|i: int, j: int| 0 <= i < j < rs.len() ==> conflict_free(#[trigger] rs[i], #[trigger] rs[j])
}

/// Every route set of `v`, and every method in it, comes from one of the
/// first `n` routes of `rs`.
#[verifier::opaque]
pub open spec fn table_from(v: Seq<EntryView>, rs: Seq<FlatView>, n: int, global: Seq<usize>) -> bool {
    &&& forall|e: int| 0 <= e < v.len() ==> exists|j: int| 0 <= j < n && #[trigger] pattern_of(rs[j].path) == (#[trigger] v[e]).pattern
    &&& forall|e: int, k: int| 0 <= e < v.len() && 0 <= k < v[e].methods.len() ==> exists|j: int|
        0 <= j < n && #[trigger] pattern_of(rs[j].path) == v[e].pattern && (#[trigger] v[e].methods[k]) == route_handler(rs[j], global)
}

/// The handler entry that route `f` gets: its method, its handler, and the
/// global middleware `global` before its own.
pub open spec fn route_handler(f: FlatView, global: Seq<usize>) -> HandlerView {
    HandlerView { method: f.method, handler: f.handler, middlewares: global + f.middlewares }
}

/// `base` with the limits that `over` gives.
pub open spec fn merged_config(base: ServerConfig, over: ServerConfig) -> ServerConfig {
    ServerConfig {
        body_limit: if over.body_limit is Some { over.body_limit } else { base.body_limit },
        request_timeout_ms: if over.request_timeout_ms is Some { over.request_timeout_ms } else { base.request_timeout_ms },
        handler_timeout_ms: if over.handler_timeout_ms is Some { over.handler_timeout_ms } else { base.handler_timeout_ms },
        http2: over.http2,
        max_connections: if over.max_connections is Some { over.max_connections } else { base.max_connections },
        keep_alive_ms: over.keep_alive_ms,
    }
}

/// The table holds route `f` under its pattern, with the global middleware
/// `global` before the route's own.
pub open spec fn registered(v: Seq<EntryView>, f: FlatView, global: Seq<usize>) -> bool {
    exists|e: int|
        0 <= e < v.len() && (#[trigger] v[e]).pattern == pattern_of(f.path) && has_handler(
            v[e],
            HandlerView { method: f.method, handler: f.handler, middlewares: global + f.middlewares },
        )
}

/// A route that the table refused shows that the routes cannot all stand
/// together.
proof fn lemma_build_step_err(before: Seq<EntryView>, rs: Seq<FlatView>, i: int, e: RouteError, global: Seq<usize>)
    requires
        0 <= i < rs.len(),
        table_from(before, rs, i, global),
        (e == RouteError::InvalidPattern) == !crate::path::wild_last(pattern_of(rs[i].path)),
        crate::path::wild_last(pattern_of(rs[i].path)) ==> ((e == RouteError::Duplicate) == exists|x: int|
            0 <= x < before.len() && (#[trigger] before[x]).pattern == pattern_of(rs[i].path)
                && has_method(before[x], rs[i].method)),
        crate::path::wild_last(pattern_of(rs[i].path)) ==> ((e == RouteError::Ambiguous) == (
            (forall|x: int| 0 <= x < before.len() ==> (#[trigger] before[x]).pattern != pattern_of(rs[i].path))
            && exists|x: int| 0 <= x < before.len() && crate::path::ambiguous(#[trigger] before[x].pattern, pattern_of(rs[i].path)))),
    ensures
        !routes_ok(rs.subrange(0, i + 1)),
{
    reveal(routes_ok);
    reveal(table_from);
    let sub = rs.subrange(0, i + 1);
    assert(sub[i] == rs[i]);
    if !crate::path::wild_last(pattern_of(rs[i].path)) {
        assert(!crate::path::wild_last(pattern_of(rs[i].path)));
    } else if e == RouteError::Duplicate {
        let x = choose|x: int| 0 <= x < before.len() && (#[trigger] before[x]).pattern == pattern_of(rs[i].path)
            && has_method(before[x], rs[i].method);
        let k = choose|k: int| 0 <= k < before[x].methods.len() && (#[trigger] before[x].methods[k]).method == rs[i].method;
        let j = choose|j: int| 0 <= j < i && #[trigger] pattern_of(rs[j].path) == before[x].pattern
            && before[x].methods[k] == route_handler(rs[j], global);
        assert(!conflict_free(rs[j], rs[i]));
        assert(sub[j] == rs[j]);
    } else {
        assert(e == RouteError::Ambiguous);
        let x = choose|x: int| 0 <= x < before.len() && crate::path::ambiguous(#[trigger] before[x].pattern, pattern_of(rs[i].path));
        let j = choose|j: int| 0 <= j < i && #[trigger] pattern_of(rs[j].path) == before[x].pattern;
        assert(before[x].pattern != pattern_of(rs[i].path));
        assert(!conflict_free(rs[j], rs[i]));
        assert(sub[j] == rs[j]);
    }
}

/// A built application resolves a path to the route that registered the
/// most specific pattern matching it: where route `j`'s pattern matches
/// `segs` and outranks every other registered pattern that does, the table
/// that `build` returns has its route set as the winner for `segs`, holding
/// the route's handler behind the global middleware and the route's own.
pub proof fn lemma_built_route_wins(v: Seq<EntryView>, rs: Seq<FlatView>, global: Seq<usize>, j: int, segs: Seq<Seq<char>>)
    requires
        table_wf(v),
        table_from(v, rs, rs.len() as int, global),
        forall|i: int| 0 <= i < rs.len() ==> registered(v, #[trigger] rs[i], global),
        0 <= j < rs.len(),
        pattern_matches(pattern_of(rs[j].path), segs),
        forall|i: int| 0 <= i < rs.len() && pattern_matches(pattern_of(#[trigger] rs[i].path), segs)
            && pattern_of(rs[i].path) != pattern_of(rs[j].path) ==> crate::path::outranks(
            pattern_of(rs[j].path),
            pattern_of(rs[i].path),
        ),
    ensures
        exists|e: int| winner(v, e, segs) && (#[trigger] v[e]).pattern == pattern_of(rs[j].path)
            && has_handler(v[e], route_handler(rs[j], global)),
{
    reveal(table_from);
    assert(registered(v, rs[j], global));
    let e = choose|e: int| 0 <= e < v.len() && (#[trigger] v[e]).pattern == pattern_of(rs[j].path)
        && has_handler(v[e], route_handler(rs[j], global));
    assert forall|x: int| 0 <= x < v.len() && x != e && pattern_matches(#[trigger] v[x].pattern, segs)
        implies crate::path::outranks(v[e].pattern, v[x].pattern) by {
        let i = choose|i: int| 0 <= i < rs.len() && #[trigger] pattern_of(rs[i].path) == v[x].pattern;
        crate::table::lemma_common_overlap_self(v[x].pattern);
        assert(!crate::path::ambiguous(v[x].pattern, v[e].pattern));
    }
    assert(winner(v, e, segs));
}

/// Routes that can stand together keep doing so without the later ones.
proof fn lemma_routes_ok_prefix(rs: Seq<FlatView>, n: int)
    requires
        0 <= n <= rs.len(),
    ensures
        routes_ok(rs) ==> routes_ok(rs.subrange(0, n)),
{
    reveal(routes_ok);
    let sub = rs.subrange(0, n);
    if routes_ok(rs) {
        assert forall|a: int, b: int| 0 <= a < b < sub.len() implies conflict_free(#[trigger] sub[a], #[trigger] sub[b]) by {
            assert(sub[a] == rs[a]);
            assert(sub[b] == rs[b]);
        }
        assert forall|x: int| 0 <= x < sub.len() implies crate::path::wild_last(pattern_of(#[trigger] sub[x].path)) by {
            assert(sub[x] == rs[x]);
        }
    }
}

/// A route that the table took is conflict-free with each route before it.
proof fn lemma_new_route_free(before: Seq<EntryView>, rs: Seq<FlatView>, i: int, a: int, global: Seq<usize>)
    requires
        0 <= a < i < rs.len(),
        table_wf(before),
        registered(before, rs[a], global),
        !exists|x: int| 0 <= x < before.len() && (#[trigger] before[x]).pattern == pattern_of(rs[i].path)
            && has_method(before[x], rs[i].method),
        !((forall|x: int| 0 <= x < before.len() ==> (#[trigger] before[x]).pattern != pattern_of(rs[i].path))
            && exists|x: int| 0 <= x < before.len() && crate::path::ambiguous(#[trigger] before[x].pattern, pattern_of(rs[i].path))),
    ensures
        conflict_free(rs[a], rs[i]),
{
    let p = pattern_of(rs[i].path);
    let ea = choose|ea: int| 0 <= ea < before.len() && (#[trigger] before[ea]).pattern == pattern_of(rs[a].path)
        && has_handler(before[ea], HandlerView { method: rs[a].method, handler: rs[a].handler, middlewares: global + rs[a].middlewares });
    let ka = choose|ka: int| 0 <= ka < before[ea].methods.len() && #[trigger] before[ea].methods[ka]
        == (HandlerView { method: rs[a].method, handler: rs[a].handler, middlewares: global + rs[a].middlewares });
    if pattern_of(rs[a].path) == p {
        if rs[a].method == rs[i].method {
            assert(before[ea].methods[ka].method == rs[i].method);
            assert(has_method(before[ea], rs[i].method));
        }
    } else {
        if exists|x: int| 0 <= x < before.len() && (#[trigger] before[x]).pattern == p {
            let x = choose|x: int| 0 <= x < before.len() && (#[trigger] before[x]).pattern == p;
            assert(ea != x);
            assert(!crate::path::ambiguous(before[ea].pattern, before[x].pattern));
        } else {
            assert(!crate::path::ambiguous(before[ea].pattern, p));
        }
    }
}

/// A route that the table took keeps the routes so far conflict-free.
proof fn lemma_build_step_ok(rs: Seq<FlatView>, i: int)
    requires
        0 <= i < rs.len(),
        routes_ok(rs.subrange(0, i)),
        crate::path::wild_last(pattern_of(rs[i].path)),
        forall|a: int| 0 <= a < i ==> conflict_free(#[trigger] rs[a], rs[i]),
    ensures
        routes_ok(rs.subrange(0, i + 1)),
{
    reveal(routes_ok);
    let sub = rs.subrange(0, i + 1);
    let pre = rs.subrange(0, i);
    assert forall|a: int, b: int| 0 <= a < b < sub.len() implies conflict_free(#[trigger] sub[a], #[trigger] sub[b]) by {
        assert(sub[a] == rs[a]);
        assert(sub[b] == rs[b]);
        if b < i {
            assert(pre[a] == rs[a]);
            assert(pre[b] == rs[b]);
        }
    }
    assert forall|x: int| 0 <= x < sub.len() implies crate::path::wild_last(pattern_of(#[trigger] sub[x].path)) by {
        if x < i {
            assert(pre[x] == sub[x]);
        }
    }
}

/// A route that the table took keeps the table made of the routes so far.
proof fn lemma_build_step_table(before: Seq<EntryView>, after: Seq<EntryView>, rs: Seq<FlatView>, i: int, hv: HandlerView, global: Seq<usize>)
    requires
        0 <= i < rs.len(),
        hv == route_handler(rs[i], global),
        table_from(before, rs, i, global),
        forall|x: int| 0 <= x < before.len() && (#[trigger] before[x]).pattern == pattern_of(rs[i].path)
            ==> after == before.update(x, EntryView { pattern: before[x].pattern, methods: before[x].methods.push(hv) }),
        (forall|x: int| 0 <= x < before.len() ==> (#[trigger] before[x]).pattern != pattern_of(rs[i].path))
            ==> after == before.push(EntryView { pattern: pattern_of(rs[i].path), methods: seq![hv] }),
    ensures
        table_from(after, rs, i + 1, global),
{
    reveal(table_from);
    let p = pattern_of(rs[i].path);
    if exists|x: int| 0 <= x < before.len() && (#[trigger] before[x]).pattern == p {
        let x = choose|x: int| 0 <= x < before.len() && (#[trigger] before[x]).pattern == p;
        assert forall|e: int| 0 <= e < after.len() implies exists|j: int| 0 <= j < i + 1 && #[trigger] pattern_of(rs[j].path) == (#[trigger] after[e]).pattern by {
            assert(after[e].pattern == before[e].pattern);
        }
        assert forall|e: int, k: int| 0 <= e < after.len() && 0 <= k < after[e].methods.len() implies exists|j: int|
            0 <= j < i + 1 && #[trigger] pattern_of(rs[j].path) == after[e].pattern && (#[trigger] after[e].methods[k]) == route_handler(rs[j], global) by {
            if e == x && k == before[x].methods.len() {
                assert(pattern_of(rs[i].path) == after[e].pattern);
            } else {
                assert(after[e].methods[k] == before[e].methods[k]);
            }
        }
    } else {
        assert forall|e: int| 0 <= e < after.len() implies exists|j: int| 0 <= j < i + 1 && #[trigger] pattern_of(rs[j].path) == (#[trigger] after[e]).pattern by {
            if e == before.len() {
                assert(pattern_of(rs[i].path) == after[e].pattern);
            } else {
                assert(after[e] == before[e]);
            }
        }
        assert forall|e: int, k: int| 0 <= e < after.len() && 0 <= k < after[e].methods.len() implies exists|j: int|
            0 <= j < i + 1 && #[trigger] pattern_of(rs[j].path) == after[e].pattern && (#[trigger] after[e].methods[k]) == route_handler(rs[j], global) by {
            if e == before.len() {
                assert(after[e].methods[k] == hv);
                assert(pattern_of(rs[i].path) == after[e].pattern);
            } else {
                assert(after[e] == before[e]);
            }
        }
    }
}

/// A registration that succeeded keeps every handler the table had and
/// adds the new one under its pattern.
proof fn lemma_register_keeps(before: Seq<EntryView>, after: Seq<EntryView>, path: Seq<char>, hv: HandlerView)
    requires
        (forall|i: int| 0 <= i < before.len() && (#[trigger] before[i]).pattern == pattern_of(path)
            ==> after == before.update(i, EntryView {
                pattern: before[i].pattern,
                methods: before[i].methods.push(hv),
            })),
        (forall|i: int| 0 <= i < before.len() ==> (#[trigger] before[i]).pattern != pattern_of(path))
            ==> after == before.push(EntryView { pattern: pattern_of(path), methods: seq![hv] }),
    ensures
        forall|e: int, h: HandlerView| 0 <= e < before.len() && #[trigger] has_handler(before[e], h)
            ==> has_handler(after[e], h) && after[e].pattern == before[e].pattern && e < after.len(),
        exists|e: int| 0 <= e < after.len() && (#[trigger] after[e]).pattern == pattern_of(path) && has_handler(after[e], hv),
{
    if exists|i: int| 0 <= i < before.len() && (#[trigger] before[i]).pattern == pattern_of(path) {
        let i = choose|i: int| 0 <= i < before.len() && (#[trigger] before[i]).pattern == pattern_of(path);
        assert(after[i].methods[before[i].methods.len() as int] == hv);
        assert forall|e: int, h: HandlerView| 0 <= e < before.len() && #[trigger] has_handler(before[e], h)
            implies has_handler(after[e], h) && after[e].pattern == before[e].pattern && e < after.len() by {
            let k = choose|k: int| 0 <= k < before[e].methods.len() && #[trigger] before[e].methods[k] == h;
            assert(after[e].methods[k] == h);
        }
    } else {
        assert(after[before.len() as int].methods[0] == hv);
        assert forall|e: int, h: HandlerView| 0 <= e < before.len() && #[trigger] has_handler(before[e], h)
            implies has_handler(after[e], h) && after[e].pattern == before[e].pattern && e < after.len() by {
            let k = choose|k: int| 0 <= k < before[e].methods.len() && #[trigger] before[e].methods[k] == h;
            assert(after[e].methods[k] == h);
        }
    }
}

/// A built application: the routing table and the configuration, read-only
/// from then on.
pub struct App {
    pub table: RouteTable,
    pub error_format: ErrorFormat,
    pub config: ServerConfig,
}

/// What to do with a request.
#[derive(Debug)]
pub enum Dispatch {
    /// Run the middleware (outermost first), then the handler.
    Run { handler: usize, middlewares: Vec<usize> },
    /// Answer with this response; no middleware and no handler runs.
    Respond(Res),
}

/// Whether a body of `n` bytes is over `limit`.
pub open spec fn over_limit(limit: Option<usize>, n: usize) -> bool {
    match limit {
        Some(l) => n > l,
        None => false,
    }
}

/// The response an error gets in the format `f`.
pub open spec fn error_view(f: ErrorFormat, e: ErrorView) -> ResView {
    match f {
        ErrorFormat::Json => json_response(e),
        _ => plain_response(e),
    }
}

/// Method names joined with `, `.
pub open spec fn method_list(ms: Seq<Method>) -> Seq<char>
    decreases ms.len(),
{
    if ms.len() == 0 {
        Seq::empty()
    } else if ms.len() == 1 {
        method_name(ms[0])
    } else {
        method_list(ms.drop_last()) + ", "@ + method_name(ms.last())
    }
}

/// The message of a 405 response.
pub open spec fn not_allowed_message(name: Seq<char>, allowed: Seq<Method>) -> Seq<char> {
    "Method "@ + name + " not allowed. Allowed methods: "@ + method_list(allowed)
}

/// The response to a path that no pattern matches.
pub open spec fn not_found_view(f: ErrorFormat) -> ResView {
    error_view(f, ErrorView::Status(404, Some("Route not found"@)))
}

/// The response to a body over the limit.
pub open spec fn too_large_view(f: ErrorFormat) -> ResView {
    error_view(f, ErrorView::Status(413, Some("Request body too large"@)))
}

/// The response to a method that the matched pattern lacks: 405, with the
/// methods it has in the `allow` header.
pub open spec fn not_allowed_view(f: ErrorFormat, m: Method, allowed: Seq<Method>) -> ResView {
    not_allowed_named_view(f, method_name(m), allowed)
}

/// The 405 response to a method named `name` that the matched pattern
/// lacks.
pub open spec fn not_allowed_named_view(f: ErrorFormat, name: Seq<char>, allowed: Seq<Method>) -> ResView {
    let base = error_view(f, ErrorView::Status(405, Some(not_allowed_message(name, allowed))));
    ResView { headers: put_header(base.headers, "allow"@, method_list(allowed)), ..base }
}

/// The response to a handler chain that ran out of time.
pub open spec fn timeout_view(f: ErrorFormat, ms: u64) -> ResView {
    error_view(
        f,
        ErrorView::Status(504, Some("Handler timeout after "@ + crate::error::decimal(ms as nat) + " ms"@)),
    )
}

fn push_method_list(out: &mut Vec<char>, ms: &Vec<Method>)
    ensures
        final(out)@ == old(out)@ + method_list(ms@),
{
    let mut i: usize = 0;
    while i < ms.len()
        invariant
            i <= ms@.len(),
            out@ == old(out)@ + method_list(ms@.subrange(0, i as int)),
        decreases ms@.len() - i,
    {
        let ghost before = out@;
        let ghost next = ms@.subrange(0, i + 1);
        assert(next.drop_last() =~= ms@.subrange(0, i as int));
        if i > 0 {
            push_str(out, ", ");
        }
        let name = ms[i].name_chars();
        crate::text::push_chars(out, &name);
        assert(out@ =~= old(out)@ + method_list(next));
        i = i + 1;
    }
    assert(ms@.subrange(0, i as int) =~= ms@);
}

impl App {
    /// The response `error` gets in the application's format.
    pub fn error_response(&self, error: &Error) -> (r: Res)
        ensures
            r@ == error_view(self.error_format, error@),
    {
        match self.error_format {
            ErrorFormat::Json => json_error_response(error),
            _ => plain_error_response(error),
        }
    }

    /// The 405 response to a method named `name` where the matched pattern
    /// has the methods `allowed`.
    fn not_allowed(&self, name: &Vec<char>, allowed: &Vec<Method>) -> (r: Res)
        ensures
            r@ == not_allowed_named_view(self.error_format, name@, allowed@),
    {
        let mut msg: Vec<char> = Vec::new();
        push_str(&mut msg, "Method ");
        crate::text::push_chars(&mut msg, name);
        push_str(&mut msg, " not allowed. Allowed methods: ");
        push_method_list(&mut msg, allowed);
        let mut list: Vec<char> = Vec::new();
        push_method_list(&mut list, allowed);
        let e = Error::Status(405, Some(string_of(&msg)));
        let mut out = self.error_response(&e);
        crate::res::put_header_in(&mut out.headers, "allow".to_owned(), string_of(&list));
        out
    }

    /// The response to a request whose method is none of the methods that
    /// routes can be registered for (an extension method named `name`):
    /// 404 where no pattern matches `path`, else 405 listing the methods of
    /// the most specific matching pattern.
    pub fn refuse_method(&self, name: &str, path: &str) -> (r: Res)
        requires
            table_wf(self.table@),
        ensures
            (forall|i: int| 0 <= i < self.table@.len() ==> !pattern_matches(
                (#[trigger] self.table@[i]).pattern,
                path_segments(path@),
            )) ==> r@ == not_found_view(self.error_format),
            forall|e: int| winner(self.table@, e, path_segments(path@)) ==> r@ == not_allowed_named_view(
                self.error_format,
                name@,
                methods_of(#[trigger] self.table@[e]),
            ),
    {
        let ghost segs = path_segments(path@);
        match self.table.resolve(Method::Get, path) {
            Resolution::NotFound => {
                let e = Error::not_found("Route not found");
                self.error_response(&e)
            },
            Resolution::MethodNotAllowed { entry, allowed } => {
                proof {
                    assert forall|e2: int| winner(self.table@, e2, segs) implies e2 == entry by {
                        if e2 != entry {
                            assert(crate::path::outranks(self.table@[e2].pattern, self.table@[entry as int].pattern));
                            assert(crate::path::outranks(self.table@[entry as int].pattern, self.table@[e2].pattern));
                        }
                    }
                }
                self.not_allowed(&crate::text::chars_of(name), &allowed)
            },
            Resolution::Found { entry, .. } => {
                proof {
                    assert forall|e2: int| winner(self.table@, e2, segs) implies e2 == entry by {
                        if e2 != entry {
                            assert(crate::path::outranks(self.table@[e2].pattern, self.table@[entry as int].pattern));
                            assert(crate::path::outranks(self.table@[entry as int].pattern, self.table@[e2].pattern));
                        }
                    }
                }
                let allowed = self.table.methods_at(entry);
                self.not_allowed(&crate::text::chars_of(name), &allowed)
            },
        }
    }

    /// Whether a body of `len` bytes is within the body limit.
    pub fn body_allowed(&self, len: usize) -> (r: bool)
        ensures
            r == !over_limit(self.config.body_limit, len),
    {
        match self.config.body_limit {
            Some(l) => len <= l,
            None => true,
        }
    }

    /// The response to a handler chain that ran past the handler timeout
    /// (`ms` milliseconds).
    pub fn timeout_response(&self, ms: u64) -> (r: Res)
        ensures
            r@ == timeout_view(self.error_format, ms),
    {
        let mut msg: Vec<char> = Vec::new();
        push_str(&mut msg, "Handler timeout after ");
        push_decimal(&mut msg, ms);
        push_str(&mut msg, " ms");
        let e = Error::Status(504, Some(string_of(&msg)));
        self.error_response(&e)
    }

    /// Resolves `req`, whose body is `body_len` bytes long. No pattern
    /// matches: 404. The most specific matching pattern lacks the method:
    /// 405 listing its methods. The body is over the limit: 413. Else the
    /// request gets the bound parameters, and the parameters and the error
    /// format in its extensions, and the matched handler runs behind its
    /// combined middleware.
    pub fn dispatch(&self, req: &mut Req, body_len: usize) -> (r: Dispatch)
        requires
            table_wf(self.table@),
            old(req).wf(),
        ensures
            final(req).wf(),
            final(req).method == old(req).method,
            final(req).path == old(req).path,
            final(req).headers == old(req).headers,
            final(req).body == old(req).body,
            (forall|i: int| 0 <= i < self.table@.len() ==> !pattern_matches(
                (#[trigger] self.table@[i]).pattern,
                path_segments(old(req).path@),
            )) ==> (r matches Dispatch::Respond(res) && res@ == not_found_view(self.error_format)),
            forall|e: int| winner(self.table@, e, path_segments(old(req).path@)) && !has_method(
                #[trigger] self.table@[e],
                old(req).method,
            ) ==> (r matches Dispatch::Respond(res) && res@ == not_allowed_view(
                self.error_format,
                old(req).method,
                methods_of(self.table@[e]),
            )),
            forall|e: int| winner(self.table@, e, path_segments(old(req).path@)) && has_method(
                #[trigger] self.table@[e],
                old(req).method,
            ) && over_limit(self.config.body_limit, body_len) ==> (r matches Dispatch::Respond(res)
                && res@ == too_large_view(self.error_format)),
            over_limit(self.config.body_limit, body_len) ==> !(r is Run),
            r matches Dispatch::Run { handler, middlewares } ==> exists|e: int| {
                &&& winner(self.table@, e, path_segments(old(req).path@))
                &&& has_handler(
                    #[trigger] self.table@[e],
                    HandlerView { method: old(req).method, handler: handler, middlewares: middlewares@ },
                )
                &&& params_view(final(req).path_params@) == bindings(self.table@[e].pattern, path_segments(old(req).path@))
            },
            r is Run ==> final(req).extensions@.contains_key(crate::extensions::ExtensionKind::Params)
                && final(req).extensions@.contains_key(crate::extensions::ExtensionKind::ErrorFormat)
                && final(req).extensions@[crate::extensions::ExtensionKind::ErrorFormat]
                == Extension::ErrorFormat(self.error_format),
            r is Respond ==> *final(req) == *old(req),
            (exists|i: int| 0 <= i < self.table@.len() && pattern_matches(
                (#[trigger] self.table@[i]).pattern,
                path_segments(old(req).path@),
            )) ==> exists|e: int| winner(self.table@, e, path_segments(old(req).path@)),
            forall|e: int| winner(self.table@, e, path_segments(old(req).path@)) && has_method(
                #[trigger] self.table@[e],
                old(req).method,
            ) && !over_limit(self.config.body_limit, body_len) ==> (r matches Dispatch::Run {
                handler, middlewares } && has_handler(
                self.table@[e],
                HandlerView { method: old(req).method, handler: handler, middlewares: middlewares@ },
            ) && params_view(final(req).path_params@) == bindings(
                self.table@[e].pattern,
                path_segments(old(req).path@),
            )),
    {
        let ghost segs = path_segments(req.path@);
        let res = self.table.resolve(req.method, req.path.as_str());
        match res {
            Resolution::NotFound => {
                let e = Error::not_found("Route not found");
                Dispatch::Respond(self.error_response(&e))
            },
            Resolution::MethodNotAllowed { entry, allowed } => {
                let out = self.not_allowed(&req.method.name_chars(), &allowed);
                proof {
                    assert forall|e2: int| winner(self.table@, e2, segs) implies e2 == entry by {
                        if e2 != entry {
                            assert(crate::path::outranks(self.table@[e2].pattern, self.table@[entry as int].pattern));
                            assert(crate::path::outranks(self.table@[entry as int].pattern, self.table@[e2].pattern));
                        }
                    }
                }
                Dispatch::Respond(out)
            },
            Resolution::Found { entry, handler, middlewares, params } => {
                proof {
                    assert forall|e2: int| winner(self.table@, e2, segs) implies e2 == entry by {
                        if e2 != entry {
                            assert(crate::path::outranks(self.table@[e2].pattern, self.table@[entry as int].pattern));
                            assert(crate::path::outranks(self.table@[entry as int].pattern, self.table@[e2].pattern));
                        }
                    }
                    let k = choose|k: int| 0 <= k < self.table@[entry as int].methods.len()
                        && #[trigger] self.table@[entry as int].methods[k] == (HandlerView { method: req.method, handler: handler, middlewares: middlewares@ });
                    assert(has_method(self.table@[entry as int], req.method)) by {
                        assert(self.table@[entry as int].methods[k].method == req.method);
                    }
                }
                if let Some(limit) = self.config.body_limit {
                    if body_len > limit {
                        let e = Error::payload_too_large("Request body too large");
                        return Dispatch::Respond(self.error_response(&e));
                    }
                }
                let copy = copy_params(&params);
                req.set_path_params(params);
                let ext = req.extensions_mut();
                ext.insert(Extension::Params(copy));
                ext.insert(Extension::ErrorFormat(self.error_format));
                Dispatch::Run { handler, middlewares }
            },
        }
    }
}

fn copy_params(v: &Vec<(String, String)>) -> (r: Vec<(String, String)>)
    ensures
        params_view(r@) == params_view(v@),
{
    let mut out: Vec<(String, String)> = Vec::new();
    let mut i: usize = 0;
    while i < v.len()
        invariant
            i <= v@.len(),
            params_view(out@) == params_view(v@).subrange(0, i as int),
        decreases v@.len() - i,
    {
        let ghost prev = params_view(out@);
        out.push((v[i].0.clone(), v[i].1.clone()));
        assert(params_view(out@) =~= prev.push(params_view(v@)[i as int]));
        i = i + 1;
        assert(params_view(out@) =~= params_view(v@).subrange(0, i as int));
    }
    assert(params_view(v@).subrange(0, i as int) =~= params_view(v@));
    out
}

/// What a race between a handler chain and its timer does with an event.
#[derive(Clone, Copy, PartialEq, Eq, Structural, Debug)]
pub enum RaceOutcome {
    /// Send the handler's response.
    Deliver,
    /// Send the timeout response.
    TimedOut,
    /// Drop what came: a response has been sent already.
    Discard,
}

/// An event of the race.
#[derive(Clone, Copy, PartialEq, Eq, Structural, Debug)]
pub enum RaceEvent {
    /// The handler chain produced its response.
    HandlerDone,
    /// The handler timeout expired.
    TimerFired,
}

/// The race between a handler chain and its timeout: the first event
/// decides which response is sent, and whatever comes after is dropped.
pub struct HandlerRace {
    settled: bool,
}

/// The outcome of `ev` in a race that is `settled` or not.
pub open spec fn race_outcome(settled: bool, ev: RaceEvent) -> RaceOutcome {
    if settled {
        RaceOutcome::Discard
    } else {
        match ev {
            RaceEvent::HandlerDone => RaceOutcome::Deliver,
            RaceEvent::TimerFired => RaceOutcome::TimedOut,
        }
    }
}

impl HandlerRace {
    /// A race in which nothing has happened.
    pub fn new() -> (r: HandlerRace)
        ensures
            !r.is_settled(),
    {
        HandlerRace { settled: false }
    }

    /// Whether a response has been chosen.
    pub closed spec fn is_settled(&self) -> bool {
        self.settled
    }

    /// What to do with `ev`.
    pub fn on_event(&mut self, ev: RaceEvent) -> (r: RaceOutcome)
        ensures
            r == race_outcome(old(self).is_settled(), ev),
            final(self).is_settled(),
    {
        let r = if self.settled {
            RaceOutcome::Discard
        } else {
            match ev {
                RaceEvent::HandlerDone => RaceOutcome::Deliver,
                RaceEvent::TimerFired => RaceOutcome::TimedOut,
            }
        };
        self.settled = true;
        r
    }
}

/// A handler that finishes after its timeout never reaches the client:
/// once the timer fires first, the timeout response is sent, and the
/// handler's late result, and any event after it, is dropped.
pub proof fn lemma_late_result_dropped(later: Seq<RaceEvent>)
    ensures
        race_outcome(false, RaceEvent::TimerFired) == RaceOutcome::TimedOut,
        forall|i: int| 0 <= i < later.len() ==> race_outcome(true, #[trigger] later[i]) == RaceOutcome::Discard,
{
}

/// Middleware order: global middleware first, then those of the routers
/// from the outermost to the innermost, then the route's own, then the
/// handler. For a route of a router `inner` nested in a router `outer`
/// that the application mounts, the table that the application builds
/// holds the route's handler behind exactly that combined list, and the
/// chain of a request runs the list in order.
pub proof fn lemma_middleware_order(
    app: FotonView,
    outer: RouterView,
    inner: RouterView,
    p_outer: Seq<char>,
    p_inner: Seq<char>,
    k: int,
    table: Seq<EntryView>,
)
    requires
        0 <= k < inner.routes.len(),
        forall|i: int| 0 <= i < app.routes.len() + outer.routes.len() + inner.routes.len() ==> registered(
            table,
            #[trigger] (app.routes + flatten_spec(nest_spec(outer, p_inner, inner), p_outer))[i],
            app.middlewares,
        ),
    ensures
        ({
            let routes = app.routes + flatten_spec(nest_spec(outer, p_inner, inner), p_outer);
            let f = routes[app.routes.len() + outer.routes.len() + k];
            let combined = app.middlewares + outer.middlewares + inner.middlewares + inner.routes[k].middlewares;
            &&& f.handler == inner.routes[k].handler
            &&& f.method == inner.routes[k].method
            &&& exists|e: int| 0 <= e < table.len() && (#[trigger] table[e]).pattern == pattern_of(f.path)
                && has_handler(table[e], HandlerView { method: f.method, handler: f.handler, middlewares: combined })
            &&& forall|j: nat| j < combined.len() ==> next_stage(after_proceeds(combined.len(), j))
                == Stage::Middleware(j as usize)
            &&& next_stage(after_proceeds(combined.len(), combined.len())) == Stage::Handler
        }),
{
    let flat = flatten_spec(nest_spec(outer, p_inner, inner), p_outer);
    let routes = app.routes + flat;
    let at = app.routes.len() + outer.routes.len() + k;
    assert(routes[at] == flat[outer.routes.len() + k]);
    let f = routes[at];
    let combined = app.middlewares + outer.middlewares + inner.middlewares + inner.routes[k].middlewares;
    assert(f.middlewares == outer.middlewares + (inner.middlewares + inner.routes[k].middlewares));
    assert(app.middlewares + f.middlewares =~= combined);
    assert(registered(table, routes[at], app.middlewares));
    assert forall|j: nat| j < combined.len() implies next_stage(after_proceeds(combined.len(), j))
        == Stage::Middleware(j as usize) by {
        crate::chain::lemma_stage_order(combined.len(), j);
    }
    crate::chain::lemma_stage_order(combined.len(), combined.len());
}

} // verus!
