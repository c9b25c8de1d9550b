//! Routers: builders that group routes under shared middleware, nest into
//! one another at a path prefix, and flatten into a list of routes with
//! their combined middleware.
use vstd::prelude::*;
use crate::method::Method;
use crate::table::copy_ids;
use crate::text::{chars_of, copy_chars, push_chars, string_of};

verus! {

/// `prefix` and `path` joined with exactly one `/` between them: `/a` and
/// `/b` give `/a/b`, and so do `/a/` and `/b`; an empty `path` gives the
/// prefix without its trailing `/`.
pub open spec fn join_paths(prefix: Seq<char>, path: Seq<char>) -> Seq<char> {
    let pre = if prefix.len() > 0 && prefix.last() == '/' {
        prefix.drop_last()
    } else {
        prefix
    };
    if path.len() == 0 {
        pre
    } else if path[0] == '/' {
        pre + path
    } else {
        pre + seq!['/'] + path
    }
}

/// The path `prefix` and `path` make together, as [`join_paths`] states it.
pub fn join_path(prefix: &Vec<char>, path: &Vec<char>) -> (r: Vec<char>)
    ensures
        r@ == join_paths(prefix@, path@),
{
    let mut out = copy_chars(prefix);
    let n = out.len();
    if n > 0 && out[n - 1] == '/' {
        out.pop();
        assert(out@ =~= prefix@.drop_last());
    }
    if path.len() == 0 {
        return out;
    }
    if path[0] != '/' {
        out.push('/');
    }
    push_chars(&mut out, path);
    out
}

/// One route as a router or an application holds it: the method, the path
/// pattern, the handler, and the middleware that run before the handler.
pub struct FlatRoute {
    pub method: Method,
    pub path: String,
    pub handler: usize,
    pub middlewares: Vec<usize>,
}

/// The value of a [`FlatRoute`].
pub ghost struct FlatView {
    pub method: Method,
    pub path: Seq<char>,
    pub handler: usize,
    pub middlewares: Seq<usize>,
}

impl View for FlatRoute {
    type V = FlatView;

    open spec fn view(&self) -> FlatView {
        FlatView {
            method: self.method,
            path: self.path@,
            handler: self.handler,
            middlewares: self.middlewares@,
        }
    }
}

/// The value of a list of routes.
pub open spec fn flat_view(v: Seq<FlatRoute>) -> Seq<FlatView> {
    v.map_values(|f: FlatRoute| f@)
}

/// A route with middleware of its own, which run just before its handler.
pub struct Route {
    pub method: Method,
    pub path: String,
    pub handler: usize,
    pub middlewares: Vec<usize>,
}

impl View for Route {
    type V = FlatView;

    open spec fn view(&self) -> FlatView {
        FlatView {
            method: self.method,
            path: self.path@,
            handler: self.handler,
            middlewares: self.middlewares@,
        }
    }
}

impl Route {
    /// A route for `method` on `path` with no middleware of its own.
    pub fn new(method: Method, path: &str, handler: usize) -> (r: Route)
        ensures
            r@ == (FlatView { method, path: path@, handler, middlewares: Seq::empty() }),
    {
        let r = Route { method, path: path.to_owned(), handler, middlewares: Vec::new() };
        assert(r@.middlewares =~= Seq::<usize>::empty());
        r
    }

    /// A GET route.
    pub fn get(path: &str, handler: usize) -> (r: Route)
        ensures
            r@ == (FlatView { method: Method::Get, path: path@, handler, middlewares: Seq::empty() }),
    {
        Route::new(Method::Get, path, handler)
    }

    /// A POST route.
    pub fn post(path: &str, handler: usize) -> (r: Route)
        ensures
            r@ == (FlatView { method: Method::Post, path: path@, handler, middlewares: Seq::empty() }),
    {
        Route::new(Method::Post, path, handler)
    }

    /// A PUT route.
    pub fn put(path: &str, handler: usize) -> (r: Route)
        ensures
            r@ == (FlatView { method: Method::Put, path: path@, handler, middlewares: Seq::empty() }),
    {
        Route::new(Method::Put, path, handler)
    }

    /// A DELETE route.
    pub fn delete(path: &str, handler: usize) -> (r: Route)
        ensures
            r@ == (FlatView { method: Method::Delete, path: path@, handler, middlewares: Seq::empty() }),
    {
        Route::new(Method::Delete, path, handler)
    }

    /// A PATCH route.
    pub fn patch(path: &str, handler: usize) -> (r: Route)
        ensures
            r@ == (FlatView { method: Method::Patch, path: path@, handler, middlewares: Seq::empty() }),
    {
        Route::new(Method::Patch, path, handler)
    }

    /// Adds `middleware` after the route's own middleware so far.
    pub fn layer(&mut self, middleware: usize)
        ensures
            final(self)@ == (FlatView { middlewares: old(self)@.middlewares.push(middleware), ..old(self)@ }),
    {
        self.middlewares.push(middleware);
    }
}

/// The value of a router: its routes, each with the middleware that stand
/// between the router's own and the handler (those of the routers nested
/// below it, then the route's own), and the router's own middleware.
pub ghost struct RouterView {
    pub routes: Seq<FlatView>,
    pub middlewares: Seq<usize>,
}

/// A group of routes with shared middleware.
pub struct Router {
    routes: Vec<FlatRoute>,
    middlewares: Vec<usize>,
    /// The positions in `routes` of the routes added to this router itself
    /// rather than through a nested router.
    own: Vec<usize>,
}

impl View for Router {
    type V = RouterView;

    closed spec fn view(&self) -> RouterView {
        RouterView { routes: flat_view(self.routes@), middlewares: self.middlewares@ }
    }
}

/// `child` mounted in `parent` at `prefix`: each route of the child gains
/// the prefix and, before its own, the child's middleware.
pub open spec fn nest_spec(parent: RouterView, prefix: Seq<char>, child: RouterView) -> RouterView {
    RouterView {
        routes: parent.routes + child.routes.map_values(
            |f: FlatView|
                FlatView {
                    path: join_paths(prefix, f.path),
                    middlewares: child.middlewares + f.middlewares,
                    ..f
                },
        ),
        middlewares: parent.middlewares,
    }
}

/// The routes of `r` mounted at `prefix`, each with the router's own
/// middleware first.
pub open spec fn flatten_spec(r: RouterView, prefix: Seq<char>) -> Seq<FlatView> {
    r.routes.map_values(
        |f: FlatView|
            FlatView { path: join_paths(prefix, f.path), middlewares: r.middlewares + f.middlewares, ..f },
    )
}

impl Router {
    /// How many routes were added to this router itself.
    pub closed spec fn own_count(&self) -> nat {
        self.own@.len()
    }

    /// An empty router.
    pub fn new() -> (r: Router)
        ensures
            r@ == (RouterView { routes: Seq::empty(), middlewares: Seq::empty() }),
            r.own_count() == 0,
    {
        let r = Router { routes: Vec::new(), middlewares: Vec::new(), own: Vec::new() };
        assert(r@.routes =~= Seq::<FlatView>::empty());
        assert(r@.middlewares =~= Seq::<usize>::empty());
        r
    }

    /// An empty router with room reserved for `routes` routes and
    /// `middlewares` middleware.
    pub fn with_capacity(routes: usize, middlewares: usize) -> (r: Router)
        ensures
            r@ == (RouterView { routes: Seq::empty(), middlewares: Seq::empty() }),
            r.own_count() == 0,
    {
        let r = Router { routes: Vec::with_capacity(routes), middlewares: Vec::with_capacity(middlewares), own: Vec::new() };
        assert(r@.routes =~= Seq::<FlatView>::empty());
        assert(r@.middlewares =~= Seq::<usize>::empty());
        r
    }

    /// Adds a route with its own middleware.
    pub fn route(&mut self, route: Route)
        ensures
            final(self)@ == (RouterView { routes: old(self)@.routes.push(route@), ..old(self)@ }),
            final(self).own_count() == old(self).own_count() + 1,
    {
        let f = FlatRoute {
            method: route.method,
            path: route.path,
            handler: route.handler,
            middlewares: route.middlewares,
        };
        let at = self.routes.len();
        self.own.push(at);
        self.routes.push(f);
        assert(self@.routes =~= old(self)@.routes.push(route@));
    }

    /// Adds a route for `method` on `path`.
    pub fn add(&mut self, method: Method, path: &str, handler: usize)
        ensures
            final(self)@ == (RouterView {
                routes: old(self)@.routes.push(FlatView { method, path: path@, handler, middlewares: Seq::empty() }),
                ..old(self)@
            }),
            final(self).own_count() == old(self).own_count() + 1,
    {
        self.route(Route::new(method, path, handler));
    }

    /// Adds a GET route.
    pub fn get(&mut self, path: &str, handler: usize)
        ensures
            final(self)@ == (RouterView {
                routes: old(self)@.routes.push(FlatView { method: Method::Get, path: path@, handler, middlewares: Seq::empty() }),
                ..old(self)@
            }),
            final(self).own_count() == old(self).own_count() + 1,
    {
        self.add(Method::Get, path, handler);
    }

    /// Adds a POST route.
    pub fn post(&mut self, path: &str, handler: usize)
        ensures
            final(self)@ == (RouterView {
                routes: old(self)@.routes.push(FlatView { method: Method::Post, path: path@, handler, middlewares: Seq::empty() }),
                ..old(self)@
            }),
            final(self).own_count() == old(self).own_count() + 1,
    {
        self.add(Method::Post, path, handler);
    }

    /// Adds a PUT route.
    pub fn put(&mut self, path: &str, handler: usize)
        ensures
            final(self)@ == (RouterView {
                routes: old(self)@.routes.push(FlatView { method: Method::Put, path: path@, handler, middlewares: Seq::empty() }),
                ..old(self)@
            }),
            final(self).own_count() == old(self).own_count() + 1,
    {
        self.add(Method::Put, path, handler);
    }

    /// Adds a DELETE route.
    pub fn delete(&mut self, path: &str, handler: usize)
        ensures
            final(self)@ == (RouterView {
                routes: old(self)@.routes.push(FlatView { method: Method::Delete, path: path@, handler, middlewares: Seq::empty() }),
                ..old(self)@
            }),
            final(self).own_count() == old(self).own_count() + 1,
    {
        self.add(Method::Delete, path, handler);
    }

    /// Adds a PATCH route.
    pub fn patch(&mut self, path: &str, handler: usize)
        ensures
            final(self)@ == (RouterView {
                routes: old(self)@.routes.push(FlatView { method: Method::Patch, path: path@, handler, middlewares: Seq::empty() }),
                ..old(self)@
            }),
            final(self).own_count() == old(self).own_count() + 1,
    {
        self.add(Method::Patch, path, handler);
    }

    /// Adds middleware that runs for every route of this router, those of
    /// nested routers included, after the middleware added before it.
    pub fn layer(&mut self, middleware: usize)
        ensures
            final(self)@ == (RouterView { middlewares: old(self)@.middlewares.push(middleware), ..old(self)@ }),
            final(self).own_count() == old(self).own_count(),
    {
        self.middlewares.push(middleware);
    }

    /// Mounts `router` at `prefix`: its routes inherit this router's
    /// middleware, which run before its own.
    pub fn nest(&mut self, prefix: &str, router: Router)
        ensures
            final(self)@ == nest_spec(old(self)@, prefix@, router@),
            final(self).own_count() == old(self).own_count(),
    {
        let pre = chars_of(prefix);
        let ghost child = router@;
        let ghost start = self@;
        let mut i: usize = 0;
        let n = router.routes.len();
        while i < n
            invariant
                self.own@ == old(self).own@,
                i <= n,
                n == router.routes@.len(),
                child == router@,
                pre@ == prefix@,
                self@.middlewares == start.middlewares,
                self@.routes == start.routes + nest_spec(start, prefix@, child).routes.subrange(
                    start.routes.len() as int,
                    start.routes.len() + i,
                ),
            decreases n - i,
        {
            let f = &router.routes[i];
            let path = join_path(&pre, &chars_of(f.path.as_str()));
            let mut mws = copy_ids(&router.middlewares);
            let mut own = copy_ids(&f.middlewares);
            mws.append(&mut own);
            let g = FlatRoute { method: f.method, path: string_of(&path), handler: f.handler, middlewares: mws };
            let ghost before = self@.routes;
            self.routes.push(g);
            proof {
                let ns = nest_spec(start, prefix@, child).routes;
                assert(ns[start.routes.len() + i] == g@);
                assert(self@.routes =~= before.push(g@));
                assert(self@.routes =~= start.routes + ns.subrange(start.routes.len() as int, start.routes.len() + i + 1));
            }
            i = i + 1;
        }
        proof {
            let ns = nest_spec(start, prefix@, child).routes;
            assert(ns =~= start.routes + ns.subrange(start.routes.len() as int, start.routes.len() + n));
            assert(self@.routes == ns);
        }
    }

    /// The number of routes added to this router itself, those of nested
    /// routers not included.
    pub fn route_count(&self) -> (r: usize)
        ensures
            r == self.own_count(),
    {
        self.own.len()
    }

    /// The routes of this router mounted at `prefix`, each with the
    /// combined middleware, this router's first.
    pub fn flatten(&self, prefix: &str) -> (r: Vec<FlatRoute>)
        ensures
            flat_view(r@) == flatten_spec(self@, prefix@),
    {
        let pre = chars_of(prefix);
        let mut out: Vec<FlatRoute> = Vec::new();
        let mut i: usize = 0;
        let n = self.routes.len();
        while i < n
            invariant
                i <= n,
                n == self.routes@.len(),
                pre@ == prefix@,
                flat_view(out@) == flatten_spec(self@, prefix@).subrange(0, i as int),
            decreases n - i,
        {
            let f = &self.routes[i];
            let path = join_path(&pre, &chars_of(f.path.as_str()));
            let mut mws = copy_ids(&self.middlewares);
            let mut own = copy_ids(&f.middlewares);
            mws.append(&mut own);
            let g = FlatRoute { method: f.method, path: string_of(&path), handler: f.handler, middlewares: mws };
            let ghost before = flat_view(out@);
            out.push(g);
            proof {
                assert(flatten_spec(self@, prefix@)[i as int] == g@);
                assert(flat_view(out@) =~= before.push(g@));
                assert(flat_view(out@) =~= flatten_spec(self@, prefix@).subrange(0, i + 1));
            }
            i = i + 1;
        }
        assert(flat_view(out@) =~= flatten_spec(self@, prefix@));
        out
    }
}

/// Middleware of nested routers are inherited: a route of a router nested
/// two levels below the root comes out of the root's flattening with the
/// root's middleware, then the middle router's, then the innermost
/// router's, then the route's own, in that order, under the joined prefix.
pub proof fn lemma_nested_middleware_order(
    root: RouterView,
    mid: RouterView,
    leaf: RouterView,
    outer_prefix: Seq<char>,
    inner_prefix: Seq<char>,
    base: Seq<char>,
    k: int,
)
    requires
        0 <= k < leaf.routes.len(),
    ensures
        ({
            let flat = flatten_spec(nest_spec(root, outer_prefix, nest_spec(mid, inner_prefix, leaf)), base);
            let at = root.routes.len() + mid.routes.len() + k;
            &&& 0 <= at < flat.len()
            &&& flat[at].middlewares == root.middlewares + mid.middlewares + leaf.middlewares
                + leaf.routes[k].middlewares
            &&& flat[at].path == join_paths(base, join_paths(outer_prefix, join_paths(inner_prefix, leaf.routes[k].path)))
            &&& flat[at].handler == leaf.routes[k].handler
            &&& flat[at].method == leaf.routes[k].method
        }),
{
    let inner = nest_spec(mid, inner_prefix, leaf);
    let outer = nest_spec(root, outer_prefix, inner);
    let at = root.routes.len() + mid.routes.len() + k;
    assert(inner.routes[mid.routes.len() + k].middlewares == leaf.middlewares + leaf.routes[k].middlewares);
    assert(outer.routes[at].middlewares == mid.middlewares + (leaf.middlewares + leaf.routes[k].middlewares));
    assert(root.middlewares + (mid.middlewares + (leaf.middlewares + leaf.routes[k].middlewares))
        =~= root.middlewares + mid.middlewares + leaf.middlewares + leaf.routes[k].middlewares);
}

} // verus!
