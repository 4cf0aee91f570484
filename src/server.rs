use vstd::prelude::*;
use vstd::utf8::*;
use crate::dispatch::Pipeline;
use crate::response::ResponseWriter;
use crate::router::{accepted_pattern, radix_key_ok, route_view, Router};
use crate::types::{Method, METHOD_COUNT};

verus! {

/// Default request timeout, in seconds.
pub const DEFAULT_TIMEOUT: u64 = 30;

/// Default number of connections served at once.
pub const DEFAULT_CONNECTION_LIMIT: u64 = 100;

/// Default time a connection may go without reading or writing, in seconds.
pub const DEFAULT_READ_TIMEOUT: u64 = 10;

/// Default ceiling on the bytes read from a connection, in bytes.
pub const DEFAULT_HEADER_LIMIT: usize = 32768;

/// An application: the route table with the handlers and middleware it
/// refers to, the error handler, and the server's limits. Handlers and
/// middleware are stored once and referred to by their position, so one
/// middleware registered for all methods is one shared instance.
pub struct App<H, M, E> {
    router: Router,
    handlers: Vec<H>,
    middlewares: Vec<M>,
    error_handler: Option<E>,
    limits: Limits,
}

/// The server's tunable limits.
#[derive(Clone, Copy, Debug, PartialEq, Eq, Structural)]
pub struct Limits {
    /// Request timeout, in seconds.
    pub timeout: u64,
    /// Number of connections served at once.
    pub connection_limit: u64,
    /// Time a connection may go without progress, in seconds.
    pub read_timeout: u64,
    /// Ceiling on the bytes read from a connection before headers complete.
    pub header_limit: usize,
}

/// `after` is `before` with `handler` registered for `method` under `path`:
/// it is the handler for that pair (when the table accepts the pattern), and
/// every other pair keeps its handler.
pub open spec fn route_added<H, M, E>(
    before: App<H, M, E>,
    after: App<H, M, E>,
    method: Method,
    path: Seq<char>,
    handler: H,
) -> bool {
    &&& (radix_key_ok(encode_utf8(path)) || accepted_pattern(path)) ==> after.handler_of(path, method)
        == Some(handler)
    &&& forall|p: Seq<char>, m: Method|
        !(p == path && m == method) ==> #[trigger] after.handler_of(p, m) == before.handler_of(p, m)
}

/// Registering a second handler for the same pattern and method replaces the
/// first: only the latest is found for that pair.
pub proof fn lemma_last_registration_wins<H, M, E>(
    a0: App<H, M, E>,
    a1: App<H, M, E>,
    a2: App<H, M, E>,
    method: Method,
    path: Seq<char>,
    first: H,
    second: H,
)
    requires
        route_added(a0, a1, method, path, first),
        route_added(a1, a2, method, path, second),
        radix_key_ok(encode_utf8(path)) || accepted_pattern(path),
    ensures
        a2.handler_of(path, method) == Some(second),
        forall|p: Seq<char>, m: Method|
            !(p == path && m == method) ==> #[trigger] a2.handler_of(p, m) == a0.handler_of(p, m),
{
    assert forall|p: Seq<char>, m: Method|
        !(p == path && m == method) implies #[trigger] a2.handler_of(p, m) == a0.handler_of(p, m) by {
        assert(a1.handler_of(p, m) == a0.handler_of(p, m));
    }
}

impl<H, M, E> App<H, M, E> {
    /// The route table.
    pub closed spec fn routes(&self) -> Router {
        self.router
    }

    /// The registered handlers, by identifier.
    pub closed spec fn handler_list(&self) -> Seq<H> {
        self.handlers@
    }

    /// The registered middleware, by identifier.
    pub closed spec fn middleware_list(&self) -> Seq<M> {
        self.middlewares@
    }

    /// The configured error handler; `None` stands for the default one.
    pub closed spec fn error_handler_view(&self) -> Option<E> {
        self.error_handler
    }

    /// The configured limits.
    pub closed spec fn limits_view(&self) -> Limits {
        self.limits
    }

    /// The configured limits.
    pub fn limits(&self) -> (r: Limits)
        ensures
            r == self.limits_view(),
    {
        self.limits
    }

    /// The route table is well formed and refers only to stored handlers and
    /// middleware.
    pub open spec fn wf(&self) -> bool {
        &&& self.routes().wf()
        &&& forall|p: Seq<char>, m: Method|
            #[trigger] self.routes().handler_for(p, m) matches Some(id) ==> id
                < self.handler_list().len()
        &&& forall|p: Seq<char>, m: Method, j: int|
            0 <= j < self.routes().middleware_for(p, m).len() ==> #[trigger] self.routes().middleware_for(
                p,
                m,
            )[j] < self.middleware_list().len()
    }

    /// The handler registered for pattern `p` and method `m`.
    pub open spec fn handler_of(&self, p: Seq<char>, m: Method) -> Option<H> {
        match self.routes().handler_for(p, m) {
            Some(id) => Some(self.handler_list()[id as int]),
            None => None,
        }
    }

    /// The middleware registered for pattern `p` and method `m`, in order.
    pub open spec fn middleware_of(&self, p: Seq<char>, m: Method) -> Seq<M> {
        self.routes().middleware_for(p, m).map_values(|id: usize| self.middleware_list()[id as int])
    }

    /// A new application with no routes, the default error handler and the
    /// default limits.
    pub fn new() -> (r: Self)
        ensures
            r.wf(),
            forall|p: Seq<char>| !r.routes().has_pattern(p),
            r.error_handler_view() is None,
            r.limits_view().timeout == DEFAULT_TIMEOUT,
            r.limits_view().connection_limit == DEFAULT_CONNECTION_LIMIT,
            r.limits_view().read_timeout == DEFAULT_READ_TIMEOUT,
            r.limits_view().header_limit == DEFAULT_HEADER_LIMIT,
    {
        App {
            router: Router::new(),
            handlers: Vec::new(),
            middlewares: Vec::new(),
            error_handler: None,
            limits: Limits {
                timeout: DEFAULT_TIMEOUT,
                connection_limit: DEFAULT_CONNECTION_LIMIT,
                read_timeout: DEFAULT_READ_TIMEOUT,
                header_limit: DEFAULT_HEADER_LIMIT,
            },
        }
    }

    /// Sets the request timeout, in seconds.
    pub fn set_timeout(&mut self, seconds: u64)
        ensures
            final(self).limits_view().timeout == seconds,
            final(self).limits_view().connection_limit == old(self).limits_view().connection_limit,
            final(self).limits_view().read_timeout == old(self).limits_view().read_timeout,
            final(self).limits_view().header_limit == old(self).limits_view().header_limit,
            final(self).routes() == old(self).routes(),
            final(self).handler_list() == old(self).handler_list(),
            final(self).middleware_list() == old(self).middleware_list(),
            final(self).error_handler_view() == old(self).error_handler_view(),
    {
        self.limits.timeout = seconds;
    }

    /// Sets how many connections are served at once.
    pub fn set_connection_limit(&mut self, limit: u64)
        ensures
            final(self).limits_view().connection_limit == limit,
            final(self).limits_view().timeout == old(self).limits_view().timeout,
            final(self).limits_view().read_timeout == old(self).limits_view().read_timeout,
            final(self).limits_view().header_limit == old(self).limits_view().header_limit,
            final(self).routes() == old(self).routes(),
            final(self).handler_list() == old(self).handler_list(),
            final(self).middleware_list() == old(self).middleware_list(),
            final(self).error_handler_view() == old(self).error_handler_view(),
    {
        self.limits.connection_limit = limit;
    }

    /// Sets the connection read timeout, in seconds.
    pub fn set_read_timeout(&mut self, seconds: u64)
        ensures
            final(self).limits_view().read_timeout == seconds,
            final(self).limits_view().timeout == old(self).limits_view().timeout,
            final(self).limits_view().connection_limit == old(self).limits_view().connection_limit,
            final(self).limits_view().header_limit == old(self).limits_view().header_limit,
            final(self).routes() == old(self).routes(),
            final(self).handler_list() == old(self).handler_list(),
            final(self).middleware_list() == old(self).middleware_list(),
            final(self).error_handler_view() == old(self).error_handler_view(),
    {
        self.limits.read_timeout = seconds;
    }

    /// Sets the ceiling on bytes read from a connection.
    pub fn set_header_limit(&mut self, bytes: usize)
        ensures
            final(self).limits_view().header_limit == bytes,
            final(self).limits_view().timeout == old(self).limits_view().timeout,
            final(self).limits_view().connection_limit == old(self).limits_view().connection_limit,
            final(self).limits_view().read_timeout == old(self).limits_view().read_timeout,
            final(self).routes() == old(self).routes(),
            final(self).handler_list() == old(self).handler_list(),
            final(self).middleware_list() == old(self).middleware_list(),
            final(self).error_handler_view() == old(self).error_handler_view(),
    {
        self.limits.header_limit = bytes;
    }

    /// Registers `handler` for `method` under `path`; a later registration
    /// of the same pattern and method replaces it.
    pub fn add_route(&mut self, method: Method, path: &str, handler: H)
        requires
            old(self).wf(),
        ensures
            final(self).wf(),
            route_added(*old(self), *final(self), method, path@, handler),
            forall|p: Seq<char>, m: Method|
                #[trigger] final(self).middleware_of(p, m) == old(self).middleware_of(p, m),
            forall|p: Seq<char>|
                #[trigger] final(self).routes().has_pattern(p) == (old(self).routes().has_pattern(p)
                    || (p == path@ && radix_key_ok(encode_utf8(path@)))),
            final(self).error_handler_view() == old(self).error_handler_view(),
            final(self).limits_view().timeout == old(self).limits_view().timeout,
            final(self).limits_view().connection_limit == old(self).limits_view().connection_limit,
            final(self).limits_view().read_timeout == old(self).limits_view().read_timeout,
            final(self).limits_view().header_limit == old(self).limits_view().header_limit,
    {
        let id = self.handlers.len();
        self.handlers.push(handler);
        self.router.insert(path, method, id);
        proof {
            assert forall|p: Seq<char>, m: Method|
                #[trigger] self.middleware_of(p, m) == old(self).middleware_of(p, m) by {
                let ids = self.routes().middleware_for(p, m);
                assert(self.middleware_of(p, m) =~= old(self).middleware_of(p, m));
            }
        }
    }

    /// Registers a handler for `GET` requests.
    pub fn get(&mut self, path: &str, handler: H)
        requires
            old(self).wf(),
        ensures
            final(self).wf(),
            (radix_key_ok(encode_utf8(path@)) || accepted_pattern(path@)) ==> final(self).handler_of(path@, Method::GET) == Some(handler),
            forall|p: Seq<char>, m: Method|
                !(p == path@ && m == Method::GET) ==> #[trigger] final(self).handler_of(p, m)
                    == old(self).handler_of(p, m),
            forall|p: Seq<char>, m: Method|
                #[trigger] final(self).middleware_of(p, m) == old(self).middleware_of(p, m),
            final(self).error_handler_view() == old(self).error_handler_view(),
            final(self).limits_view() == old(self).limits_view(),
    {
        self.add_route(Method::GET, path, handler);
    }

    /// Registers a handler for `POST` requests.
    pub fn post(&mut self, path: &str, handler: H)
        requires
            old(self).wf(),
        ensures
            final(self).wf(),
            (radix_key_ok(encode_utf8(path@)) || accepted_pattern(path@)) ==> final(self).handler_of(path@, Method::POST) == Some(handler),
            forall|p: Seq<char>, m: Method|
                !(p == path@ && m == Method::POST) ==> #[trigger] final(self).handler_of(p, m)
                    == old(self).handler_of(p, m),
            forall|p: Seq<char>, m: Method|
                #[trigger] final(self).middleware_of(p, m) == old(self).middleware_of(p, m),
            final(self).error_handler_view() == old(self).error_handler_view(),
            final(self).limits_view() == old(self).limits_view(),
    {
        self.add_route(Method::POST, path, handler);
    }

    /// Registers a handler for `PUT` requests.
    pub fn put(&mut self, path: &str, handler: H)
        requires
            old(self).wf(),
        ensures
            final(self).wf(),
            (radix_key_ok(encode_utf8(path@)) || accepted_pattern(path@)) ==> final(self).handler_of(path@, Method::PUT) == Some(handler),
            forall|p: Seq<char>, m: Method|
                !(p == path@ && m == Method::PUT) ==> #[trigger] final(self).handler_of(p, m)
                    == old(self).handler_of(p, m),
            forall|p: Seq<char>, m: Method|
                #[trigger] final(self).middleware_of(p, m) == old(self).middleware_of(p, m),
            final(self).error_handler_view() == old(self).error_handler_view(),
            final(self).limits_view() == old(self).limits_view(),
    {
        self.add_route(Method::PUT, path, handler);
    }

    /// Registers a handler for `PATCH` requests.
    pub fn patch(&mut self, path: &str, handler: H)
        requires
            old(self).wf(),
        ensures
            final(self).wf(),
            (radix_key_ok(encode_utf8(path@)) || accepted_pattern(path@)) ==> final(self).handler_of(path@, Method::PATCH) == Some(handler),
            forall|p: Seq<char>, m: Method|
                !(p == path@ && m == Method::PATCH) ==> #[trigger] final(self).handler_of(p, m)
                    == old(self).handler_of(p, m),
            forall|p: Seq<char>, m: Method|
                #[trigger] final(self).middleware_of(p, m) == old(self).middleware_of(p, m),
            final(self).error_handler_view() == old(self).error_handler_view(),
            final(self).limits_view() == old(self).limits_view(),
    {
        self.add_route(Method::PATCH, path, handler);
    }

    /// Registers a handler for `DELETE` requests.
    pub fn delete(&mut self, path: &str, handler: H)
        requires
            old(self).wf(),
        ensures
            final(self).wf(),
            (radix_key_ok(encode_utf8(path@)) || accepted_pattern(path@)) ==> final(self).handler_of(path@, Method::DELETE) == Some(handler),
            forall|p: Seq<char>, m: Method|
                !(p == path@ && m == Method::DELETE) ==> #[trigger] final(self).handler_of(p, m)
                    == old(self).handler_of(p, m),
            forall|p: Seq<char>, m: Method|
                #[trigger] final(self).middleware_of(p, m) == old(self).middleware_of(p, m),
            final(self).error_handler_view() == old(self).error_handler_view(),
            final(self).limits_view() == old(self).limits_view(),
    {
        self.add_route(Method::DELETE, path, handler);
    }

    /// Registers middleware under `path` for one method, or for every method
    /// when `method` is `None`; it runs after the middleware registered
    /// before it under the same pattern.
    pub fn middleware(&mut self, path: &str, method: Option<Method>, middleware_fn: M)
        requires
            old(self).wf(),
        ensures
            final(self).wf(),
            forall|m: Method|
                (radix_key_ok(encode_utf8(path@)) || accepted_pattern(path@)) && (method is None || method == Some(m))
                    ==> #[trigger] final(self).middleware_of(path@, m) == old(self).middleware_of(path@, m).push(middleware_fn),
            forall|p: Seq<char>, m: Method|
                !(p == path@ && (method is None || method == Some(m))) ==> #[trigger] final(self).middleware_of(p, m)
                    == old(self).middleware_of(p, m),
            forall|p: Seq<char>, m: Method|
                #[trigger] final(self).handler_of(p, m) == old(self).handler_of(p, m),
            final(self).error_handler_view() == old(self).error_handler_view(),
            final(self).limits_view() == old(self).limits_view(),
    {
        let id = self.middlewares.len();
        self.middlewares.push(middleware_fn);
        let ghost start = *old(self);
        match method {
            Some(m) => {
                self.router.insert_middleware(path, m, id);
            },
            None => {
                let mut i: usize = 0;
                while i < METHOD_COUNT
                    invariant
                        i <= METHOD_COUNT,
                        self.routes().wf(),
                        self.handlers@ == start.handler_list(),
                        self.error_handler == start.error_handler_view(),
                        self.limits == start.limits_view(),
                        i > 0 && accepted_pattern(path@) ==> radix_key_ok(encode_utf8(path@)),
                        self.middlewares@ == start.middleware_list().push(middleware_fn),
                        id == start.middleware_list().len(),
                        forall|p: Seq<char>, m: Method|
                            #[trigger] self.routes().handler_for(p, m) == start.routes().handler_for(p, m),
                        forall|m: Method|
                            radix_key_ok(encode_utf8(path@)) && crate::types::method_index(m) < i
                                ==> #[trigger] self.routes().middleware_for(path@, m)
                                == start.routes().middleware_for(path@, m).push(id),
                        forall|p: Seq<char>, m: Method|
                            !(p == path@ && crate::types::method_index(m) < i && radix_key_ok(encode_utf8(path@)))
                                ==> #[trigger] self.routes().middleware_for(p, m)
                                == start.routes().middleware_for(p, m),
                    decreases METHOD_COUNT - i,
                {
                    let m = Method::at(i);
                    let ghost prev = self.router;
                    self.router.insert_middleware(path, m, id);
                    proof {
                        assert forall|p: Seq<char>, m2: Method|
                            !(p == path@ && crate::types::method_index(m2) < i + 1 && radix_key_ok(encode_utf8(path@)))
                                implies #[trigger] self.routes().middleware_for(p, m2)
                                == start.routes().middleware_for(p, m2) by {
                            if p == path@ && m2 == m {
                                assert(self.router.table() == prev.table());
                                assert(self.router.middleware_for(p, m2) == prev.middleware_for(p, m2));
                            }
                        }
                    }
                    i = i + 1;
                }
            },
        }
        proof {
            assert forall|p: Seq<char>, m: Method|
                #[trigger] self.routes().middleware_for(p, m) == start.routes().middleware_for(p, m)
                    || self.routes().middleware_for(p, m) == start.routes().middleware_for(p, m).push(id) by {
                if p == path@ && (method is None || method == Some(m)) && radix_key_ok(encode_utf8(path@)) {
                    assert(crate::types::method_index(m) < METHOD_COUNT);
                }
            }
            assert forall|p: Seq<char>, m: Method, j: int|
                0 <= j < self.routes().middleware_for(p, m).len() implies #[trigger] self.routes().middleware_for(
                    p,
                    m,
                )[j] < self.middleware_list().len() by {
                let ids = self.routes().middleware_for(p, m);
                let was = start.routes().middleware_for(p, m);
                if ids == was {
                    assert(start.routes().middleware_for(p, m)[j] < start.middleware_list().len());
                } else {
                    assert(ids == was.push(id));
                    if j < was.len() {
                        assert(ids[j] == was[j]);
                        assert(start.routes().middleware_for(p, m)[j] < start.middleware_list().len());
                    }
                }
            }
            assert(accepted_pattern(path@) ==> radix_key_ok(encode_utf8(path@)));
            assert forall|m: Method|
                (radix_key_ok(encode_utf8(path@)) || accepted_pattern(path@)) && (method is None || method == Some(m))
                    implies #[trigger] self.middleware_of(path@, m) == start.middleware_of(path@, m).push(middleware_fn) by {
                assert(self.middleware_of(path@, m) =~= start.middleware_of(path@, m).push(middleware_fn));
            }
            assert forall|p: Seq<char>, m: Method|
                !(p == path@ && (method is None || method == Some(m))) implies #[trigger] self.middleware_of(p, m)
                    == start.middleware_of(p, m) by {
                assert(self.middleware_of(p, m) =~= start.middleware_of(p, m));
            }
        }
    }

    /// Replaces the error handler.
    pub fn set_error_handler(&mut self, handler: E)
        ensures
            final(self).error_handler_view() == Some(handler),
            final(self).limits_view() == old(self).limits_view(),
            final(self).routes() == old(self).routes(),
            final(self).handler_list() == old(self).handler_list(),
            final(self).middleware_list() == old(self).middleware_list(),
    {
        self.error_handler = Some(handler);
    }

    /// The configured error handler; `None` when the default one applies.
    pub fn error_handler(&self) -> (r: Option<&E>)
        ensures
            r matches Some(e) ==> self.error_handler_view() == Some(*e),
            r is None ==> self.error_handler_view() is None,
    {
        match &self.error_handler {
            Some(e) => Some(e),
            None => None,
        }
    }

    /// The handler with identifier `id`.
    pub fn handler(&self, id: usize) -> (r: Option<&H>)
        ensures
            id < self.handler_list().len() ==> (r matches Some(h) && *h == self.handler_list()[id as int]),
            id >= self.handler_list().len() ==> r is None,
    {
        if id < self.handlers.len() {
            Some(&self.handlers[id])
        } else {
            None
        }
    }

    /// The middleware with identifier `id`.
    pub fn middleware_at(&self, id: usize) -> (r: Option<&M>)
        ensures
            id < self.middleware_list().len() ==> (r matches Some(h) && *h == self.middleware_list()[id as int]),
            id >= self.middleware_list().len() ==> r is None,
    {
        if id < self.middlewares.len() {
            Some(&self.middlewares[id])
        } else {
            None
        }
    }

    /// Starts the pipeline for one request; see [`Pipeline::start`]. Every
    /// identifier in the result refers to a stored handler or middleware.
    pub fn begin(&self, method: Option<Method>, path: &str, res: &mut ResponseWriter) -> (r: Pipeline)
        requires
            self.wf(),
        ensures
            r.wf(),
            r.next == 0,
            forall|j: int| 0 <= j < r.middleware@.len() ==> #[trigger] r.middleware@[j] < self.middleware_list().len(),
            r.route matches Some(rt) ==> rt.0 < self.handler_list().len(),
            method matches Some(m) ==> r.middleware@ == self.routes().applicable_middleware(path@, m),
            method matches Some(m) ==> self.routes().find_post(path@, m, route_view(r.route)),
            method matches Some(m) ==> r.stage == crate::dispatch::Stage::Middleware && *final(res) == *old(res),
            method is None ==> r.stage == crate::dispatch::Stage::Done,
            method is None ==> final(res).status == crate::http::StatusCode::MethodNotAllowed,
            method is None ==> final(res).body@ == "Method Not Allowed"@,
            method is None ==> r.middleware@.len() == 0 && r.route is None,
            method is None ==> final(res).has_error == old(res).has_error && final(res).headers == old(res).headers,
    {
        let r = Pipeline::start(&self.router, method, path, res);
        proof {
            if let Some(m) = method {
                self.router.lemma_applicable_below(path@, m, self.middlewares@.len());
                if r.route is Some {
                    let rt = r.route.unwrap();
                    let p = choose|p: Seq<char>|
                        #[trigger] self.router.resolves(p, path@, m) && self.router.handler_for(p, m) == Some(rt.0)
                            && crate::path::match_spec(p, path@) == Some(crate::path::params_view(rt.1@))
                            && forall|q: Seq<char>|
                            #[trigger] self.router.resolves(q, path@, m) ==> crate::path::specificity(q)
                                <= crate::path::specificity(p);
                    assert(self.routes().handler_for(p, m) == Some(rt.0));
                }
            }
        }
        r
    }
}

} // verus!
