//! Routes, their handlers, and the dispatch of a request to the first route that matches it.

use crate::error::SerwerError;
use crate::method::Method;
use crate::params::Params;
use crate::path::{bindings, lemma_path_accepted, path_accepted, path_result, paths_match, Path};
use crate::request::{request_result, Request, RequestView};
use crate::response::{Response, ResponseView};
use crate::status_code::StatusCode;
use crate::text::same_text;
use crate::version::Version;
use vstd::prelude::*;

verus! {

/// A handler: given the request and a fresh response, it gives the response to send.
pub struct Action<F> {
    func: F,
}

/// A fresh `200 OK` response with nothing in it, of the given version.
pub open spec fn fresh_response(r: Response, version: Version) -> bool {
    r.wf() && r@ == (ResponseView {
        version,
        status_code: StatusCode::OK,
        body: seq![],
        headers: Map::empty(),
        cookies: Map::empty(),
    }) && r.header_entries().len() == 0 && r.cookie_entries().len() == 0
}

/// A response that holds only a status.
pub open spec fn status_response(r: Response, version: Version, status: StatusCode) -> bool {
    r.wf() && r@ == (ResponseView {
        version,
        status_code: status,
        body: seq![],
        headers: Map::empty(),
        cookies: Map::empty(),
    }) && r.header_entries().len() == 0 && r.cookie_entries().len() == 0
}

impl<F: Fn(Request, Response) -> Response> Action<F> {
    pub closed spec fn handler(&self) -> F {
        self.func
    }

    pub fn new(func: F) -> (r: Action<F>)
        ensures
            r.handler() == func,
    {
        Action { func }
    }

    /// Runs the handler on `request` and a fresh response of the request's version.
    pub fn run(&self, request: Request) -> (r: Response)
        requires
            forall|q: Request, s: Response| #[trigger] self.handler().requires((q, s)),
        ensures
            exists|s: Response|
                fresh_response(s, request@.version) && #[trigger] self.handler().ensures(
                    (request, s),
                    r,
                ),
    {
        let response = Response::new(&request.version());
        let ghost q = request;
        let ghost s = response;
        assert(self.handler().requires((request, response)));
        let r = (self.func)(request, response);
        assert(fresh_response(s, q@.version) && self.handler().ensures((q, s), r));
        r
    }
}

/// A method and a path pattern bound to a handler.
pub struct Route<F> {
    method: Method,
    path: Path,
    action: Action<F>,
}

impl<F: Fn(Request, Response) -> Response> Route<F> {
    pub closed spec fn method_of(&self) -> Method {
        self.method
    }

    pub closed spec fn pattern(&self) -> Path {
        self.path
    }

    pub closed spec fn handler(&self) -> F {
        self.action.handler()
    }

    pub closed spec fn wf(&self) -> bool {
        self.path.wf()
    }

    /// Binds `action` to `method` and the pattern `path`; a pattern that does
    /// not read as a path gives its error.
    pub fn new(method: Method, path: &str, action: F) -> (r: Result<Route<F>, SerwerError>)
        ensures
            r is Ok <==> path_accepted(path@),
            r matches Err(e) ==> path_result(path@, Err(e)),
            r matches Ok(route) ==> route.wf() && route.method_of() == method && path_result(
                path@,
                Ok(route.pattern()),
            ) && route.handler() == action,
    {
        match Path::from_string(path) {
            Ok(p) => {
                proof {
                    lemma_path_accepted(path@, Ok(p));
                }
                Ok(Route { method, path: p, action: Action::new(action) })
            },
            Err(e) => {
                proof {
                    lemma_path_accepted(path@, Err(e));
                }
                Err(e)
            },
        }
    }

    pub fn method(&self) -> (r: &Method)
        ensures
            *r == self.method_of(),
    {
        &self.method
    }

    pub fn path(&self) -> (r: &Path)
        ensures
            *r == self.pattern(),
    {
        &self.path
    }

    /// Runs the handler on `request` and a fresh response of the request's version.
    pub fn run_action(&self, request: Request) -> (r: Response)
        requires
            forall|q: Request, s: Response| #[trigger] self.handler().requires((q, s)),
        ensures
            exists|s: Response|
                fresh_response(s, request@.version) && #[trigger] self.handler().ensures(
                    (request, s),
                    r,
                ),
    {
        assert forall|q: Request, s: Response| #[trigger] self.action.handler().requires((q, s)) by {
            assert(self.handler().requires((q, s)));
        }
        let ghost q = request;
        let r = self.action.run(request);
        let ghost s = choose|s: Response| fresh_response(s, q@.version) && #[trigger] self.action.handler().ensures((q, s), r);
        assert(fresh_response(s, q@.version) && self.handler().ensures((q, s), r));
        r
    }
}

/// The route serves the request: its method is the request's (or `ALL`)
/// and its pattern matches the request's path.
pub open spec fn route_applies<F: Fn(Request, Response) -> Response>(route: Route<F>, q: RequestView) -> bool {
    (route.method_of() == q.method || route.method_of() == Method::ALL) && paths_match(
        route.pattern().segments(),
        q.path.segments(),
    )
}

/// Route `i` is the first that serves the request.
pub open spec fn first_route<F: Fn(Request, Response) -> Response>(
    routes: Seq<Route<F>>,
    q: RequestView,
    i: int,
) -> bool {
    0 <= i < routes.len() && route_applies(routes[i], q) && forall|j: int|
        0 <= j < i ==> !route_applies(#[trigger] routes[j], q)
}

/// At most one route is the first to serve a request, so `dispatch` runs
/// exactly one handler when some route serves it, and none otherwise.
pub proof fn lemma_first_route_unique<F: Fn(Request, Response) -> Response>(
    routes: Seq<Route<F>>,
    q: RequestView,
    i: int,
    j: int,
)
    requires
        first_route(routes, q, i),
        first_route(routes, q, j),
    ensures
        i == j,
{
    if i < j {
        assert(!route_applies(routes[i], q));
    } else if j < i {
        assert(!route_applies(routes[j], q));
    }
}

/// What answering `q` with `routes` gives: the first route that serves it
/// runs its handler with the pattern's parameters bound, and a request that
/// no route serves gets `404 Not Found`.
pub open spec fn dispatched<F: Fn(Request, Response) -> Response>(
    routes: Seq<Route<F>>,
    q: RequestView,
    r: Response,
) -> bool {
    if exists|i: int| first_route(routes, q, i) {
        exists|i: int, q2: Request, s: Response|
            first_route(routes, q, i) && q2@ == (RequestView {
                params: bindings(
                    routes[i].pattern().segments(),
                    q.path.segments(),
                    routes[i].pattern().segments().len() as int,
                ),
                ..q
            }) && fresh_response(s, q.version) && #[trigger] routes[i].handler().ensures(
                (q2, s),
                r,
            )
    } else {
        status_response(r, Version::HTTP_1_1, StatusCode::NotFound)
    }
}

/// Answers a parsed request with the first route that serves it, or `404 Not Found`.
pub fn dispatch<F: Fn(Request, Response) -> Response>(routes: &Vec<Route<F>>, request: Request) -> (r: Response)
    requires
        request.wf(),
        forall|i: int| 0 <= i < routes@.len() ==> (#[trigger] routes@[i]).wf(),
        forall|i: int, q: Request, s: Response| 0 <= i < routes@.len() ==> #[trigger] routes@[i].handler().requires((q, s)),
    ensures
        dispatched(routes@, request@, r),
{
    let mut i: usize = 0;
    while i < routes.len()
        invariant
            request.wf(),
            i <= routes@.len(),
            forall|j: int| 0 <= j < routes@.len() ==> (#[trigger] routes@[j]).wf(),
            forall|j: int, q: Request, s: Response| 0 <= j < routes@.len() ==> #[trigger] routes@[j].handler().requires((q, s)),
            forall|j: int| 0 <= j < i ==> !route_applies(#[trigger] routes@[j], request@),
        decreases routes@.len() - i,
    {
        let route = &routes[i];
        if *route.method() == request.method() || *route.method() == Method::ALL {
            let (matches, params) = route.path().matches(request.path());
            if matches {
                let p = match params {
                    Some(p) => p,
                    None => Params::new(),
                };
                let ghost q = request@;
                let mut bound = request;
                bound.set_params(p);
                assert(first_route(routes@, q, i as int));
                let r = route.run_action(bound);
                proof {
                    let s = choose|s: Response| fresh_response(s, bound@.version) && #[trigger] route.handler().ensures((bound, s), r);
                    assert(routes@[i as int].handler().ensures((bound, s), r));
                }
                return r;
            }
        }
        i += 1;
    }
    let mut response = Response::new(&Version::HTTP_1_1);
    response.set_status_code(StatusCode::NotFound);
    assert forall|j: int| !first_route(routes@, request@, j) by {
        if 0 <= j < routes@.len() {
            assert(!route_applies(routes@[j], request@));
        }
    }
    response
}

/// Answers the bytes of a connection: `400 Bad Request` when they do not
/// parse as a request, else as `dispatch` answers the request.
pub fn handle_request<F: Fn(Request, Response) -> Response>(routes: &Vec<Route<F>>, data: &[u8]) -> (r: Response)
    requires
        forall|i: int| 0 <= i < routes@.len() ==> (#[trigger] routes@[i]).wf(),
        forall|i: int, q: Request, s: Response| 0 <= i < routes@.len() ==> #[trigger] routes@[i].handler().requires((q, s)),
    ensures
        (forall|q: Request| !request_result(data@, Ok(q))) ==> status_response(r, Version::HTTP_1_1, StatusCode::BadRequest),
        (exists|q: Request| request_result(data@, Ok(q))) ==> exists|q: Request|
            request_result(data@, Ok(q)) && #[trigger] dispatched(routes@, q@, r),
{
    match Request::from_bytes(data) {
        Ok(request) => {
            let ghost q = request;
            let r = dispatch(routes, request);
            assert(request_result(data@, Ok(q)) && dispatched(routes@, q@, r));
            r
        },
        Err(e) => {
            proof {
                assert forall|q: Request| !request_result(data@, Ok(q)) by {
                    lemma_request_result_exclusive(data@, e, q);
                }
            }
            let mut response = Response::new(&Version::HTTP_1_1);
            response.set_status_code(StatusCode::BadRequest);
            response
        },
    }
}

proof fn lemma_request_result_exclusive(b: Seq<u8>, e: SerwerError, q: Request)
    requires
        request_result(b, Err(e)),
    ensures
        !request_result(b, Ok(q)),
{
}

/// Whether a route with this method and exactly this pattern text is registered.
pub fn route_exists<F: Fn(Request, Response) -> Response>(routes: &Vec<Route<F>>, method: &Method, path: &str) -> (r: bool)
    ensures
        r == exists|i: int|
            0 <= i < routes@.len() && (#[trigger] routes@[i]).method_of() == *method && routes@[i].pattern().raw() == path@,
{
    let mut i: usize = 0;
    while i < routes.len()
        invariant
            i <= routes@.len(),
            forall|j: int| 0 <= j < i ==> !((#[trigger] routes@[j]).method_of() == *method && routes@[j].pattern().raw() == path@),
        decreases routes@.len() - i,
    {
        let route = &routes[i];
        if *route.method() == *method && same_text(route.path().get_string().as_str(), path) {
            return true;
        }
        i += 1;
    }
    false
}

} // verus!
