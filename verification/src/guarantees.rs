//! What holds of every request that goes through the pipeline of a
//! configuration, and of every route table.

use vstd::prelude::*;
use crate::config::Config;
use crate::middleware::{stack_of, Layer, BODY_LIMIT_BYTES, PREFLIGHT_MAX_AGE_SECS};
use crate::pipeline::{
    dispatched, exchange_of, preflight, responder_of, through, too_large, ExchangeView, Request,
    Responder, Response, TraceRecord, STATUS_METHOD_NOT_ALLOWED, STATUS_OK,
    STATUS_PAYLOAD_TOO_LARGE,
};
use crate::routes::{disjoint, first_serving, path_known, target_of, Method, Route, Target};

verus! {

/// The exchange that a request leads to under a configuration, said at once
/// instead of layer by layer.
pub open spec fn served(config: Config, routes: Seq<Route>, req: Request, reply: u16) -> ExchangeView {
    if req.body_len > BODY_LIMIT_BYTES {
        too_large()
    } else if config.cors && req.method == Method::Options {
        preflight(PREFLIGHT_MAX_AGE_SECS)
    } else {
        let inner = dispatched(routes, req, reply);
        ExchangeView {
            response: Response { allow_any_origin: config.cors, ..inner.response },
            log: seq![
                TraceRecord::Started { method: req.method, path: req.path@ },
                TraceRecord::Completed { status: inner.response.status },
            ],
        }
    }
}

/// Going through the stack of a configuration layer by layer comes to this:
/// the body limit decides first, then the CORS layer if there is one, and what
/// gets past both is dispatched and recorded.
pub proof fn stack_serves(config: Config, routes: Seq<Route>, req: Request, reply: u16)
    ensures
        exchange_of(stack_of(config), routes, req, reply) == served(config, routes, req, reply),
{
    let limit = Layer::BodyLimit { max_bytes: BODY_LIMIT_BYTES };
    let cors = Layer::Cors { max_age_secs: PREFLIGHT_MAX_AGE_SECS };
    let none = Seq::<Layer>::empty();
    let at_routes = dispatched(routes, req, reply);
    assert(exchange_of(none, routes, req, reply) == at_routes);
    let traced = through(Layer::Trace, req, at_routes);
    assert(seq![Layer::Trace].drop_first() =~= none);
    assert(exchange_of(seq![Layer::Trace], routes, req, reply) == traced);
    assert(traced.log =~= seq![
        TraceRecord::Started { method: req.method, path: req.path@ },
        TraceRecord::Completed { status: at_routes.response.status },
    ]);
    if config.cors {
        assert(seq![cors, Layer::Trace].drop_first() =~= seq![Layer::Trace]);
        assert(exchange_of(seq![cors, Layer::Trace], routes, req, reply) == through(
            cors,
            req,
            traced,
        ));
        assert(seq![limit, cors, Layer::Trace].drop_first() =~= seq![cors, Layer::Trace]);
        assert(exchange_of(seq![limit, cors, Layer::Trace], routes, req, reply) == through(
            limit,
            req,
            through(cors, req, traced),
        ));
    } else {
        assert(seq![limit, Layer::Trace].drop_first() =~= seq![Layer::Trace]);
        assert(exchange_of(seq![limit, Layer::Trace], routes, req, reply) == through(
            limit,
            req,
            traced,
        ));
    }
}

/// In the stack of every configuration the body limit is the outermost layer
/// and tracing the innermost; the CORS layer lies between them, and is there
/// exactly when CORS is on.
pub proof fn stack_order(config: Config)
    ensures
        stack_of(config).first() == (Layer::BodyLimit { max_bytes: BODY_LIMIT_BYTES }),
        stack_of(config).last() == Layer::Trace,
        config.cors ==> stack_of(config).len() == 3 && stack_of(config)[1] == (Layer::Cors {
            max_age_secs: PREFLIGHT_MAX_AGE_SECS,
        }),
        !config.cors ==> stack_of(config).len() == 2,
{
}

/// The order of the layers matters: with tracing outside the body limit, a
/// request that is turned away would be recorded all the same.
pub proof fn tracing_outside_would_record_rejections(
    max_bytes: usize,
    routes: Seq<Route>,
    req: Request,
    reply: u16,
)
    requires
        req.body_len > max_bytes,
    ensures
        exchange_of(seq![Layer::BodyLimit { max_bytes }, Layer::Trace], routes, req, reply).log
            == Seq::<TraceRecord>::empty(),
        exchange_of(seq![Layer::Trace, Layer::BodyLimit { max_bytes }], routes, req, reply).log
            == seq![
            TraceRecord::Started { method: req.method, path: req.path@ },
            TraceRecord::Completed { status: STATUS_PAYLOAD_TOO_LARGE },
        ],
{
    let limit = Layer::BodyLimit { max_bytes };
    let none = Seq::<Layer>::empty();
    assert(exchange_of(none, routes, req, reply) == dispatched(routes, req, reply));
    assert(seq![Layer::Trace].drop_first() =~= none);
    assert(seq![limit].drop_first() =~= none);
    assert(seq![limit, Layer::Trace].drop_first() =~= seq![Layer::Trace]);
    assert(seq![Layer::Trace, limit].drop_first() =~= seq![limit]);
    assert(exchange_of(seq![limit], routes, req, reply) == too_large());
    assert(exchange_of(seq![Layer::Trace, limit], routes, req, reply) == through(
        Layer::Trace,
        req,
        too_large(),
    ));
    assert(through(Layer::Trace, req, too_large()).log =~= seq![
        TraceRecord::Started { method: req.method, path: req.path@ },
        TraceRecord::Completed { status: STATUS_PAYLOAD_TOO_LARGE },
    ]);
}

/// A request whose body is larger than the limit is answered "payload too
/// large" by the body limit itself, whatever its method and path and whether
/// or not CORS is on: it reaches no handler, and tracing records nothing of it.
pub proof fn oversized_body_is_turned_away(
    config: Config,
    routes: Seq<Route>,
    req: Request,
    reply: u16,
)
    requires
        req.body_len > BODY_LIMIT_BYTES,
    ensures
        exchange_of(stack_of(config), routes, req, reply).response.status
            == STATUS_PAYLOAD_TOO_LARGE,
        exchange_of(stack_of(config), routes, req, reply).response.responder
            == Responder::BodyLimit,
        !exchange_of(stack_of(config), routes, req, reply).response.responder.is_handler(),
        exchange_of(stack_of(config), routes, req, reply).log.len() == 0,
{
    stack_serves(config, routes, req, reply);
}

/// A request whose body is within the limit, and which the CORS layer does
/// not answer as a preflight request, is answered by the target that the route
/// table gives it: by a handler with the handler's own status, or as "method
/// not allowed".
pub proof fn body_within_limit_reaches_its_target(
    config: Config,
    routes: Seq<Route>,
    req: Request,
    reply: u16,
)
    requires
        req.body_len <= BODY_LIMIT_BYTES,
        !(config.cors && req.method == Method::Options),
    ensures
        exchange_of(stack_of(config), routes, req, reply).response.responder == responder_of(
            target_of(routes, req.method, req.path@),
        ),
        exchange_of(stack_of(config), routes, req, reply).response.responder.is_handler()
            ==> exchange_of(stack_of(config), routes, req, reply).response.status == reply,
        !exchange_of(stack_of(config), routes, req, reply).response.responder.is_handler()
            ==> exchange_of(stack_of(config), routes, req, reply).response.status
            == STATUS_METHOD_NOT_ALLOWED,
{
    stack_serves(config, routes, req, reply);
}

/// With CORS on, a preflight request to any path, whose body is within the
/// limit, is answered by the CORS layer: every origin is allowed, the answer
/// may be cached for the configured time, and no handler is reached.
pub proof fn preflight_allows_any_origin(
    config: Config,
    routes: Seq<Route>,
    req: Request,
    reply: u16,
)
    requires
        config.cors,
        req.method == Method::Options,
        req.body_len <= BODY_LIMIT_BYTES,
    ensures
        exchange_of(stack_of(config), routes, req, reply).response == (Response {
            status: STATUS_OK,
            responder: Responder::Preflight,
            allow_any_origin: true,
            preflight_max_age: Some(PREFLIGHT_MAX_AGE_SECS),
        }),
{
    stack_serves(config, routes, req, reply);
}

/// With CORS on, every response to a request that is not a preflight request
/// and has passed the body limit allows every origin.
pub proof fn cors_marks_every_response(
    config: Config,
    routes: Seq<Route>,
    req: Request,
    reply: u16,
)
    requires
        config.cors,
        req.body_len <= BODY_LIMIT_BYTES,
    ensures
        exchange_of(stack_of(config), routes, req, reply).response.allow_any_origin,
{
    stack_serves(config, routes, req, reply);
}

/// With CORS off, no response allows any origin or names a preflight cache
/// time, and a request with the method `OPTIONS` is dispatched like any other.
pub proof fn without_cors_no_origin_is_allowed(
    config: Config,
    routes: Seq<Route>,
    req: Request,
    reply: u16,
)
    requires
        !config.cors,
    ensures
        !exchange_of(stack_of(config), routes, req, reply).response.allow_any_origin,
        exchange_of(stack_of(config), routes, req, reply).response.preflight_max_age is None,
        exchange_of(stack_of(config), routes, req, reply).response.responder
            != Responder::Preflight,
{
    stack_serves(config, routes, req, reply);
}

/// A request that gets as far as the route table, and so every request that
/// reaches a handler, leaves exactly two records: one of its start, with its
/// method and path, and after it one of its completion, with the status that
/// the client is sent. A request that is answered before leaves none.
pub proof fn dispatched_request_is_recorded_once(
    config: Config,
    routes: Seq<Route>,
    req: Request,
    reply: u16,
)
    ensures
        exchange_of(stack_of(config), routes, req, reply).response.responder.is_dispatch()
            ==> exchange_of(stack_of(config), routes, req, reply).log == seq![
            TraceRecord::Started { method: req.method, path: req.path@ },
            TraceRecord::Completed {
                status: exchange_of(stack_of(config), routes, req, reply).response.status,
            },
        ],
        !exchange_of(stack_of(config), routes, req, reply).response.responder.is_dispatch()
            ==> exchange_of(stack_of(config), routes, req, reply).log == Seq::<
            TraceRecord,
        >::empty(),
{
    stack_serves(config, routes, req, reply);
}

/// The route table gives every request a target, and the fallback exactly to
/// those whose path no route knows.
pub proof fn fallback_takes_unknown_paths(routes: Seq<Route>, method: Method, path: Seq<u8>)
    ensures
        target_of(routes, method, path) is Fallback <==> !path_known(routes, path),
        target_of(routes, method, path) is MethodNotAllowed <==> path_known(routes, path) && !(
        exists|i: int| 0 <= i < routes.len() && (#[trigger] routes[i]).serves(method, path)),
        target_of(routes, method, path) is Handler <==> (exists|i: int|
            0 <= i < routes.len() && (#[trigger] routes[i]).serves(method, path)),
{
    if exists|i: int| 0 <= i < routes.len() && (#[trigger] routes[i]).serves(method, path) {
        let i = choose|i: int| 0 <= i < routes.len() && (#[trigger] routes[i]).serves(method, path);
        first_serving_exists(routes, i, method, path);
        assert(routes[i].pattern.matches(path));
    } else {
        assert(forall|i: int| !first_serving(routes, i, method, path));
    }
}

/// A request for a path that no route knows is answered by the fallback
/// handler, with the fallback's own status, unless the body limit or a
/// preflight answer comes first.
pub proof fn unknown_path_reaches_fallback(
    config: Config,
    routes: Seq<Route>,
    req: Request,
    reply: u16,
)
    requires
        req.body_len <= BODY_LIMIT_BYTES,
        !(config.cors && req.method == Method::Options),
        !path_known(routes, req.path@),
    ensures
        exchange_of(stack_of(config), routes, req, reply).response.responder
            == Responder::Fallback,
        exchange_of(stack_of(config), routes, req, reply).response.status == reply,
{
    stack_serves(config, routes, req, reply);
    fallback_takes_unknown_paths(routes, req.method, req.path@);
}

/// Among disjoint routes at most one serves a request, so the handler that a
/// request reaches is the group of any route that serves it.
pub proof fn one_route_serves(routes: Seq<Route>, i: int, method: Method, path: Seq<u8>)
    requires
        disjoint(routes),
        0 <= i < routes.len(),
        routes[i].serves(method, path),
    ensures
        forall|j: int| 0 <= j < routes.len() && (#[trigger] routes[j]).serves(method, path) ==> j == i,
        target_of(routes, method, path) == Target::Handler(routes[i].group),
{
    assert forall|j: int|
        0 <= j < routes.len() && (#[trigger] routes[j]).serves(method, path) implies j == i by {
        if j < i {
            assert(routes[j].pattern.matches(path) && routes[i].pattern.matches(path));
            assert(routes[j].clashes(&routes[i]));
        } else if i < j {
            assert(routes[i].pattern.matches(path) && routes[j].pattern.matches(path));
            assert(routes[i].clashes(&routes[j]));
        }
    }
    assert(first_serving(routes, i, method, path));
    let k = choose|k: int| first_serving(routes, k, method, path);
    assert(k == i);
}

/// The order in which two groups are merged does not change where a request
/// is dispatched to, as long as the merged routes are disjoint.
pub proof fn merge_order_is_irrelevant(
    first: Seq<Route>,
    second: Seq<Route>,
    method: Method,
    path: Seq<u8>,
)
    requires
        disjoint(first + second),
    ensures
        target_of(first + second, method, path) == target_of(second + first, method, path),
{
    let ab = first + second;
    let ba = second + first;
    assert forall|i: int, j: int| 0 <= i < j < ba.len() implies !#[trigger] ba[i].clashes(
        &ba[j],
    ) by {
        let n = second.len() as int;
        let m = first.len() as int;
        let pi = if i < n { i + m } else { i - n };
        let pj = if j < n { j + m } else { j - n };
        assert(ba[i] == ab[pi] && ba[j] == ab[pj]);
        if pi < pj {
            assert(!ab[pi].clashes(&ab[pj]));
        } else {
            assert(!ab[pj].clashes(&ab[pi]));
            if ba[i].clashes(&ba[j]) {
                let p = choose|p: Seq<u8>| ba[i].pattern.matches(p) && ba[j].pattern.matches(p);
                assert(ab[pj].pattern.matches(p) && ab[pi].pattern.matches(p));
            }
        }
    }
    if exists|i: int| 0 <= i < ab.len() && (#[trigger] ab[i]).serves(method, path) {
        let i = choose|i: int| 0 <= i < ab.len() && (#[trigger] ab[i]).serves(method, path);
        let k = if i < first.len() { i + second.len() } else { i - first.len() };
        assert(ba[k] == ab[i]);
        one_route_serves(ab, i, method, path);
        one_route_serves(ba, k, method, path);
    } else {
        fallback_takes_unknown_paths(ab, method, path);
        fallback_takes_unknown_paths(ba, method, path);
        assert forall|k: int| 0 <= k < ba.len() implies !(#[trigger] ba[k]).serves(method, path) by {
            let i = if k < second.len() { k + first.len() } else { k - second.len() };
            assert(ba[k] == ab[i]);
        }
        if path_known(ab, path) {
            let i = choose|i: int| 0 <= i < ab.len() && (#[trigger] ab[i]).pattern.matches(path);
            let k = if i < first.len() { i + second.len() } else { i - first.len() };
            assert(ba[k] == ab[i]);
        }
        if path_known(ba, path) {
            let k = choose|k: int| 0 <= k < ba.len() && (#[trigger] ba[k]).pattern.matches(path);
            let i = if k < second.len() { k + first.len() } else { k - second.len() };
            assert(ba[k] == ab[i]);
        }
    }
}

/// Where some route serves a request, there is a first one that does.
proof fn first_serving_exists(routes: Seq<Route>, i: int, method: Method, path: Seq<u8>)
    requires
        0 <= i < routes.len(),
        routes[i].serves(method, path),
    ensures
        exists|k: int| first_serving(routes, k, method, path),
    decreases i,
{
    if exists|j: int| 0 <= j < i && (#[trigger] routes[j]).serves(method, path) {
        let j = choose|j: int| 0 <= j < i && (#[trigger] routes[j]).serves(method, path);
        first_serving_exists(routes, j, method, path);
    } else {
        assert(first_serving(routes, i, method, path));
    }
}

} // verus!
