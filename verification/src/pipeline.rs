//! The composed pipeline: what becomes of one request on its way through the
//! middleware stack and the route table.
//!
//! Each layer either answers a request itself or hands it to what lies inside
//! it, and may add to the answer on the way back. What a handler answers is not
//! decided here: it comes in as the status that the handler replies with.
//!
//! A request comes with the size of its body, as its `Content-Length` says it.
//! Where a body arrives without one, the limit is enforced while the body is
//! read, which is past the point where this account ends.

use vstd::prelude::*;
use vstd::slice::slice_to_vec;
use crate::config::AppState;
use crate::middleware::{middleware_stack, stack_of, Layer};
use crate::routes::{Clash, Group, Method, Route, RouteTable, Target, target_of};

verus! {

/// The status of the answer to a preflight request.
pub const STATUS_OK: u16 = 200;

/// The status for a path that is known, but not with the request's method.
pub const STATUS_METHOD_NOT_ALLOWED: u16 = 405;

/// The status for a body over the limit.
pub const STATUS_PAYLOAD_TOO_LARGE: u16 = 413;

/// What the pipeline looks at in a request.
#[derive(Clone, Debug, PartialEq, Eq)]
pub struct Request {
    pub method: Method,
    pub path: Vec<u8>,
    /// The size of the body in bytes, as the request announces it.
    pub body_len: u64,
}

/// Who produced a response.
#[derive(Clone, Copy, Debug, PartialEq, Eq, Structural)]
pub enum Responder {
    /// The body limit, for a body that is too large.
    BodyLimit,
    /// The CORS layer, for a preflight request.
    Preflight,
    /// The handler of a route of this group.
    Handler(Group),
    /// The route table, for a known path with a method that no route serves.
    MethodNotAllowed,
    /// The fallback handler.
    Fallback,
}

impl Responder {
    /// Whether the request got as far as a handler: one of the index or
    /// proxy routes, or the fallback.
    pub open spec fn is_handler(&self) -> bool {
        self is Handler || self is Fallback
    }

    /// Whether the request got as far as the route table.
    pub open spec fn is_dispatch(&self) -> bool {
        self is Handler || self is Fallback || self is MethodNotAllowed
    }

    /// Whether the request got as far as a handler.
    pub fn reached_handler(&self) -> (reached: bool)
        ensures
            reached == self.is_handler(),
    {
        match self {
            Responder::Handler(_) => true,
            Responder::Fallback => true,
            _ => false,
        }
    }
}

/// What the client gets back.
#[derive(Clone, Copy, Debug, PartialEq, Eq)]
pub struct Response {
    pub status: u16,
    pub responder: Responder,
    /// Whether the response allows every origin to read it.
    pub allow_any_origin: bool,
    /// For how many seconds a browser may cache a preflight answer.
    pub preflight_max_age: Option<u64>,
}

/// One record of the tracing layer.
#[derive(Clone, Debug, PartialEq, Eq)]
pub enum TraceEvent {
    /// A request came in.
    Started { method: Method, path: Vec<u8> },
    /// Its response went out with this status.
    Completed { status: u16 },
}

/// A record of the tracing layer, as a mathematical value.
pub enum TraceRecord {
    Started { method: Method, path: Seq<u8> },
    Completed { status: u16 },
}

impl View for TraceEvent {
    type V = TraceRecord;

    open spec fn view(&self) -> TraceRecord {
        match self {
            TraceEvent::Started { method, path } => TraceRecord::Started {
                method: *method,
                path: path@,
            },
            TraceEvent::Completed { status } => TraceRecord::Completed { status: *status },
        }
    }
}

/// A response together with what tracing recorded on the way.
#[derive(Clone, Debug, PartialEq, Eq)]
pub struct Exchange {
    pub response: Response,
    pub log: Vec<TraceEvent>,
}

/// An exchange, as a mathematical value.
pub struct ExchangeView {
    pub response: Response,
    pub log: Seq<TraceRecord>,
}

impl View for Exchange {
    type V = ExchangeView;

    open spec fn view(&self) -> ExchangeView {
        ExchangeView { response: self.response, log: self.log@.map_values(|e: TraceEvent| e@) }
    }
}

/// Who answers at a target of the route table.
pub open spec fn responder_of(target: Target) -> Responder {
    match target {
        Target::Handler(group) => Responder::Handler(group),
        Target::MethodNotAllowed => Responder::MethodNotAllowed,
        Target::Fallback => Responder::Fallback,
    }
}

/// The exchange at the route table, inside all layers: a handler answers with
/// `reply`, a method that is not allowed is refused, and nothing is recorded.
pub open spec fn dispatched(routes: Seq<Route>, req: Request, reply: u16) -> ExchangeView {
    let target = target_of(routes, req.method, req.path@);
    ExchangeView {
        response: Response {
            status: if target is MethodNotAllowed {
                STATUS_METHOD_NOT_ALLOWED
            } else {
                reply
            },
            responder: responder_of(target),
            allow_any_origin: false,
            preflight_max_age: None,
        },
        log: Seq::empty(),
    }
}

/// The answer of the body limit to a request that it turns away.
pub open spec fn too_large() -> ExchangeView {
    ExchangeView {
        response: Response {
            status: STATUS_PAYLOAD_TOO_LARGE,
            responder: Responder::BodyLimit,
            allow_any_origin: false,
            preflight_max_age: None,
        },
        log: Seq::empty(),
    }
}

/// The answer of the CORS layer to a preflight request.
pub open spec fn preflight(max_age_secs: u64) -> ExchangeView {
    ExchangeView {
        response: Response {
            status: STATUS_OK,
            responder: Responder::Preflight,
            allow_any_origin: true,
            preflight_max_age: Some(max_age_secs),
        },
        log: Seq::empty(),
    }
}

/// What one layer makes of a request, given the exchange that the layers
/// inside it lead to.
///
/// The body limit turns a request with too large a body away and lets every
/// other through unchanged. The CORS layer answers a request with the method
/// `OPTIONS` by itself and allows every origin on all other responses. Tracing
/// records the start of the request and the status of the response it sees.
pub open spec fn through(layer: Layer, req: Request, inner: ExchangeView) -> ExchangeView {
    match layer {
        Layer::BodyLimit { max_bytes } => if req.body_len > max_bytes {
            too_large()
        } else {
            inner
        },
        Layer::Cors { max_age_secs } => if req.method == Method::Options {
            preflight(max_age_secs)
        } else {
            ExchangeView {
                response: Response { allow_any_origin: true, ..inner.response },
                log: inner.log,
            }
        },
        Layer::Trace => ExchangeView {
            response: inner.response,
            log: seq![TraceRecord::Started { method: req.method, path: req.path@ }] + inner.log
                + seq![TraceRecord::Completed { status: inner.response.status }],
        },
    }
}

/// The exchange that a request leads to behind a stack of layers, given
/// outermost first, around the routes.
pub open spec fn exchange_of(
    stack: Seq<Layer>,
    routes: Seq<Route>,
    req: Request,
    reply: u16,
) -> ExchangeView
    decreases stack.len(),
{
    if stack.len() == 0 {
        dispatched(routes, req, reply)
    } else {
        through(stack[0], req, exchange_of(stack.drop_first(), routes, req, reply))
    }
}

/// The merged routes inside their middleware stack.
pub struct Pipeline {
    stack: Vec<Layer>,
    table: RouteTable,
}

impl Pipeline {
    /// The layers, outermost first.
    pub closed spec fn stack(&self) -> Seq<Layer> {
        self.stack@
    }

    /// The routes.
    pub closed spec fn routes(&self) -> Seq<Route> {
        self.table@
    }

    /// The layers, outermost first, for whoever wraps a router in them.
    pub fn layers(&self) -> (stack: &Vec<Layer>)
        ensures
            stack@ == self.stack(),
    {
        &self.stack
    }

    /// Merges the index and the proxy routes into one table and puts the
    /// stack of the state's configuration around it. Routes of the two groups
    /// that clash are refused: the first such pair is reported, going through
    /// the proxy routes one by one.
    pub fn compose(state: &AppState, index: RouteTable, proxy: RouteTable) -> (composed: Result<
        Pipeline,
        Clash,
    >)
        requires
            index.wf(),
            proxy.wf(),
        ensures
            match composed {
                Ok(pipeline) => {
                    &&& pipeline.stack() == stack_of(state.config)
                    &&& pipeline.routes() == index@ + proxy@
                    &&& crate::routes::disjoint(pipeline.routes())
                    &&& forall|i: int, j: int|
                        0 <= i < index@.len() && 0 <= j < proxy@.len() ==> !#[trigger] index@[i].clashes(
                            &proxy@[j],
                        )
                },
                Err(clash) => {
                    &&& clash.present < index@.len()
                    &&& clash.added < proxy@.len()
                    &&& index@[clash.present as int].clashes(&proxy@[clash.added as int])
                    &&& forall|i: int|
                        0 <= i < clash.present ==> !#[trigger] index@[i].clashes(
                            &proxy@[clash.added as int],
                        )
                    &&& forall|i: int, j: int|
                        0 <= i < index@.len() && 0 <= j < clash.added ==> !#[trigger] index@[i].clashes(
                            &proxy@[j],
                        )
                },
            },
    {
        match index.merge(proxy) {
            Ok(table) => Ok(Pipeline { stack: middleware_stack(&state.config), table }),
            Err(clash) => Err(clash),
        }
    }

    /// What becomes of `req` when the handler that it reaches, if it reaches
    /// one, replies with the status `reply`.
    pub fn handle(&self, req: &Request, reply: u16) -> (exchange: Exchange)
        ensures
            exchange@ == exchange_of(self.stack(), self.routes(), *req, reply),
    {
        proof {
            assert(self.stack@.subrange(0, self.stack@.len() as int) =~= self.stack@);
        }
        handle_from(&self.stack, 0, &self.table, req, reply)
    }
}

/// The exchange at the route table itself.
fn dispatch_plain(table: &RouteTable, req: &Request, reply: u16) -> (exchange: Exchange)
    ensures
        exchange@ == dispatched(table@, *req, reply),
{
    let target = table.dispatch(req.method, req.path.as_slice());
    let response = match target {
        Target::Handler(group) => Response {
            status: reply,
            responder: Responder::Handler(group),
            allow_any_origin: false,
            preflight_max_age: None,
        },
        Target::MethodNotAllowed => Response {
            status: STATUS_METHOD_NOT_ALLOWED,
            responder: Responder::MethodNotAllowed,
            allow_any_origin: false,
            preflight_max_age: None,
        },
        Target::Fallback => Response {
            status: reply,
            responder: Responder::Fallback,
            allow_any_origin: false,
            preflight_max_age: None,
        },
    };
    let exchange = Exchange { response, log: Vec::new() };
    proof {
        assert(exchange@.log =~= Seq::<TraceRecord>::empty());
    }
    exchange
}

/// The exchange behind the layers of `stack` from index `from` on.
fn handle_from(stack: &Vec<Layer>, from: usize, table: &RouteTable, req: &Request, reply: u16) -> (exchange:
    Exchange)
    requires
        from <= stack.len(),
    ensures
        exchange@ == exchange_of(stack@.subrange(from as int, stack.len() as int), table@, *req, reply),
    decreases stack.len() - from,
{
    if from == stack.len() {
        return dispatch_plain(table, req, reply);
    }
    proof {
        let rest = stack@.subrange(from as int, stack.len() as int);
        assert(rest[0] == stack@[from as int]);
        assert(rest.drop_first() =~= stack@.subrange(from + 1, stack.len() as int));
    }
    match stack[from] {
        Layer::BodyLimit { max_bytes } => {
            if req.body_len > max_bytes as u64 {
                let exchange = Exchange {
                    response: Response {
                        status: STATUS_PAYLOAD_TOO_LARGE,
                        responder: Responder::BodyLimit,
                        allow_any_origin: false,
                        preflight_max_age: None,
                    },
                    log: Vec::new(),
                };
                proof {
                    assert(exchange@.log =~= Seq::<TraceRecord>::empty());
                }
                exchange
            } else {
                handle_from(stack, from + 1, table, req, reply)
            }
        },
        Layer::Cors { max_age_secs } => {
            if req.method == Method::Options {
                let exchange = Exchange {
                    response: Response {
                        status: STATUS_OK,
                        responder: Responder::Preflight,
                        allow_any_origin: true,
                        preflight_max_age: Some(max_age_secs),
                    },
                    log: Vec::new(),
                };
                proof {
                    assert(exchange@.log =~= Seq::<TraceRecord>::empty());
                }
                exchange
            } else {
                let inner = handle_from(stack, from + 1, table, req, reply);
                Exchange {
                    response: Response { allow_any_origin: true, ..inner.response },
                    log: inner.log,
                }
            }
        },
        Layer::Trace => {
            let inner = handle_from(stack, from + 1, table, req, reply);
            let mut log: Vec<TraceEvent> = Vec::new();
            log.push(TraceEvent::Started { method: req.method, path: slice_to_vec(req.path.as_slice()) });
            let mut seen = inner.log;
            let ghost seen_before = seen@;
            log.append(&mut seen);
            log.push(TraceEvent::Completed { status: inner.response.status });
            let exchange = Exchange { response: inner.response, log };
            proof {
                let view = |e: TraceEvent| e@;
                assert(exchange@.log =~= seq![
                    TraceRecord::Started { method: req.method, path: req.path@ },
                ] + seen_before.map_values(view) + seq![
                    TraceRecord::Completed { status: inner.response.status },
                ]);
            }
            exchange
        },
    }
}

} // verus!
