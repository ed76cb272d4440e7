//! Wrapping an `axum` router in the middleware stack.
//!
//! The router itself is opaque here. What is tracked of it is the sequence of
//! layers that have been applied to it, which is all that the ordering of the
//! stack depends on.

use vstd::prelude::*;
use crate::config::Config;
use crate::middleware::{middleware_stack, stack_of, Layer};

verus! {

#[verifier::external_type_specification]
#[verifier::external_body]
#[verifier::reject_recursive_types(S)]
pub struct ExRouter<S>(axum::Router<S>);

/// The layers that `Router::layer` has wrapped around the routes and the
/// fallback of a router, in the order in which they were applied: the first is
/// the innermost, the last one sees a request first.
pub uninterp spec fn applied_layers(router: axum::Router<()>) -> Seq<Layer>;

/// Calls axum's `Router::layer` with one layer that holds tower-http's
/// `RequestBodyLimitLayer` around axum's `DefaultBodyLimit`, both set to
/// `max_bytes`. Trusted: `Router::layer` wraps every route and the fallback in
/// the layer it is given, outside all layers applied before.
#[verifier::external_body]
fn wrap_in_body_limit(router: axum::Router<()>, max_bytes: usize) -> (out: axum::Router<()>)
    ensures
        applied_layers(out) == applied_layers(router).push((Layer::BodyLimit { max_bytes })),
{
    router.layer(
        tower::ServiceBuilder::new()
            .layer(tower_http::limit::RequestBodyLimitLayer::new(max_bytes))
            .layer(axum::extract::DefaultBodyLimit::max(max_bytes)),
    )
}

/// Calls axum's `Router::layer` with tower-http's `CorsLayer::permissive()`,
/// its preflight cache time set by `CorsLayer::max_age` to `max_age_secs`
/// seconds. Trusted: `Router::layer` wraps every route and the fallback in the
/// layer it is given, outside all layers applied before.
#[verifier::external_body]
fn wrap_in_cors(router: axum::Router<()>, max_age_secs: u64) -> (out: axum::Router<()>)
    ensures
        applied_layers(out) == applied_layers(router).push((Layer::Cors { max_age_secs })),
{
    router.layer(
        tower_http::cors::CorsLayer::permissive().max_age(
            std::time::Duration::from_secs(max_age_secs),
        ),
    )
}

/// Calls axum's `Router::layer` with tower-http's `TraceLayer::new_for_http()`,
/// whose span and whose response record are both set to the level `INFO`.
/// Trusted: `Router::layer` wraps every route and the fallback in the layer it
/// is given, outside all layers applied before.
#[verifier::external_body]
fn wrap_in_trace(router: axum::Router<()>) -> (out: axum::Router<()>)
    ensures
        applied_layers(out) == applied_layers(router).push(Layer::Trace),
{
    router.layer(
        tower::ServiceBuilder::new().layer(
            tower_http::trace::TraceLayer::new_for_http()
                .make_span_with(
                    tower_http::trace::DefaultMakeSpan::new().level(tracing::Level::INFO),
                )
                .on_response(
                    tower_http::trace::DefaultOnResponse::new().level(tracing::Level::INFO),
                ),
        ),
    )
}

/// Wraps `router` in one more layer, which becomes its outermost.
pub fn wrap(router: axum::Router<()>, layer: Layer) -> (out: axum::Router<()>)
    ensures
        applied_layers(out) == applied_layers(router).push(layer),
{
    match layer {
        Layer::BodyLimit { max_bytes } => wrap_in_body_limit(router, max_bytes),
        Layer::Cors { max_age_secs } => wrap_in_cors(router, max_age_secs),
        Layer::Trace => wrap_in_trace(router),
    }
}

/// Wraps `router` in a whole stack that is given outermost layer first. The
/// innermost layer is applied first, so that a request meets the layers in the
/// order of `stack`.
pub fn wrap_in_stack(router: axum::Router<()>, stack: &Vec<Layer>) -> (out: axum::Router<()>)
    ensures
        applied_layers(out) == applied_layers(router) + stack@.reverse(),
{
    let mut out = router;
    let mut left: usize = stack.len();
    while left > 0
        invariant
            left <= stack.len(),
            applied_layers(out) == applied_layers(router) + stack@.subrange(
                left as int,
                stack.len() as int,
            ).reverse(),
        decreases left,
    {
        left = left - 1;
        let ghost before = applied_layers(out);
        out = wrap(out, stack[left]);
        proof {
            let done = stack@.subrange(left + 1, stack.len() as int);
            let now = stack@.subrange(left as int, stack.len() as int);
            assert(now.reverse() =~= done.reverse().push(stack@[left as int]));
            assert(applied_layers(out) =~= applied_layers(router) + now.reverse());
        }
    }
    proof {
        assert(stack@.subrange(0, stack.len() as int) =~= stack@);
    }
    out
}

/// Wraps `router` in the stack that `config` asks for.
pub fn layered(router: axum::Router<()>, config: &Config) -> (out: axum::Router<()>)
    ensures
        applied_layers(out) == applied_layers(router) + stack_of(*config).reverse(),
{
    let stack = middleware_stack(config);
    wrap_in_stack(router, &stack)
}

} // verus!
