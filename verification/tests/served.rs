//! The layered router at work: requests are sent through a real `axum` router
//! that the library has wrapped, and the answers are held against what the
//! library says of them.

use std::sync::atomic::{AtomicUsize, Ordering};
use std::sync::{Arc, Mutex};

use axum::body::{Body, Bytes};
use axum::http::{header, Request as HttpRequest, StatusCode};
use axum::routing::{get, post};
use axum::Router;
use tower::ServiceExt;

use proxy_ingress::config::{AppState, Config};
use proxy_ingress::middleware::Layer;
use proxy_ingress::pipeline::{Exchange, Pipeline, Request, Responder};
use proxy_ingress::router::{layered, wrap, wrap_in_stack};
use proxy_ingress::routes::{Group, Method, Pattern, Route, RouteTable};

/// How often each handler has run.
#[derive(Clone, Default)]
struct Calls {
    index: Arc<AtomicUsize>,
    proxy: Arc<AtomicUsize>,
    fallback: Arc<AtomicUsize>,
}

impl Calls {
    fn counts(&self) -> (usize, usize, usize) {
        (
            self.index.load(Ordering::SeqCst),
            self.proxy.load(Ordering::SeqCst),
            self.fallback.load(Ordering::SeqCst),
        )
    }
}

/// `GET /` for the index, `POST /proxy/...` for the proxy, and a fallback.
fn routes(calls: &Calls) -> Router {
    let index = calls.index.clone();
    let proxy = calls.proxy.clone();
    let fallback = calls.fallback.clone();
    let index_routes = Router::new().route(
        "/",
        get(move || {
            let index = index.clone();
            async move {
                index.fetch_add(1, Ordering::SeqCst);
                (StatusCode::OK, "index")
            }
        }),
    );
    let proxy_routes = Router::new().route(
        "/proxy/{*rest}",
        post(move |body: Bytes| {
            let proxy = proxy.clone();
            async move {
                proxy.fetch_add(1, Ordering::SeqCst);
                (StatusCode::CREATED, format!("{}", body.len()))
            }
        }),
    );
    let fallback_routes = Router::new().fallback(move || {
        let fallback = fallback.clone();
        async move {
            fallback.fetch_add(1, Ordering::SeqCst);
            (StatusCode::NOT_FOUND, "nothing here")
        }
    });
    Router::new().merge(index_routes).merge(proxy_routes).fallback_service(fallback_routes)
}

/// The same routes as the library's table.
fn pipeline(config: Config) -> Pipeline {
    let mut index = RouteTable::new();
    index
        .insert(Route {
            method: Method::Get,
            pattern: Pattern::Exact(b"/".to_vec()),
            group: Group::Index,
        })
        .unwrap();
    let mut proxy = RouteTable::new();
    proxy
        .insert(Route {
            method: Method::Post,
            pattern: Pattern::Prefix(b"/proxy/".to_vec()),
            group: Group::Proxy,
        })
        .unwrap();
    Pipeline::compose(&AppState::new(config), index, proxy).unwrap()
}

fn send(router: Router, request: HttpRequest<Body>) -> axum::response::Response {
    let runtime = tokio::runtime::Builder::new_current_thread().build().unwrap();
    runtime.block_on(async move { router.oneshot(request).await.unwrap() })
}

fn request(method: &str, path: &str, body_len: usize) -> HttpRequest<Body> {
    HttpRequest::builder()
        .method(method)
        .uri(path)
        .header(header::CONTENT_LENGTH, body_len.to_string())
        .header(header::ORIGIN, "https://elsewhere.example")
        .body(Body::from(vec![0u8; body_len]))
        .unwrap()
}

fn expected(config: Config, method: Method, path: &str, body_len: u64, reply: u16) -> Exchange {
    pipeline(config).handle(&Request { method, path: path.as_bytes().to_vec(), body_len }, reply)
}

fn allow_origin(response: &axum::response::Response) -> Option<String> {
    response
        .headers()
        .get(header::ACCESS_CONTROL_ALLOW_ORIGIN)
        .map(|v| v.to_str().unwrap().to_string())
}

fn max_age(response: &axum::response::Response) -> Option<u64> {
    response
        .headers()
        .get(header::ACCESS_CONTROL_MAX_AGE)
        .map(|v| v.to_str().unwrap().parse().unwrap())
}

/// Holds one real answer against the library's account of the same request.
fn agree(config: Config, method: (&str, Method), path: &str, body_len: usize, reply: u16) -> Exchange {
    let calls = Calls::default();
    let router = layered(routes(&calls), &config);
    let response = send(router, request(method.0, path, body_len));
    let exchange = expected(config, method.1, path, body_len as u64, reply);
    assert_eq!(response.status().as_u16(), exchange.response.status);
    assert_eq!(allow_origin(&response).is_some(), exchange.response.allow_any_origin);
    assert_eq!(max_age(&response), exchange.response.preflight_max_age);
    let ran = match exchange.response.responder {
        Responder::Handler(Group::Index) => (1, 0, 0),
        Responder::Handler(Group::Proxy) => (0, 1, 0),
        Responder::Fallback => (0, 0, 1),
        _ => (0, 0, 0),
    };
    assert_eq!(calls.counts(), ran);
    exchange
}

const CORS_ON: Config = Config { port: 8080, cors: true };
const CORS_OFF: Config = Config { port: 8080, cors: false };

#[test]
fn served_index_route_answers() {
    let exchange = agree(CORS_OFF, ("GET", Method::Get), "/", 0, 200);
    assert_eq!(exchange.response.responder, Responder::Handler(Group::Index));
}

#[test]
fn served_unknown_path_goes_to_fallback_with_cors_header() {
    let calls = Calls::default();
    let router = layered(routes(&calls), &CORS_ON);
    let response = send(router, request("GET", "/unknown-path", 0));
    assert_eq!(response.status(), StatusCode::NOT_FOUND);
    assert_eq!(allow_origin(&response), Some("*".to_string()));
    assert_eq!(calls.counts(), (0, 0, 1));
    let exchange = agree(CORS_ON, ("GET", Method::Get), "/unknown-path", 0, 404);
    assert_eq!(exchange.response.responder, Responder::Fallback);
}

#[test]
fn served_nine_million_bytes_are_turned_away() {
    let calls = Calls::default();
    let router = layered(routes(&calls), &CORS_ON);
    let response = send(router, request("POST", "/proxy/x", 9_000_000));
    assert_eq!(response.status(), StatusCode::PAYLOAD_TOO_LARGE);
    assert_eq!(calls.counts(), (0, 0, 0));
    let exchange = agree(CORS_ON, ("POST", Method::Post), "/proxy/x", 9_000_000, 201);
    assert_eq!(exchange.response.responder, Responder::BodyLimit);
}

#[test]
fn served_body_at_the_limit_reaches_the_proxy() {
    let exchange = agree(CORS_ON, ("POST", Method::Post), "/proxy/x", 8_000_000, 201);
    assert_eq!(exchange.response.responder, Responder::Handler(Group::Proxy));
    assert_eq!(exchange.response.status, 201);
}

#[test]
fn served_body_one_byte_over_the_limit_is_turned_away() {
    let exchange = agree(CORS_OFF, ("POST", Method::Post), "/proxy/x", 8_000_001, 201);
    assert_eq!(exchange.response.status, 413);
}

#[test]
fn served_undeclared_oversized_body_never_reaches_the_handler() {
    let calls = Calls::default();
    let router = layered(routes(&calls), &CORS_OFF);
    let request = HttpRequest::builder()
        .method("POST")
        .uri("/proxy/x")
        .body(Body::from(vec![0u8; 8_000_001]))
        .unwrap();
    let response = send(router, request);
    assert_eq!(response.status(), StatusCode::PAYLOAD_TOO_LARGE);
    assert_eq!(calls.counts(), (0, 0, 0));
}

#[test]
fn served_preflight_is_answered_by_cors() {
    let calls = Calls::default();
    let router = layered(routes(&calls), &CORS_ON);
    let response = send(router, request("OPTIONS", "/proxy/x", 0));
    assert_eq!(response.status(), StatusCode::OK);
    assert_eq!(allow_origin(&response), Some("*".to_string()));
    assert_eq!(max_age(&response), Some(600));
    assert_eq!(calls.counts(), (0, 0, 0));
    let exchange = agree(CORS_ON, ("OPTIONS", Method::Options), "/proxy/x", 0, 201);
    assert_eq!(exchange.response.responder, Responder::Preflight);
    agree(CORS_ON, ("OPTIONS", Method::Options), "/", 0, 200);
    agree(CORS_ON, ("OPTIONS", Method::Options), "/unknown-path", 0, 404);
}

#[test]
fn served_without_cors_options_gets_no_cors_header() {
    let calls = Calls::default();
    let router = layered(routes(&calls), &CORS_OFF);
    let response = send(router, request("OPTIONS", "/unknown-path", 0));
    assert_eq!(allow_origin(&response), None);
    assert_eq!(max_age(&response), None);
    assert_eq!(calls.counts(), (0, 0, 1));
    agree(CORS_OFF, ("OPTIONS", Method::Options), "/unknown-path", 0, 404);
    agree(CORS_OFF, ("GET", Method::Get), "/", 0, 200);
}

#[test]
fn served_known_path_with_other_method_is_not_allowed() {
    let exchange = agree(CORS_ON, ("DELETE", Method::Delete), "/proxy/x", 0, 201);
    assert_eq!(exchange.response.status, 405);
    assert_eq!(exchange.response.responder, Responder::MethodNotAllowed);
    agree(CORS_OFF, ("POST", Method::Post), "/", 0, 200);
}

#[test]
fn served_body_limit_comes_before_cors() {
    let calls = Calls::default();
    let router = layered(routes(&calls), &CORS_ON);
    let response = send(router, request("OPTIONS", "/proxy/x", 9_000_000));
    assert_eq!(response.status(), StatusCode::PAYLOAD_TOO_LARGE);
    assert_eq!(allow_origin(&response), None);
    agree(CORS_ON, ("OPTIONS", Method::Options), "/proxy/x", 9_000_000, 201);
}

#[test]
fn served_stack_order_decides_who_answers() {
    let calls = Calls::default();
    let inside_out = vec![Layer::Cors { max_age_secs: 600 }, Layer::BodyLimit { max_bytes: 10 }];
    let router = wrap_in_stack(routes(&calls), &inside_out);
    let response = send(router, request("OPTIONS", "/", 11));
    assert_eq!(response.status(), StatusCode::OK);
    assert_eq!(allow_origin(&response), Some("*".to_string()));

    let outside_in = vec![Layer::BodyLimit { max_bytes: 10 }, Layer::Cors { max_age_secs: 600 }];
    let router = wrap_in_stack(routes(&calls), &outside_in);
    let response = send(router, request("OPTIONS", "/", 11));
    assert_eq!(response.status(), StatusCode::PAYLOAD_TOO_LARGE);
    assert_eq!(allow_origin(&response), None);
}

#[test]
fn served_single_layers_do_their_work() {
    let calls = Calls::default();
    let plain = send(routes(&calls), request("POST", "/proxy/x", 11));
    assert_eq!(plain.status(), StatusCode::CREATED);
    assert_eq!(allow_origin(&plain), None);

    let limited = wrap(routes(&calls), Layer::BodyLimit { max_bytes: 10 });
    assert_eq!(send(limited, request("POST", "/proxy/x", 11)).status(), StatusCode::PAYLOAD_TOO_LARGE);

    let open = wrap(routes(&calls), Layer::Cors { max_age_secs: 42 });
    let response = send(open, request("OPTIONS", "/proxy/x", 0));
    assert_eq!(allow_origin(&response), Some("*".to_string()));
    assert_eq!(max_age(&response), Some(42));
}

/// Collects what the tracing layer emits.
#[derive(Clone, Default)]
struct Recorder {
    spans: Arc<Mutex<Vec<String>>>,
    events: Arc<Mutex<Vec<String>>>,
}

struct Fields(String);

impl tracing::field::Visit for Fields {
    fn record_debug(&mut self, field: &tracing::field::Field, value: &dyn std::fmt::Debug) {
        self.0.push_str(&format!("{}={:?};", field.name(), value));
    }
}

impl tracing::Subscriber for Recorder {
    fn enabled(&self, metadata: &tracing::Metadata<'_>) -> bool {
        *metadata.level() <= tracing::Level::INFO
    }

    fn new_span(&self, attrs: &tracing::span::Attributes<'_>) -> tracing::span::Id {
        let mut fields = Fields(format!("{}:", attrs.metadata().name()));
        attrs.record(&mut fields);
        let mut spans = self.spans.lock().unwrap();
        spans.push(fields.0);
        tracing::span::Id::from_u64(spans.len() as u64)
    }

    fn record(&self, _span: &tracing::span::Id, _values: &tracing::span::Record<'_>) {}

    fn record_follows_from(&self, _span: &tracing::span::Id, _follows: &tracing::span::Id) {}

    fn event(&self, event: &tracing::Event<'_>) {
        let mut fields = Fields(String::new());
        event.record(&mut fields);
        self.events.lock().unwrap().push(fields.0);
    }

    fn enter(&self, _span: &tracing::span::Id) {}

    fn exit(&self, _span: &tracing::span::Id) {}
}

fn traced(config: Config, request: HttpRequest<Body>) -> (u16, Vec<String>, Vec<String>) {
    let recorder = Recorder::default();
    let calls = Calls::default();
    let router = layered(routes(&calls), &config);
    let status =
        tracing::subscriber::with_default(recorder.clone(), || send(router, request).status());
    let spans = recorder.spans.lock().unwrap().clone();
    let events = recorder.events.lock().unwrap().clone();
    (status.as_u16(), spans, events)
}

#[test]
fn served_request_leaves_one_span_and_one_completion() {
    let (status, spans, events) = traced(CORS_ON, request("GET", "/unknown-path", 0));
    assert_eq!(status, 404);
    assert_eq!(spans.len(), 1);
    assert!(spans[0].starts_with("request:"));
    assert!(spans[0].contains("method=GET;"));
    assert!(spans[0].contains("uri=/unknown-path;"));
    assert_eq!(events.len(), 1);
    assert!(events[0].contains("status=404;"));
    assert!(events[0].contains("finished processing request"));
    let exchange = expected(CORS_ON, Method::Get, "/unknown-path", 0, 404);
    assert_eq!(exchange.log.len(), 2);
}

#[test]
fn served_rejected_body_leaves_no_record() {
    let (status, spans, events) = traced(CORS_ON, request("POST", "/proxy/x", 9_000_000));
    assert_eq!(status, 413);
    assert_eq!(spans.len(), 0);
    assert_eq!(events.len(), 0);
    let exchange = expected(CORS_ON, Method::Post, "/proxy/x", 9_000_000, 201);
    assert_eq!(exchange.log.len(), 0);
}

#[test]
fn served_preflight_leaves_no_record() {
    let (status, spans, events) = traced(CORS_ON, request("OPTIONS", "/proxy/x", 0));
    assert_eq!(status, 200);
    assert_eq!(spans.len(), 0);
    assert_eq!(events.len(), 0);
}

#[test]
fn served_undeclared_oversized_body_is_recorded_with_its_status() {
    let request = HttpRequest::builder()
        .method("POST")
        .uri("/proxy/x")
        .body(Body::from(vec![0u8; 9_000_000]))
        .unwrap();
    let (status, spans, events) = traced(CORS_ON, request);
    assert_eq!(status, 413);
    assert_eq!(spans.len(), 1);
    assert_eq!(events.len(), 1);
    assert!(events[0].contains("status=413;"));
}

#[test]
fn served_pipeline_layers_wrap_the_router_like_the_configuration() {
    let calls = Calls::default();
    let composed = pipeline(CORS_ON);
    assert_eq!(
        composed.layers(),
        &vec![
            Layer::BodyLimit { max_bytes: 8_000_000 },
            Layer::Cors { max_age_secs: 600 },
            Layer::Trace,
        ]
    );
    let router = wrap_in_stack(routes(&calls), composed.layers());
    let response = send(router, request("OPTIONS", "/", 0));
    assert_eq!(response.status(), StatusCode::OK);
    assert_eq!(max_age(&response), Some(600));
}

#[test]
fn served_empty_stack_leaves_the_router_as_it_is() {
    let calls = Calls::default();
    let router = wrap_in_stack(routes(&calls), &vec![]);
    let response = send(router, request("POST", "/proxy/x", 9_000_000));
    assert_eq!(response.status(), StatusCode::PAYLOAD_TOO_LARGE);
    let router = wrap_in_stack(routes(&calls), &vec![]);
    let response = send(router, request("POST", "/proxy/x", 2_000_000));
    assert_eq!(response.status(), StatusCode::CREATED);
    assert_eq!(allow_origin(&response), None);
    let router = wrap_in_stack(routes(&calls), &vec![]);
    let response = send(router, request("OPTIONS", "/", 0));
    assert_eq!(response.status(), StatusCode::METHOD_NOT_ALLOWED);
}
