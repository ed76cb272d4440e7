//! The listener comes up as the lifecycle says: a socket is bound to the
//! address that the library gives, and a port that is taken ends startup.

use std::time::Duration;

use axum::body::Body;
use axum::http::{Request as HttpRequest, StatusCode};
use axum::routing::get;
use axum::Router;
use tokio::net::TcpListener;
use tower::ServiceExt;

use proxy_ingress::config::Config;
use proxy_ingress::router::layered;
use proxy_ingress::server::{bind_target, step, Action, Event, Phase};

fn routes() -> Router {
    Router::new()
        .route("/", get(|| async { (StatusCode::OK, "index") }))
        .route(
            "/slow",
            get(|| async {
                tokio::time::sleep(Duration::from_millis(1500)).await;
                (StatusCode::OK, "slow")
            }),
        )
        .fallback(|| async { (StatusCode::NOT_FOUND, "nothing here") })
}

/// Binds as the lifecycle says, and hands back the phase reached together
/// with the listener, if there is one.
async fn start(config: Config) -> (Phase, Option<TcpListener>) {
    let addr = bind_target(&config).unwrap();
    match TcpListener::bind(addr).await {
        Ok(listener) => {
            let (phase, action) = step(Phase::Unbound, Event::BindSucceeded);
            assert_eq!(action, Action::Announce);
            let (phase, action) = step(phase, Event::Announced);
            assert_eq!(action, Action::Serve);
            (phase, Some(listener))
        }
        Err(_) => {
            let (phase, action) = step(Phase::Unbound, Event::BindFailed);
            assert_eq!(action, Action::Abort);
            (phase, None)
        }
    }
}

fn runtime() -> tokio::runtime::Runtime {
    tokio::runtime::Builder::new_current_thread().enable_all().build().unwrap()
}

#[test]
fn listener_binds_the_configured_port_on_loopback() {
    runtime().block_on(async {
        let port = {
            let probe = TcpListener::bind("127.0.0.1:0").await.unwrap();
            probe.local_addr().unwrap().port()
        };
        let (phase, listener) = start(Config { port, cors: false }).await;
        assert_eq!(phase, Phase::Serving);
        let bound = listener.unwrap().local_addr().unwrap();
        assert_eq!(bound.port(), port);
        assert!(bound.ip().is_loopback());
        assert_eq!(bound.to_string(), format!("127.0.0.1:{}", port));
    });
}

#[test]
fn listener_on_a_taken_port_fails_for_good() {
    runtime().block_on(async {
        let taken = TcpListener::bind("127.0.0.1:0").await.unwrap();
        let port = taken.local_addr().unwrap().port();
        let (phase, listener) = start(Config { port, cors: false }).await;
        assert_eq!(phase, Phase::Failed);
        assert!(listener.is_none());
        assert_eq!(step(phase, Event::Announced), (Phase::Failed, Action::Ignore));
        assert_eq!(step(phase, Event::BindSucceeded), (Phase::Failed, Action::Ignore));
    });
}

#[test]
fn slow_request_does_not_hold_up_a_fast_one() {
    runtime().block_on(async {
        let router = layered(routes(), &Config { port: 8080, cors: true });
        let slow_router = router.clone();
        let slow = tokio::spawn(async move {
            let request = HttpRequest::builder().uri("/slow").body(Body::empty()).unwrap();
            slow_router.oneshot(request).await.unwrap().status()
        });
        tokio::time::sleep(Duration::from_millis(100)).await;
        let began = std::time::Instant::now();
        let request = HttpRequest::builder().uri("/").body(Body::empty()).unwrap();
        let fast = router.oneshot(request).await.unwrap().status();
        assert_eq!(fast, StatusCode::OK);
        assert!(began.elapsed() < Duration::from_millis(1000));
        assert!(!slow.is_finished());
        assert_eq!(slow.await.unwrap(), StatusCode::OK);
    });
}
