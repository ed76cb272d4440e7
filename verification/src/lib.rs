//! The public ingress of a reverse proxy: which middleware wraps the routes,
//! in which order, what each of them enforces, and how the listener comes up.

pub mod address;
pub mod config;
pub mod guarantees;
pub mod middleware;
pub mod pipeline;
pub mod router;
pub mod routes;
pub mod server;
