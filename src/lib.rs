//! Request-dispatch core of a small HTTP server: route table, path matching,
//! middleware ordering, the per-request pipeline and connection admission.
pub mod types;
pub mod http;
pub mod path;
pub mod router;
pub mod response;
pub mod dispatch;
pub mod errors;
pub mod server;
pub mod headers;
pub mod connection;
pub mod group;
pub mod middleware;
pub mod request;
pub mod cookies;
