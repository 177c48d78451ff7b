//! A configurable HTTP client facade.
//!
//! Requests are built from a declarative configuration, routed through an
//! ordered chain of interceptors (the middleware pipeline), handed to a
//! network transport, and the responses are routed back through the same
//! chain, classified and decoded.  The pipeline and the request-execution
//! engine are verified; the transport itself (sockets, TLS, redirects) is an
//! external collaborator driven by unverified glue.
#![allow(unused_imports)]
use vstd::prelude::*;

pub mod client;
pub mod descriptor;
pub mod duration;
pub mod error;
pub mod headers;
pub mod middleware;
pub mod pipeline;
pub mod text;
pub mod utils;

pub use client::{ClientConfig, HttpClient};
pub use descriptor::{Method, RequestDescriptor, ResponseDescriptor};
pub use duration::Duration;
pub use error::HttpError;
pub use headers::{HeaderMap, StringMap};
pub use middleware::{AuthMiddleware, AuthType, HeaderMiddleware, LoggingMiddleware, Middleware,
    RetryMiddleware};

verus! {

/// Version of this library.
pub const VERSION: &'static str = "0.1.0";

/// A client with the default configuration.
pub fn new_client() -> (r: HttpClient)
    ensures
        client::config_is_default(r.config),
        r.middlewares@ == Seq::<Middleware>::empty(),
{
    HttpClient::new()
}

/// A client with a base URL and the remaining defaults.
pub fn client_with_base_url(base_url: &str) -> (r: HttpClient)
    ensures
        r.config.base_url matches Some(b) && b@ == base_url@,
        r.middlewares@ == Seq::<Middleware>::empty(),
{
    HttpClient::with_base_url(base_url)
}

} // verus!
