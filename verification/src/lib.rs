//! Descriptors for HTTP-shaped requests and responses that cross an in-process
//! bridge, and their translation to and from the native HTTP types of a router.
//!
//! A [`LocalRequest`] is translated into a native request, which the caller
//! hands to its router; what the router answers is captured in a
//! [`LocalResponse`]. A request that cannot be translated and a router that
//! fails are answered with an internal-server-error response, so that the
//! caller always has a response to hand back.
//!
//! The library neither calls a router nor reads a body: both are the caller's
//! part. It decides what is sent and what comes back, and every such decision
//! is stated in a contract and proved. What it takes on trust of the native
//! layer stands in [`native`].

pub mod error;
pub mod headers;
pub mod native;
pub mod request;
pub mod response;
pub mod sse;
pub mod text;

pub use error::RequestError;
pub use headers::Headers;
pub use request::{Dispatch, LocalRequest, Method};
pub use response::LocalResponse;
