//! A minimal HTTP service core: request framing, HTTP Basic credential
//! extraction, authentication against a password-hash store, a role gate,
//! and the dispatch of each request to its handler.
//!
//! The crate holds the decision logic only.  Sockets, threads and the
//! process around them live outside; they hand this library header lines
//! and body bytes, and receive the response bytes to write back.

pub mod text;
pub mod role;
pub mod response;
pub mod framer;
pub mod creds;
pub mod store;
pub mod authn;
pub mod handlers;
pub mod pipeline;
pub mod queue;
