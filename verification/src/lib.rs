//! A minimal plaintext responder: request-line parsing, routing, response
//! framing, and the bookkeeping of a pool with a fixed number of workers.

pub mod http;
pub mod pool;
pub mod router;
pub mod text;
