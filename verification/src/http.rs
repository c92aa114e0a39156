//! Request-line and response wire format.

pub mod headers;
pub mod request;
pub mod response;
pub mod status;

pub use headers::Headers;
pub use request::{Method, ParseError, RequestHeader, Version};
pub use response::Response;
pub use status::StatusCode;
