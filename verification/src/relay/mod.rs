//! The proxy relay: SSE framing, upstream request/response inspection and the
//! decisions of the proxy entry point.

pub mod capture;
pub mod hook;
pub mod mcp;
pub mod relay;
pub mod sse;
pub mod upstream;
