//! Verified core of a transparent API proxy for AI coding agents: configuration
//! and routing, SSE framing, protocol inspection, and the session timeline model.

pub mod config;
pub mod json;
pub mod messages;
pub mod relay;
pub mod response;
pub mod server;
pub mod session;
pub mod text;

use vstd::prelude::*;

verus! {
} // verus!
