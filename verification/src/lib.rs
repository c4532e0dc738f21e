//! A verified routing core for a small reverse proxy: a route table keyed by
//! normalized host, loaded from validated configuration records, consulted by
//! a dispatcher that plans how each inbound request is forwarded, and managed
//! at runtime through an authenticated control plane.

pub mod text;
pub mod route;
pub mod router;
pub mod dispatch;
pub mod control;
pub mod client;
pub mod config;
