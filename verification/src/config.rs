//! Process configuration as the core consumes it: plain values handed in by
//! the startup wiring, which reads and parses the configuration file.

use vstd::prelude::*;

verus! {

/// Where the proxy listener binds.
pub struct HttpServerConfig {
    pub ip_address: String,
    pub port: u16,
}

/// Where the control server listens, and the shared secret every
/// administrative command must present.
pub struct RpcServerConfig {
    pub port: u16,
    pub private_key: String,
}

/// The whole process configuration; the control plane is optional.
pub struct Config {
    pub http_server: HttpServerConfig,
    pub rpc_server: Option<RpcServerConfig>,
}

} // verus!
