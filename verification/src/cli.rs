//! The command line of the proxy.

use vstd::prelude::*;

verus! {

/// The options the proxy is started with.
#[derive(Debug, Clone, PartialEq, Eq)]
pub struct Cli {
    /// Run as a daemon process.
    pub daemon: bool,
    /// Listen address for the SOCKS server.
    pub listen_addr: String,
    /// Path to the routing configuration file.
    pub route_config: String,
}

} // verus!
