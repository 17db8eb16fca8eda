//! A SOCKS5 / HTTP-CONNECT routing proxy: the routing rules, the route cache,
//! the connection statistics and the wire formats, with their contracts.

pub mod cli;
pub mod router;
pub mod server;
pub mod socks5;
pub mod stats;
pub mod table;
pub mod text;
