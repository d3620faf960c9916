//! A forward HTTP/HTTPS proxy library whose outbound connections bind a
//! source address drawn at random from an operator-supplied CIDR block.
//!
//! The modules here hold the proxy's decision logic — address parsing and
//! sampling, DNS-order handling, Happy-Eyeballs planning, request dispatch,
//! accept-loop screening, configuration merging and route matching — each
//! function carrying a contract that pins its behaviour down.

pub mod cidr;
pub mod config;
pub mod connect;
pub mod error;
pub mod http;
pub mod ip_parse;
pub mod net;
pub mod proxy;
mod rng;
pub mod route;
pub mod serve;
pub mod text;
pub mod uri;

pub use net::IpAddress;
pub use net::SocketAddress;
