//! A verified core for a local TCP forwarder that tunnels client
//! connections through a pool of upstream proxy servers (HTTP CONNECT or
//! SOCKS5), ranking the upstreams by a probed latency score.
//!
//! The crate holds the selection core: upstream descriptors with live
//! statistics, the scoring and ranking rules, the wire framing of both
//! handshakes, destination discovery (including TLS server-name peeking),
//! and the dispatcher's candidate selection. Socket work lives outside.

pub mod addr;
pub mod config;
pub mod dispatch;
pub mod http;
pub mod monitor;
pub mod proxy;
pub mod rank;
pub mod sni;
pub mod socks5;
pub mod web;
