//! A NaiveProxy server node: who is let in, where traffic is routed, and how it is carried.
//!
//! - `config`, `config_auto`, `lifecycle`: settings, limits, start and stop
//! - `handler`: CONNECT requests and the tunnels that they open
//! - `acl`, `proxy_core`: routing, address checks, connections and the relay
//! - `transport`, `uot`: the padding protocol, stream adapters and datagrams over a tunnel
//! - `server_runner`, `pingora_runner`, `quiche_runner`: how the servers are set up
//! - `text`, `time`, `buffer`: helpers

pub mod acl;
pub mod buffer;
pub mod config;
pub mod config_auto;
pub mod error;
pub mod handler;
pub mod lifecycle;
pub mod pingora_runner;
pub mod proxy_core;
pub mod quiche_runner;
pub mod server_runner;
pub mod text;
pub mod time;
pub mod transport;
pub mod uot;
