//! Addresses, routing hooks, connection tracking and the relay.

pub mod address;
pub mod connection;
pub mod dns;
pub mod hooks;
pub mod ip;
pub mod ip_filter;
pub mod relay;
pub mod server;
