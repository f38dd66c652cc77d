use server_naive::config::ConnConfig;
use server_naive::lifecycle::{drain_step, users_to_kick, DrainStep};
use server_naive::proxy_core::connection::ConnectionManager;
use server_naive::proxy_core::hooks::{Authenticator, DirectRouter, StatsCollector, UserId};
use server_naive::proxy_core::ip::{IpAddr, SocketAddr};
use server_naive::proxy_core::server::{Router, Server};
use server_naive::time::Duration;
use std::cell::Cell;
use std::sync::Arc;

fn peer(port: u16) -> SocketAddr {
    SocketAddr { ip: IpAddr::V4([127, 0, 0, 1]), port }
}

#[test]
fn test_register_and_unregister() {
    let mut manager = ConnectionManager::new();
    let (conn_id, _token) = manager.register(1, peer(1234));
    assert_eq!(manager.connection_count(), 1);
    manager.unregister(conn_id);
    assert_eq!(manager.connection_count(), 0);
    assert_eq!(manager.user_count(), 0);
}

#[test]
fn test_kick_user() {
    let mut manager = ConnectionManager::new();
    let (_, token1) = manager.register(1, peer(1234));
    let (_, token2) = manager.register(1, peer(1235));
    let (_, token3) = manager.register(2, peer(1236));

    let kicked = manager.kick_user(1);
    assert_eq!(kicked, 2);
    assert!(token1.is_cancelled());
    assert!(token2.is_cancelled());
    assert!(!token3.is_cancelled());
}

#[test]
fn test_cancel_all() {
    let mut manager = ConnectionManager::new();
    let (_, token1) = manager.register(1, peer(1234));
    let (_, token2) = manager.register(2, peer(1235));

    let cancelled = manager.cancel_all();
    assert_eq!(cancelled, 2);
    assert!(token1.is_cancelled());
    assert!(token2.is_cancelled());
}

#[test]
fn test_shutdown_drain() {
    let mut manager = ConnectionManager::new();
    let mut held = Vec::new();
    for i in 0..10i64 {
        held.push(manager.register(i, peer((1000 + i) as u16)));
    }
    assert_eq!(manager.cancel_all(), 10);
    assert_eq!(drain_step(manager.connection_count(), false), DrainStep::Wait);
    for (conn_id, token) in &held {
        assert!(token.is_cancelled());
        manager.unregister(*conn_id);
    }
    assert_eq!(manager.connection_count(), 0);
    assert_eq!(drain_step(manager.connection_count(), false), DrainStep::Drained);
    assert_eq!(drain_step(3, true), DrainStep::GiveUp(3));
}

#[test]
fn numbers_are_given_once() {
    let mut manager = ConnectionManager::default();
    let (first, _) = manager.register(1, peer(1));
    manager.unregister(first);
    let (second, _) = manager.register(1, peer(2));
    assert_eq!(first, 1);
    assert_eq!(second, 2);
    assert!(manager.has_numbers());
    manager.unregister(first);
    assert_eq!(manager.connection_count(), 1);
}

#[test]
fn a_kicked_connection_stays_until_it_leaves() {
    let mut manager = ConnectionManager::new();
    let (id, _) = manager.register(7, peer(1));
    assert_eq!(manager.kick_user(7), 1);
    assert_eq!(manager.connection_count(), 1);
    assert_eq!(manager.user_count(), 1);
    assert_eq!(manager.kick_user(8), 0);
    manager.unregister(id);
    assert_eq!(manager.kick_user(7), 0);
}

#[test]
fn removed_and_changed_users_are_kicked() {
    let mut manager = ConnectionManager::new();
    let (_, a) = manager.register(1, peer(1));
    let (_, b) = manager.register(2, peer(2));
    let (_, c) = manager.register(3, peer(3));
    let users = users_to_kick(&[1], &[3]);
    assert_eq!(users, vec![1, 3]);
    assert_eq!(manager.kick_users(&users), 2);
    assert!(a.is_cancelled());
    assert!(!b.is_cancelled());
    assert!(c.is_cancelled());
    assert_eq!(manager.user_count(), 3);
}

struct TestAuthenticator;

impl Authenticator for TestAuthenticator {
    fn authenticate(&self, _credential: &str) -> Option<UserId> {
        Some(1)
    }
}

struct TestStatsCollector {
    requests: Cell<u64>,
}

impl TestStatsCollector {
    fn new() -> Self {
        Self { requests: Cell::new(0) }
    }
}

impl StatsCollector for TestStatsCollector {
    fn record_request(&self, _user_id: UserId) {
        self.requests.set(self.requests.get() + 1);
    }
    fn record_upload(&self, _user_id: UserId, _bytes: u64) {}
    fn record_download(&self, _user_id: UserId, _bytes: u64) {}
}

fn test_conn_config() -> ConnConfig {
    ConnConfig {
        idle_timeout: Duration::from_secs(300),
        uplink_only_timeout: Duration::from_secs(2),
        downlink_only_timeout: Duration::from_secs(5),
        connect_timeout: Duration::from_secs(5),
        request_timeout: Duration::from_secs(5),
        tls_handshake_timeout: Duration::from_secs(10),
        buffer_size: 32 * 1024,
        tcp_backlog: 1024,
        tcp_nodelay: true,
        max_connections: 65535,
    }
}

#[test]
fn test_server_builder() {
    let server = Server::builder()
        .authenticator(Arc::new(TestAuthenticator))
        .stats(TestStatsCollector::new())
        .conn_config(test_conn_config())
        .dns_cache("cache")
        .build();
    assert!(matches!(server.router, Router::Direct(DirectRouter { block_private_ip: true })));
    assert!(server.router.checks_addresses());
    assert_eq!(server.conn_manager.connection_count(), 0);
    assert_eq!(server.conn_config, test_conn_config());
    assert_eq!(server.authenticator.authenticate("any"), Some(1));
    server.stats.record_request(1);
    assert_eq!(server.stats.requests.get(), 1);
}

#[test]
fn test_server_builder_with_conn_manager() {
    let mut conn_manager = ConnectionManager::new();
    conn_manager.register(5, peer(9));
    let server = Server::builder()
        .authenticator(Arc::new(TestAuthenticator))
        .stats(TestStatsCollector::new())
        .conn_manager(conn_manager)
        .router(Router::Direct(DirectRouter::new(false)))
        .conn_config(test_conn_config())
        .dns_cache("cache")
        .build();
    assert_eq!(server.conn_manager.connection_count(), 1);
    assert!(!server.router.checks_addresses());
}
