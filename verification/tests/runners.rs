use server_naive::config::{CongestionControl, ConnConfig, NaiveConfig, NaiveNetwork, ServerConfig};
use server_naive::config_auto::{resolve, MaxConnections, ResolveMode};
use server_naive::lifecycle::{mode_name, serves_h3, warns_of_limit};
use server_naive::pingora_runner::{h2_setup, make_tcp_sock_opts, H2SetupError};
use server_naive::proxy_core::ip::IpAddr;
use server_naive::quiche_runner::make_quiche_settings;
use server_naive::server_runner::{
    after_accept, after_ping, bind_candidates, choose_router, connection_limit,
    make_transport_config, next_stage, stage_timeout, AcceptEvent, AcceptNext, ConnEvent,
    ConnStage, PingEvent, PingNext, RouterError, RouterKind, H2_INITIAL_CONN_WINDOW_SIZE,
    H2_INITIAL_WINDOW_SIZE, H3_EXTENDED_CONNECT, QUIC_INITIAL_RTT_MS,
    QUIC_KEEPALIVE_INTERVAL_SECS, QUIC_MAX_IDLE_TIMEOUT_SECS, TCP_KEEPALIVE_SECS,
};
use server_naive::time::Duration;
use std::sync::Arc;

fn server_config() -> ServerConfig {
    ServerConfig {
        port: 8443,
        cert: Some("cert.pem".to_string()),
        key: Some("key.pem".to_string()),
        acl_conf_file: None,
        data_dir: "/tmp".to_string(),
        block_private_ip: true,
        congestion_control: CongestionControl::Bbr,
    }
}

fn conn_config() -> ConnConfig {
    ConnConfig {
        idle_timeout: Duration::from_secs(300),
        uplink_only_timeout: Duration::from_secs(30),
        downlink_only_timeout: Duration::from_secs(30),
        connect_timeout: Duration::from_secs(5),
        request_timeout: Duration::from_secs(10),
        tls_handshake_timeout: Duration::from_secs(7),
        buffer_size: 32 * 1024,
        tcp_backlog: 1024,
        tcp_nodelay: true,
        max_connections: 2,
    }
}

#[test]
fn test_conn_limiter_unlimited_when_none() {
    assert!(connection_limit(0).is_none());
    assert_eq!(connection_limit(2), Some(2));
}

#[test]
fn test_tcp_keepalive_interval() {
    // 3 probes × 15s = 45s detection window
    let detection = TCP_KEEPALIVE_SECS * 3;
    assert!(detection <= 60);
}

#[test]
fn test_h2_window_sizes_are_reasonable() {
    assert!(H2_INITIAL_WINDOW_SIZE >= 64 * 1024);
    assert!(H2_INITIAL_CONN_WINDOW_SIZE >= H2_INITIAL_WINDOW_SIZE);
}

#[test]
fn test_make_transport_config_bbr_does_not_panic() {
    let tc = make_transport_config(&CongestionControl::Bbr);
    assert_eq!(tc.congestion_control, CongestionControl::Bbr);
    let _ = Arc::new(tc);
}

#[test]
fn test_make_transport_config_cubic_does_not_panic() {
    let tc = make_transport_config(&CongestionControl::Cubic);
    assert_eq!(tc.congestion_control, CongestionControl::Cubic);
    let _ = Arc::new(tc);
}

#[test]
fn test_make_transport_config_new_reno_does_not_panic() {
    let tc = make_transport_config(&CongestionControl::NewReno);
    assert_eq!(tc.congestion_control, CongestionControl::NewReno);
    let _ = Arc::new(tc);
}

#[test]
fn test_make_transport_config_initial_rtt_is_lower_than_spec_default() {
    // The default of the protocol is 333 ms; ours must be lower.
    assert!(QUIC_INITIAL_RTT_MS < 333);
    let tc = make_transport_config(&CongestionControl::Bbr);
    assert_eq!(tc.initial_rtt, Duration::from_millis(100));
}

#[test]
fn test_make_transport_config_keepalive_less_than_idle_timeout() {
    assert!(QUIC_KEEPALIVE_INTERVAL_SECS < QUIC_MAX_IDLE_TIMEOUT_SECS);
    let tc = make_transport_config(&CongestionControl::Bbr);
    assert_eq!(tc.keep_alive_interval, Duration::from_secs(20));
    assert_eq!(tc.max_idle_timeout, Duration::from_secs(120));
}

#[test]
fn test_h2_handshake_times_out_on_silent_client() {
    let config = conn_config();
    assert_eq!(stage_timeout(ConnStage::Http, &config), Some(Duration::from_secs(10)));
    assert_eq!(next_stage(ConnStage::Http, ConnEvent::TimedOut), ConnStage::Closed);
}

#[test]
fn connections_go_from_handshake_to_handshake() {
    let config = conn_config();
    assert_eq!(stage_timeout(ConnStage::Tls, &config), Some(Duration::from_secs(7)));
    assert_eq!(next_stage(ConnStage::Tls, ConnEvent::Ready), ConnStage::Http);
    assert_eq!(next_stage(ConnStage::Http, ConnEvent::Ready), ConnStage::Streams);
    assert_eq!(next_stage(ConnStage::Streams, ConnEvent::Ready), ConnStage::Streams);
    assert_eq!(stage_timeout(ConnStage::Streams, &config), None);
    assert_eq!(next_stage(ConnStage::Tls, ConnEvent::Failed), ConnStage::Closed);
    assert_eq!(next_stage(ConnStage::Streams, ConnEvent::Failed), ConnStage::Closed);
    assert_eq!(next_stage(ConnStage::Closed, ConnEvent::Ready), ConnStage::Closed);
    assert_eq!(stage_timeout(ConnStage::Closed, &config), None);
}

#[test]
fn only_errors_of_no_kind_end_the_accept_loop() {
    assert_eq!(after_accept(AcceptEvent::Accepted), AcceptNext::Serve);
    assert_eq!(after_accept(AcceptEvent::FailedKnown), AcceptNext::Continue);
    assert_eq!(after_accept(AcceptEvent::FailedOther), AcceptNext::Stop);
    assert_eq!(after_accept(AcceptEvent::LimiterClosed), AcceptNext::Stop);
}

#[test]
fn acl_files_make_acl_routers() {
    let mut config = server_config();
    assert_eq!(choose_router(&config, false), Ok(RouterKind::Direct));
    config.acl_conf_file = Some("/etc/acl.YAML".to_string());
    assert_eq!(choose_router(&config, true), Ok(RouterKind::Acl));
    let error = choose_router(&config, false).unwrap_err();
    assert_eq!(error, RouterError::AclFileMissing);
    assert_eq!(error.describe("/etc/acl.yaml"), "ACL config file not found: /etc/acl.yaml");
    config.acl_conf_file = Some("/etc/acl.json".to_string());
    let error = choose_router(&config, true).unwrap_err();
    assert_eq!(error, RouterError::AclFileFormat);
    assert_eq!(error.describe("x"), "Invalid ACL config file format: expected .yaml or .yml");
}

#[test]
fn only_answered_pings_go_on() {
    assert_eq!(after_ping(PingEvent::Answered), PingNext::Continue);
    assert_eq!(after_ping(PingEvent::Failed), PingNext::Stop);
    assert_eq!(after_ping(PingEvent::TimedOut), PingNext::Stop);
    assert!(H3_EXTENDED_CONNECT);
}

#[test]
fn both_ip_versions_are_bound() {
    let candidates = bind_candidates(443);
    assert_eq!(candidates.len(), 2);
    assert_eq!(candidates[0].ip, IpAddr::V6([0; 16]));
    assert_eq!(candidates[1].ip, IpAddr::V4([0; 4]));
    assert!(candidates.iter().all(|c| c.port == 443));
}

#[test]
fn tcp_sock_opts_set_keepalive() {
    let opts = make_tcp_sock_opts();
    let ka = opts.tcp_keepalive.expect("tcp_keepalive must be Some");
    assert_eq!(ka.idle, Duration::from_secs(15));
    assert_eq!(ka.interval, Duration::from_secs(15));
    assert_eq!(ka.count, 3);
    assert_eq!(ka.user_timeout, Duration::from_secs(60));
}

#[test]
fn the_h2_server_needs_a_certificate_and_a_key() {
    let mut config = server_config();
    let setup = h2_setup(&config).unwrap();
    assert_eq!(setup.bind_addr, "[::]:8443");
    assert_eq!(setup.cert_path, "cert.pem");
    assert_eq!(setup.key_path, "key.pem");
    config.key = None;
    assert!(matches!(h2_setup(&config), Err(H2SetupError::KeyRequired)));
    config.cert = None;
    let error = h2_setup(&config).unwrap_err();
    assert_eq!(error.as_str(), "cert required for H2 backend");
    assert_eq!(H2SetupError::KeyRequired.as_str(), "key required for H2 backend");
}

#[test]
fn quiche_make_settings_alpn_h3() {
    let settings = make_quiche_settings(&CongestionControl::Cubic);
    assert_eq!(settings.alpn, vec![b"h3".to_vec()], "QUIC settings must advertise ALPN h3");
}

#[test]
fn quiche_make_settings_bbr2_when_bbr_requested() {
    let settings = make_quiche_settings(&CongestionControl::Bbr);
    assert_eq!(
        settings.cc_algorithm, "bbr2_gcongestion",
        "CC::Bbr must map to BBRv2 from the gcongestion branch"
    );
}

#[test]
fn quiche_make_settings_cubic_when_cubic_requested() {
    let settings = make_quiche_settings(&CongestionControl::Cubic);
    assert_eq!(settings.cc_algorithm, "cubic");
}

#[test]
fn quiche_make_settings_reno_when_newreno_requested() {
    let settings = make_quiche_settings(&CongestionControl::NewReno);
    assert_eq!(settings.cc_algorithm, "reno");
}

#[test]
fn nodes_serve_one_transport() {
    let mut config = NaiveConfig {
        server_port: 443,
        network: NaiveNetwork::Tcp,
        congestion_control: CongestionControl::Bbr,
    };
    assert!(!serves_h3(&config));
    config.network = NaiveNetwork::Udp;
    assert!(serves_h3(&config));
}

#[test]
fn too_large_a_fixed_limit_is_warned_of() {
    let few = resolve(MaxConnections::Fixed(10), Some(4), Some(16_777_216), Some(65_536));
    assert!(!warns_of_limit(&few));
    let many = resolve(MaxConnections::Fixed(1_000_000), Some(4), Some(16_777_216), Some(65_536));
    assert!(warns_of_limit(&many));
    let auto = resolve(MaxConnections::Auto, Some(1), Some(0), Some(0));
    assert!(!warns_of_limit(&auto));
    assert_eq!(mode_name(ResolveMode::Auto), "auto");
    assert_eq!(mode_name(ResolveMode::Fixed), "fixed");
}
