use server_naive::config::{
    duration_or_secs, extension, is_acl_extension, is_duration_fitting, is_log_level, parse_duration,
    parse_ip_version, CliArgs, ConfigError, CongestionControl, ConnConfig, FileFacts, IpVersion,
    NaiveConfig, NaiveNetwork, ServerConfig, DEFAULT_DATA_DIR,
};
use server_naive::config_auto::MaxConnections;
use server_naive::time::Duration;

fn create_test_cli_args() -> CliArgs {
    CliArgs {
        server_host: "127.0.0.1".to_string(),
        port: 8082,
        node: 1,
        server_name: None,
        ca_file: None,
        cert_file: "/path/to/cert.pem".to_string(),
        key_file: "/path/to/key.pem".to_string(),
        fetch_users_interval: Duration::from_secs(60),
        report_traffics_interval: Duration::from_secs(100),
        heartbeat_interval: Duration::from_secs(180),
        api_timeout: Duration::from_secs(15),
        log_mode: "info".to_string(),
        data_dir: DEFAULT_DATA_DIR.to_string(),
        acl_conf_file: None,
        block_private_ip: true,
        refresh_geodata: false,
        panel_ip_version: IpVersion::V4,
        conn_idle_timeout: Duration::from_secs(300),
        tcp_connect_timeout: Duration::from_secs(5),
        request_timeout: Duration::from_secs(5),
        tls_handshake_timeout: Duration::from_secs(10),
        buffer_size: 32 * 1024,
        tcp_backlog: 1024,
        tcp_nodelay: true,
        uplink_only_timeout: Duration::from_secs(30),
        downlink_only_timeout: Duration::from_secs(30),
        max_connections: MaxConnections::Fixed(10_000),
    }
}

/// The facts where the certificate and the key exist and nothing else does.
fn with_certs() -> FileFacts {
    FileFacts {
        cert_exists: true,
        key_exists: true,
        ca_exists: false,
        acl_exists: false,
    }
}

fn without_files() -> FileFacts {
    FileFacts { cert_exists: false, key_exists: false, ..with_certs() }
}

#[test]
fn test_cli_args_validate_success() {
    assert!(create_test_cli_args().validate(&with_certs()).is_ok());
}

#[test]
fn test_cli_args_validate_empty_server_host() {
    let mut cli = create_test_cli_args();
    cli.server_host = "".to_string();
    assert!(cli.validate(&without_files()).is_err());
    assert_eq!(cli.validate(&with_certs()), Err(ConfigError::ServerHostEmpty));
}

#[test]
fn test_cli_args_validate_zero_port() {
    let mut cli = create_test_cli_args();
    cli.port = 0;
    assert!(cli.validate(&without_files()).is_err());
    assert_eq!(cli.validate(&with_certs()), Err(ConfigError::PortZero));
}

#[test]
fn test_cli_args_validate_invalid_node_id() {
    let mut cli = create_test_cli_args();
    cli.node = 0;
    assert!(cli.validate(&without_files()).is_err());
    assert_eq!(cli.validate(&with_certs()), Err(ConfigError::NodeZero));
}

#[test]
fn test_cli_args_validate_ca_file_not_found() {
    let mut cli = create_test_cli_args();
    cli.ca_file = Some("/nonexistent/ca.pem".to_string());
    let error = cli.validate(&with_certs()).unwrap_err();
    assert_eq!(error, ConfigError::CaFileMissing);
    assert_eq!(error.describe(&cli), "CA certificate file not found: /nonexistent/ca.pem");
    let found = FileFacts { ca_exists: true, ..with_certs() };
    assert!(cli.validate(&found).is_ok());
}

#[test]
fn test_validate_rejects_invalid_log_mode() {
    let mut cli = create_test_cli_args();
    cli.log_mode = "foobar".to_string();
    assert!(
        cli.validate(&with_certs()).is_err(),
        "validate() must reject unknown log_mode values"
    );
}

#[test]
fn test_validate_accepts_valid_log_modes() {
    let mut cli = create_test_cli_args();
    for mode in &["trace", "debug", "info", "warn", "error"] {
        cli.log_mode = mode.to_string();
        assert!(cli.validate(&with_certs()).is_ok(), "log_mode '{}' should be valid", mode);
    }
}

#[test]
fn log_modes_count_in_any_case() {
    let mut cli = create_test_cli_args();
    cli.log_mode = "WARN".to_string();
    assert!(cli.validate(&with_certs()).is_ok());
    assert!(is_log_level("warn"));
    assert!(!is_log_level("WARN"));
}

#[test]
fn missing_files_and_paths_are_told_apart() {
    let mut cli = create_test_cli_args();
    let error = cli.validate(&without_files()).unwrap_err();
    assert_eq!(error, ConfigError::CertFileMissing);
    assert_eq!(error.describe(&cli), "TLS certificate file not found: /path/to/cert.pem");
    let only_cert = FileFacts { key_exists: false, ..with_certs() };
    let error = cli.validate(&only_cert).unwrap_err();
    assert_eq!(error, ConfigError::KeyFileMissing);
    assert_eq!(error.describe(&cli), "TLS private key file not found: /path/to/key.pem");
    cli.key_file = String::new();
    let error = cli.validate(&with_certs()).unwrap_err();
    assert_eq!(error, ConfigError::KeyFileEmpty);
    assert_eq!(error.describe(&cli), "TLS private key file path is required (--key_file)");
    cli.cert_file = String::new();
    let error = cli.validate(&with_certs()).unwrap_err();
    assert_eq!(error, ConfigError::CertFileEmpty);
    assert_eq!(error.describe(&cli), "TLS certificate file path is required (--cert_file)");
}

#[test]
fn empty_intervals_are_refused() {
    let zero = Duration::from_secs(0);
    let mut cli = create_test_cli_args();
    cli.heartbeat_interval = zero;
    let error = cli.validate(&with_certs()).unwrap_err();
    assert_eq!(error.describe(&cli), "heartbeat_interval must be greater than 0");
    cli.report_traffics_interval = zero;
    let error = cli.validate(&with_certs()).unwrap_err();
    assert_eq!(error.describe(&cli), "report_traffics_interval must be greater than 0");
    cli.fetch_users_interval = zero;
    let error = cli.validate(&with_certs()).unwrap_err();
    assert_eq!(error.describe(&cli), "fetch_users_interval must be greater than 0");
    cli = create_test_cli_args();
    cli.heartbeat_interval = Duration::from_millis(1);
    assert!(cli.validate(&with_certs()).is_ok());
}

#[test]
fn acl_files_must_exist_and_be_yaml() {
    let mut cli = create_test_cli_args();
    cli.acl_conf_file = Some("/etc/acl.toml".to_string());
    let error = cli.validate(&with_certs()).unwrap_err();
    assert_eq!(error, ConfigError::AclFileMissing);
    assert_eq!(error.describe(&cli), "ACL config file not found: /etc/acl.toml");
    let found = FileFacts { acl_exists: true, ..with_certs() };
    let error = cli.validate(&found).unwrap_err();
    assert_eq!(error, ConfigError::AclFileFormat);
    assert_eq!(
        error.describe(&cli),
        "Invalid ACL config file format: expected .yaml or .yml extension"
    );
    for ext in ["yaml", "yml", "YAML", "Yml"] {
        cli.acl_conf_file = Some(format!("/etc/rules.d/acl.{ext}"));
        assert!(cli.validate(&found).is_ok(), "extension {ext}");
        assert!(is_acl_extension(ext));
    }
    assert!(!is_acl_extension(""));
    cli.acl_conf_file = Some("/etc/acl.yaml.d/rules".to_string());
    assert_eq!(cli.validate(&found), Err(ConfigError::AclFileFormat));
}

#[test]
fn extensions_are_those_of_paths() {
    let paths = [
        "acl.yaml", "/etc/acl.yaml", "/etc/acl.tar.yml", "acl.yaml/", "acl.yaml/.", "acl.yaml//./",
        "/etc/acl.yaml/..", "/etc/.yaml", ".yaml", "..yaml", "acl.", "acl", "", "/", ".", "..",
        "./", "../", "/.", "a.b/c", "a.b/../c.d", "x/..y.z", "\u{e4}.\u{f6}", "...", "a/...",
    ];
    for path in paths {
        let expected = std::path::Path::new(path).extension().and_then(|e| e.to_str());
        assert_eq!(extension(path), expected.unwrap_or(""), "path {path:?}");
    }
    assert_eq!(extension("/etc/acl.tar.yml"), "yml");
}

#[test]
fn errors_of_the_settings_have_texts() {
    let mut cli = create_test_cli_args();
    cli.log_mode = "loud".to_string();
    assert_eq!(
        ConfigError::LogModeInvalid.describe(&cli),
        "Invalid log_mode 'loud'. Valid values: trace, debug, info, warn, error"
    );
    assert_eq!(
        ConfigError::ServerHostEmpty.describe(&cli),
        "Server host is required (--server_host)"
    );
    assert_eq!(
        ConfigError::PortZero.describe(&cli),
        "Port must be a positive integer (--port)"
    );
    assert_eq!(ConfigError::NodeZero.describe(&cli), "Node ID must be a positive integer");
}

#[test]
fn test_congestion_control_default_is_bbr() {
    let cc = CongestionControl::default();
    assert_eq!(cc, CongestionControl::Bbr);
}

#[test]
fn networks_have_names_and_a_default() {
    assert_eq!(NaiveNetwork::default(), NaiveNetwork::Tcp);
    assert_eq!(NaiveNetwork::Tcp.as_str(), "tcp");
    assert_eq!(NaiveNetwork::Udp.as_str(), "udp");
}

#[test]
fn test_server_config_from_remote() {
    let remote = NaiveConfig {
        server_port: 443,
        network: NaiveNetwork::Tcp,
        congestion_control: CongestionControl::Bbr,
    };
    let cli = create_test_cli_args();
    let config = ServerConfig::from_remote(&remote, &cli);
    assert_eq!(config.port, 443);
    assert!(config.cert.is_some());
    assert!(config.key.is_some());
    assert_eq!(config.congestion_control, CongestionControl::Bbr);
    assert_eq!(config.cert.unwrap(), "/path/to/cert.pem");
    assert_eq!(config.key.unwrap(), "/path/to/key.pem");
    assert_eq!(config.data_dir, DEFAULT_DATA_DIR);
    assert!(config.acl_conf_file.is_none());
    assert!(config.block_private_ip);
}

#[test]
fn test_server_config_propagates_cubic() {
    let remote = NaiveConfig {
        server_port: 443,
        network: NaiveNetwork::Udp,
        congestion_control: CongestionControl::Cubic,
    };
    let config = ServerConfig::from_remote(&remote, &create_test_cli_args());
    assert_eq!(config.congestion_control, CongestionControl::Cubic);
}

#[test]
fn test_conn_config_from_cli() {
    let cli = create_test_cli_args();
    let config = ConnConfig::from_cli(&cli, 10_000);
    assert_eq!(config.max_connections, 10_000);
    assert_eq!(config.idle_timeout_secs(), 300);
    assert_eq!(config.uplink_only_timeout_secs(), 30);
    assert_eq!(config.downlink_only_timeout_secs(), 30);
    assert_eq!(config.buffer_size, 32 * 1024);
    assert_eq!(config.tcp_backlog, 1024);
    assert_eq!(config.tls_handshake_timeout, Duration::from_secs(10));
}

#[test]
fn test_parse_duration() {
    assert_eq!(parse_duration("60s").unwrap(), Duration::from_secs(60));
    assert_eq!(parse_duration("2m").unwrap(), Duration::from_secs(120));
    assert_eq!(parse_duration("60").unwrap(), Duration::from_secs(60));
    assert!(parse_duration("invalid").is_err());
}

#[test]
fn durations_have_units_or_are_seconds() {
    assert_eq!(parse_duration("1h 30m").unwrap(), Duration::from_secs(5400));
    assert_eq!(parse_duration("1500ms").unwrap(), Duration { secs: 1, nanos: 500_000_000 });
    assert_eq!(parse_duration("0").unwrap(), Duration::from_secs(0));
    assert_eq!(parse_duration("18446744073709551615").unwrap().as_secs(), u64::MAX);
    assert_eq!(
        parse_duration("x").unwrap_err(),
        "Invalid duration 'x'. Use formats like '60s', '2m', '1h' or plain seconds"
    );
    assert!(parse_duration("18446744073709551616").is_err());
    assert_eq!(parse_duration("10000000000s").unwrap().as_secs(), 10_000_000_000);
}

#[test]
fn what_was_read_with_units_comes_first() {
    assert_eq!(
        duration_or_secs(Some((7, 5)), "60").unwrap(),
        Duration { secs: 7, nanos: 5 }
    );
    assert_eq!(duration_or_secs(None, "+60").unwrap(), Duration::from_secs(60));
    assert!(duration_or_secs(None, "-60").is_err());
    assert!(duration_or_secs(None, "").is_err());
}

#[test]
fn long_durations_below_a_second_are_read() {
    assert_eq!(parse_duration("10000000000ns").unwrap(), Duration::from_secs(10));
    assert_eq!(
        parse_duration(&"1ms ".repeat(400)).unwrap(),
        Duration { secs: 0, nanos: 400_000_000 }
    );
    assert_eq!(
        parse_duration("18446744073709551615ns 1s").unwrap(),
        Duration { secs: 18_446_744_074, nanos: 709_551_615 }
    );
}

#[test]
fn durations_that_could_overflow_are_known() {
    assert!(is_duration_fitting("999999999y 999999999ns"));
    assert!(is_duration_fitting("18446744073709551615"));
    assert!(is_duration_fitting("18446744073709551615s"));
    assert!(is_duration_fitting("10000000000 minutes"));
    assert!(is_duration_fitting("invalid"));
    assert!(is_duration_fitting("10000000000ns"));
    assert!(is_duration_fitting("18446744073709551615ns 1s"));
    assert!(is_duration_fitting("18446744073709551600s 1ms"));
    assert!(is_duration_fitting("580000000000y 1.5s"));
    assert!(is_duration_fitting(&"1ms ".repeat(400)));
    assert!(!is_duration_fitting("600000000000y 1.5s"));
    assert!(!is_duration_fitting("18446744073709551615s 1000000000ns"));
    assert!(!is_duration_fitting("18446744073709551614.5s 500ms"));
}

#[test]
fn test_parse_ip_version_valid() {
    assert_eq!(parse_ip_version("v4").unwrap(), IpVersion::V4);
    assert_eq!(parse_ip_version("v6").unwrap(), IpVersion::V6);
    assert_eq!(parse_ip_version("auto").unwrap(), IpVersion::Auto);
}

#[test]
fn test_parse_ip_version_invalid() {
    assert!(parse_ip_version("invalid").is_err());
}

#[test]
fn ip_versions_have_other_names_in_any_case() {
    assert_eq!(parse_ip_version("IPv4").unwrap(), IpVersion::V4);
    assert_eq!(parse_ip_version("6").unwrap(), IpVersion::V6);
    assert_eq!(parse_ip_version("AUTO").unwrap(), IpVersion::Auto);
    assert_eq!(
        parse_ip_version("V5").unwrap_err(),
        "Invalid IP version 'V5'. Use 'v4', 'v6', or 'auto'"
    );
}

#[test]
fn durations_count_whole_seconds() {
    assert_eq!(Duration::from_millis(1999), Duration { secs: 1, nanos: 999_000_000 });
    assert_eq!(Duration::from_millis(1999).as_secs(), 1);
    assert!(Duration::from_secs(0).is_zero());
    assert!(!Duration::from_millis(1).is_zero());
}
