use server_naive::error::NaiveError;

#[test]
fn test_io_error_display() {
    let io_err = std::io::Error::new(std::io::ErrorKind::NotFound, "file not found");
    let err = NaiveError::Io(io_err.to_string());
    assert!(err.to_string().contains("IO error"));
    assert_eq!(err.to_string(), "IO error: file not found");
}

#[test]
fn test_config_error_display() {
    let err = NaiveError::Config("invalid port".to_string());
    assert!(err.to_string().contains("Configuration error"));
    assert_eq!(err.to_string(), "Configuration error: invalid port");
}

#[test]
fn test_authentication_error_display() {
    let err = NaiveError::Authentication("invalid password".to_string());
    assert!(err.to_string().contains("Authentication error"));
    assert_eq!(err.to_string(), "Authentication error: invalid password");
}

#[test]
fn test_from_anyhow_error() {
    let anyhow_err = anyhow::Error::msg("some anyhow error");
    let err: NaiveError = anyhow_err.to_string().into();
    assert!(err.to_string().contains("some anyhow error"));
    assert_eq!(err.to_string(), "some anyhow error");
}

#[test]
fn every_kind_has_its_text() {
    assert_eq!(NaiveError::ProtocolParse("x".to_string()).to_string(), "Protocol parse error: x");
    assert_eq!(NaiveError::Tls("x".to_string()).to_string(), "TLS error: x");
    assert_eq!(NaiveError::Connection("x".to_string()).to_string(), "Network connection error: x");
    assert_eq!(NaiveError::Transport("x".to_string()).to_string(), "Transport error: x");
}
