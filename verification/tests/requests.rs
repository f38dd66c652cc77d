use base64::Engine;
use server_naive::acl::{AclEngine, OutboundHandler};
use server_naive::handler::{
    accepted_headers, after_auth, after_route, auth_from_decoded, check_request,
    check_wire_request, credential_of, dial_failure, direct_plan, find_header, parse_basic_auth,
    proxy_plan, tunnel_buffer, tunnel_plan, Admitted, AuthError, DialPlan, DialWay, RequestAction,
    RequestError, RequestFlow, TunnelAction, TunnelFlow, TunnelPlan, WireHeader,
    SHUTDOWN_TIMEOUT_SECS, TCP_KEEPALIVE_SECS,
};
use server_naive::proxy_core::address::Address;
use server_naive::proxy_core::hooks::OutboundType;
use server_naive::proxy_core::ip::{IpAddr, SocketAddr};
use server_naive::transport::padding::PaddingRng;
use server_naive::uot::UotVersion;
use std::sync::Arc;

fn encode(text: &str) -> String {
    base64::engine::general_purpose::STANDARD.encode(text)
}

#[test]
fn test_parse_basic_auth_with_username() {
    let header = "Basic dXNlcjpteS11dWlkLTEyMw=="; // user:my-uuid-123
    let cred = parse_basic_auth(header).unwrap();
    assert_eq!(cred, "my-uuid-123");
}

#[test]
fn test_parse_basic_auth_colon_only() {
    let header = format!("Basic {}", encode(":my-uuid"));
    let cred = parse_basic_auth(&header).unwrap();
    assert_eq!(cred, "my-uuid");
}

#[test]
fn test_parse_basic_auth_no_colon() {
    let header = format!("Basic {}", encode("uuid-only"));
    let cred = parse_basic_auth(&header).unwrap();
    assert_eq!(cred, "uuid-only");
}

#[test]
fn test_parse_basic_auth_missing_prefix() {
    let header = "Bearer token";
    assert!(parse_basic_auth(header).is_err());
    assert_eq!(parse_basic_auth(header), Err(AuthError::MissingPrefix));
    assert_eq!(parse_basic_auth("Basic"), Err(AuthError::MissingPrefix));
    assert_eq!(parse_basic_auth("basic dTpw"), Err(AuthError::MissingPrefix));
}

#[test]
fn test_parse_basic_auth_invalid_base64() {
    let header = "Basic !!!not-base64!!!";
    assert!(parse_basic_auth(header).is_err());
    let error = parse_basic_auth(header).unwrap_err();
    assert_eq!(error, AuthError::Base64("Invalid symbol 33, offset 0.".to_string()));
    assert_eq!(error.describe(), "Base64 decode failed: Invalid symbol 33, offset 0.");
}

#[test]
fn test_parse_basic_auth_multiple_colons() {
    let header = format!("Basic {}", encode("user:pass:word"));
    let cred = parse_basic_auth(&header).unwrap();
    assert_eq!(cred, "pass:word");
}

#[test]
fn test_parse_basic_auth_empty_password() {
    let header = format!("Basic {}", encode("user:"));
    let cred = parse_basic_auth(&header).unwrap();
    assert_eq!(cred, "");
}

#[test]
fn basic_auth_is_trimmed_and_must_be_utf8() {
    let padded = format!("Basic  \t{} ", encode("u:secret"));
    assert_eq!(parse_basic_auth(&padded).unwrap(), "secret");
    let bytes = base64::engine::general_purpose::STANDARD.encode([0xffu8, 0xfe]);
    let error = parse_basic_auth(&format!("Basic {bytes}")).unwrap_err();
    assert!(matches!(error, AuthError::Utf8(_)));
    let text = std::str::from_utf8(&[b'a', 0xff]).unwrap_err().to_string();
    assert_eq!(credential_of(vec![b'a', 0xff]), Err(text.clone()));
    assert_eq!(
        auth_from_decoded(Ok(vec![b'a', 0xff])).unwrap_err().describe(),
        format!("UTF-8 decode failed: {text}")
    );
    assert_eq!(
        auth_from_decoded(Err("no base64".to_string())),
        Err(AuthError::Base64("no base64".to_string()))
    );
    assert_eq!(auth_from_decoded(Ok(b"a:b".to_vec())), Ok("b".to_string()));
    assert_eq!(
        AuthError::MissingPrefix.describe(),
        "Expected 'Basic ' prefix in Proxy-Authorization header"
    );
    assert_eq!(credential_of(b"a:b".to_vec()).unwrap(), "b");
}

#[test]
fn passwords_may_hold_anything() {
    let header = format!("Basic {}", encode("\u{fc}ser:p\u{e4}:ss \u{1f511}"));
    assert_eq!(parse_basic_auth(&header).unwrap(), "p\u{e4}:ss \u{1f511}");
}

#[test]
fn test_keepalive_and_shutdown_constants() {
    assert_eq!(TCP_KEEPALIVE_SECS, 15);
    assert_eq!(SHUTDOWN_TIMEOUT_SECS, 5);
}

fn refused(
    method: &[u8],
    has_padding: bool,
    authority: Option<&str>,
    auth: Option<&str>,
) -> RequestError {
    match check_request(method, has_padding, authority, auth) {
        Err(error) => error,
        Ok(_) => panic!("the request was let in"),
    }
}

#[test]
fn full_requests_are_let_in() {
    let auth = format!("Basic {}", encode("user:id"));
    let admitted =
        check_request(b"CONNECT", true, Some("example.com:443"), Some(&auth)).ok().unwrap();
    assert_eq!(admitted.credential, "id");
    assert_eq!(admitted.target.to_string(), "example.com:443");
}

#[test]
fn refused_requests_are_answered() {
    let auth = format!("Basic {}", encode("user:id"));
    let target = Some("example.com:443");
    let error = refused(b"GET", false, None, None);
    assert!(matches!(error, RequestError::Method(ref m) if m == b"GET"));
    assert_eq!(error.status(), Some(405));
    let error = refused(b"connect", true, target, Some(&auth));
    assert_eq!(error.status(), Some(405));
    let error = refused(b"CONNECT", false, target, Some(&auth));
    assert!(matches!(error, RequestError::MissingPadding));
    assert_eq!(error.status(), Some(400));
    let error = refused(b"CONNECT", true, None, Some(&auth));
    assert!(matches!(error, RequestError::MissingAuthority));
    assert_eq!(error.status(), None);
    let error = refused(b"CONNECT", true, Some("example.com"), None);
    assert!(matches!(error, RequestError::InvalidTarget(ref a) if a == "example.com"));
    assert_eq!(error.status(), None);
    let error = refused(b"CONNECT", true, target, None);
    assert!(matches!(error, RequestError::MissingAuth));
    assert_eq!(error.status(), Some(407));
    let error = refused(b"CONNECT", true, target, Some("Bearer x"));
    assert!(matches!(error, RequestError::BadAuth(AuthError::MissingPrefix)));
    assert_eq!(error.status(), Some(407));
    let error = after_auth(None).unwrap_err();
    assert!(matches!(error, RequestError::UnknownUser));
    assert_eq!(error.status(), Some(407));
    assert_eq!(after_auth(Some(9)).unwrap(), 9);
}

fn header(name: &str, value: &[u8]) -> WireHeader {
    WireHeader { name: name.as_bytes().to_vec(), value: value.to_vec() }
}

#[test]
fn headers_off_the_wire_are_checked_alike() {
    let auth = format!("Basic {}", encode("user:id"));
    let mut headers = vec![
        header(":method", b"CONNECT"),
        header(":authority", b"1.2.3.4:80"),
        header("padding", b""),
        header("proxy-authorization", auth.as_bytes()),
        header("proxy-authorization", b"second"),
    ];
    let admitted = check_wire_request(&headers).ok().unwrap();
    assert_eq!(admitted.credential, "id");
    assert!(matches!(admitted.target, Address::IPv4([1, 2, 3, 4], 80)));
    assert_eq!(find_header(&headers, ":authority"), Some(b"1.2.3.4:80".to_vec()));
    assert_eq!(find_header(&headers, "Padding"), None);
    headers[3].value = vec![0xff];
    assert!(matches!(check_wire_request(&headers), Err(RequestError::MissingAuth)));
    headers[1].value = vec![0xff];
    assert!(matches!(check_wire_request(&headers), Err(RequestError::MissingAuthority)));
    headers.remove(0);
    assert!(matches!(check_wire_request(&headers), Err(RequestError::Method(ref m)) if m.is_empty()));
}

#[test]
fn rejected_routes_are_forbidden() {
    assert_eq!(after_route(&OutboundType::Reject), 403);
    assert_eq!(after_route(&OutboundType::Direct { resolved: None, dialer: None }), 200);
    assert_eq!(after_route(&OutboundType::Proxy(Arc::new(OutboundHandler::Reject))), 200);
}

#[test]
fn answers_carry_padding() {
    let mut rng = PaddingRng::from_nanos(1);
    let mut same = PaddingRng::from_nanos(1);
    let headers = accepted_headers(&mut rng);
    assert_eq!(headers.len(), 2);
    assert_eq!(headers[0], (":status", "200".to_string()));
    assert_eq!(headers[1].0, "padding");
    assert_eq!(
        headers[1].1,
        server_naive::transport::padding::generate_padding_header(&mut same)
    );
}

#[test]
fn magic_hosts_carry_datagrams() {
    let uot = Address::Domain("sp.v2.udp-over-tcp.arpa".to_string(), 0);
    assert!(matches!(
        tunnel_plan(&uot, OutboundType::Direct { resolved: None, dialer: None }),
        TunnelPlan::Uot(UotVersion::V2)
    ));
    let plain = Address::Domain("example.com".to_string(), 443);
    assert!(matches!(
        tunnel_plan(&plain, OutboundType::Direct { resolved: None, dialer: None }),
        TunnelPlan::Direct { resolved: None, dialer: None }
    ));
    assert!(matches!(tunnel_plan(&plain, OutboundType::Reject), TunnelPlan::Close));
    let proxy = Arc::new(OutboundHandler::Reject);
    assert!(matches!(tunnel_plan(&plain, OutboundType::Proxy(proxy)), TunnelPlan::Proxy(_)));
}

#[test]
fn dialers_come_first_then_checked_addresses_then_lookups() {
    let target = Address::Domain("example.com".to_string(), 443);
    let ips = vec![IpAddr::V4([1, 1, 1, 1]), IpAddr::V4([2, 2, 2, 2])];
    let handler = AclEngine::new_default().match_host(None).unwrap();
    match direct_plan(&target, Some(ips.clone()), Some(handler.clone())) {
        DialPlan::Outbound { host, port, ips: Some(found), .. } => {
            assert_eq!(host, "example.com");
            assert_eq!(port, 443);
            assert_eq!(found, ips);
        }
        _ => panic!("no outbound"),
    }
    match direct_plan(&target, Some(ips), None) {
        DialPlan::Connect(addr) => {
            assert_eq!(addr, SocketAddr { ip: IpAddr::V4([1, 1, 1, 1]), port: 443 })
        }
        _ => panic!("no connect"),
    }
    assert!(matches!(direct_plan(&target, Some(Vec::new()), None), DialPlan::NoAddress));
    assert!(matches!(direct_plan(&target, None, None), DialPlan::Lookup));
    match proxy_plan(&Address::IPv4([9, 9, 9, 9], 53), handler) {
        DialPlan::Outbound { host, port, ips: None, .. } => {
            assert_eq!(host, "9.9.9.9");
            assert_eq!(port, 53);
        }
        _ => panic!("no outbound"),
    }
}

#[test]
fn failed_dials_have_texts() {
    assert_eq!(dial_failure(DialWay::Direct, Some("refused")), "Direct connect failed: refused");
    assert_eq!(dial_failure(DialWay::Direct, None), "Direct connect timeout");
    assert_eq!(dial_failure(DialWay::Tcp, Some("refused")), "refused");
    assert_eq!(dial_failure(DialWay::Tcp, None), "TCP connect timeout");
    assert_eq!(dial_failure(DialWay::Proxy, Some("refused")), "Proxy connect failed: refused");
    assert_eq!(dial_failure(DialWay::Proxy, None), "Proxy connect timeout");
}

#[test]
fn tunnels_have_room_for_a_bridge_buffer() {
    assert_eq!(tunnel_buffer(32 * 1024, 65536), 65536);
    assert_eq!(tunnel_buffer(100_000, 65536), 100_000);
}

fn admitted() -> Admitted {
    Admitted {
        target: Address::Domain("example.com".to_string(), 443),
        credential: "uuid".to_string(),
    }
}

fn direct() -> OutboundType {
    OutboundType::Direct { resolved: None, dialer: None }
}

#[test]
fn tunnels_open_once_the_answer_was_sent() {
    let (flow, action) = RequestFlow::new().on_checked(Ok(admitted()));
    assert!(matches!(action, RequestAction::Authenticate));
    assert_eq!(flow.credential(), Some("uuid"));
    assert_eq!(flow.target(), None);
    let (flow, action) = flow.on_authenticated(Some(7));
    assert!(matches!(action, RequestAction::Route));
    assert_eq!(flow.credential(), None);
    assert_eq!(flow.target(), Some(&Address::Domain("example.com".to_string(), 443)));
    let (flow, action) = flow.on_routed(direct());
    assert!(matches!(action, RequestAction::Accept));
    let (flow, action) = flow.on_answered(true);
    match action {
        RequestAction::Tunnel { target, user_id, route } => {
            assert_eq!(target, Address::Domain("example.com".to_string(), 443));
            assert_eq!(user_id, 7);
            assert!(matches!(route, OutboundType::Direct { resolved: None, dialer: None }));
        }
        _ => panic!("no tunnel"),
    }
    assert!(matches!(flow, RequestFlow::Ended));
}

#[test]
fn refused_and_rejected_requests_get_no_tunnel() {
    let (flow, action) = RequestFlow::new().on_checked(Err(RequestError::MissingPadding));
    assert!(matches!(action, RequestAction::Refuse(RequestError::MissingPadding)));
    assert!(matches!(flow.on_authenticated(Some(7)).1, RequestAction::Ignore));
    let (flow, _) = RequestFlow::new().on_checked(Ok(admitted()));
    let (flow, action) = flow.on_authenticated(None);
    match action {
        RequestAction::Refuse(e) => assert_eq!(e.status(), Some(407)),
        _ => panic!("not refused"),
    }
    assert!(matches!(flow.on_routed(direct()).1, RequestAction::Ignore));
    let (flow, _) = RequestFlow::new().on_checked(Ok(admitted())).0.on_authenticated(Some(7));
    let (flow, action) = flow.on_routed(OutboundType::Reject);
    assert!(matches!(action, RequestAction::Reject));
    assert!(matches!(flow.on_answered(true).1, RequestAction::Ignore));
}

#[test]
fn events_out_of_turn_open_nothing() {
    assert!(matches!(RequestFlow::new().on_answered(true).1, RequestAction::Ignore));
    assert!(matches!(RequestFlow::new().on_routed(direct()).1, RequestAction::Ignore));
    let (flow, action) = RequestFlow::new().on_authenticated(Some(7));
    assert!(matches!(action, RequestAction::Ignore));
    assert!(matches!(flow, RequestFlow::Received));
    let (flow, _) = flow.on_checked(Ok(admitted()));
    assert!(matches!(flow.on_routed(direct()).1, RequestAction::Ignore));
    let (flow, _) = RequestFlow::new().on_checked(Ok(admitted())).0.on_authenticated(Some(7));
    let (flow, _) = flow.on_routed(direct());
    assert!(matches!(flow.on_answered(false).1, RequestAction::Abandon));
}

#[test]
fn tunnels_are_unregistered_whatever_ends_them() {
    let (opened, action) = TunnelFlow::open(7);
    assert_eq!(action, TunnelAction::Register(7));
    let (registered, action) = opened.on_registered(3);
    assert_eq!(action, TunnelAction::Record(7));
    let (serving, action) = registered.on_recorded();
    assert_eq!(action, TunnelAction::Serve);
    assert_eq!(serving.on_ended(), (TunnelFlow::Closed, TunnelAction::Unregister(3)));
    assert_eq!(registered.on_ended(), (TunnelFlow::Closed, TunnelAction::Unregister(3)));
    assert_eq!(opened.on_ended(), (TunnelFlow::Closed, TunnelAction::Ignore));
    assert_eq!(TunnelFlow::Closed.on_ended(), (TunnelFlow::Closed, TunnelAction::Ignore));
    assert_eq!(serving.on_registered(4), (serving, TunnelAction::Ignore));
    assert_eq!(opened.on_recorded(), (opened, TunnelAction::Ignore));
}
