use server_naive::acl::{
    rule_host, AclConfig, AclEngine, AclError, AclRouter, AclRules, BindProbe, DirectConfig,
    DirectMode, HttpConfig, OutboundEntry, OutboundHandler, RuleHost, Socks5Config,
};
use server_naive::proxy_core::address::Address;
use server_naive::proxy_core::dns::{
    check_private_and_resolve, dns_error_to_io, needs_lookup, resolve_socket_addr, DnsError,
    IoErrorKind,
};
use server_naive::proxy_core::hooks::{DirectRouter, OutboundType};
use server_naive::proxy_core::ip::{IpAddr, SocketAddr};
use server_naive::proxy_core::server::Router;

type Lookup = Result<Vec<IpAddr>, DnsError>;

fn nothing() -> Lookup {
    Ok(Vec::new())
}

fn found(octets: [u8; 4]) -> Lookup {
    Ok(vec![IpAddr::V4(octets)])
}

fn not_found(host: &str) -> Lookup {
    Err(DnsError::NotFound(host.to_string()))
}

fn domain(host: &str, port: u16) -> Address {
    Address::Domain(host.to_string(), port)
}

fn entry(name: &str, kind: &str) -> OutboundEntry {
    OutboundEntry {
        name: name.to_string(),
        outbound_type: kind.to_string(),
        socks5: None,
        http: None,
        direct: None,
    }
}

/// An engine with one outbound `bound` and the rule that everything takes it.
fn engine_with_bound_direct(direct: DirectConfig) -> AclEngine {
    let config = AclConfig {
        outbounds: vec![OutboundEntry { direct: Some(direct), ..entry("bound", "direct") }],
        acl: AclRules { inline: vec!["bound(all)".to_string()] },
    };
    AclEngine::new(&config).expect("engine builds")
}

#[test]
fn test_outbound_handler_from_entry_direct() {
    let entry = OutboundEntry {
        name: "direct".to_string(),
        outbound_type: "direct".to_string(),
        socks5: None,
        http: None,
        direct: Some(DirectConfig { mode: "auto".to_string(), ..Default::default() }),
    };
    let handler = OutboundHandler::from_entry(&entry).unwrap();
    assert!(matches!(handler, OutboundHandler::Direct { .. }));
}

#[test]
fn test_outbound_handler_from_entry_reject() {
    let entry = OutboundEntry {
        name: "block".to_string(),
        outbound_type: "reject".to_string(),
        socks5: None,
        http: None,
        direct: None,
    };
    let handler = OutboundHandler::from_entry(&entry).unwrap();
    assert!(handler.is_reject());
}

#[test]
fn test_acl_engine_default() {
    let engine = AclEngine::new_default();
    assert_eq!(engine.rules_text, "direct(all)");
    assert_eq!(engine.cache_size, 1024);
    for matched in [None, Some("direct")] {
        let handler = engine.match_host(matched);
        assert!(handler.is_some());
        assert!(!handler.unwrap().is_reject());
    }
    assert!(engine.match_host(Some("reject")).unwrap().is_reject());
    assert!(engine.match_host(Some("other")).is_none());
}

#[test]
fn test_acl_router_blocks_private() {
    let router = AclRouter::new(AclEngine::new_default(), true);
    let addr = Address::IPv4([127, 0, 0, 1], 80);
    let result = router.route(&addr, &nothing(), Some("direct"));
    assert!(matches!(result, OutboundType::Reject));
}

#[test]
fn test_acl_router_allows_public() {
    let router = AclRouter::new(AclEngine::new_default(), true);
    let addr = Address::IPv4([8, 8, 8, 8], 80);
    let result = router.route(&addr, &nothing(), Some("direct"));
    assert!(matches!(result, OutboundType::Direct { .. }));
}

#[test]
fn custom_bind_direct_carries_dialer() {
    let engine = engine_with_bound_direct(DirectConfig {
        bind_ipv4: Some("127.0.0.1".to_string()),
        ..Default::default()
    });
    let router = AclRouter::new(engine, true);
    let result = router.route(&Address::IPv4([1, 2, 3, 4], 443), &nothing(), Some("bound"));
    match result {
        OutboundType::Direct { dialer: Some(_), .. } => {}
        other => panic!("custom-bind direct must carry a dialer, got {}", other.label()),
    }
}

#[test]
fn custom_dial_direct_domain_carries_checked_ips() {
    let public_ip = IpAddr::V4([1, 2, 3, 4]);
    let engine = engine_with_bound_direct(DirectConfig {
        bind_ipv4: Some("127.0.0.1".to_string()),
        ..Default::default()
    });
    let router = AclRouter::new(engine, true);
    let result = router.route(&domain("target.test", 443), &Ok(vec![public_ip]), Some("bound"));
    match result {
        OutboundType::Direct { resolved: Some(ips), dialer: Some(_) } => {
            assert_eq!(*ips, [public_ip], "handler must receive the checked IPs")
        }
        other => panic!("expected Direct with checked IPs and a dialer, got {}", other.label()),
    }
}

#[test]
fn custom_dial_direct_dual_stack_carries_both_families() {
    let v6 = IpAddr::parse("2606:4700::1").unwrap();
    let v4 = IpAddr::V4([1, 2, 3, 4]);
    let engine = engine_with_bound_direct(DirectConfig {
        mode: "64".to_string(),
        ..Default::default()
    });
    let router = AclRouter::new(engine, true);
    let result = router.route(&domain("dual.test", 443), &Ok(vec![v6, v4]), Some("bound"));
    match result {
        OutboundType::Direct { resolved: Some(ips), dialer: Some(_) } => {
            assert!(ips.contains(&v4), "v4 must survive to the dialer");
            assert!(ips.contains(&v6), "v6 must survive to the dialer");
        }
        other => panic!("expected dual-stack Direct with a dialer, got {}", other.label()),
    }
}

#[test]
fn custom_dial_direct_rejects_private_resolution() {
    let engine = engine_with_bound_direct(DirectConfig {
        bind_ipv4: Some("127.0.0.1".to_string()),
        ..Default::default()
    });
    let router = AclRouter::new(engine, true);
    let result = router.route(&domain("evil.test", 443), &found([10, 0, 0, 1]), Some("bound"));
    assert!(matches!(result, OutboundType::Reject), "got {}", result.label());
}

#[test]
fn direct_with_non_default_tcp_options_carries_dialer() {
    for direct in [
        DirectConfig { fast_open: true, ..Default::default() },
        DirectConfig { tcp_nodelay: false, ..Default::default() },
        DirectConfig { mode: "4".to_string(), ..Default::default() },
    ] {
        let label = format!("{direct:?}");
        let router = AclRouter::new(engine_with_bound_direct(direct), true);
        let result = router.route(&Address::IPv4([1, 2, 3, 4], 443), &nothing(), Some("bound"));
        assert!(
            matches!(result, OutboundType::Direct { dialer: Some(_), .. }),
            "config {label} must carry a dialer, got {}",
            result.label()
        );
    }
}

#[test]
fn direct_with_custom_connect_timeout_carries_dialer() {
    let direct = DirectConfig { connect_timeout_secs: 5, ..Default::default() };
    let router = AclRouter::new(engine_with_bound_direct(direct), true);
    let result = router.route(&Address::IPv4([1, 2, 3, 4], 443), &nothing(), Some("bound"));
    assert!(
        matches!(result, OutboundType::Direct { dialer: Some(_), .. }),
        "custom connectTimeout must carry a dialer, got {}",
        result.label()
    );
}

#[test]
fn plain_direct_carries_no_dialer() {
    let router = AclRouter::new(AclEngine::new_default(), true);
    let result = router.route(&Address::IPv4([1, 2, 3, 4], 443), &nothing(), None);
    assert!(
        matches!(result, OutboundType::Direct { dialer: None, .. }),
        "plain direct must stay on the bare connect path, got {}",
        result.label()
    );
    let named = OutboundHandler::from_entry(&entry("plain", "direct")).unwrap();
    assert!(!named.dials_itself());
}

#[test]
fn direct_domain_dns_failure_rejected_under_block() {
    let router = AclRouter::new(AclEngine::new_default(), true);
    let result = router.route(&domain("flaky.test", 443), &not_found("flaky.test"), Some("direct"));
    assert!(
        matches!(result, OutboundType::Reject),
        "unresolvable direct domain must fail closed, got {}",
        result.label()
    );
}

#[test]
fn direct_domain_dns_failure_allowed_when_block_disabled() {
    let router = AclRouter::new(AclEngine::new_default(), false);
    let result = router.route(&domain("flaky.test", 443), &not_found("flaky.test"), Some("direct"));
    assert!(
        matches!(result, OutboundType::Direct { .. }),
        "block disabled: unresolvable direct domain must stay Direct, got {}",
        result.label()
    );
}

#[test]
fn proxy_domain_dns_failure_still_proxied() {
    let config = AclConfig {
        outbounds: vec![OutboundEntry {
            socks5: Some(Socks5Config {
                addr: "127.0.0.1:40000".to_string(),
                username: None,
                password: None,
                allow_udp: true,
            }),
            ..entry("warp", "socks5")
        }],
        acl: AclRules { inline: vec!["warp(all)".to_string()] },
    };
    let router = AclRouter::new(AclEngine::new(&config).expect("engine"), true);
    let result =
        router.route(&domain("proxied.test", 443), &not_found("proxied.test"), Some("warp"));
    assert!(
        matches!(result, OutboundType::Proxy(_)),
        "proxy-destined domain must not be rejected by the direct guard, got {}",
        result.label()
    );
    assert_eq!(result.label(), "Proxy(Socks5(udp=true))");
}

#[test]
fn engines_gather_outbounds_and_rules() {
    let config = AclConfig {
        outbounds: vec![
            entry("direct", "reject"),
            entry("twice", "reject"),
            entry("twice", "direct"),
        ],
        acl: AclRules { inline: vec!["a(all)".to_string(), "b(all)".to_string()] },
    };
    let engine = AclEngine::new(&config).unwrap();
    assert_eq!(engine.rules_text, "a(all)\nb(all)");
    assert_eq!(engine.cache_size, 4096);
    // A configured outbound keeps its name; of two with one name the later counts.
    assert!(engine.match_host(None).unwrap().is_reject());
    assert!(!engine.match_host(Some("twice")).unwrap().is_reject());
    let bare = AclConfig { outbounds: Vec::new(), acl: AclRules { inline: Vec::new() } };
    let engine = AclEngine::new(&bare).unwrap();
    assert_eq!(engine.rules_text, "direct(all)");
    assert_eq!(engine.match_host(None).unwrap().label(), "Direct");
}

#[test]
fn outbounds_that_cannot_be_used_say_why() {
    let fails = |e: OutboundEntry| -> AclError {
        match OutboundHandler::from_entry(&e) {
            Err(error) => error,
            Ok(handler) => panic!("made {}", handler.label()),
        }
    };
    assert_eq!(
        fails(entry("x", "vless")).to_string(),
        "Unknown outbound type 'vless' for outbound 'x'"
    );
    assert_eq!(
        fails(entry("x", "socks5")).to_string(),
        "socks5 config required for outbound 'x'"
    );
    assert_eq!(fails(entry("x", "http")).to_string(), "http config required for outbound 'x'");
    let direct = |d: DirectConfig| OutboundEntry { direct: Some(d), ..entry("x", "direct") };
    assert_eq!(
        fails(direct(DirectConfig { mode: "5".to_string(), ..Default::default() })).to_string(),
        "Invalid direct mode '5' for outbound 'x', valid values: auto, 4, only4, 6, only6, \
         prefer4, 46, prefer6, 64"
    );
    let bad4 = DirectConfig { bind_ipv4: Some("::1".to_string()), ..Default::default() };
    assert!(matches!(fails(direct(bad4)), AclError::InvalidBindIpv4(ref t) if t == "::1"));
    let bad6 = DirectConfig { bind_ipv6: Some("1.2.3.4".to_string()), ..Default::default() };
    assert!(matches!(fails(direct(bad6)), AclError::InvalidBindIpv6(ref t) if t == "1.2.3.4"));
    let config = AclConfig {
        outbounds: vec![entry("fine", "reject"), entry("first", "socks5"), entry("x", "http")],
        acl: AclRules { inline: Vec::new() },
    };
    assert!(matches!(AclEngine::new(&config), Err(AclError::MissingSocks5(ref n)) if n == "first"));
}

#[test]
fn outbounds_keep_their_settings() {
    let socks = OutboundEntry {
        socks5: Some(Socks5Config {
            addr: "127.0.0.1:1080".to_string(),
            username: Some("u".to_string()),
            password: Some("p".to_string()),
            allow_udp: false,
        }),
        ..entry("s", "socks5")
    };
    let handler = OutboundHandler::from_entry(&socks).unwrap();
    assert!(!handler.allows_udp());
    assert_eq!(handler.label(), "Socks5(udp=false)");
    match handler {
        OutboundHandler::Socks5 { addr, auth, .. } => {
            assert_eq!(addr, "127.0.0.1:1080");
            assert_eq!(auth, Some(("u".to_string(), "p".to_string())));
        }
        _ => panic!("no SOCKS5 outbound"),
    }
    let http = OutboundEntry {
        http: Some(HttpConfig {
            addr: "127.0.0.1:8080".to_string(),
            username: Some("u".to_string()),
            password: None,
            https: true,
        }),
        ..entry("h", "http")
    };
    match OutboundHandler::from_entry(&http).unwrap() {
        OutboundHandler::Http { addr, https, auth } => {
            assert_eq!(addr, "127.0.0.1:8080");
            assert!(https);
            assert_eq!(auth, None, "a user name without a password counts for nothing");
        }
        _ => panic!("no HTTP outbound"),
    }
    let bound = OutboundEntry {
        direct: Some(DirectConfig {
            mode: "prefer6".to_string(),
            bind_ipv4: Some("10.0.0.1".to_string()),
            bind_ipv6: Some("::1".to_string()),
            bind_device: Some("eth0".to_string()),
            fast_open: true,
            tcp_nodelay: false,
            tcp_keepalive_secs: 0,
            connect_timeout_secs: 7,
        }),
        ..entry("d", "direct")
    };
    let handler = OutboundHandler::from_entry(&bound).unwrap();
    let mut localhost = [0u8; 16];
    localhost[15] = 1;
    assert_eq!(
        handler.probes(),
        vec![
            BindProbe::Ipv4([10, 0, 0, 1]),
            BindProbe::Ipv6(localhost),
            BindProbe::Device("eth0".to_string()),
        ]
    );
    assert!(handler.dials_itself());
    assert!(handler.allows_udp());
    match handler {
        OutboundHandler::Direct { options, .. } => {
            assert_eq!(options.mode, DirectMode::Prefer64);
            assert_eq!(options.timeout_secs, Some(7));
            assert_eq!(options.tcp_keepalive_secs, None);
            assert!(options.fast_open);
            assert!(!options.tcp_nodelay);
        }
        _ => panic!("no direct outbound"),
    }
}

#[test]
fn modes_have_two_names() {
    assert_eq!(DirectMode::parse("only4"), DirectMode::parse("4"));
    assert_eq!(DirectMode::parse("only6"), Some(DirectMode::Only6));
    assert_eq!(DirectMode::parse("46"), Some(DirectMode::Prefer46));
    assert_eq!(DirectMode::parse("Auto"), None);
}

#[test]
fn rules_see_hosts_as_addresses_or_names() {
    assert_eq!(rule_host("1.2.3.4"), RuleHost::Ip(IpAddr::V4([1, 2, 3, 4])));
    assert_eq!(rule_host("example.com"), RuleHost::Name("example.com".to_string()));
}

#[test]
fn resolve_ipv4_literal_bypasses_cache() {
    let addr = Address::IPv4([127, 0, 0, 1], 8080);
    assert!(!needs_lookup(&addr));
    let got = resolve_socket_addr(&addr, &nothing()).unwrap();
    assert_eq!(got, SocketAddr { ip: IpAddr::V4([127, 0, 0, 1]), port: 8080 });
}

#[test]
fn resolve_domain_returns_first_address() {
    let addr = domain("example.com", 8080);
    assert!(needs_lookup(&addr));
    let got = resolve_socket_addr(&addr, &found([93, 184, 216, 34])).unwrap();
    assert_eq!(got, SocketAddr { ip: IpAddr::V4([93, 184, 216, 34]), port: 8080 });
}

#[test]
fn check_private_ipv4_loopback() {
    let addr = Address::IPv4([127, 0, 0, 1], 80);
    let (is_private, resolved) = check_private_and_resolve(&addr, &nothing());
    assert!(is_private);
    assert!(resolved.is_none());
}

#[test]
fn check_private_domain_resolving_to_private() {
    let addr = domain("internal.example", 443);
    let (is_private, _) = check_private_and_resolve(&addr, &found([10, 0, 0, 5]));
    assert!(is_private);
}

#[test]
fn check_private_domain_resolving_to_public() {
    let addr = domain("example.com", 443);
    let (is_private, resolved) = check_private_and_resolve(&addr, &found([93, 184, 216, 34]));
    assert!(!is_private);
    assert!(resolved.is_some());
}

#[test]
fn one_private_address_makes_a_domain_private() {
    let mixed = Ok(vec![IpAddr::V4([8, 8, 8, 8]), IpAddr::V4([192, 168, 0, 1])]);
    let (is_private, resolved) = check_private_and_resolve(&domain("mixed.test", 1), &mixed);
    assert!(is_private);
    assert!(resolved.is_none());
    let (is_private, resolved) = check_private_and_resolve(&domain("none.test", 1), &nothing());
    assert!(!is_private);
    assert!(resolved.is_none());
}

#[test]
fn failed_lookups_become_io_errors() {
    let failure = resolve_socket_addr(&domain("a.test", 1), &nothing()).unwrap_err();
    assert_eq!(failure.kind, IoErrorKind::NotFound);
    assert_eq!(failure.message, "no addresses found for a.test");
    let failure = resolve_socket_addr(&domain("a.test", 1), &not_found("b.test")).unwrap_err();
    assert_eq!(failure.message, "no addresses found for b.test");
    let failure = dns_error_to_io(&DnsError::Timeout("5s".to_string()));
    assert_eq!(failure.kind, IoErrorKind::TimedOut);
    assert_eq!(failure.message, "DNS query timeout after 5s");
    let failure = dns_error_to_io(&DnsError::InvalidHost("?".to_string()));
    assert_eq!(failure.kind, IoErrorKind::InvalidInput);
    assert_eq!(failure.message, "invalid host: ?");
    let failure = dns_error_to_io(&DnsError::Other("servfail".to_string()));
    assert_eq!(failure.kind, IoErrorKind::Other);
    assert_eq!(failure.message, "servfail");
}

#[test]
fn test_direct_router_blocks_loopback() {
    let router = DirectRouter::new(true);
    let addr = Address::IPv4([127, 0, 0, 1], 80);
    assert!(matches!(router.route(&addr, &nothing()), OutboundType::Reject));
}

#[test]
fn test_direct_router_allows_public_ip() {
    let router = DirectRouter::new(true);
    let addr = Address::IPv4([8, 8, 8, 8], 80);
    assert!(matches!(
        router.route(&addr, &nothing()),
        OutboundType::Direct { resolved: None, dialer: None }
    ));
}

#[test]
fn test_direct_router_allows_private_when_disabled() {
    let router = DirectRouter::new(false);
    let addr = Address::IPv4([127, 0, 0, 1], 80);
    assert!(matches!(
        router.route(&addr, &nothing()),
        OutboundType::Direct { resolved: None, dialer: None }
    ));
}

#[test]
fn test_direct_router_blocks_domain_resolving_to_private() {
    let router = DirectRouter::new(true);
    let addr = domain("internal.example", 80);
    assert!(matches!(router.route(&addr, &found([10, 0, 0, 5])), OutboundType::Reject));
}

#[test]
fn test_direct_router_public_domain() {
    let router = DirectRouter::new(true);
    let addr = domain("example.com", 80);
    assert!(matches!(
        router.route(&addr, &found([93, 184, 216, 34])),
        OutboundType::Direct { resolved: Some(_), .. }
    ));
}

#[test]
fn test_direct_router_rejects_unresolvable_domain_under_block() {
    let router = DirectRouter::new(true);
    let addr = domain("flaky.example", 80);
    assert!(matches!(router.route(&addr, &not_found("flaky.example")), OutboundType::Reject));
}

#[test]
fn routers_of_both_kinds_block_private_addresses() {
    let private = domain("internal.example", 80);
    for router in [
        Router::Direct(DirectRouter::new(true)),
        Router::Acl(AclRouter::new(AclEngine::new_default(), true)),
    ] {
        assert!(router.checks_addresses());
        let route = router.route(&private, &found([10, 0, 0, 5]), None);
        assert_eq!(route.label(), "Reject");
        let route = router.route(&private, &found([9, 9, 9, 9]), None);
        assert_eq!(route.label(), "Direct");
    }
}
