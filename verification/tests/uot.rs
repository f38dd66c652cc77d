use server_naive::proxy_core::ip::{IpAddr, SocketAddr};
use server_naive::uot::{
    after_turn, detect_uot, first_target, literal_target, read_addr_parser, read_request,
    read_socks_addr, write_addr_parser, write_uot_packet, AddrKind, AddrRead, InputAction,
    RequestRead, UotAction, UotError, UotInput, UotLoopEvent, UotLoopNext, UotStep, UotStream,
    UotTurn, UotVersion,
};

fn v4(octets: [u8; 4], port: u16) -> SocketAddr {
    SocketAddr { ip: IpAddr::V4(octets), port }
}

fn localhost6(port: u16) -> SocketAddr {
    SocketAddr { ip: IpAddr::parse("::1").unwrap(), port }
}

#[test]
fn detect_magic_v2() {
    assert_eq!(detect_uot("sp.v2.udp-over-tcp.arpa"), Some(UotVersion::V2));
    assert_eq!(detect_uot("SP.V2.UDP-OVER-TCP.ARPA"), Some(UotVersion::V2));
}

#[test]
fn detect_magic_v1() {
    assert_eq!(detect_uot("sp.udp-over-tcp.arpa"), Some(UotVersion::V1));
}

#[test]
fn detect_normal_host() {
    assert_eq!(detect_uot("example.com"), None);
    assert_eq!(detect_uot("1.1.1.1"), None);
}

#[test]
fn read_socks_addr_ipv4() {
    let data = [0x01, 1, 2, 3, 4, 0x01, 0xbb]; // type=IPv4, 1.2.3.4:443
    match read_socks_addr(&data) {
        AddrRead::Done { host, port, used } => {
            assert_eq!(host, "1.2.3.4");
            assert_eq!(port, 443);
            assert_eq!(used, 7);
        }
        other => panic!("{other:?}"),
    }
}

#[test]
fn read_socks_addr_fqdn() {
    let domain = b"example.com";
    let mut data = vec![0x03, domain.len() as u8];
    data.extend_from_slice(domain);
    data.push(0x01);
    data.push(0xbb); // port 443
    match read_socks_addr(&data) {
        AddrRead::Done { host, port, .. } => {
            assert_eq!(host, "example.com");
            assert_eq!(port, 443);
        }
        other => panic!("{other:?}"),
    }
}

#[test]
fn read_addr_parser_ipv4() {
    let data = [0x00, 8, 8, 8, 8, 0x00, 53]; // type=IPv4, 8.8.8.8:53
    match read_addr_parser(&data) {
        AddrRead::Done { host, port, .. } => {
            assert_eq!(host, "8.8.8.8");
            assert_eq!(port, 53);
        }
        other => panic!("{other:?}"),
    }
}

#[test]
fn write_read_addr_parser_roundtrip() {
    let addr = v4([192, 168, 1, 1], 8080);
    let mut buf = Vec::new();
    write_addr_parser(&mut buf, &addr);
    // type(1) + ipv4(4) + port(2) = 7 bytes
    assert_eq!(buf.len(), 7);
    assert_eq!(buf[0], 0x00); // IPv4 type
    match read_addr_parser(&buf) {
        AddrRead::Done { host, port, used } => {
            assert_eq!(literal_target(&host, port), Some(addr));
            assert_eq!(used, 7);
        }
        other => panic!("{other:?}"),
    }
}

#[test]
fn write_addr_parser_ipv6() {
    let addr = localhost6(443);
    let mut buf = Vec::new();
    write_addr_parser(&mut buf, &addr);
    // type(1) + ipv6(16) + port(2) = 19 bytes
    assert_eq!(buf.len(), 19);
    assert_eq!(buf[0], 0x01); // IPv6 type
    match read_addr_parser(&buf) {
        AddrRead::Done { host, port, .. } => {
            assert_eq!(host, "::1");
            assert_eq!(literal_target(&host, port), Some(addr));
        }
        other => panic!("{other:?}"),
    }
}

#[test]
fn short_addresses_say_how_much_they_need() {
    assert!(matches!(read_socks_addr(&[]), AddrRead::Need(1)));
    assert!(matches!(read_socks_addr(&[1, 1]), AddrRead::Need(7)));
    assert!(matches!(read_socks_addr(&[4]), AddrRead::Need(19)));
    assert!(matches!(read_socks_addr(&[3]), AddrRead::Need(2)));
    assert!(matches!(read_socks_addr(&[3, 10, 1]), AddrRead::Need(14)));
    assert!(matches!(read_addr_parser(&[2, 0, 1]), AddrRead::Need(4)));
}

#[test]
fn bad_addresses_are_told_apart() {
    let unknown = UotError::UnknownType(AddrKind::Request, 0xab);
    assert!(matches!(read_socks_addr(&[0xab]), AddrRead::Invalid(e) if e == unknown));
    assert_eq!(unknown.describe("h"), "unknown SocksaddrSerializer type: 0xab");
    let unknown = UotError::UnknownType(AddrKind::Packet, 3);
    assert!(matches!(read_addr_parser(&[3]), AddrRead::Invalid(e) if e == unknown));
    assert_eq!(unknown.describe("h"), "unknown AddrParser type: 0x3");
    let fqdn = UotError::InvalidFqdn(AddrKind::Request);
    assert!(matches!(read_socks_addr(&[3, 1, 0xff, 0, 1]), AddrRead::Invalid(e) if e == fqdn));
    assert_eq!(fqdn.describe("h"), "invalid FQDN in UoT request");
    let fqdn = UotError::InvalidFqdn(AddrKind::Packet);
    assert!(matches!(read_addr_parser(&[2, 1, 0xff, 0, 1]), AddrRead::Invalid(e) if e == fqdn));
    assert_eq!(fqdn.describe("h"), "invalid FQDN in UoT packet");
    assert_eq!(UotError::NoAddress.describe("h"), "no address for h");
}

#[test]
fn requests_of_version_two_name_a_destination_if_they_connect() {
    match read_request(UotVersion::V1, &[9, 9]) {
        RequestRead::Ready { is_connect: false, dest: None, used: 0 } => {}
        other => panic!("{other:?}"),
    }
    assert!(matches!(read_request(UotVersion::V2, &[]), RequestRead::Need(1)));
    assert!(matches!(read_request(UotVersion::V2, &[1, 1]), RequestRead::Need(8)));
    match read_request(UotVersion::V2, &[1, 1, 8, 8, 4, 4, 0, 53, 77]) {
        RequestRead::Ready { is_connect: true, dest: Some((host, port)), used } => {
            assert_eq!(host, "8.8.4.4");
            assert_eq!(port, 53);
            assert_eq!(used, 8);
        }
        other => panic!("{other:?}"),
    }
    match read_request(UotVersion::V2, &[0, 1, 8, 8, 4, 4, 0, 53]) {
        RequestRead::Ready { is_connect: false, dest: None, used: 8 } => {}
        other => panic!("{other:?}"),
    }
    assert!(matches!(read_request(UotVersion::V2, &[1, 0]), RequestRead::Invalid(_)));
}

#[test]
fn packets_are_read_back() {
    let from = v4([9, 9, 9, 9], 53);
    let packet = write_uot_packet(&from, b"answer", false);
    assert_eq!(packet, [&[0u8, 9, 9, 9, 9, 0, 53, 0, 6][..], &b"answer"[..]].concat());
    let mut input = UotInput::new(false);
    let used = match input.next(&packet) {
        InputAction::Resolve { host, port, used } => {
            input.on_resolved(literal_target(&host, port).unwrap());
            used
        }
        other => panic!("{other:?}"),
    };
    match input.next(&packet[used..]) {
        InputAction::Send { to, payload, used: rest } => {
            assert_eq!(to, Some(from));
            assert_eq!(payload, b"answer");
            assert_eq!(used + rest, packet.len());
        }
        other => panic!("{other:?}"),
    }
    input.on_packet_done();
    assert!(matches!(input.next(&[]), InputAction::Need(1)));
}

#[test]
fn connected_packets_have_no_address() {
    let packet = write_uot_packet(&v4([9, 9, 9, 9], 53), b"xyz", true);
    assert_eq!(packet, b"\x00\x03xyz");
    let input = UotInput::new(true);
    assert!(matches!(input.next(&packet[..1]), InputAction::Need(2)));
    assert!(matches!(input.next(&packet[..4]), InputAction::Need(5)));
    match input.next(&packet) {
        InputAction::Send { to: None, payload, used: 5 } => assert_eq!(payload, b"xyz"),
        other => panic!("{other:?}"),
    }
    assert!(matches!(input.next(&[0, 0, 1]), InputAction::Skip { used: 2 }));
    assert!(matches!(UotInput::new(false).next(&[7]), InputAction::End(_)));
}

#[test]
fn loops_end_each_other() {
    assert_eq!(after_turn(UotLoopEvent::Done), UotLoopNext::Continue);
    assert_eq!(after_turn(UotLoopEvent::Failed), UotLoopNext::SignalAndStop);
    assert_eq!(after_turn(UotLoopEvent::Cancelled), UotLoopNext::SignalAndStop);
    assert_eq!(after_turn(UotLoopEvent::PeerEnded), UotLoopNext::Stop);
}

#[test]
fn the_first_address_is_used() {
    assert_eq!(first_target(&[v4([1, 1, 1, 1], 1), v4([2, 2, 2, 2], 1)]), Ok(v4([1, 1, 1, 1], 1)));
    assert_eq!(first_target(&[]), Err(UotError::NoAddress));
    assert_eq!(literal_target("example.com", 1), None);
}

#[test]
fn shutdown_called_on_cancel() {
    let mut stream = UotStream::new();
    let input = stream.on_turn(UotTurn::Input(UotLoopEvent::Cancelled));
    assert_eq!(input, UotStep { signal: true, action: UotAction::Stop });
    let output = stream.on_turn(UotTurn::Output(UotLoopEvent::Cancelled));
    assert_eq!(
        output,
        UotStep { signal: true, action: UotAction::Shutdown },
        "the write half must be shut down when cancelled"
    );
    assert_eq!(stream, UotStream { input_runs: false, output_runs: false, signalled: true });
}

#[test]
fn shutdown_called_on_natural_eof() {
    let mut stream = UotStream::new();
    let input = stream.on_turn(UotTurn::Input(UotLoopEvent::Failed));
    assert_eq!(input, UotStep { signal: true, action: UotAction::Stop });
    let output = stream.on_turn(UotTurn::Output(UotLoopEvent::PeerEnded));
    assert_eq!(
        output,
        UotStep { signal: false, action: UotAction::Shutdown },
        "the write half must be shut down at the end of the input"
    );
}

#[test]
fn the_write_half_is_shut_down_once() {
    let mut stream = UotStream::new();
    let done = UotStep { signal: false, action: UotAction::Continue };
    assert_eq!(stream.on_turn(UotTurn::Output(UotLoopEvent::Done)), done);
    assert_eq!(stream.on_turn(UotTurn::Input(UotLoopEvent::Done)), done);
    let failed = stream.on_turn(UotTurn::Output(UotLoopEvent::Failed));
    assert_eq!(failed, UotStep { signal: true, action: UotAction::Shutdown });
    let again = stream.on_turn(UotTurn::Output(UotLoopEvent::Failed));
    assert_eq!(again, UotStep { signal: false, action: UotAction::Stop });
    let told = stream.on_turn(UotTurn::Input(UotLoopEvent::PeerEnded));
    assert_eq!(told, UotStep { signal: false, action: UotAction::Stop });
}
