//! UDP over TCP: datagrams framed on a tunnel to a magic host.
//!
//! Version 2 starts with `[1 byte is-connect][destination]`; version 1 has no request. Then
//! each packet is `[address, unless connected][2 bytes length][payload]`.

use crate::proxy_core::ip::{IpAddr, SocketAddr};
use crate::{buffer, text};
use vstd::prelude::*;

verus! {

/// The magic host of version 2.
pub const MAGIC_V2: &'static str = "sp.v2.udp-over-tcp.arpa";

/// The magic host of version 1.
pub const MAGIC_V1: &'static str = "sp.udp-over-tcp.arpa";

/// Seconds that shutting down the tunnel's writer may take.
pub const UOT_SHUTDOWN_TIMEOUT_SECS: u64 = 5;

/// Size of the buffer that receives datagrams.
pub const UDP_BUFFER_SIZE: usize = 65535;

/// The version of the framing.
#[derive(Debug, Clone, Copy, PartialEq, Eq, Structural)]
pub enum UotVersion {
    V1,
    V2,
}

/// Which version a host asks for: the magic hosts, in any case, and no other host.
pub open spec fn uot_version(host: Seq<char>) -> Option<UotVersion> {
    if text::ascii_lower(host) == text::ascii_lower(MAGIC_V2@) {
        Some(UotVersion::V2)
    } else if text::ascii_lower(host) == text::ascii_lower(MAGIC_V1@) {
        Some(UotVersion::V1)
    } else {
        None
    }
}

/// Returns the version if `host` is a magic host.
pub fn detect_uot(host: &str) -> (r: Option<UotVersion>)
    ensures
        r == uot_version(host@),
{
    if text::eq_ignore_case(host, MAGIC_V2) {
        Some(UotVersion::V2)
    } else if text::eq_ignore_case(host, MAGIC_V1) {
        Some(UotVersion::V1)
    } else {
        None
    }
}

/// The case of a host makes no difference to what it asks for.
pub proof fn law_detect_ignores_case(a: Seq<char>, b: Seq<char>)
    requires
        text::ascii_lower(a) == text::ascii_lower(b),
    ensures
        uot_version(a) == uot_version(b),
{
}

/// The two encodings of an address, which differ in their type bytes.
#[derive(Debug, Clone, Copy, PartialEq, Eq, Structural)]
pub enum AddrKind {
    /// In the request: 1 for IPv4, 4 for IPv6, 3 for a domain.
    Request,
    /// Before a packet: 0 for IPv4, 1 for IPv6, 2 for a domain.
    Packet,
}

/// The type byte of an IPv4 address.
pub open spec fn tag_v4(kind: AddrKind) -> u8 {
    match kind {
        AddrKind::Request => 1,
        AddrKind::Packet => 0,
    }
}

/// The type byte of an IPv6 address.
pub open spec fn tag_v6(kind: AddrKind) -> u8 {
    match kind {
        AddrKind::Request => 4,
        AddrKind::Packet => 1,
    }
}

/// The type byte of a domain.
pub open spec fn tag_fqdn(kind: AddrKind) -> u8 {
    match kind {
        AddrKind::Request => 3,
        AddrKind::Packet => 2,
    }
}

/// Why an address cannot be used.
#[derive(Debug, Clone, Copy, PartialEq, Eq, Structural)]
pub enum UotError {
    /// The domain is not UTF-8.
    InvalidFqdn(AddrKind),
    /// The type byte is unknown.
    UnknownType(AddrKind, u8),
    /// The host has no address.
    NoAddress,
}

/// What the front of a byte stream holds.
pub enum AddrReadView {
    /// More bytes are needed: this many in all.
    Need(nat),
    /// No address.
    Invalid(UotError),
    /// A host, a port and the number of bytes that they took.
    Done(Seq<char>, u16, nat),
}

/// The number in two bytes at `i`, most significant first.
pub open spec fn u16_at(b: Seq<u8>, i: int) -> u16 {
    buffer::from_be16(b[i], b[i + 1]) as u16
}

/// The address at the front of a byte stream.
pub open spec fn addr_read(kind: AddrKind, b: Seq<u8>) -> AddrReadView {
    if b.len() < 1 {
        AddrReadView::Need(1)
    } else if b[0] == tag_v4(kind) {
        if b.len() < 7 {
            AddrReadView::Need(7)
        } else {
            AddrReadView::Done(
                crate::proxy_core::ip::ipv4_text(b.subrange(1, 5)),
                u16_at(b, 5),
                7,
            )
        }
    } else if b[0] == tag_v6(kind) {
        if b.len() < 19 {
            AddrReadView::Need(19)
        } else {
            AddrReadView::Done(
                crate::proxy_core::ip::ipv6_text(
                    crate::proxy_core::ip::segments(b.subrange(1, 17)),
                ),
                u16_at(b, 17),
                19,
            )
        }
    } else if b[0] == tag_fqdn(kind) {
        if b.len() < 2 {
            AddrReadView::Need(2)
        } else if b.len() < 4 + b[1] {
            AddrReadView::Need((4 + b[1]) as nat)
        } else if !vstd::utf8::valid_utf8(b.subrange(2, 2 + b[1])) {
            AddrReadView::Invalid(UotError::InvalidFqdn(kind))
        } else {
            AddrReadView::Done(
                vstd::utf8::decode_utf8(b.subrange(2, 2 + b[1])),
                u16_at(b, 2 + b[1]),
                (4 + b[1]) as nat,
            )
        }
    } else {
        AddrReadView::Invalid(UotError::UnknownType(kind, b[0]))
    }
}

/// What was found at the front of a byte stream.
#[derive(Debug)]
pub enum AddrRead {
    /// More bytes are needed: this many in all.
    Need(usize),
    /// No address.
    Invalid(UotError),
    /// A host, a port and the number of bytes that they took.
    Done { host: String, port: u16, used: usize },
}

impl View for AddrRead {
    type V = AddrReadView;

    open spec fn view(&self) -> AddrReadView {
        match self {
            AddrRead::Need(n) => AddrReadView::Need(*n as nat),
            AddrRead::Invalid(e) => AddrReadView::Invalid(*e),
            AddrRead::Done { host, port, used } => AddrReadView::Done(host@, *port, *used as nat),
        }
    }
}

fn read_u16_at(b: &[u8], i: usize) -> (r: u16)
    requires
        i + 1 < b@.len(),
    ensures
        r == u16_at(b@, i as int),
{
    b[i] as u16 * 256 + b[i + 1] as u16
}

fn read_addr(kind: AddrKind, b: &[u8]) -> (r: AddrRead)
    ensures
        r@ == addr_read(kind, b@),
{
    let (v4, v6, fqdn): (u8, u8, u8) = match kind {
        AddrKind::Request => (1, 4, 3),
        AddrKind::Packet => (0, 1, 2),
    };
    if b.len() < 1 {
        return AddrRead::Need(1);
    }
    let tag: u8 = b[0];
    if tag == v4 {
        if b.len() < 7 {
            return AddrRead::Need(7);
        }
        let o: [u8; 4] = [b[1], b[2], b[3], b[4]];
        assert(o@ =~= b@.subrange(1, 5));
        AddrRead::Done { host: IpAddr::V4(o).to_string(), port: read_u16_at(b, 5), used: 7 }
    } else if tag == v6 {
        if b.len() < 19 {
            return AddrRead::Need(19);
        }
        let o: [u8; 16] = [
            b[1],
            b[2],
            b[3],
            b[4],
            b[5],
            b[6],
            b[7],
            b[8],
            b[9],
            b[10],
            b[11],
            b[12],
            b[13],
            b[14],
            b[15],
            b[16],
        ];
        assert(o@ =~= b@.subrange(1, 17));
        AddrRead::Done { host: IpAddr::V6(o).to_string(), port: read_u16_at(b, 17), used: 19 }
    } else if tag == fqdn {
        if b.len() < 2 {
            return AddrRead::Need(2);
        }
        let len: usize = b[1] as usize;
        if b.len() < 4 + len {
            return AddrRead::Need(4 + len);
        }
        let domain: Vec<u8> = text::bytes_of(vstd::slice::slice_subrange(b, 2, 2 + len));
        match text::utf8_text(domain) {
            Ok(host) => AddrRead::Done { host, port: read_u16_at(b, 2 + len), used: 4 + len },
            Err(_) => AddrRead::Invalid(UotError::InvalidFqdn(kind)),
        }
    } else {
        AddrRead::Invalid(UotError::UnknownType(kind, tag))
    }
}

/// Reads the address of a request.
pub fn read_socks_addr(b: &[u8]) -> (r: AddrRead)
    ensures
        r@ == addr_read(AddrKind::Request, b@),
{
    read_addr(AddrKind::Request, b)
}

/// Reads the address before a packet.
pub fn read_addr_parser(b: &[u8]) -> (r: AddrRead)
    ensures
        r@ == addr_read(AddrKind::Packet, b@),
{
    read_addr(AddrKind::Packet, b)
}

/// The encoding of an address before a packet.
pub open spec fn addr_wire(a: (crate::proxy_core::ip::IpView, u16)) -> Seq<u8> {
    match a.0 {
        crate::proxy_core::ip::IpView::V4(o) => seq![0u8] + o + buffer::be16(a.1),
        crate::proxy_core::ip::IpView::V6(o) => seq![1u8] + o + buffer::be16(a.1),
    }
}

/// The encoding of a packet: the address unless the socket is connected, the length and the
/// payload.
pub open spec fn packet_wire(
    from: (crate::proxy_core::ip::IpView, u16),
    data: Seq<u8>,
    is_connect: bool,
) -> Seq<u8> {
    (if is_connect {
        Seq::empty()
    } else {
        addr_wire(from)
    }) + buffer::be16((data.len() % 65536) as u16) + data
}

/// Appends the address before a packet.
pub fn write_addr_parser(out: &mut Vec<u8>, addr: &SocketAddr)
    ensures
        final(out)@ == old(out)@ + addr_wire(addr@),
{
    match &addr.ip {
        IpAddr::V4(o) => {
            out.push(0);
            text::push_bytes(out, o.as_slice());
        },
        IpAddr::V6(o) => {
            out.push(1);
            text::push_bytes(out, o.as_slice());
        },
    }
    out.push((addr.port / 256) as u8);
    out.push((addr.port % 256) as u8);
    assert(out@ =~= old(out)@ + addr_wire(addr@));
}

/// The bytes of one packet to the client.
pub fn write_uot_packet(from: &SocketAddr, data: &[u8], is_connect: bool) -> (r: Vec<u8>)
    ensures
        r@ == packet_wire(from@, data@, is_connect),
{
    let mut out: Vec<u8> = Vec::new();
    if !is_connect {
        write_addr_parser(&mut out, from);
    }
    let len: usize = data.len() % 65536;
    out.push((len / 256) as u8);
    out.push((len % 256) as u8);
    text::push_bytes(&mut out, data);
    assert(out@ =~= packet_wire(from@, data@, is_connect));
    out
}

/// What the start of a stream holds.
#[derive(Debug)]
pub enum RequestRead {
    /// More bytes are needed: this many in all.
    Need(usize),
    /// No request.
    Invalid(UotError),
    /// Whether the socket is to be connected, to which host and port, and the number of bytes
    /// that the request took.
    Ready { is_connect: bool, dest: Option<(String, u16)>, used: usize },
}

/// What the start of a stream holds.
pub enum RequestReadView {
    Need(nat),
    Invalid(UotError),
    Ready(bool, Option<(Seq<char>, u16)>, nat),
}

impl View for RequestRead {
    type V = RequestReadView;

    open spec fn view(&self) -> RequestReadView {
        match self {
            RequestRead::Need(n) => RequestReadView::Need(*n as nat),
            RequestRead::Invalid(e) => RequestReadView::Invalid(*e),
            RequestRead::Ready { is_connect, dest, used } => RequestReadView::Ready(
                *is_connect,
                match dest {
                    Some(d) => Some((d.0@, d.1)),
                    None => None,
                },
                *used as nat,
            ),
        }
    }
}

/// The request at the start of a stream.
pub open spec fn request_read(version: UotVersion, b: Seq<u8>) -> RequestReadView {
    match version {
        UotVersion::V1 => RequestReadView::Ready(false, None, 0),
        UotVersion::V2 => if b.len() < 1 {
            RequestReadView::Need(1)
        } else {
            match addr_read(AddrKind::Request, b.skip(1)) {
                AddrReadView::Need(n) => RequestReadView::Need(n + 1),
                AddrReadView::Invalid(e) => RequestReadView::Invalid(e),
                AddrReadView::Done(host, port, n) => RequestReadView::Ready(
                    b[0] != 0,
                    if b[0] != 0 {
                        Some((host, port))
                    } else {
                        None
                    },
                    n + 1,
                ),
            }
        },
    }
}

/// Reads the request of a stream. Version 1 has none. The address of a version 2 request
/// counts only where the socket is to be connected.
pub fn read_request(version: UotVersion, b: &[u8]) -> (r: RequestRead)
    ensures
        r@ == request_read(version, b@),
        match version {
            UotVersion::V1 => r matches RequestRead::Ready { is_connect, dest, used } && !is_connect
                && dest is None && used == 0,
            UotVersion::V2 => if b@.len() < 1 {
                r == RequestRead::Need(1)
            } else {
                match addr_read(AddrKind::Request, b@.skip(1)) {
                    AddrReadView::Need(n) => r matches RequestRead::Need(m) && m == n + 1,
                    AddrReadView::Invalid(e) => r == RequestRead::Invalid(e),
                    AddrReadView::Done(host, port, n) => {
                        &&& r matches RequestRead::Ready { is_connect, dest, used }
                        &&& is_connect == (b@[0] != 0)
                        &&& used == n + 1
                        &&& dest is Some == is_connect
                        &&& dest matches Some(d) ==> d.0@ == host && d.1 == port
                    },
                }
            },
        },
{
    match version {
        UotVersion::V1 => RequestRead::Ready { is_connect: false, dest: None, used: 0 },
        UotVersion::V2 => {
            let n: usize = b.len();
            if n < 1 {
                return RequestRead::Need(1);
            }
            let is_connect: bool = b[0] != 0;
            let rest: &[u8] = vstd::slice::slice_subrange(b, 1, n);
            assert(rest@ =~= b@.skip(1));
            match read_socks_addr(rest) {
                AddrRead::Need(m) => {
                    assert(m <= 259);
                    RequestRead::Need(m + 1)
                },
                AddrRead::Invalid(e) => RequestRead::Invalid(e),
                AddrRead::Done { host, port, used } => {
                    assert(used <= rest@.len());
                    RequestRead::Ready {
                        is_connect,
                        dest: if is_connect {
                            Some((host, port))
                        } else {
                            None
                        },
                        used: used + 1,
                    }
                },
            }
        },
    }
}

/// What the input loop does next.
#[derive(Debug)]
pub enum InputAction {
    /// Read until this many bytes are there.
    Need(usize),
    /// End the input.
    End(UotError),
    /// Look the host up; the address took `used` bytes.
    Resolve { host: String, port: u16, used: usize },
    /// Drop an empty packet of `used` bytes.
    Skip { used: usize },
    /// Send the payload, to the given address or on the connected socket.
    Send { to: Option<SocketAddr>, payload: Vec<u8>, used: usize },
}

/// What the input loop does next.
pub enum InputActionView {
    Need(nat),
    End(UotError),
    Resolve(Seq<char>, u16, nat),
    Skip(nat),
    Send(Option<(crate::proxy_core::ip::IpView, u16)>, Seq<u8>, nat),
}

/// The contents of an optional address.
pub open spec fn target_view(t: Option<SocketAddr>) -> Option<
    (crate::proxy_core::ip::IpView, u16),
> {
    match t {
        Some(a) => Some(a@),
        None => None,
    }
}

impl View for InputAction {
    type V = InputActionView;

    open spec fn view(&self) -> InputActionView {
        match self {
            InputAction::Need(n) => InputActionView::Need(*n as nat),
            InputAction::End(e) => InputActionView::End(*e),
            InputAction::Resolve { host, port, used } => InputActionView::Resolve(
                host@,
                *port,
                *used as nat,
            ),
            InputAction::Skip { used } => InputActionView::Skip(*used as nat),
            InputAction::Send { to, payload, used } => InputActionView::Send(
                target_view(*to),
                payload@,
                *used as nat,
            ),
        }
    }
}

/// What to do with the bytes that have arrived: an address comes first unless the socket is
/// connected or the address is known already, then the length and the payload.
pub open spec fn input_action(
    is_connect: bool,
    dest: Option<(crate::proxy_core::ip::IpView, u16)>,
    b: Seq<u8>,
) -> InputActionView {
    if !is_connect && dest is None {
        match addr_read(AddrKind::Packet, b) {
            AddrReadView::Need(n) => InputActionView::Need(n),
            AddrReadView::Invalid(e) => InputActionView::End(e),
            AddrReadView::Done(host, port, used) => InputActionView::Resolve(host, port, used),
        }
    } else if b.len() < 2 {
        InputActionView::Need(2)
    } else {
        let len = u16_at(b, 0) as int;
        if len == 0 {
            InputActionView::Skip(2)
        } else if b.len() < 2 + len {
            InputActionView::Need((2 + len) as nat)
        } else {
            InputActionView::Send(
                if is_connect {
                    None
                } else {
                    dest
                },
                b.subrange(2, 2 + len),
                (2 + len) as nat,
            )
        }
    }
}

/// The loop from the tunnel to the UDP socket.
pub struct UotInput {
    pub is_connect: bool,
    pub dest: Option<SocketAddr>,
}

impl UotInput {
    /// An input loop before its first packet.
    pub fn new(is_connect: bool) -> (r: Self)
        ensures
            r.is_connect == is_connect,
            r.dest is None,
    {
        UotInput { is_connect, dest: None }
    }

    /// What to do with the bytes that have arrived.
    pub fn next(&self, b: &[u8]) -> (r: InputAction)
        ensures
            r@ == input_action(self.is_connect, target_view(self.dest), b@),
    {
        if !self.is_connect && self.dest.is_none() {
            return match read_addr_parser(b) {
                AddrRead::Need(n) => InputAction::Need(n),
                AddrRead::Invalid(e) => InputAction::End(e),
                AddrRead::Done { host, port, used } => InputAction::Resolve { host, port, used },
            };
        }
        if b.len() < 2 {
            return InputAction::Need(2);
        }
        let len: usize = read_u16_at(b, 0) as usize;
        if len == 0 {
            return InputAction::Skip { used: 2 };
        }
        if b.len() < 2 + len {
            return InputAction::Need(2 + len);
        }
        let to: Option<SocketAddr> = if self.is_connect {
            None
        } else {
            self.dest
        };
        InputAction::Send {
            to,
            payload: text::bytes_of(vstd::slice::slice_subrange(b, 2, 2 + len)),
            used: 2 + len,
        }
    }

    /// Takes the address of the next packet.
    pub fn on_resolved(&mut self, addr: SocketAddr)
        ensures
            final(self).is_connect == old(self).is_connect,
            target_view(final(self).dest) == Some(addr@),
    {
        self.dest = Some(addr);
    }

    /// Goes on to the next packet.
    pub fn on_packet_done(&mut self)
        ensures
            final(self).is_connect == old(self).is_connect,
            final(self).dest is None,
    {
        self.dest = None;
    }
}

/// How one turn of a loop ended.
#[derive(Debug, Clone, Copy, PartialEq, Eq, Structural)]
pub enum UotLoopEvent {
    /// A packet was dealt with.
    Done,
    /// Reading, resolving, sending or writing failed.
    Failed,
    /// The connection was cancelled.
    Cancelled,
    /// The other loop has ended.
    PeerEnded,
}

/// What a loop does after a turn.
#[derive(Debug, Clone, Copy, PartialEq, Eq, Structural)]
pub enum UotLoopNext {
    /// Take the next turn.
    Continue,
    /// Tell the other loop to end, and end.
    SignalAndStop,
    /// End.
    Stop,
}

/// What a loop does after a turn: whichever loop ends first ends the other.
pub fn after_turn(event: UotLoopEvent) -> (r: UotLoopNext)
    ensures
        r == (match event {
            UotLoopEvent::Done => UotLoopNext::Continue,
            UotLoopEvent::Failed => UotLoopNext::SignalAndStop,
            UotLoopEvent::Cancelled => UotLoopNext::SignalAndStop,
            UotLoopEvent::PeerEnded => UotLoopNext::Stop,
        }),
{
    match event {
        UotLoopEvent::Done => UotLoopNext::Continue,
        UotLoopEvent::Failed => UotLoopNext::SignalAndStop,
        UotLoopEvent::Cancelled => UotLoopNext::SignalAndStop,
        UotLoopEvent::PeerEnded => UotLoopNext::Stop,
    }
}

/// The two loops of a stream of datagrams: which of them still run, and whether they were told to
/// end.
#[derive(Debug, Clone, Copy, PartialEq, Eq, Structural)]
pub struct UotStream {
    pub input_runs: bool,
    pub output_runs: bool,
    pub signalled: bool,
}

/// A turn of one of the loops.
#[derive(Debug, Clone, Copy, PartialEq, Eq, Structural)]
pub enum UotTurn {
    /// Of the loop from the tunnel to the UDP socket.
    Input(UotLoopEvent),
    /// Of the loop from the UDP socket to the tunnel.
    Output(UotLoopEvent),
}

/// What a loop does after its turn.
#[derive(Debug, Clone, Copy, PartialEq, Eq, Structural)]
pub enum UotAction {
    /// Take the next turn.
    Continue,
    /// End.
    Stop,
    /// Shut the tunnel's write half down, and end.
    Shutdown,
}

/// What follows a turn.
#[derive(Debug, Clone, Copy, PartialEq, Eq, Structural)]
pub struct UotStep {
    /// Whether the other loop is told to end.
    pub signal: bool,
    /// What the loop does.
    pub action: UotAction,
}

/// Both loops running.
pub open spec fn new_stream() -> UotStream {
    UotStream { input_runs: true, output_runs: true, signalled: false }
}

/// Whether a turn that went so ends its loop of its own accord, so that the other must be told.
pub open spec fn ends_first(event: UotLoopEvent) -> bool {
    event == UotLoopEvent::Failed || event == UotLoopEvent::Cancelled
}

/// How a stream stands after a turn, and what follows. A loop that has ended takes no turns.
pub open spec fn next_turn(st: UotStream, turn: UotTurn) -> (UotStream, UotStep) {
    match turn {
        UotTurn::Input(e) => if !st.input_runs {
            (st, UotStep { signal: false, action: UotAction::Stop })
        } else if e == UotLoopEvent::Done {
            (st, UotStep { signal: false, action: UotAction::Continue })
        } else {
            (
                UotStream { input_runs: false, signalled: st.signalled || ends_first(e), ..st },
                UotStep { signal: ends_first(e), action: UotAction::Stop },
            )
        },
        UotTurn::Output(e) => if !st.output_runs {
            (st, UotStep { signal: false, action: UotAction::Stop })
        } else if e == UotLoopEvent::Done {
            (st, UotStep { signal: false, action: UotAction::Continue })
        } else {
            (
                UotStream { output_runs: false, signalled: st.signalled || ends_first(e), ..st },
                UotStep { signal: ends_first(e), action: UotAction::Shutdown },
            )
        },
    }
}

impl UotStream {
    /// A stream whose loops both run.
    pub fn new() -> (r: Self)
        ensures
            r == new_stream(),
    {
        UotStream { input_runs: true, output_runs: true, signalled: false }
    }

    /// Takes a turn of one of the loops.
    pub fn on_turn(&mut self, turn: UotTurn) -> (r: UotStep)
        ensures
            (*final(self), r) == next_turn(*old(self), turn),
    {
        match turn {
            UotTurn::Input(e) => {
                if !self.input_runs {
                    return UotStep { signal: false, action: UotAction::Stop };
                }
                let next: UotLoopNext = after_turn(e);
                if next == UotLoopNext::Continue {
                    return UotStep { signal: false, action: UotAction::Continue };
                }
                let signal: bool = next == UotLoopNext::SignalAndStop;
                self.input_runs = false;
                self.signalled = self.signalled || signal;
                UotStep { signal, action: UotAction::Stop }
            },
            UotTurn::Output(e) => {
                if !self.output_runs {
                    return UotStep { signal: false, action: UotAction::Stop };
                }
                let next: UotLoopNext = after_turn(e);
                if next == UotLoopNext::Continue {
                    return UotStep { signal: false, action: UotAction::Continue };
                }
                let signal: bool = next == UotLoopNext::SignalAndStop;
                self.output_runs = false;
                self.signalled = self.signalled || signal;
                UotStep { signal, action: UotAction::Shutdown }
            },
        }
    }
}

/// How a stream stands after all of `turns`.
pub open spec fn stream_after(turns: Seq<UotTurn>) -> UotStream
    decreases turns.len(),
{
    if turns.len() == 0 {
        new_stream()
    } else {
        next_turn(stream_after(turns.drop_last()), turns.last()).0
    }
}

/// How often the write half is shut down in all.
pub open spec fn shutdowns(turns: Seq<UotTurn>) -> nat
    decreases turns.len(),
{
    if turns.len() == 0 {
        0
    } else {
        let last = next_turn(stream_after(turns.drop_last()), turns.last()).1;
        shutdowns(turns.drop_last()) + if last.action == UotAction::Shutdown {
            1nat
        } else {
            0nat
        }
    }
}

/// Whether a turn ends its loop.
pub open spec fn ending(event: UotLoopEvent) -> bool {
    event != UotLoopEvent::Done
}

/// The write half is shut down when the output loop ends, and only then: once, whatever ended it,
/// a failure, a cancellation or the end of the input. So it has been once both loops have ended.
pub proof fn law_shutdown_once(turns: Seq<UotTurn>)
    ensures
        !stream_after(turns).input_runs && !stream_after(turns).output_runs ==> shutdowns(turns)
            == 1,
        shutdowns(turns) == if stream_after(turns).output_runs {
            0nat
        } else {
            1nat
        },
        stream_after(turns).output_runs <==> forall|i: int|
            0 <= i < turns.len() ==> !(#[trigger] turns[i] matches UotTurn::Output(e) && ending(e)),
    decreases turns.len(),
{
    if turns.len() > 0 {
        let init = turns.drop_last();
        let n = init.len() as int;
        law_shutdown_once(init);
        if stream_after(turns).output_runs {
            assert forall|i: int|
                0 <= i < turns.len() implies !(#[trigger] turns[i] matches UotTurn::Output(e)
                && ending(e)) by {
                if i < n {
                    assert(init[i] == turns[i]);
                }
            }
        } else if !stream_after(init).output_runs {
            let i = choose|i: int|
                0 <= i < init.len() && (#[trigger] init[i] matches UotTurn::Output(e) && ending(e));
            assert(turns[i] == init[i]);
        } else {
            assert(turns[n] matches UotTurn::Output(e) && ending(e));
        }
    }
}

/// Whether a turn says that the other loop has ended.
pub open spec fn told_to_end(turn: UotTurn) -> bool {
    turn == UotTurn::Input(UotLoopEvent::PeerEnded) || turn == UotTurn::Output(
        UotLoopEvent::PeerEnded,
    )
}

/// Whichever loop ends first tells the other to end: where no loop ends for the other unless it
/// was told, a stream of which a loop has ended has told the other.
pub proof fn law_first_end_is_signalled(turns: Seq<UotTurn>)
    requires
        forall|i: int|
            0 <= i < turns.len() && told_to_end(#[trigger] turns[i]) ==> stream_after(
                turns.take(i),
            ).signalled,
    ensures
        !stream_after(turns).input_runs || !stream_after(turns).output_runs ==> stream_after(
            turns,
        ).signalled,
    decreases turns.len(),
{
    if turns.len() > 0 {
        let init = turns.drop_last();
        let n = init.len() as int;
        assert(turns.take(n) =~= init);
        assert forall|i: int|
            0 <= i < init.len() && told_to_end(#[trigger] init[i]) implies stream_after(
            init.take(i),
        ).signalled by {
            assert(turns[i] == init[i]);
            assert(init.take(i) =~= turns.take(i));
        }
        law_first_end_is_signalled(init);
        assert(turns[n] == turns.last());
    }
}

/// The address that a host names without a lookup: an IP address.
pub fn literal_target(host: &str, port: u16) -> (r: Option<SocketAddr>)
    ensures
        match r {
            Some(a) => crate::proxy_core::ip::reads_as_ip(host@, a.ip@) && a.port == port,
            None => !crate::proxy_core::ip::is_ip_text(host@),
        },
{
    match IpAddr::parse(host) {
        Some(ip) => Some(SocketAddr { ip, port }),
        None => None,
    }
}

/// The address used of those that a lookup found: the first.
pub fn first_target(found: &[SocketAddr]) -> (r: Result<SocketAddr, UotError>)
    ensures
        match r {
            Ok(a) => found@.len() > 0 && a == found@[0],
            Err(e) => found@.len() == 0 && e == UotError::NoAddress,
        },
{
    if found.len() > 0 {
        Ok(found[0])
    } else {
        Err(UotError::NoAddress)
    }
}

/// The text of an error about `host`.
pub open spec fn uot_error_text(e: UotError, host: Seq<char>) -> Seq<char> {
    match e {
        UotError::InvalidFqdn(AddrKind::Request) => "invalid FQDN in UoT request"@,
        UotError::InvalidFqdn(AddrKind::Packet) => "invalid FQDN in UoT packet"@,
        UotError::UnknownType(AddrKind::Request, t) => "unknown SocksaddrSerializer type: 0x"@
            + text::hex_text(t as nat),
        UotError::UnknownType(AddrKind::Packet, t) => "unknown AddrParser type: 0x"@
            + text::hex_text(t as nat),
        UotError::NoAddress => "no address for "@ + host,
    }
}

impl UotError {
    /// The text of the error, for a lookup of `host`.
    pub fn describe(&self, host: &str) -> (r: String)
        ensures
            r@ == uot_error_text(*self, host@),
    {
        let mut out: Vec<char> = Vec::new();
        match self {
            UotError::InvalidFqdn(AddrKind::Request) => {
                text::push_text(&mut out, "invalid FQDN in UoT request");
            },
            UotError::InvalidFqdn(AddrKind::Packet) => {
                text::push_text(&mut out, "invalid FQDN in UoT packet");
            },
            UotError::UnknownType(AddrKind::Request, t) => {
                text::push_text(&mut out, "unknown SocksaddrSerializer type: 0x");
                text::push_number(&mut out, *t as u64, 16);
            },
            UotError::UnknownType(AddrKind::Packet, t) => {
                text::push_text(&mut out, "unknown AddrParser type: 0x");
                text::push_number(&mut out, *t as u64, 16);
            },
            UotError::NoAddress => {
                text::push_text(&mut out, "no address for ");
                text::push_text(&mut out, host);
            },
        }
        assert(out@ =~= uot_error_text(*self, host@));
        text::string_of(out.as_slice())
    }
}

/// Whether an address has the right number of bytes.
pub open spec fn target_fits(a: (crate::proxy_core::ip::IpView, u16)) -> bool {
    match a.0 {
        crate::proxy_core::ip::IpView::V4(o) => o.len() == 4,
        crate::proxy_core::ip::IpView::V6(o) => o.len() == 16,
    }
}

/// Reading the address before a packet gives back what was written, whatever follows it; the
/// host that comes out is the text of the IP address, and names it.
pub proof fn law_addr_round_trip(a: (crate::proxy_core::ip::IpView, u16), rest: Seq<u8>)
    requires
        target_fits(a),
    ensures
        addr_read(AddrKind::Packet, addr_wire(a) + rest) == AddrReadView::Done(
            crate::proxy_core::ip::ip_text(a.0),
            a.1,
            addr_wire(a).len(),
        ),
        crate::proxy_core::ip::reads_as_ip(crate::proxy_core::ip::ip_text(a.0), a.0),
{
    let b = addr_wire(a) + rest;
    crate::proxy_core::ip::law_ip_round_trip(a.0);
    match a.0 {
        crate::proxy_core::ip::IpView::V4(o) => {
            assert(b.subrange(1, 5) =~= o);
            assert(b[5] == buffer::be16(a.1)[0] && b[6] == buffer::be16(a.1)[1]);
        },
        crate::proxy_core::ip::IpView::V6(o) => {
            assert(b.subrange(1, 17) =~= o);
            assert(b[17] == buffer::be16(a.1)[0] && b[18] == buffer::be16(a.1)[1]);
        },
    }
}

/// A packet that was written is read back, whatever follows it: first its address, unless the
/// socket is connected, then its payload, to that address.
pub proof fn law_packet_round_trip(
    from: (crate::proxy_core::ip::IpView, u16),
    data: Seq<u8>,
    is_connect: bool,
    rest: Seq<u8>,
)
    requires
        target_fits(from),
        0 < data.len() <= 65535,
    ensures
        ({
            let wire = packet_wire(from, data, is_connect) + rest;
            let head = addr_wire(from).len();
            if is_connect {
                input_action(true, None, wire) == InputActionView::Send(None, data, 2 + data.len())
            } else {
                &&& input_action(false, None, wire) == InputActionView::Resolve(
                    crate::proxy_core::ip::ip_text(from.0),
                    from.1,
                    head,
                )
                &&& input_action(false, Some(from), wire.skip(head as int))
                    == InputActionView::Send(Some(from), data, 2 + data.len())
            }
        }),
{
    if is_connect {
        lemma_body_read(true, None, data, rest);
        lemma_wire_connected(from, data, rest);
    } else {
        let body = buffer::be16((data.len() % 65536) as u16) + data + rest;
        lemma_body_read(false, Some(from), data, rest);
        lemma_wire_addressed(from, data, rest);
        law_addr_round_trip(from, body);
    }
}

proof fn lemma_wire_connected(
    from: (crate::proxy_core::ip::IpView, u16),
    data: Seq<u8>,
    rest: Seq<u8>,
)
    ensures
        packet_wire(from, data, true) + rest == buffer::be16((data.len() % 65536) as u16) + data
            + rest,
{
    assert(packet_wire(from, data, true) + rest =~= buffer::be16((data.len() % 65536) as u16) + data
        + rest);
}

proof fn lemma_wire_addressed(
    from: (crate::proxy_core::ip::IpView, u16),
    data: Seq<u8>,
    rest: Seq<u8>,
)
    ensures
        ({
            let body = buffer::be16((data.len() % 65536) as u16) + data + rest;
            let wire = packet_wire(from, data, false) + rest;
            wire == addr_wire(from) + body && wire.skip(addr_wire(from).len() as int) == body
        }),
{
    let head = addr_wire(from);
    let len = buffer::be16((data.len() % 65536) as u16);
    let body = len + data + rest;
    let wire = packet_wire(from, data, false) + rest;
    assert(wire == head + len + data + rest);
    assert(wire =~= head + body);
    assert(wire.skip(head.len() as int) =~= body);
}

/// The length and the payload of a packet are read back, whatever follows them.
proof fn lemma_body_read(
    is_connect: bool,
    dest: Option<(crate::proxy_core::ip::IpView, u16)>,
    data: Seq<u8>,
    rest: Seq<u8>,
)
    requires
        is_connect != (dest is Some),
        0 < data.len() <= 65535,
    ensures
        input_action(
            is_connect,
            dest,
            buffer::be16((data.len() % 65536) as u16) + data + rest,
        ) == InputActionView::Send(dest, data, 2 + data.len()),
{
    let body = buffer::be16((data.len() % 65536) as u16) + data + rest;
    assert(body.subrange(2, 2 + data.len() as int) =~= data);
    assert(u16_at(body, 0) == data.len());
}

/// The bytes of a port, most significant first.
pub open spec fn port_bytes(port: u16) -> Seq<u8> {
    seq![(port / 256) as u8, (port % 256) as u8]
}

/// The bytes of a domain and a port in the request or before a packet: the type, the length, the
/// domain and the port.
pub open spec fn domain_bytes(kind: AddrKind, domain: Seq<u8>, port: u16) -> Seq<u8> {
    seq![
        if kind == AddrKind::Request {
            3u8
        } else {
            2u8
        },
        domain.len() as u8,
    ] + domain + port_bytes(port)
}

/// The bytes of an IP address and a port in the request or before a packet: the type, the bytes of
/// the address and the port.
pub open spec fn ip_bytes(kind: AddrKind, a: crate::proxy_core::ip::IpView, port: u16) -> Seq<u8> {
    match a {
        crate::proxy_core::ip::IpView::V4(o) => seq![
            if kind == AddrKind::Request {
                1u8
            } else {
                0u8
            },
        ] + o + port_bytes(port),
        crate::proxy_core::ip::IpView::V6(o) => seq![
            if kind == AddrKind::Request {
                4u8
            } else {
                1u8
            },
        ] + o + port_bytes(port),
    }
}

/// In both encodings a domain and its port are read back, whatever follows them, and exactly the
/// bytes that they took are used. Bytes that are no text are refused.
pub proof fn law_domain_is_read_back(kind: AddrKind, domain: Seq<u8>, port: u16, rest: Seq<u8>)
    requires
        domain.len() <= 255,
    ensures
        addr_read(kind, domain_bytes(kind, domain, port) + rest) == (if vstd::utf8::valid_utf8(
            domain,
        ) {
            AddrReadView::Done(
                vstd::utf8::decode_utf8(domain),
                port,
                domain_bytes(kind, domain, port).len(),
            )
        } else {
            AddrReadView::Invalid(UotError::InvalidFqdn(kind))
        }),
        domain_bytes(kind, domain, port).len() == domain.len() + 4,
{
    let b = domain_bytes(kind, domain, port) + rest;
    assert(b.subrange(2, 2 + domain.len() as int) =~= domain);
    assert(b[2 + domain.len() as int] == port_bytes(port)[0]);
    assert(b[3 + domain.len() as int] == port_bytes(port)[1]);
}

/// In both encodings an IP address and its port are read back, whatever follows them, and exactly
/// the bytes that they took are used; the host that comes out names the address.
pub proof fn law_ip_is_read_back(
    kind: AddrKind,
    a: crate::proxy_core::ip::IpView,
    port: u16,
    rest: Seq<u8>,
)
    requires
        target_fits((a, port)),
    ensures
        addr_read(kind, ip_bytes(kind, a, port) + rest) == AddrReadView::Done(
            crate::proxy_core::ip::ip_text(a),
            port,
            ip_bytes(kind, a, port).len(),
        ),
        crate::proxy_core::ip::reads_as_ip(crate::proxy_core::ip::ip_text(a), a),
        ip_bytes(kind, a, port).len() == (if a is V4 {
            7nat
        } else {
            19nat
        }),
{
    let b = ip_bytes(kind, a, port) + rest;
    crate::proxy_core::ip::law_ip_round_trip(a);
    match a {
        crate::proxy_core::ip::IpView::V4(o) => {
            assert(b.subrange(1, 5) =~= o);
            assert(b[5] == port_bytes(port)[0] && b[6] == port_bytes(port)[1]);
        },
        crate::proxy_core::ip::IpView::V6(o) => {
            assert(b.subrange(1, 17) =~= o);
            assert(b[17] == port_bytes(port)[0] && b[18] == port_bytes(port)[1]);
        },
    }
}

/// While an address has not come in whole, more bytes are asked for than there are, and never more
/// than the address takes; once it has, nothing that follows changes what is read.
pub proof fn law_part_of_an_address_waits(kind: AddrKind, b: Seq<u8>, n: int)
    requires
        addr_read(kind, b) is Done,
        0 <= n <= b.len(),
    ensures
        addr_read(kind, b) matches AddrReadView::Done(host, port, used) && used <= b.len() && (if n
            < used {
            addr_read(kind, b.take(n)) matches AddrReadView::Need(m) && n < m <= used
        } else {
            addr_read(kind, b.take(n)) == addr_read(kind, b)
        }),
{
    let t = b.take(n);
    let used = addr_read(kind, b)->Done_2;
    if n >= used {
        if b[0] == tag_v4(kind) {
            assert(t.subrange(1, 5) =~= b.subrange(1, 5));
        } else if b[0] == tag_v6(kind) {
            assert(t.subrange(1, 17) =~= b.subrange(1, 17));
        } else {
            assert(t.subrange(2, 2 + b[1]) =~= b.subrange(2, 2 + b[1]));
        }
    }
}

/// A type byte that the encoding does not have is refused, and said.
pub proof fn law_unknown_types_are_refused(kind: AddrKind, b: Seq<u8>)
    requires
        b.len() > 0,
        match kind {
            AddrKind::Request => b[0] != 1 && b[0] != 3 && b[0] != 4,
            AddrKind::Packet => b[0] != 0 && b[0] != 1 && b[0] != 2,
        },
    ensures
        addr_read(kind, b) == AddrReadView::Invalid(UotError::UnknownType(kind, b[0])),
{
}

/// What is written in front of a packet is the address in the packet's encoding, and behind it the
/// length of the payload and the payload.
pub proof fn law_packets_are_framed(
    from: (crate::proxy_core::ip::IpView, u16),
    data: Seq<u8>,
    is_connect: bool,
)
    requires
        data.len() <= 65535,
    ensures
        addr_wire(from) == ip_bytes(AddrKind::Packet, from.0, from.1),
        packet_wire(from, data, is_connect) == (if is_connect {
            port_bytes(data.len() as u16) + data
        } else {
            ip_bytes(AddrKind::Packet, from.0, from.1) + port_bytes(data.len() as u16) + data
        }),
{
    assert(addr_wire(from) =~= ip_bytes(AddrKind::Packet, from.0, from.1));
    assert(packet_wire(from, data, is_connect) =~= (if is_connect {
        port_bytes(data.len() as u16) + data
    } else {
        ip_bytes(AddrKind::Packet, from.0, from.1) + port_bytes(data.len() as u16) + data
    }));
}

/// A packet to a domain is taken apart exactly: its address uses the bytes up to the length, and
/// then the payload goes, whole and alone, to the address that was found for the domain.
pub proof fn law_domain_packet_is_read_back(
    domain: Seq<u8>,
    port: u16,
    data: Seq<u8>,
    found: (crate::proxy_core::ip::IpView, u16),
    rest: Seq<u8>,
)
    requires
        domain.len() <= 255,
        vstd::utf8::valid_utf8(domain),
        0 < data.len() <= 65535,
    ensures
        ({
            let head = domain_bytes(AddrKind::Packet, domain, port);
            let wire = head + port_bytes(data.len() as u16) + data + rest;
            &&& input_action(false, None, wire) == InputActionView::Resolve(
                vstd::utf8::decode_utf8(domain),
                port,
                head.len(),
            )
            &&& input_action(false, Some(found), wire.skip(head.len() as int))
                == InputActionView::Send(Some(found), data, data.len() + 2)
        }),
{
    let head = domain_bytes(AddrKind::Packet, domain, port);
    let body = port_bytes(data.len() as u16) + data + rest;
    let wire = head + port_bytes(data.len() as u16) + data + rest;
    assert(wire =~= head + body);
    law_domain_is_read_back(AddrKind::Packet, domain, port, body);
    assert(wire.skip(head.len() as int) =~= body);
    lemma_body_read(false, Some(found), data, rest);
    assert(body =~= buffer::be16((data.len() % 65536) as u16) + data + rest);
}

/// A payload of `len` bytes is waited for until all of it is there, an empty one is dropped with
/// its length, and on a connected socket no address is read.
pub proof fn law_payloads_are_waited_for(
    is_connect: bool,
    dest: Option<(crate::proxy_core::ip::IpView, u16)>,
    len: u16,
    part: Seq<u8>,
)
    requires
        is_connect || dest is Some,
    ensures
        part.len() < len ==> input_action(is_connect, dest, port_bytes(len) + part)
            == InputActionView::Need(len as nat + 2),
        len == 0 ==> input_action(is_connect, dest, port_bytes(len) + part)
            == InputActionView::Skip(2),
        0 < len <= part.len() ==> input_action(is_connect, dest, port_bytes(len) + part)
            == InputActionView::Send(
            if is_connect {
                None
            } else {
                dest
            },
            part.take(len as int),
            len as nat + 2,
        ),
{
    let b = port_bytes(len) + part;
    assert(b[0] == port_bytes(len)[0] && b[1] == port_bytes(len)[1]);
    if 0 < len <= part.len() {
        assert(b.subrange(2, 2 + len as int) =~= part.take(len as int));
    }
}

/// Only the two magic hosts carry datagrams, in any case.
pub proof fn law_magic_hosts(host: Seq<char>)
    ensures
        uot_version(host) == Some(UotVersion::V2) <==> text::ascii_lower(host)
            == "sp.v2.udp-over-tcp.arpa"@,
        uot_version(host) == Some(UotVersion::V1) <==> text::ascii_lower(host)
            == "sp.udp-over-tcp.arpa"@,
{
    reveal_strlit("sp.v2.udp-over-tcp.arpa");
    reveal_strlit("sp.udp-over-tcp.arpa");
    assert(text::ascii_lower("sp.v2.udp-over-tcp.arpa"@) =~= "sp.v2.udp-over-tcp.arpa"@);
    assert(text::ascii_lower("sp.udp-over-tcp.arpa"@) =~= "sp.udp-over-tcp.arpa"@);
    assert("sp.v2.udp-over-tcp.arpa"@.len() != "sp.udp-over-tcp.arpa"@.len());
}

/// A loop goes on exactly while its turns are done, and the other loop keeps running until it has
/// a turn of its own.
pub proof fn law_loops_run_while_turns_are_done(st: UotStream, e: UotLoopEvent)
    ensures
        ({
            let (next, step) = next_turn(st, UotTurn::Input(e));
            &&& next.output_runs == st.output_runs
            &&& next.input_runs == (st.input_runs && e == UotLoopEvent::Done)
            &&& step.action == UotAction::Continue <==> next.input_runs
            &&& step.signal ==> next.signalled
            &&& step.action != UotAction::Shutdown
        }),
        ({
            let (next, step) = next_turn(st, UotTurn::Output(e));
            &&& next.input_runs == st.input_runs
            &&& next.output_runs == (st.output_runs && e == UotLoopEvent::Done)
            &&& step.action == UotAction::Continue <==> next.output_runs
            &&& step.signal ==> next.signalled
            &&& step.action == UotAction::Shutdown <==> st.output_runs && !next.output_runs
        }),
        st.signalled ==> next_turn(st, UotTurn::Input(e)).0.signalled && next_turn(
            st,
            UotTurn::Output(e),
        ).0.signalled,
        st.input_runs && (e == UotLoopEvent::Failed || e == UotLoopEvent::Cancelled) ==> next_turn(
            st,
            UotTurn::Input(e),
        ).1.signal,
        st.output_runs && (e == UotLoopEvent::Failed || e == UotLoopEvent::Cancelled) ==> next_turn(
            st,
            UotTurn::Output(e),
        ).1.signal,
{
}

/// A request is read back whole, with a domain as with an IP address, whatever follows it: whether
/// the socket is to be connected, where to if it is, and exactly the bytes that it took. Version 1
/// has none and takes nothing.
pub proof fn law_requests_are_read_back(
    flag: u8,
    domain: Seq<u8>,
    a: crate::proxy_core::ip::IpView,
    port: u16,
    rest: Seq<u8>,
)
    requires
        domain.len() <= 255,
        vstd::utf8::valid_utf8(domain),
        target_fits((a, port)),
    ensures
        ({
            let wire = domain_bytes(AddrKind::Request, domain, port);
            request_read(UotVersion::V2, seq![flag] + wire + rest) == RequestReadView::Ready(
                flag != 0,
                if flag != 0 {
                    Some((vstd::utf8::decode_utf8(domain), port))
                } else {
                    None
                },
                wire.len() + 1,
            )
        }),
        ({
            let wire = ip_bytes(AddrKind::Request, a, port);
            request_read(UotVersion::V2, seq![flag] + wire + rest) == RequestReadView::Ready(
                flag != 0,
                if flag != 0 {
                    Some((crate::proxy_core::ip::ip_text(a), port))
                } else {
                    None
                },
                wire.len() + 1,
            )
        }),
        request_read(UotVersion::V1, rest) == RequestReadView::Ready(false, None, 0),
{
    law_domain_is_read_back(AddrKind::Request, domain, port, rest);
    law_ip_is_read_back(AddrKind::Request, a, port, rest);
    let d = domain_bytes(AddrKind::Request, domain, port);
    let i = ip_bytes(AddrKind::Request, a, port);
    assert((seq![flag] + d + rest).skip(1) =~= d + rest);
    assert((seq![flag] + i + rest).skip(1) =~= i + rest);
}

/// While a request has not come in whole, more bytes are asked for than there are, and never more
/// than it takes.
pub proof fn law_part_of_a_request_waits(b: Seq<u8>, n: int)
    requires
        request_read(UotVersion::V2, b) is Ready,
        0 <= n < request_read(UotVersion::V2, b)->Ready_2,
    ensures
        request_read(UotVersion::V2, b)->Ready_2 <= b.len(),
        request_read(UotVersion::V2, b.take(n)) matches RequestReadView::Need(m) && n < m
            <= request_read(UotVersion::V2, b)->Ready_2,
{
    if n > 0 {
        assert(b.take(n).skip(1) =~= b.skip(1).take(n - 1));
        law_part_of_an_address_waits(AddrKind::Request, b.skip(1), n - 1);
    } else {
        law_part_of_an_address_waits(AddrKind::Request, b.skip(1), 0);
    }
}

} // verus!
