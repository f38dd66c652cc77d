//! How a server is set up, and what its accept loops do.

use crate::config::{extension, is_acl_extension, CongestionControl, ConnConfig, ServerConfig};
use crate::proxy_core::ip::{IpAddr, SocketAddr};
use crate::text;
use crate::time::Duration;
use vstd::prelude::*;

verus! {

/// Keepalive of accepted connections, in seconds.
pub const TCP_KEEPALIVE_SECS: u64 = 15;

/// Initial flow-control window of an HTTP/2 stream.
pub const H2_INITIAL_WINDOW_SIZE: u32 = 1_048_576;

/// Initial flow-control window of an HTTP/2 connection.
pub const H2_INITIAL_CONN_WINDOW_SIZE: u32 = 2_097_152;

/// Seconds between HTTP/2 pings.
pub const H2_KEEPALIVE_INTERVAL_SECS: u64 = 20;

/// Seconds that the answer to an HTTP/2 ping may take.
pub const H2_KEEPALIVE_TIMEOUT_SECS: u64 = 15;

/// Whether HTTP/3 servers say that extended CONNECT is on: clients that follow the protocol
/// strictly open further tunnels only then.
pub const H3_EXTENDED_CONNECT: bool = true;

/// Seconds between QUIC pings.
pub const QUIC_KEEPALIVE_INTERVAL_SECS: u64 = 20;

/// Seconds of silence after which a QUIC connection ends.
pub const QUIC_MAX_IDLE_TIMEOUT_SECS: u64 = 120;

/// Round-trip time assumed of a new QUIC connection, in milliseconds.
pub const QUIC_INITIAL_RTT_MS: u64 = 100;

/// Which router a server gets.
#[derive(Debug, Clone, Copy, PartialEq, Eq, Structural)]
pub enum RouterKind {
    /// One that follows the rules of the ACL file.
    Acl,
    /// One that routes everything directly.
    Direct,
}

/// Why a server gets no router.
#[derive(Debug, Clone, Copy, PartialEq, Eq, Structural)]
pub enum RouterError {
    /// The ACL file does not exist.
    AclFileMissing,
    /// The ACL file's extension is neither `yaml` nor `yml`.
    AclFileFormat,
}

/// Which router a server gets, given the path of its ACL file and whether that exists.
pub open spec fn router_choice(path: Option<Seq<char>>, acl_exists: bool) -> Result<
    RouterKind,
    RouterError,
> {
    match path {
        None => Ok(RouterKind::Direct),
        Some(p) => if !acl_exists {
            Err(RouterError::AclFileMissing)
        } else if crate::config::acl_extension(crate::config::path_extension(p)) {
            Ok(RouterKind::Acl)
        } else {
            Err(RouterError::AclFileFormat)
        },
    }
}

/// Which router a server gets, given whether its ACL file exists.
pub fn choose_router(config: &ServerConfig, acl_exists: bool) -> (r: Result<
    RouterKind,
    RouterError,
>)
    ensures
        r == router_choice(crate::acl::text_view(config.acl_conf_file), acl_exists),
        r == (if config.acl_conf_file is None {
            Ok::<RouterKind, RouterError>(RouterKind::Direct)
        } else if !acl_exists {
            Err(RouterError::AclFileMissing)
        } else if !crate::config::acl_extension(
            crate::config::path_extension(crate::config::opt_text(config.acl_conf_file)),
        ) {
            Err(RouterError::AclFileFormat)
        } else {
            Ok(RouterKind::Acl)
        }),
{
    match &config.acl_conf_file {
        None => Ok(RouterKind::Direct),
        Some(path) => {
            if !acl_exists {
                return Err(RouterError::AclFileMissing);
            }
            if !is_acl_extension(extension(path.as_str()).as_str()) {
                return Err(RouterError::AclFileFormat);
            }
            Ok(RouterKind::Acl)
        },
    }
}

impl RouterError {
    /// The text of the error about the ACL file's path.
    pub fn describe(&self, path: &str) -> (r: String)
        ensures
            r@ == (match self {
                RouterError::AclFileMissing => "ACL config file not found: "@ + path@,
                RouterError::AclFileFormat =>
                    "Invalid ACL config file format: expected .yaml or .yml"@,
            }),
    {
        match self {
            RouterError::AclFileMissing => text::concat("ACL config file not found: ", path),
            RouterError::AclFileFormat => text::owned(
                "Invalid ACL config file format: expected .yaml or .yml",
            ),
        }
    }
}

/// The settings of QUIC connections.
#[derive(Debug, Clone, Copy, PartialEq, Eq, Structural)]
pub struct TransportConfig {
    pub keep_alive_interval: Duration,
    pub max_idle_timeout: Duration,
    pub initial_rtt: Duration,
    pub congestion_control: CongestionControl,
}

/// The settings of QUIC connections: pings come well before the idle timeout, and the algorithm
/// is the one asked for.
pub fn make_transport_config(cc: &CongestionControl) -> (r: TransportConfig)
    ensures
        r.keep_alive_interval == (Duration { secs: QUIC_KEEPALIVE_INTERVAL_SECS, nanos: 0 }),
        r.max_idle_timeout == (Duration { secs: QUIC_MAX_IDLE_TIMEOUT_SECS, nanos: 0 }),
        r.initial_rtt == (Duration { secs: 0, nanos: 100_000_000 }),
        r.congestion_control == *cc,
        r.keep_alive_interval.secs < r.max_idle_timeout.secs,
{
    TransportConfig {
        keep_alive_interval: Duration::from_secs(QUIC_KEEPALIVE_INTERVAL_SECS),
        max_idle_timeout: Duration::from_secs(QUIC_MAX_IDLE_TIMEOUT_SECS),
        initial_rtt: Duration::from_millis(QUIC_INITIAL_RTT_MS),
        congestion_control: *cc,
    }
}

/// How many connections are served at once; none where there is no limit.
pub fn connection_limit(max_connections: usize) -> (r: Option<usize>)
    ensures
        r == (if max_connections > 0 {
            Some(max_connections)
        } else {
            None
        }),
{
    if max_connections > 0 {
        Some(max_connections)
    } else {
        None
    }
}

/// The addresses that a QUIC server tries to bind, in order: all of IPv6, which takes IPv4 in
/// too, then all of IPv4.
pub fn bind_candidates(port: u16) -> (r: Vec<SocketAddr>)
    ensures
        r@.len() == 2,
        r@[0].port == port && r@[1].port == port,
        r@[0].ip matches IpAddr::V6(o) && forall|i: int| 0 <= i < 16 ==> #[trigger] o@[i] == 0,
        r@[1].ip matches IpAddr::V4(o) && forall|i: int| 0 <= i < 4 ==> #[trigger] o@[i] == 0,
{
    let mut out: Vec<SocketAddr> = Vec::new();
    out.push(SocketAddr { ip: IpAddr::V6([0; 16]), port });
    out.push(SocketAddr { ip: IpAddr::V4([0; 4]), port });
    out
}

/// How accepting a connection went.
#[derive(Debug, Clone, Copy, PartialEq, Eq, Structural)]
pub enum AcceptEvent {
    /// A connection came in.
    Accepted,
    /// An error of no particular kind.
    FailedOther,
    /// An error of a particular kind.
    FailedKnown,
    /// The limit of connections is closed.
    LimiterClosed,
}

/// What the accept loop does.
#[derive(Debug, Clone, Copy, PartialEq, Eq, Structural)]
pub enum AcceptNext {
    /// Serve the connection, and accept the next.
    Serve,
    /// Accept the next.
    Continue,
    /// End.
    Stop,
}

/// What the accept loop does: only an error of no particular kind, or the closed limit, ends it.
pub fn after_accept(event: AcceptEvent) -> (r: AcceptNext)
    ensures
        r == (match event {
            AcceptEvent::Accepted => AcceptNext::Serve,
            AcceptEvent::FailedKnown => AcceptNext::Continue,
            AcceptEvent::FailedOther => AcceptNext::Stop,
            AcceptEvent::LimiterClosed => AcceptNext::Stop,
        }),
{
    match event {
        AcceptEvent::Accepted => AcceptNext::Serve,
        AcceptEvent::FailedKnown => AcceptNext::Continue,
        AcceptEvent::FailedOther => AcceptNext::Stop,
        AcceptEvent::LimiterClosed => AcceptNext::Stop,
    }
}

/// How an HTTP/2 ping went.
#[derive(Debug, Clone, Copy, PartialEq, Eq, Structural)]
pub enum PingEvent {
    /// It was answered.
    Answered,
    /// It failed.
    Failed,
    /// It was not answered in time.
    TimedOut,
}

/// What the ping loop does.
#[derive(Debug, Clone, Copy, PartialEq, Eq, Structural)]
pub enum PingNext {
    /// Ping again after the interval.
    Continue,
    /// End: the peer is gone.
    Stop,
}

/// What the ping loop does: only an answer keeps it going.
pub fn after_ping(event: PingEvent) -> (r: PingNext)
    ensures
        r == (match event {
            PingEvent::Answered => PingNext::Continue,
            PingEvent::Failed => PingNext::Stop,
            PingEvent::TimedOut => PingNext::Stop,
        }),
{
    match event {
        PingEvent::Answered => PingNext::Continue,
        PingEvent::Failed => PingNext::Stop,
        PingEvent::TimedOut => PingNext::Stop,
    }
}

/// How far a connection has come.
#[derive(Debug, Clone, Copy, PartialEq, Eq, Structural)]
pub enum ConnStage {
    /// The TLS or QUIC handshake.
    Tls,
    /// The HTTP/2 or HTTP/3 handshake.
    Http,
    /// Streams are served.
    Streams,
    /// Nothing more is done.
    Closed,
}

/// What happened on a connection.
#[derive(Debug, Clone, Copy, PartialEq, Eq, Structural)]
pub enum ConnEvent {
    /// The handshake is done, or a stream was opened.
    Ready,
    /// The handshake or the connection failed, or the connection has ended.
    Failed,
    /// The handshake took too long.
    TimedOut,
}

/// How far a connection is after an event: each handshake leads to the next stage, and anything
/// else closes the connection.
pub open spec fn stage_after(stage: ConnStage, event: ConnEvent) -> ConnStage {
    match (stage, event) {
        (ConnStage::Tls, ConnEvent::Ready) => ConnStage::Http,
        (ConnStage::Http, ConnEvent::Ready) => ConnStage::Streams,
        (ConnStage::Streams, ConnEvent::Ready) => ConnStage::Streams,
        _ => ConnStage::Closed,
    }
}

/// How far a connection is after an event.
pub fn next_stage(stage: ConnStage, event: ConnEvent) -> (r: ConnStage)
    ensures
        r == stage_after(stage, event),
{
    match (stage, event) {
        (ConnStage::Tls, ConnEvent::Ready) => ConnStage::Http,
        (ConnStage::Http, ConnEvent::Ready) => ConnStage::Streams,
        (ConnStage::Streams, ConnEvent::Ready) => ConnStage::Streams,
        _ => ConnStage::Closed,
    }
}

/// How long a stage may take; none where it may take any time.
pub open spec fn stage_limit(stage: ConnStage, config: ConnConfig) -> Option<Duration> {
    match stage {
        ConnStage::Tls => Some(config.tls_handshake_timeout),
        ConnStage::Http => Some(config.request_timeout),
        ConnStage::Streams => None,
        ConnStage::Closed => None,
    }
}

/// How long a stage may take.
pub fn stage_timeout(stage: ConnStage, config: &ConnConfig) -> (r: Option<Duration>)
    ensures
        r == stage_limit(stage, *config),
{
    match stage {
        ConnStage::Tls => Some(config.tls_handshake_timeout),
        ConnStage::Http => Some(config.request_timeout),
        ConnStage::Streams => None,
        ConnStage::Closed => None,
    }
}

/// A silent client cannot hold a connection open before it is served: every handshake has a
/// limit, and passing it closes the connection.
pub proof fn law_handshakes_are_limited(stage: ConnStage, config: ConnConfig)
    requires
        stage == ConnStage::Tls || stage == ConnStage::Http,
    ensures
        stage_limit(stage, config) is Some,
        stage_after(stage, ConnEvent::TimedOut) == ConnStage::Closed,
{
}

/// A connection comes to its streams by two handshakes, TLS before HTTP, and stays there as long
/// as streams come; anything else closes it, and a closed one stays closed.
pub proof fn law_connections_go_through_their_stages(stage: ConnStage, event: ConnEvent)
    ensures
        event != ConnEvent::Ready ==> stage_after(stage, event) == ConnStage::Closed,
        stage_after(ConnStage::Closed, event) == ConnStage::Closed,
        stage_after(stage_after(ConnStage::Tls, ConnEvent::Ready), ConnEvent::Ready)
            == ConnStage::Streams,
        stage_after(ConnStage::Tls, ConnEvent::Ready) == ConnStage::Http,
        stage_after(ConnStage::Streams, ConnEvent::Ready) == ConnStage::Streams,
{
}

/// The TLS handshake has its own limit, the HTTP handshake that of requests, and streams have
/// none.
pub proof fn law_each_stage_has_its_limit(config: ConnConfig)
    ensures
        stage_limit(ConnStage::Tls, config) == Some(config.tls_handshake_timeout),
        stage_limit(ConnStage::Http, config) == Some(config.request_timeout),
        stage_limit(ConnStage::Streams, config) is None,
        stage_limit(ConnStage::Closed, config) is None,
{
}

/// Everything is routed directly if and only if no ACL file is named; one that is named is used
/// where it exists and is YAML by its extension, and is an error otherwise, never passed over.
pub proof fn law_named_rules_are_not_passed_over(path: Option<Seq<char>>, acl_exists: bool)
    ensures
        router_choice(path, acl_exists) == Ok::<_, RouterError>(RouterKind::Direct) <==> path
            is None,
        path matches Some(p) ==> {
            let ext = text::ascii_lower(crate::config::path_extension(p));
            &&& router_choice(path, acl_exists) == Ok::<_, RouterError>(RouterKind::Acl)
                <==> acl_exists && (ext == "yaml"@ || ext == "yml"@)
            &&& router_choice(path, acl_exists) == Err::<RouterKind, _>(RouterError::AclFileMissing)
                <==> !acl_exists
        },
{
    if let Some(p) = path {
        crate::config::law_acl_files_are_yaml(crate::config::path_extension(p));
    }
}

} // verus!
