//! How the HTTP/2 server is set up.

use crate::config::ServerConfig;
use crate::text;
use crate::time::Duration;
use vstd::prelude::*;

verus! {

/// Seconds of silence before the first keepalive probe.
pub const TCP_KEEPALIVE_IDLE_SECS: u64 = 15;

/// Seconds between keepalive probes.
pub const TCP_KEEPALIVE_INTERVAL_SECS: u64 = 15;

/// Keepalive probes that may go unanswered.
pub const TCP_KEEPALIVE_COUNT: usize = 3;

/// Seconds that connections get to end by themselves at shutdown.
pub const GRACE_PERIOD_SECONDS: u64 = 10;

/// Seconds that the rest gets after that.
pub const GRACEFUL_SHUTDOWN_TIMEOUT_SECONDS: u64 = 5;

/// What is kept for a request between callbacks: nothing.
pub struct NaiveCtx;

/// Keepalive of accepted connections.
#[derive(Debug, Clone, Copy, PartialEq, Eq, Structural)]
pub struct TcpKeepalive {
    pub idle: Duration,
    pub interval: Duration,
    pub count: usize,
    /// How long sent bytes may go unacknowledged.
    pub user_timeout: Duration,
}

/// The options of accepted sockets.
#[derive(Debug, Clone, Copy, PartialEq, Eq, Structural)]
pub struct TcpSockOpts {
    pub tcp_keepalive: Option<TcpKeepalive>,
}

/// The options of accepted sockets: keepalive is on, and a dead peer is given up when its last
/// probe has gone unanswered.
pub fn make_tcp_sock_opts() -> (r: TcpSockOpts)
    ensures
        r.tcp_keepalive matches Some(k) && k.idle.secs == TCP_KEEPALIVE_IDLE_SECS && k.interval.secs
            == TCP_KEEPALIVE_INTERVAL_SECS && k.count == TCP_KEEPALIVE_COUNT && k.user_timeout.secs
            == TCP_KEEPALIVE_IDLE_SECS + TCP_KEEPALIVE_INTERVAL_SECS * TCP_KEEPALIVE_COUNT
            && k.idle.nanos == 0 && k.interval.nanos == 0 && k.user_timeout.nanos == 0,
{
    TcpSockOpts {
        tcp_keepalive: Some(
            TcpKeepalive {
                idle: Duration::from_secs(TCP_KEEPALIVE_IDLE_SECS),
                interval: Duration::from_secs(TCP_KEEPALIVE_INTERVAL_SECS),
                count: TCP_KEEPALIVE_COUNT,
                user_timeout: Duration::from_secs(
                    TCP_KEEPALIVE_IDLE_SECS + TCP_KEEPALIVE_INTERVAL_SECS
                        * TCP_KEEPALIVE_COUNT as u64,
                ),
            },
        ),
    }
}

/// Why the HTTP/2 server cannot be set up.
#[derive(Debug, Clone, Copy, PartialEq, Eq, Structural)]
pub enum H2SetupError {
    CertRequired,
    KeyRequired,
}

/// Where the HTTP/2 server listens, and its certificate and key files.
#[derive(Debug)]
pub struct H2Setup {
    pub bind_addr: String,
    pub cert_path: String,
    pub key_path: String,
}

/// Where the HTTP/2 server listens: all addresses of both IP versions.
pub open spec fn h2_bind_addr(port: u16) -> Seq<char> {
    "[::]:"@ + text::decimal_text(port as nat)
}

/// Sets the HTTP/2 server up; a certificate and a key are required.
pub fn h2_setup(config: &ServerConfig) -> (r: Result<H2Setup, H2SetupError>)
    ensures
        match (config.cert, config.key) {
            (None, _) => r matches Err(e) && e == H2SetupError::CertRequired,
            (Some(_), None) => r matches Err(e) && e == H2SetupError::KeyRequired,
            (Some(c), Some(k)) => r matches Ok(s) && s.cert_path@ == c@ && s.key_path@ == k@
                && s.bind_addr@ == h2_bind_addr(config.port),
        },
{
    let cert_path: String = match &config.cert {
        Some(c) => c.clone(),
        None => {
            return Err(H2SetupError::CertRequired);
        },
    };
    let key_path: String = match &config.key {
        Some(k) => k.clone(),
        None => {
            return Err(H2SetupError::KeyRequired);
        },
    };
    let mut addr: Vec<char> = text::chars_of("[::]:");
    text::push_number(&mut addr, config.port as u64, 10);
    Ok(H2Setup { bind_addr: text::string_of(addr.as_slice()), cert_path, key_path })
}

impl H2SetupError {
    /// The text of the error.
    pub fn as_str(&self) -> (r: &'static str)
        ensures
            r@ == (match self {
                H2SetupError::CertRequired => "cert required for H2 backend"@,
                H2SetupError::KeyRequired => "key required for H2 backend"@,
            }),
    {
        match self {
            H2SetupError::CertRequired => "cert required for H2 backend",
            H2SetupError::KeyRequired => "key required for H2 backend",
        }
    }
}

/// Where the HTTP/2 server listens is an authority: the address of all zeros, and the port.
pub proof fn law_bind_address_is_any_and_the_port(port: u16)
    ensures
        crate::proxy_core::address::authority_value(h2_bind_addr(port)) == Some(
            crate::proxy_core::address::AddressView::IPv6(Seq::new(16, |i: int| 0u8), port),
        ),
{
    let none = Seq::<Seq<char>>::empty();
    let o = seq![0u8, 0, 0, 0];
    let host = seq![':', ':'];
    let p = text::decimal_text(port as nat);
    crate::proxy_core::ip::law_ipv6_is_read_in_short(none, none, o);
    let empty = crate::proxy_core::ip::join(none, ':');
    assert(empty + seq![':', ':'] + empty =~= host);
    let g = crate::proxy_core::ip::group_numbers(none) + crate::proxy_core::ip::zeros(8)
        + crate::proxy_core::ip::group_numbers(none);
    assert(g =~= crate::proxy_core::ip::zeros(8));
    assert(crate::proxy_core::address::octets_of(g) =~= Seq::new(16, |i: int| 0u8));
    reveal_strlit("[::]:");
    assert(h2_bind_addr(port) =~= seq!['['] + host + seq![']', ':'] + p);
    crate::proxy_core::address::law_bracketed_authority(host, Seq::empty(), p);
    text::law_number_texts_are_read(port as nat, Seq::empty(), 65535);
    assert(Seq::<char>::empty() + p =~= p);
    text::lemma_decimal_text(port as nat);
    assert(text::is_digit(p[0]) && text::is_digit(p[p.len() - 1]));
    text::lemma_trimmed_id(p);
}

} // verus!
