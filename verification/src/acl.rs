//! Rule-based routing: outbounds, the rules that pick one, and the router.
//!
//! An outbound is a direct connection, a SOCKS5 proxy, an HTTP proxy or a rejection. The rules
//! name outbounds; traffic that no rule matches takes the outbound `direct`.

use crate::proxy_core::address::Address;
use crate::proxy_core::dns::{check_private_and_resolve, DnsError};
use crate::proxy_core::hooks::OutboundType;
use crate::proxy_core::ip::{self, IpAddr};
use crate::text;
use std::sync::Arc;
use vstd::prelude::*;

verus! {

/// Keepalive of a direct outbound that sets none, in seconds.
pub const DEFAULT_TCP_KEEPALIVE_SECS: u64 = 60;

/// Size of the cache of rule matches.
pub const RULE_CACHE_SIZE: usize = 4096;

/// Size of that cache where there are no rules but the default one.
pub const DEFAULT_RULE_CACHE_SIZE: usize = 1024;

/// The rule used where none is given.
pub const DEFAULT_RULE: &'static str = "direct(all)";

/// Outbounds and rules.
#[derive(Debug)]
pub struct AclConfig {
    pub outbounds: Vec<OutboundEntry>,
    pub acl: AclRules,
}

/// Rules in order.
#[derive(Debug)]
pub struct AclRules {
    pub inline: Vec<String>,
}

/// One outbound as it is configured.
#[derive(Debug)]
pub struct OutboundEntry {
    pub name: String,
    pub outbound_type: String,
    pub socks5: Option<Socks5Config>,
    pub http: Option<HttpConfig>,
    pub direct: Option<DirectConfig>,
}

/// Settings of a SOCKS5 outbound.
#[derive(Debug)]
pub struct Socks5Config {
    pub addr: String,
    pub username: Option<String>,
    pub password: Option<String>,
    pub allow_udp: bool,
}

/// Settings of an HTTP outbound.
#[derive(Debug)]
pub struct HttpConfig {
    pub addr: String,
    pub username: Option<String>,
    pub password: Option<String>,
    pub https: bool,
}

/// Settings of a direct outbound.
#[derive(Debug)]
pub struct DirectConfig {
    pub mode: String,
    pub bind_ipv4: Option<String>,
    pub bind_ipv6: Option<String>,
    pub bind_device: Option<String>,
    pub fast_open: bool,
    pub tcp_nodelay: bool,
    /// Seconds; zero turns keepalive off.
    pub tcp_keepalive_secs: u64,
    /// Seconds; zero leaves the built-in timeout.
    pub connect_timeout_secs: u64,
}

impl Default for DirectConfig {
    fn default() -> (r: Self)
        ensures
            settings(Some(r)) == default_settings(),
    {
        DirectConfig {
            mode: text::owned("auto"),
            bind_ipv4: None,
            bind_ipv6: None,
            bind_device: None,
            fast_open: false,
            tcp_nodelay: true,
            tcp_keepalive_secs: DEFAULT_TCP_KEEPALIVE_SECS,
            connect_timeout_secs: 0,
        }
    }
}

/// Which address families a direct outbound uses.
#[derive(Debug, Clone, Copy, PartialEq, Eq, Structural)]
pub enum DirectMode {
    Auto,
    Only4,
    Only6,
    Prefer46,
    Prefer64,
}

/// The family choice that a mode names.
pub open spec fn direct_mode(mode: Seq<char>) -> Option<DirectMode> {
    if mode == "auto"@ {
        Some(DirectMode::Auto)
    } else if mode == "4"@ || mode == "only4"@ {
        Some(DirectMode::Only4)
    } else if mode == "6"@ || mode == "only6"@ {
        Some(DirectMode::Only6)
    } else if mode == "prefer4"@ || mode == "46"@ {
        Some(DirectMode::Prefer46)
    } else if mode == "prefer6"@ || mode == "64"@ {
        Some(DirectMode::Prefer64)
    } else {
        None
    }
}

impl DirectMode {
    /// Reads the name of a mode.
    pub fn parse(mode: &str) -> (r: Option<DirectMode>)
        ensures
            r == direct_mode(mode@),
    {
        if text::same_text(mode, "auto") {
            Some(DirectMode::Auto)
        } else if text::same_text(mode, "4") || text::same_text(mode, "only4") {
            Some(DirectMode::Only4)
        } else if text::same_text(mode, "6") || text::same_text(mode, "only6") {
            Some(DirectMode::Only6)
        } else if text::same_text(mode, "prefer4") || text::same_text(mode, "46") {
            Some(DirectMode::Prefer46)
        } else if text::same_text(mode, "prefer6") || text::same_text(mode, "64") {
            Some(DirectMode::Prefer64)
        } else {
            None
        }
    }
}

/// The options of a direct connection.
pub struct DirectOptions {
    pub mode: DirectMode,
    pub bind_ip4: Option<[u8; 4]>,
    pub bind_ip6: Option<[u8; 16]>,
    pub bind_device: Option<String>,
    pub fast_open: bool,
    pub timeout_secs: Option<u64>,
    pub tcp_nodelay: bool,
    pub tcp_keepalive_secs: Option<u64>,
}

/// An outbound that is ready for use.
pub enum OutboundHandler {
    /// A direct connection; `custom_dial` says whether its options need a dialer of their own.
    Direct { options: DirectOptions, custom_dial: bool },
    /// A SOCKS5 proxy, with the user name and password if both are set.
    Socks5 { addr: String, auth: Option<(String, String)>, allow_udp: bool },
    /// An HTTP proxy, over TLS or not.
    Http { addr: String, https: bool, auth: Option<(String, String)> },
    /// A rejection.
    Reject,
}

/// What a direct outbound does.
pub struct DirectView {
    pub mode: DirectMode,
    pub bind_ip4: Option<Seq<u8>>,
    pub bind_ip6: Option<Seq<u8>>,
    pub bind_device: Option<Seq<char>>,
    pub fast_open: bool,
    pub timeout_secs: Option<u64>,
    pub tcp_nodelay: bool,
    pub tcp_keepalive_secs: Option<u64>,
}

/// What an outbound does.
pub enum HandlerView {
    Direct { options: DirectView, custom_dial: bool },
    Socks5 { addr: Seq<char>, auth: Option<(Seq<char>, Seq<char>)>, allow_udp: bool },
    Http { addr: Seq<char>, https: bool, auth: Option<(Seq<char>, Seq<char>)> },
    Reject,
}

/// The contents of an optional text.
pub open spec fn text_view(t: Option<String>) -> Option<Seq<char>> {
    match t {
        Some(s) => Some(s@),
        None => None,
    }
}

/// The contents of an optional pair of texts.
pub open spec fn auth_view(a: Option<(String, String)>) -> Option<(Seq<char>, Seq<char>)> {
    match a {
        Some(p) => Some((p.0@, p.1@)),
        None => None,
    }
}

impl View for DirectOptions {
    type V = DirectView;

    open spec fn view(&self) -> DirectView {
        DirectView {
            mode: self.mode,
            bind_ip4: match self.bind_ip4 {
                Some(o) => Some(o@),
                None => None,
            },
            bind_ip6: match self.bind_ip6 {
                Some(o) => Some(o@),
                None => None,
            },
            bind_device: text_view(self.bind_device),
            fast_open: self.fast_open,
            timeout_secs: self.timeout_secs,
            tcp_nodelay: self.tcp_nodelay,
            tcp_keepalive_secs: self.tcp_keepalive_secs,
        }
    }
}

impl View for OutboundHandler {
    type V = HandlerView;

    open spec fn view(&self) -> HandlerView {
        match self {
            OutboundHandler::Direct { options, custom_dial } => HandlerView::Direct {
                options: options@,
                custom_dial: *custom_dial,
            },
            OutboundHandler::Socks5 { addr, auth, allow_udp } => HandlerView::Socks5 {
                addr: addr@,
                auth: auth_view(*auth),
                allow_udp: *allow_udp,
            },
            OutboundHandler::Http { addr, https, auth } => HandlerView::Http {
                addr: addr@,
                https: *https,
                auth: auth_view(*auth),
            },
            OutboundHandler::Reject => HandlerView::Reject,
        }
    }
}

/// Why an outbound cannot be used.
#[derive(Debug)]
pub enum AclError {
    /// The mode and the outbound's name.
    InvalidMode(String, String),
    /// The text that is no IPv4 address.
    InvalidBindIpv4(String),
    /// The text that is no IPv6 address.
    InvalidBindIpv6(String),
    /// The name of the SOCKS5 outbound that has no settings.
    MissingSocks5(String),
    /// The name of the HTTP outbound that has no settings.
    MissingHttp(String),
    /// The type and the outbound's name.
    UnknownType(String, String),
}

/// Why an outbound cannot be used.
pub enum AclErrorView {
    InvalidMode(Seq<char>, Seq<char>),
    InvalidBindIpv4(Seq<char>),
    InvalidBindIpv6(Seq<char>),
    MissingSocks5(Seq<char>),
    MissingHttp(Seq<char>),
    UnknownType(Seq<char>, Seq<char>),
}

impl View for AclError {
    type V = AclErrorView;

    open spec fn view(&self) -> AclErrorView {
        match self {
            AclError::InvalidMode(m, n) => AclErrorView::InvalidMode(m@, n@),
            AclError::InvalidBindIpv4(t) => AclErrorView::InvalidBindIpv4(t@),
            AclError::InvalidBindIpv6(t) => AclErrorView::InvalidBindIpv6(t@),
            AclError::MissingSocks5(n) => AclErrorView::MissingSocks5(n@),
            AclError::MissingHttp(n) => AclErrorView::MissingHttp(n@),
            AclError::UnknownType(t, n) => AclErrorView::UnknownType(t@, n@),
        }
    }
}

/// The text of an error.
pub open spec fn acl_error_text(e: AclErrorView) -> Seq<char> {
    match e {
        AclErrorView::InvalidMode(mode, name) => "Invalid direct mode '"@ + mode
            + "' for outbound '"@ + name
            + "', valid values: auto, 4, only4, 6, only6, prefer4, 46, prefer6, 64"@,
        AclErrorView::InvalidBindIpv4(t) => "Invalid bindIPv4 '"@ + t
            + "': invalid IPv4 address syntax"@,
        AclErrorView::InvalidBindIpv6(t) => "Invalid bindIPv6 '"@ + t
            + "': invalid IPv6 address syntax"@,
        AclErrorView::MissingSocks5(name) => "socks5 config required for outbound '"@ + name
            + "'"@,
        AclErrorView::MissingHttp(name) => "http config required for outbound '"@ + name + "'"@,
        AclErrorView::UnknownType(t, name) => "Unknown outbound type '"@ + t + "' for outbound '"@
            + name + "'"@,
    }
}

impl AclError {
    /// The text of the error.
    pub fn to_string(&self) -> (r: String)
        ensures
            r@ == acl_error_text(self@),
    {
        match self {
            AclError::InvalidMode(mode, name) => {
                let mut out: Vec<char> = text::chars_of("Invalid direct mode '");
                text::push_text(&mut out, mode.as_str());
                text::push_text(&mut out, "' for outbound '");
                text::push_text(&mut out, name.as_str());
                text::push_text(
                    &mut out,
                    "', valid values: auto, 4, only4, 6, only6, prefer4, 46, prefer6, 64",
                );
                text::string_of(out.as_slice())
            },
            AclError::InvalidBindIpv4(t) => text::concat3(
                "Invalid bindIPv4 '",
                t.as_str(),
                "': invalid IPv4 address syntax",
            ),
            AclError::InvalidBindIpv6(t) => text::concat3(
                "Invalid bindIPv6 '",
                t.as_str(),
                "': invalid IPv6 address syntax",
            ),
            AclError::MissingSocks5(name) => text::concat3(
                "socks5 config required for outbound '",
                name.as_str(),
                "'",
            ),
            AclError::MissingHttp(name) => text::concat3(
                "http config required for outbound '",
                name.as_str(),
                "'",
            ),
            AclError::UnknownType(t, name) => {
                let mut out: Vec<char> = text::chars_of("Unknown outbound type '");
                text::push_text(&mut out, t.as_str());
                text::push_text(&mut out, "' for outbound '");
                text::push_text(&mut out, name.as_str());
                text::push_text(&mut out, "'");
                text::string_of(out.as_slice())
            },
        }
    }
}

/// The settings of a direct outbound.
#[verifier::ext_equal]
pub struct DirectSettings {
    pub mode: Seq<char>,
    pub bind_ipv4: Option<Seq<char>>,
    pub bind_ipv6: Option<Seq<char>>,
    pub bind_device: Option<Seq<char>>,
    pub fast_open: bool,
    pub tcp_nodelay: bool,
    pub tcp_keepalive_secs: u64,
    pub connect_timeout_secs: u64,
}

/// The settings of a direct outbound that sets nothing.
pub open spec fn default_settings() -> DirectSettings {
    DirectSettings {
        mode: "auto"@,
        bind_ipv4: None,
        bind_ipv6: None,
        bind_device: None,
        fast_open: false,
        tcp_nodelay: true,
        tcp_keepalive_secs: DEFAULT_TCP_KEEPALIVE_SECS,
        connect_timeout_secs: 0,
    }
}

/// The settings in force: those given, or the defaults.
pub open spec fn settings(c: Option<DirectConfig>) -> DirectSettings {
    match c {
        None => default_settings(),
        Some(d) => DirectSettings {
            mode: d.mode@,
            bind_ipv4: text_view(d.bind_ipv4),
            bind_ipv6: text_view(d.bind_ipv6),
            bind_device: text_view(d.bind_device),
            fast_open: d.fast_open,
            tcp_nodelay: d.tcp_nodelay,
            tcp_keepalive_secs: d.tcp_keepalive_secs,
            connect_timeout_secs: d.connect_timeout_secs,
        },
    }
}

/// A number of seconds, where zero stands for none.
pub open spec fn some_secs(n: u64) -> Option<u64> {
    if n > 0 {
        Some(n)
    } else {
        None
    }
}

/// Whether the settings hold anything that a bare connect cannot apply.
pub open spec fn needs_dialer(s: DirectSettings) -> bool {
    ||| s.bind_ipv4 is Some
    ||| s.bind_ipv6 is Some
    ||| s.bind_device is Some
    ||| direct_mode(s.mode) != Some(DirectMode::Auto)
    ||| s.fast_open
    ||| !s.tcp_nodelay
    ||| s.tcp_keepalive_secs != DEFAULT_TCP_KEEPALIVE_SECS
    ||| s.connect_timeout_secs > 0
}

/// What a direct outbound's settings come to.
pub open spec fn direct_outcome(name: Seq<char>, s: DirectSettings) -> Result<
    HandlerView,
    AclErrorView,
> {
    if direct_mode(s.mode) is None {
        Err(AclErrorView::InvalidMode(s.mode, name))
    } else if s.bind_ipv4 is Some && ip::ipv4_value(s.bind_ipv4->0) is None {
        Err(AclErrorView::InvalidBindIpv4(s.bind_ipv4->0))
    } else if s.bind_ipv6 is Some && ip::ipv6_value(s.bind_ipv6->0) is None {
        Err(AclErrorView::InvalidBindIpv6(s.bind_ipv6->0))
    } else {
        Ok(
            HandlerView::Direct {
                options: DirectView {
                    mode: direct_mode(s.mode)->0,
                    bind_ip4: match s.bind_ipv4 {
                        Some(t) => ip::ipv4_value(t),
                        None => None,
                    },
                    bind_ip6: match s.bind_ipv6 {
                        Some(t) => Some(
                            crate::proxy_core::address::octets_of(ip::ipv6_value(t)->0),
                        ),
                        None => None,
                    },
                    bind_device: s.bind_device,
                    fast_open: s.fast_open,
                    timeout_secs: some_secs(s.connect_timeout_secs),
                    tcp_nodelay: s.tcp_nodelay,
                    tcp_keepalive_secs: some_secs(s.tcp_keepalive_secs),
                },
                custom_dial: needs_dialer(s),
            },
        )
    }
}

/// The user name and the password, if both are set.
pub open spec fn both(u: Option<String>, p: Option<String>) -> Option<(Seq<char>, Seq<char>)> {
    match (u, p) {
        (Some(a), Some(b)) => Some((a@, b@)),
        _ => None,
    }
}

/// What an outbound's configuration comes to.
pub open spec fn entry_outcome(e: OutboundEntry) -> Result<HandlerView, AclErrorView> {
    if e.outbound_type@ == "direct"@ {
        direct_outcome(e.name@, settings(e.direct))
    } else if e.outbound_type@ == "socks5"@ {
        match e.socks5 {
            None => Err(AclErrorView::MissingSocks5(e.name@)),
            Some(c) => Ok(
                HandlerView::Socks5 {
                    addr: c.addr@,
                    auth: both(c.username, c.password),
                    allow_udp: c.allow_udp,
                },
            ),
        }
    } else if e.outbound_type@ == "http"@ {
        match e.http {
            None => Err(AclErrorView::MissingHttp(e.name@)),
            Some(c) => Ok(
                HandlerView::Http {
                    addr: c.addr@,
                    https: c.https,
                    auth: both(c.username, c.password),
                },
            ),
        }
    } else if e.outbound_type@ == "reject"@ {
        Ok(HandlerView::Reject)
    } else {
        Err(AclErrorView::UnknownType(e.outbound_type@, e.name@))
    }
}

/// The outcome of a fallible step, with its contents in place of its values.
pub open spec fn outcome_view(r: Result<OutboundHandler, AclError>) -> Result<
    HandlerView,
    AclErrorView,
> {
    match r {
        Ok(h) => Ok(h@),
        Err(e) => Err(e@),
    }
}

fn positive(n: u64) -> (r: Option<u64>)
    ensures
        r == some_secs(n),
{
    if n > 0 {
        Some(n)
    } else {
        None
    }
}

fn pair(u: &Option<String>, p: &Option<String>) -> (r: Option<(String, String)>)
    ensures
        auth_view(r) == both(*u, *p),
{
    match (u, p) {
        (Some(a), Some(b)) => Some((a.clone(), b.clone())),
        _ => None,
    }
}

/// A socket that is opened to see whether a bind works.
#[derive(Debug, Clone, PartialEq, Eq)]
pub enum BindProbe {
    Ipv4([u8; 4]),
    Ipv6([u8; 16]),
    Device(String),
}

impl OutboundHandler {
    fn direct_from(name: &String, config: &DirectConfig) -> (r: Result<OutboundHandler, AclError>)
        ensures
            outcome_view(r) == direct_outcome(name@, settings(Some(*config))),
    {
        let mode: DirectMode = match DirectMode::parse(config.mode.as_str()) {
            Some(m) => m,
            None => {
                return Err(AclError::InvalidMode(config.mode.clone(), name.clone()));
            },
        };
        let bind_ip4: Option<[u8; 4]> = match &config.bind_ipv4 {
            None => None,
            Some(t) => match ip::parse_ipv4(text::chars_of(t.as_str()).as_slice()) {
                Some(o) => Some(o),
                None => {
                    return Err(AclError::InvalidBindIpv4(t.clone()));
                },
            },
        };
        let bind_ip6: Option<[u8; 16]> = match &config.bind_ipv6 {
            None => None,
            Some(t) => match ip::parse_ipv6(text::chars_of(t.as_str()).as_slice()) {
                Some(o) => {
                    proof {
                        crate::proxy_core::address::lemma_octets_of_segments(o@);
                    }
                    Some(o)
                },
                None => {
                    return Err(AclError::InvalidBindIpv6(t.clone()));
                },
            },
        };
        let bind_device: Option<String> = match &config.bind_device {
            Some(d) => Some(d.clone()),
            None => None,
        };
        let custom_dial: bool = bind_ip4.is_some() || bind_ip6.is_some() || bind_device.is_some()
            || mode != DirectMode::Auto || config.fast_open || !config.tcp_nodelay
            || config.tcp_keepalive_secs != DEFAULT_TCP_KEEPALIVE_SECS
            || config.connect_timeout_secs > 0;
        let options = DirectOptions {
            mode,
            bind_ip4,
            bind_ip6,
            bind_device,
            fast_open: config.fast_open,
            timeout_secs: positive(config.connect_timeout_secs),
            tcp_nodelay: config.tcp_nodelay,
            tcp_keepalive_secs: positive(config.tcp_keepalive_secs),
        };
        Ok(OutboundHandler::Direct { options, custom_dial })
    }

    /// Makes an outbound from its configuration.
    pub fn from_entry(entry: &OutboundEntry) -> (r: Result<OutboundHandler, AclError>)
        ensures
            outcome_view(r) == entry_outcome(*entry),
    {
        let kind: &str = entry.outbound_type.as_str();
        if text::same_text(kind, "direct") {
            match &entry.direct {
                Some(config) => Self::direct_from(&entry.name, config),
                None => Self::direct_from(&entry.name, &DirectConfig::default()),
            }
        } else if text::same_text(kind, "socks5") {
            match &entry.socks5 {
                None => Err(AclError::MissingSocks5(entry.name.clone())),
                Some(config) => Ok(
                    OutboundHandler::Socks5 {
                        addr: config.addr.clone(),
                        auth: pair(&config.username, &config.password),
                        allow_udp: config.allow_udp,
                    },
                ),
            }
        } else if text::same_text(kind, "http") {
            match &entry.http {
                None => Err(AclError::MissingHttp(entry.name.clone())),
                Some(config) => Ok(
                    OutboundHandler::Http {
                        addr: config.addr.clone(),
                        https: config.https,
                        auth: pair(&config.username, &config.password),
                    },
                ),
            }
        } else if text::same_text(kind, "reject") {
            Ok(OutboundHandler::Reject)
        } else {
            Err(AclError::UnknownType(entry.outbound_type.clone(), entry.name.clone()))
        }
    }

    /// Whether the outbound rejects.
    pub fn is_reject(&self) -> (r: bool)
        ensures
            r == (self@ is Reject),
    {
        match self {
            OutboundHandler::Reject => true,
            _ => false,
        }
    }

    /// Whether the outbound carries UDP.
    pub fn allows_udp(&self) -> (r: bool)
        ensures
            r == (match self@ {
                HandlerView::Direct { .. } => true,
                HandlerView::Socks5 { allow_udp, .. } => allow_udp,
                HandlerView::Http { .. } => false,
                HandlerView::Reject => false,
            }),
    {
        match self {
            OutboundHandler::Direct { options: _, custom_dial: _ } => true,
            OutboundHandler::Socks5 { addr: _, auth: _, allow_udp } => *allow_udp,
            OutboundHandler::Http { addr: _, https: _, auth: _ } => false,
            OutboundHandler::Reject => false,
        }
    }

    /// Whether the outbound is direct and must be dialed through its own options.
    pub fn dials_itself(&self) -> (r: bool)
        ensures
            r == has_own_dialer(self@),
    {
        match self {
            OutboundHandler::Direct { options: _, custom_dial } => *custom_dial,
            _ => false,
        }
    }

    /// The sockets that are opened, in this order, to see whether the outbound's binds work.
    pub fn probes(&self) -> (r: Vec<BindProbe>)
        ensures
            probe_views(r@) == wanted_probes(self@),
    {
        let mut out: Vec<BindProbe> = Vec::new();
        match self {
            OutboundHandler::Direct { options, custom_dial: _ } => {
                if let Some(o) = options.bind_ip4 {
                    out.push(BindProbe::Ipv4(o));
                }
                if let Some(o) = options.bind_ip6 {
                    out.push(BindProbe::Ipv6(o));
                }
                if let Some(d) = &options.bind_device {
                    out.push(BindProbe::Device(d.clone()));
                }
            },
            _ => {},
        }
        assert(probe_views(out@) =~= wanted_probes(self@));
        out
    }

    /// The outbound's kind, as logs show it: no addresses and no credentials.
    pub fn label(&self) -> (r: &'static str)
        ensures
            r@ == handler_label(self@),
    {
        match self {
            OutboundHandler::Direct { options: _, custom_dial: _ } => "Direct",
            OutboundHandler::Socks5 { addr: _, auth: _, allow_udp } => if *allow_udp {
                "Socks5(udp=true)"
            } else {
                "Socks5(udp=false)"
            },
            OutboundHandler::Http { addr: _, https: _, auth: _ } => "Http",
            OutboundHandler::Reject => "Reject",
        }
    }
}

/// The outbound's kind, as logs show it.
pub open spec fn handler_label(h: HandlerView) -> Seq<char> {
    match h {
        HandlerView::Direct { .. } => "Direct"@,
        HandlerView::Socks5 { allow_udp, .. } => if allow_udp {
            "Socks5(udp=true)"@
        } else {
            "Socks5(udp=false)"@
        },
        HandlerView::Http { .. } => "Http"@,
        HandlerView::Reject => "Reject"@,
    }
}

/// What a probe binds to.
pub enum ProbeView {
    Ipv4(Seq<u8>),
    Ipv6(Seq<u8>),
    Device(Seq<char>),
}

impl View for BindProbe {
    type V = ProbeView;

    open spec fn view(&self) -> ProbeView {
        match self {
            BindProbe::Ipv4(o) => ProbeView::Ipv4(o@),
            BindProbe::Ipv6(o) => ProbeView::Ipv6(o@),
            BindProbe::Device(d) => ProbeView::Device(d@),
        }
    }
}

/// The contents of a list of probes.
pub open spec fn probe_views(p: Seq<BindProbe>) -> Seq<ProbeView> {
    p.map_values(|b: BindProbe| b@)
}

/// The probes of an outbound: one for each bind that it sets.
pub open spec fn wanted_probes(h: HandlerView) -> Seq<ProbeView> {
    match h {
        HandlerView::Direct { options, .. } => (match options.bind_ip4 {
            Some(o) => seq![ProbeView::Ipv4(o)],
            None => Seq::empty(),
        }) + (match options.bind_ip6 {
            Some(o) => seq![ProbeView::Ipv6(o)],
            None => Seq::empty(),
        }) + (match options.bind_device {
            Some(d) => seq![ProbeView::Device(d)],
            None => Seq::empty(),
        }),
        _ => Seq::empty(),
    }
}

/// Whether an outbound is direct and must be dialed through its own options.
pub open spec fn has_own_dialer(h: HandlerView) -> bool {
    match h {
        HandlerView::Direct { custom_dial, .. } => custom_dial,
        _ => false,
    }
}

/// A direct outbound without any options.
pub open spec fn plain_direct() -> HandlerView {
    HandlerView::Direct {
        options: DirectView {
            mode: DirectMode::Auto,
            bind_ip4: None,
            bind_ip6: None,
            bind_device: None,
            fast_open: false,
            timeout_secs: None,
            tcp_nodelay: true,
            tcp_keepalive_secs: Some(DEFAULT_TCP_KEEPALIVE_SECS),
        },
        custom_dial: false,
    }
}

/// A direct outbound goes without a dialer of its own exactly if it is a plain one: no option
/// that a bare connect cannot apply is ever lost.
pub proof fn law_dialer_iff_options(name: Seq<char>, s: DirectSettings)
    requires
        direct_outcome(name, s) is Ok,
    ensures
        has_own_dialer(direct_outcome(name, s)->Ok_0) == (direct_outcome(name, s)->Ok_0
            != plain_direct()),
{
}

/// Outbounds by name; a later one takes the place of an earlier one of the same name.
pub struct OutboundTable {
    pub entries: Vec<(String, Arc<OutboundHandler>)>,
}

/// The outbounds that a list of named outbounds holds.
pub open spec fn table_map(entries: Seq<(String, Arc<OutboundHandler>)>) -> Map<
    Seq<char>,
    HandlerView,
>
    decreases entries.len(),
{
    if entries.len() == 0 {
        Map::empty()
    } else {
        table_map(entries.drop_last()).insert(entries.last().0@, (*entries.last().1)@)
    }
}

impl View for OutboundTable {
    type V = Map<Seq<char>, HandlerView>;

    open spec fn view(&self) -> Map<Seq<char>, HandlerView> {
        table_map(self.entries@)
    }
}

impl OutboundTable {
    /// A table without outbounds.
    pub fn new() -> (r: Self)
        ensures
            r@ == Map::<Seq<char>, HandlerView>::empty(),
    {
        OutboundTable { entries: Vec::new() }
    }

    /// Adds an outbound, or replaces the one of that name.
    pub fn insert(&mut self, name: String, handler: OutboundHandler)
        ensures
            final(self)@ == old(self)@.insert(name@, handler@),
    {
        let ghost before = self.entries@;
        self.entries.push((name, Arc::new(handler)));
        assert(self.entries@.drop_last() =~= before);
    }

    /// The outbound of that name.
    pub fn get(&self, name: &str) -> (r: Option<Arc<OutboundHandler>>)
        ensures
            match r {
                Some(h) => self@.contains_key(name@) && self@[name@] == (*h)@,
                None => !self@.contains_key(name@),
            },
    {
        let mut n: usize = self.entries.len();
        assert(self.entries@.take(n as int) =~= self.entries@);
        while n > 0
            invariant
                n <= self.entries@.len(),
                table_map(self.entries@.take(n as int)).contains_key(name@)
                    == self@.contains_key(name@),
                self@.contains_key(name@) ==> table_map(self.entries@.take(n as int))[name@]
                    == self@[name@],
            decreases n,
        {
            let ghost t = self.entries@.take(n as int);
            assert(t.drop_last() =~= self.entries@.take(n - 1));
            assert(t.last() == self.entries@[n - 1]);
            if text::same_text(self.entries[n - 1].0.as_str(), name) {
                return Some(self.entries[n - 1].1.clone());
            }
            n -= 1;
        }
        assert(self.entries@.take(0) =~= Seq::<(String, Arc<OutboundHandler>)>::empty());
        None
    }
}

/// What the first `n` configured outbounds come to: their table, or the first error.
pub open spec fn loaded(entries: Seq<OutboundEntry>, n: nat) -> Result<
    Map<Seq<char>, HandlerView>,
    AclErrorView,
>
    decreases n,
{
    if n == 0 {
        Ok(Map::empty())
    } else {
        match loaded(entries, (n - 1) as nat) {
            Err(e) => Err(e),
            Ok(m) => match entry_outcome(entries[n - 1]) {
                Err(e) => Err(e),
                Ok(h) => Ok(m.insert(entries[n - 1].name@, h)),
            },
        }
    }
}

/// The table with `reject` and `direct` added where they are not configured.
pub open spec fn with_defaults(m: Map<Seq<char>, HandlerView>) -> Map<Seq<char>, HandlerView> {
    let a = if m.contains_key("reject"@) {
        m
    } else {
        m.insert("reject"@, HandlerView::Reject)
    };
    if a.contains_key("direct"@) {
        a
    } else {
        a.insert("direct"@, plain_direct())
    }
}

/// Lines joined by line feeds.
pub open spec fn lines(rules: Seq<String>) -> Seq<char>
    decreases rules.len(),
{
    if rules.len() == 0 {
        Seq::empty()
    } else if rules.len() == 1 {
        rules[0]@
    } else {
        lines(rules.drop_last()) + seq!['\n'] + rules.last()@
    }
}

/// The text of the rules: the default rule where there are none.
pub open spec fn rules_text(rules: Seq<String>) -> Seq<char> {
    if rules.len() == 0 {
        DEFAULT_RULE@
    } else {
        lines(rules)
    }
}

/// The outbounds, and the text and cache size for the rules that pick among them.
pub struct AclEngine {
    pub outbounds: OutboundTable,
    pub rules_text: String,
    pub cache_size: usize,
}

fn direct_handler() -> (r: OutboundHandler)
    ensures
        r@ == plain_direct(),
{
    OutboundHandler::Direct {
        options: DirectOptions {
            mode: DirectMode::Auto,
            bind_ip4: None,
            bind_ip6: None,
            bind_device: None,
            fast_open: false,
            timeout_secs: None,
            tcp_nodelay: true,
            tcp_keepalive_secs: Some(DEFAULT_TCP_KEEPALIVE_SECS),
        },
        custom_dial: false,
    }
}

fn join_lines(rules: &Vec<String>) -> (r: String)
    ensures
        r@ == lines(rules@),
{
    let mut out: Vec<char> = Vec::new();
    let mut i: usize = 0;
    assert(rules@.take(0) =~= Seq::<String>::empty());
    while i < rules.len()
        invariant
            i <= rules@.len(),
            out@ == lines(rules@.take(i as int)),
        decreases rules@.len() - i,
    {
        if i > 0 {
            out.push('\n');
        }
        text::push_text(&mut out, rules[i].as_str());
        proof {
            let t = rules@.take(i + 1);
            assert(t.drop_last() =~= rules@.take(i as int));
            assert(t.last() == rules@[i as int]);
            assert(out@ =~= lines(t));
        }
        i += 1;
    }
    assert(rules@.take(rules@.len() as int) =~= rules@);
    text::string_of(out.as_slice())
}

impl AclEngine {
    /// Loads the configured outbounds, adds `reject` and `direct` where they are missing, and
    /// gathers the rules. The first outbound that cannot be used is the error.
    pub fn new(config: &AclConfig) -> (r: Result<AclEngine, AclError>)
        ensures
            match loaded(config.outbounds@, config.outbounds@.len()) {
                Err(e) => r matches Err(f) && f@ == e,
                Ok(m) => {
                    &&& r matches Ok(engine)
                    &&& engine.outbounds@ == with_defaults(m)
                    &&& engine.rules_text@ == rules_text(config.acl.inline@)
                    &&& engine.cache_size == RULE_CACHE_SIZE
                },
            },
    {
        let mut table = OutboundTable::new();
        let n: usize = config.outbounds.len();
        let mut i: usize = 0;
        while i < n
            invariant
                i <= n,
                n == config.outbounds@.len(),
                loaded(config.outbounds@, i as nat) == Ok::<_, AclErrorView>(table@),
            decreases n - i,
        {
            let entry: &OutboundEntry = &config.outbounds[i];
            match OutboundHandler::from_entry(entry) {
                Ok(h) => {
                    table.insert(entry.name.clone(), h);
                },
                Err(e) => {
                    proof {
                        assert(loaded(config.outbounds@, (i + 1) as nat) == Err::<
                            Map<Seq<char>, HandlerView>,
                            _,
                        >(e@));
                        lemma_error_stays(config.outbounds@, (i + 1) as nat, n as nat);
                    }
                    return Err(e);
                },
            }
            i += 1;
        }
        Self::add_defaults(&mut table);
        let rules: String = if config.acl.inline.len() == 0 {
            text::owned(DEFAULT_RULE)
        } else {
            join_lines(&config.acl.inline)
        };
        Ok(AclEngine { outbounds: table, rules_text: rules, cache_size: RULE_CACHE_SIZE })
    }

    fn add_defaults(table: &mut OutboundTable)
        ensures
            final(table)@ == with_defaults(old(table)@),
    {
        if table.get("reject").is_none() {
            table.insert(
                text::owned("reject"),
                OutboundHandler::Reject,
            );
        }
        if table.get("direct").is_none() {
            table.insert(text::owned("direct"), direct_handler());
        }
    }

    /// An engine without configuration: everything is direct.
    pub fn new_default() -> (r: AclEngine)
        ensures
            r.outbounds@ == with_defaults(Map::empty()),
            r.rules_text@ == DEFAULT_RULE@,
            r.cache_size == DEFAULT_RULE_CACHE_SIZE,
    {
        let mut table = OutboundTable::new();
        Self::add_defaults(&mut table);
        AclEngine {
            outbounds: table,
            rules_text: text::owned(DEFAULT_RULE),
            cache_size: DEFAULT_RULE_CACHE_SIZE,
        }
    }

    /// The outbound for a host, given the name of the outbound of the rule that matched it;
    /// where no rule did, the outbound `direct`.
    pub fn match_host(&self, matched: Option<&str>) -> (r: Option<Arc<OutboundHandler>>)
        ensures
            match r {
                Some(h) => self.outbounds@.contains_key(picked(matched)) && self.outbounds@[picked(
                    matched,
                )] == (*h)@,
                None => !self.outbounds@.contains_key(picked(matched)),
            },
    {
        match matched {
            Some(name) => self.outbounds.get(name),
            None => self.outbounds.get("direct"),
        }
    }
}

/// The name of the outbound that a match picks.
pub open spec fn picked(matched: Option<&str>) -> Seq<char> {
    match matched {
        Some(name) => name@,
        None => "direct"@,
    }
}

/// An error stays the outcome, however many outbounds follow.
proof fn lemma_error_stays(entries: Seq<OutboundEntry>, i: nat, n: nat)
    requires
        i <= n,
        loaded(entries, i) is Err,
    ensures
        loaded(entries, n) == loaded(entries, i),
    decreases n,
{
    if i < n {
        lemma_error_stays(entries, i, (n - 1) as nat);
    }
}

/// Every engine has an outbound `reject` and an outbound `direct`, so that traffic that no rule
/// matches always has one; a configured outbound of either name is kept.
pub proof fn law_defaults_present(m: Map<Seq<char>, HandlerView>)
    ensures
        with_defaults(m).contains_key("reject"@),
        with_defaults(m).contains_key("direct"@),
        forall|name: Seq<char>| #[trigger]
            m.contains_key(name) ==> with_defaults(m).contains_key(name) && with_defaults(m)[name]
                == m[name],
{
}

/// How rules see a host: as an IP address where it reads as one, else as a name.
#[derive(Debug, Clone, PartialEq, Eq)]
pub enum RuleHost {
    Ip(IpAddr),
    Name(String),
}

/// How rules see a host.
pub fn rule_host(host: &str) -> (r: RuleHost)
    ensures
        match r {
            RuleHost::Ip(a) => ip::reads_as_ip(host@, a@),
            RuleHost::Name(n) => !ip::is_ip_text(host@) && n@ == host@,
        },
{
    match IpAddr::parse(host) {
        Some(a) => RuleHost::Ip(a),
        None => RuleHost::Name(text::owned(host)),
    }
}

/// Routes destinations by the rules.
pub struct AclRouter {
    pub engine: AclEngine,
    pub block_private_ip: bool,
}

impl AclRouter {
    /// A router over an engine.
    pub fn new(engine: AclEngine, block_private_ip: bool) -> (r: Self)
        ensures
            r.engine == engine,
            r.block_private_ip == block_private_ip,
    {
        AclRouter { engine, block_private_ip }
    }

    /// Where a destination is routed to, given its lookup and the outbound that its rule names.
    /// The lookup counts only where private addresses are blocked.
    pub fn route(
        &self,
        addr: &Address,
        lookup: &Result<Vec<IpAddr>, DnsError>,
        matched: Option<&str>,
    ) -> (r: OutboundType)
        ensures
            r@ == acl_route(
                self.engine.outbounds@,
                self.block_private_ip,
                *addr,
                *lookup,
                picked(matched),
            ),
    {
        if self.block_private_ip {
            let (is_private, ips) = check_private_and_resolve(addr, lookup);
            if is_private {
                return OutboundType::Reject;
            }
            return self.route_addr_with_resolved(addr, ips, matched);
        }
        self.route_addr_with_resolved(addr, None, matched)
    }

    /// Where a destination that passed the check is routed to, with the addresses that were
    /// checked.
    pub fn route_addr_with_resolved(
        &self,
        addr: &Address,
        resolved: Option<Vec<IpAddr>>,
        matched: Option<&str>,
    ) -> (r: OutboundType)
        ensures
            r@ == rule_route(
                self.engine.outbounds@,
                self.block_private_ip,
                *addr,
                crate::proxy_core::dns::ips_view(resolved),
                picked(matched),
            ),
    {
        match self.engine.match_host(matched) {
            Some(handler) => match &*handler {
                OutboundHandler::Direct { options: _, custom_dial } => {
                    let dialer: Option<Arc<OutboundHandler>> = if *custom_dial {
                        Some(handler.clone())
                    } else {
                        None
                    };
                    self.direct_decision(addr, resolved, dialer)
                },
                OutboundHandler::Socks5 { addr: _, auth: _, allow_udp: _ } => OutboundType::Proxy(
                    handler.clone(),
                ),
                OutboundHandler::Http { addr: _, https: _, auth: _ } => OutboundType::Proxy(
                    handler.clone(),
                ),
                OutboundHandler::Reject => OutboundType::Reject,
            },
            None => self.direct_decision(addr, resolved, None),
        }
    }

    /// A direct connection, but for a domain that could not be checked where private addresses
    /// are blocked: that is rejected, for whoever connects would look it up unchecked.
    pub fn direct_decision(
        &self,
        addr: &Address,
        resolved: Option<Vec<IpAddr>>,
        dialer: Option<Arc<OutboundHandler>>,
    ) -> (r: OutboundType)
        ensures
            r@ == direct_route(
                self.block_private_ip,
                *addr,
                crate::proxy_core::dns::ips_view(resolved),
                crate::proxy_core::hooks::dialer_view(dialer),
            ),
    {
        if self.block_private_ip && resolved.is_none() {
            if let Address::Domain(_, _) = addr {
                return OutboundType::Reject;
            }
        }
        OutboundType::Direct { resolved, dialer }
    }
}

/// A direct connection, or a rejection where a domain could not be checked.
pub open spec fn direct_route(
    block: bool,
    addr: Address,
    resolved: Option<Seq<IpAddr>>,
    dialer: Option<HandlerView>,
) -> crate::proxy_core::hooks::RouteView {
    if block && resolved is None && addr is Domain {
        crate::proxy_core::hooks::RouteView::Reject
    } else {
        crate::proxy_core::hooks::RouteView::Direct { resolved, dialer }
    }
}

/// What the rules make of a destination that passed the check.
pub open spec fn rule_route(
    outbounds: Map<Seq<char>, HandlerView>,
    block: bool,
    addr: Address,
    resolved: Option<Seq<IpAddr>>,
    name: Seq<char>,
) -> crate::proxy_core::hooks::RouteView {
    if outbounds.contains_key(name) {
        let h = outbounds[name];
        match h {
            HandlerView::Direct { custom_dial, .. } => direct_route(
                block,
                addr,
                resolved,
                if custom_dial {
                    Some(h)
                } else {
                    None
                },
            ),
            HandlerView::Socks5 { .. } => crate::proxy_core::hooks::RouteView::Proxy(h),
            HandlerView::Http { .. } => crate::proxy_core::hooks::RouteView::Proxy(h),
            HandlerView::Reject => crate::proxy_core::hooks::RouteView::Reject,
        }
    } else {
        direct_route(block, addr, resolved, None)
    }
}

/// What the rules make of a destination: where private addresses are blocked, a private
/// destination is rejected before any rule counts.
pub open spec fn acl_route(
    outbounds: Map<Seq<char>, HandlerView>,
    block: bool,
    addr: Address,
    lookup: Result<Vec<IpAddr>, DnsError>,
    name: Seq<char>,
) -> crate::proxy_core::hooks::RouteView {
    if block {
        let (is_private, ips) = crate::proxy_core::dns::checked(addr, lookup);
        if is_private {
            crate::proxy_core::hooks::RouteView::Reject
        } else {
            rule_route(outbounds, block, addr, ips, name)
        }
    } else {
        rule_route(outbounds, block, addr, None, name)
    }
}

/// Where private addresses are blocked, no rule can bring about a direct connection to one: a
/// direct route is to a public IP address, or to a domain whose addresses are all known, all
/// public, and all handed on.
pub proof fn law_acl_blocks_private(
    outbounds: Map<Seq<char>, HandlerView>,
    addr: Address,
    lookup: Result<Vec<IpAddr>, DnsError>,
    name: Seq<char>,
)
    ensures
        acl_route(outbounds, true, addr, lookup, name)
            matches crate::proxy_core::hooks::RouteView::Direct { resolved, .. }
            ==> crate::proxy_core::hooks::public_target(addr, resolved),
{
    crate::proxy_core::hooks::lemma_checked_public(addr, lookup);
}

/// A proxy looks names up itself, so a domain that cannot be resolved here still reaches it.
pub proof fn law_proxy_needs_no_lookup(
    outbounds: Map<Seq<char>, HandlerView>,
    block: bool,
    addr: Address,
    e: DnsError,
    name: Seq<char>,
)
    requires
        addr is Domain,
        outbounds.contains_key(name),
        outbounds[name] is Socks5 || outbounds[name] is Http,
    ensures
        acl_route(outbounds, block, addr, Err(e), name)
            == crate::proxy_core::hooks::RouteView::Proxy(outbounds[name]),
{
}

/// Where the rule names a proxy, and the destination is not blocked as private, the route is that
/// proxy: for an IP address as for a domain, whatever the lookup found, and whether private
/// addresses are blocked or not.
pub proof fn law_proxy_rule_leads_to_proxy(
    outbounds: Map<Seq<char>, HandlerView>,
    block: bool,
    addr: Address,
    lookup: Result<Vec<IpAddr>, DnsError>,
    name: Seq<char>,
)
    requires
        outbounds.contains_key(name),
        outbounds[name] is Socks5 || outbounds[name] is Http,
        !(block && crate::proxy_core::dns::leads_to_reserved(addr, lookup)),
    ensures
        acl_route(outbounds, block, addr, lookup, name)
            == crate::proxy_core::hooks::RouteView::Proxy(outbounds[name]),
{
    crate::proxy_core::dns::law_check_looks_at_every_address(addr, lookup);
}

/// What leads to a reserved address is rejected where private addresses are blocked, whatever the
/// rules say; and what a rule rejects is rejected in any case.
pub proof fn law_rejections_hold(
    outbounds: Map<Seq<char>, HandlerView>,
    block: bool,
    addr: Address,
    lookup: Result<Vec<IpAddr>, DnsError>,
    name: Seq<char>,
)
    requires
        (block && crate::proxy_core::dns::leads_to_reserved(addr, lookup)) || (
        outbounds.contains_key(name) && outbounds[name] is Reject),
    ensures
        acl_route(outbounds, block, addr, lookup, name) is Reject,
{
    crate::proxy_core::dns::law_check_looks_at_every_address(addr, lookup);
}

/// Where the rule names a direct outbound, or none that there is, the route is direct, with the
/// outbound's own dialer exactly if it has one, and with every address that was checked; only a
/// domain without a known address is rejected, where private addresses are blocked.
pub proof fn law_direct_rule_leads_out(
    outbounds: Map<Seq<char>, HandlerView>,
    block: bool,
    addr: Address,
    lookup: Result<Vec<IpAddr>, DnsError>,
    name: Seq<char>,
)
    requires
        outbounds.contains_key(name) ==> outbounds[name] is Direct,
        !(block && crate::proxy_core::dns::leads_to_reserved(addr, lookup)),
    ensures
        acl_route(outbounds, block, addr, lookup, name) == (if block
            && !crate::proxy_core::hooks::has_addresses(addr, lookup) {
            crate::proxy_core::hooks::RouteView::Reject
        } else {
            crate::proxy_core::hooks::RouteView::Direct {
                resolved: if block {
                    crate::proxy_core::hooks::known_addresses(addr, lookup)
                } else {
                    None
                },
                dialer: if outbounds.contains_key(name) && outbounds[name]->Direct_custom_dial {
                    Some(outbounds[name])
                } else {
                    None
                },
            }
        }),
{
    crate::proxy_core::dns::law_check_looks_at_every_address(addr, lookup);
}

/// Each mode has its two names or one, and no other text is a mode.
pub proof fn law_modes_have_names(mode: Seq<char>)
    ensures
        direct_mode(mode) == Some(DirectMode::Auto) <==> mode == "auto"@,
        direct_mode(mode) == Some(DirectMode::Only4) <==> mode == "4"@ || mode == "only4"@,
        direct_mode(mode) == Some(DirectMode::Only6) <==> mode == "6"@ || mode == "only6"@,
        direct_mode(mode) == Some(DirectMode::Prefer46) <==> mode == "46"@ || mode == "prefer4"@,
        direct_mode(mode) == Some(DirectMode::Prefer64) <==> mode == "64"@ || mode == "prefer6"@,
{
    reveal_strlit("auto");
    reveal_strlit("4");
    reveal_strlit("only4");
    reveal_strlit("6");
    reveal_strlit("only6");
    reveal_strlit("46");
    reveal_strlit("prefer4");
    reveal_strlit("64");
    reveal_strlit("prefer6");
    assert("auto"@.len() == 4 && "4"@.len() == 1 && "6"@.len() == 1);
    assert("only4"@.len() == 5 && "only6"@.len() == 5 && "46"@.len() == 2 && "64"@.len() == 2);
    assert("prefer4"@.len() == 7 && "prefer6"@.len() == 7);
    assert("only4"@[4] == '4' && "only6"@[4] == '6');
    assert("prefer4"@[6] == '4' && "prefer6"@[6] == '6');
    assert("4"@[0] == '4' && "6"@[0] == '6');
    assert("46"@[0] == '4' && "64"@[0] == '6');
}

/// A proxy is reached at the address that is configured, with a user name and a password exactly
/// if both are, and carries UDP or speaks TLS exactly as configured; without settings there is no
/// proxy.
pub proof fn law_proxy_entries_keep_settings(e: OutboundEntry)
    ensures
        e.outbound_type@ == "socks5"@ && e.socks5 is None ==> entry_outcome(e) == Err::<
            HandlerView,
            _,
        >(AclErrorView::MissingSocks5(e.name@)),
        e.outbound_type@ == "http"@ && e.http is None ==> entry_outcome(e) == Err::<HandlerView, _>(
            AclErrorView::MissingHttp(e.name@),
        ),
        e.outbound_type@ == "socks5"@ ==> (e.socks5 matches Some(c) ==> {
            &&& entry_outcome(e) matches Ok(HandlerView::Socks5 { addr, auth, allow_udp })
            &&& addr == c.addr@ && allow_udp == c.allow_udp
            &&& auth is Some <==> c.username is Some && c.password is Some
            &&& auth matches Some(a) ==> a.0 == c.username->0@ && a.1 == c.password->0@
        }),
        e.outbound_type@ == "http"@ ==> (e.http matches Some(c) ==> {
            &&& entry_outcome(e) matches Ok(HandlerView::Http { addr, https, auth })
            &&& addr == c.addr@ && https == c.https
            &&& auth is Some <==> c.username is Some && c.password is Some
            &&& auth matches Some(a) ==> a.0 == c.username->0@ && a.1 == c.password->0@
        }),
        e.outbound_type@ == "reject"@ ==> entry_outcome(e) == Ok::<_, AclErrorView>(
            HandlerView::Reject,
        ),
        e.outbound_type@ != "direct"@ && e.outbound_type@ != "socks5"@ && e.outbound_type@
            != "http"@ && e.outbound_type@ != "reject"@ ==> entry_outcome(e) == Err::<
            HandlerView,
            _,
        >(AclErrorView::UnknownType(e.outbound_type@, e.name@)),
{
    reveal_strlit("direct");
    reveal_strlit("socks5");
    reveal_strlit("http");
    reveal_strlit("reject");
    assert("direct"@[0] == 'd' && "socks5"@[0] == 's' && "http"@[0] == 'h' && "reject"@[0] == 'r');
}

/// A direct outbound does what is configured: it binds to the addresses whose texts are set and to
/// the device, and a time of zero is none. Texts that are no address of their version, and modes
/// without a name, are errors that say so.
pub proof fn law_direct_entries_keep_settings(
    e: OutboundEntry,
    c: DirectConfig,
    v4: Option<Seq<u8>>,
    v6: Option<Seq<u8>>,
)
    requires
        e.outbound_type@ == "direct"@,
        e.direct == Some(c),
        direct_mode(c.mode@) is Some,
        c.bind_ipv4 is Some == v4 is Some,
        c.bind_ipv6 is Some == v6 is Some,
        v4 matches Some(o) ==> o.len() == 4 && c.bind_ipv4->0@ == ip::ipv4_text(o),
        v6 matches Some(o) ==> o.len() == 16 && c.bind_ipv6->0@ == ip::ipv6_text(ip::segments(o)),
    ensures
        entry_outcome(e) matches Ok(HandlerView::Direct { options, custom_dial }) && {
            &&& Some(options.mode) == direct_mode(c.mode@)
            &&& options.bind_ip4 == v4 && options.bind_ip6 == v6
            &&& options.bind_device is Some == c.bind_device is Some
            &&& options.bind_device matches Some(d) ==> d == c.bind_device->0@
            &&& options.fast_open == c.fast_open && options.tcp_nodelay == c.tcp_nodelay
            &&& options.timeout_secs is Some == (c.connect_timeout_secs > 0)
            &&& options.timeout_secs matches Some(n) ==> n == c.connect_timeout_secs
            &&& options.tcp_keepalive_secs is Some == (c.tcp_keepalive_secs > 0)
            &&& options.tcp_keepalive_secs matches Some(n) ==> n == c.tcp_keepalive_secs
            &&& custom_dial == !(c.mode@ == "auto"@ && v4 is None && v6 is None && c.bind_device
                is None && !c.fast_open && c.tcp_nodelay && c.tcp_keepalive_secs == 60
                && c.connect_timeout_secs == 0)
        },
{
    law_modes_have_names(c.mode@);
    if let Some(o) = v4 {
        ip::law_ipv4_round_trip(o);
    }
    if let Some(o) = v6 {
        ip::law_ipv6_round_trip(ip::segments(o));
        crate::proxy_core::address::lemma_octets_of_segments(o);
    }
}

/// A direct outbound that sets nothing is plain: it has no dialer of its own.
pub proof fn law_unset_direct_is_plain(e: OutboundEntry)
    requires
        e.outbound_type@ == "direct"@,
        e.direct is None,
    ensures
        entry_outcome(e) matches Ok(HandlerView::Direct { options, custom_dial }) && {
            &&& !custom_dial
            &&& options.mode == DirectMode::Auto
            &&& options.bind_ip4 is None && options.bind_ip6 is None && options.bind_device is None
            &&& !options.fast_open && options.tcp_nodelay
            &&& options.timeout_secs is None && options.tcp_keepalive_secs == Some(60u64)
        },
{
    law_modes_have_names("auto"@);
}

/// Each bind of a direct outbound is probed, in the order of IPv4, IPv6 and device, and nothing
/// else is.
pub proof fn law_probes_are_the_binds(h: HandlerView)
    ensures
        h matches HandlerView::Direct { options, .. } ==> {
            let p = wanted_probes(h);
            let n4 = if options.bind_ip4 is Some {
                1int
            } else {
                0
            };
            let n6 = if options.bind_ip6 is Some {
                1int
            } else {
                0
            };
            let nd = if options.bind_device is Some {
                1int
            } else {
                0
            };
            &&& p.len() == n4 + n6 + nd
            &&& options.bind_ip4 matches Some(o) ==> p[0] == ProbeView::Ipv4(o)
            &&& options.bind_ip6 matches Some(o) ==> p[n4] == ProbeView::Ipv6(o)
            &&& options.bind_device matches Some(d) ==> p[n4 + n6] == ProbeView::Device(d)
        },
        !(h is Direct) ==> wanted_probes(h).len() == 0,
{
}

/// An outbound is found by its name as the last entry of that name makes it, as long as every
/// entry can be used; names that no entry has are not found.
pub proof fn law_last_entry_of_a_name_counts(
    entries: Seq<OutboundEntry>,
    n: nat,
    name: Seq<char>,
)
    requires
        n <= entries.len(),
        forall|i: int| 0 <= i < n ==> entry_outcome(#[trigger] entries[i]) is Ok,
    ensures
        loaded(entries, n) is Ok,
        loaded(entries, n)->Ok_0.contains_key(name) <==> exists|i: int|
            0 <= i < n && (#[trigger] entries[i]).name@ == name,
        forall|i: int|
            0 <= i < n && (#[trigger] entries[i]).name@ == name && (forall|j: int|
                i < j < n ==> (#[trigger] entries[j]).name@ != name) ==> loaded(
                entries,
                n,
            )->Ok_0[name] == entry_outcome(entries[i])->Ok_0,
    decreases n,
{
    if n > 0 {
        law_last_entry_of_a_name_counts(entries, (n - 1) as nat, name);
        assert(entry_outcome(entries[n - 1]) is Ok);
        let m = loaded(entries, (n - 1) as nat)->Ok_0;
        let all = loaded(entries, n)->Ok_0;
        if m.contains_key(name) {
            let i = choose|i: int| 0 <= i < n - 1 && (#[trigger] entries[i]).name@ == name;
            assert(entries[i].name@ == name);
        }
        if entries[n - 1].name@ == name {
            assert(all.contains_key(name));
        } else if all.contains_key(name) {
            assert(m.contains_key(name));
        }
        assert forall|i: int|
            0 <= i < n && (#[trigger] entries[i]).name@ == name && (forall|j: int|
                i < j < n ==> (#[trigger] entries[j]).name@ != name) implies all[name]
            == entry_outcome(entries[i])->Ok_0 by {
            if i < n - 1 {
                assert(entries[n - 1].name@ != name);
                assert(forall|j: int| i < j < n - 1 ==> (#[trigger] entries[j]).name@ != name);
            }
        }
    }
}

/// The first entry that cannot be used is the error of them all.
pub proof fn law_first_bad_entry_is_the_error(entries: Seq<OutboundEntry>, n: nat, k: int)
    requires
        0 <= k < n <= entries.len(),
        entry_outcome(entries[k]) is Err,
        forall|i: int| 0 <= i < k ==> entry_outcome(#[trigger] entries[i]) is Ok,
    ensures
        loaded(entries, n) == Err::<Map<Seq<char>, HandlerView>, _>(
            entry_outcome(entries[k])->Err_0,
        ),
    decreases n,
{
    if n == k + 1 {
        law_last_entry_of_a_name_counts(entries, k as nat, Seq::empty());
    } else {
        law_first_bad_entry_is_the_error(entries, (n - 1) as nat, k);
    }
}

/// Beside the configured outbounds there are only `reject`, which rejects, and `direct`, which is
/// plain, each where it is not configured.
pub proof fn law_defaults_add_nothing_else(m: Map<Seq<char>, HandlerView>, name: Seq<char>)
    ensures
        with_defaults(m).contains_key(name) <==> m.contains_key(name) || name == "reject"@ || name
            == "direct"@,
        !m.contains_key("reject"@) ==> with_defaults(m)["reject"@] is Reject,
        !m.contains_key("direct"@) ==> with_defaults(m)["direct"@] is Direct && !has_own_dialer(
            with_defaults(m)["direct"@],
        ),
        m.contains_key(name) ==> with_defaults(m)[name] == m[name],
{
    reveal_strlit("direct");
    reveal_strlit("reject");
    assert("direct"@[0] != "reject"@[0]);
}

/// The rules come out line by line as they went in; without any, everything is direct.
pub proof fn law_rules_are_lines(rules: Seq<String>)
    requires
        rules.len() > 0,
        forall|i: int| 0 <= i < rules.len() ==> !(#[trigger] rules[i])@.contains('\n'),
    ensures
        text::pieces(rules_text(rules), '\n') == rules.map_values(|r: String| r@),
{
    lemma_pieces_of_lines(rules);
}

proof fn lemma_pieces_of_lines(rules: Seq<String>)
    requires
        rules.len() > 0,
        forall|i: int| 0 <= i < rules.len() ==> !(#[trigger] rules[i])@.contains('\n'),
    ensures
        text::pieces(lines(rules), '\n') == rules.map_values(|r: String| r@),
    decreases rules.len(),
{
    let views = rules.map_values(|r: String| r@);
    if rules.len() == 1 {
        text::lemma_pieces_single(rules[0]@, '\n');
        assert(views =~= seq![rules[0]@]);
    } else {
        let init = rules.drop_last();
        assert forall|i: int| 0 <= i < init.len() implies !(#[trigger] init[i])@.contains('\n') by {
            assert(init[i] == rules[i]);
        }
        lemma_pieces_of_lines(init);
        assert(!rules[rules.len() - 1]@.contains('\n'));
        text::lemma_pieces_single(rules.last()@, '\n');
        text::lemma_pieces_join(lines(init), rules.last()@, '\n');
        assert(views =~= init.map_values(|r: String| r@) + seq![rules.last()@]);
    }
}

/// The text of an error says the text that is wrong and the name of the outbound.
pub proof fn law_acl_errors_name_what_is_wrong(t: Seq<char>, name: Seq<char>)
    ensures
        ("Invalid direct mode '"@ + t + "' for outbound '"@ + name).is_prefix_of(
            acl_error_text(AclErrorView::InvalidMode(t, name)),
        ),
        ("Invalid bindIPv4 '"@ + t).is_prefix_of(acl_error_text(AclErrorView::InvalidBindIpv4(t))),
        ("Invalid bindIPv6 '"@ + t).is_prefix_of(acl_error_text(AclErrorView::InvalidBindIpv6(t))),
        ("socks5 config required for outbound '"@ + name).is_prefix_of(
            acl_error_text(AclErrorView::MissingSocks5(name)),
        ),
        ("http config required for outbound '"@ + name).is_prefix_of(
            acl_error_text(AclErrorView::MissingHttp(name)),
        ),
        ("Unknown outbound type '"@ + t + "' for outbound '"@ + name).is_prefix_of(
            acl_error_text(AclErrorView::UnknownType(t, name)),
        ),
{
}

/// A direct outbound whose mode has no name, or whose bind texts are no addresses, is an error for
/// the first of these.
pub proof fn law_bad_direct_entries_are_errors(e: OutboundEntry, c: DirectConfig)
    requires
        e.outbound_type@ == "direct"@,
        e.direct == Some(c),
    ensures
        direct_mode(c.mode@) is None ==> entry_outcome(e) == Err::<HandlerView, _>(
            AclErrorView::InvalidMode(c.mode@, e.name@),
        ),
        direct_mode(c.mode@) is Some && c.bind_ipv4 is Some && ip::ipv4_value(c.bind_ipv4->0@)
            is None ==> entry_outcome(e) == Err::<HandlerView, _>(
            AclErrorView::InvalidBindIpv4(c.bind_ipv4->0@),
        ),
        direct_mode(c.mode@) is Some && (c.bind_ipv4 is Some ==> ip::ipv4_value(c.bind_ipv4->0@)
            is Some) && c.bind_ipv6 is Some && ip::ipv6_value(c.bind_ipv6->0@) is None
            ==> entry_outcome(e) == Err::<HandlerView, _>(
            AclErrorView::InvalidBindIpv6(c.bind_ipv6->0@),
        ),
{
}

/// A rule that matched picks the outbound that it names, as it is written, and without a match the
/// outbound `direct` is picked.
pub proof fn law_matches_pick_their_outbound(name: &str)
    ensures
        picked(Some(name)) == name@,
        picked(None) == "direct"@,
{
}

} // verus!
