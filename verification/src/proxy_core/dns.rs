//! What becomes of a DNS lookup: the address to connect to, and the check of every address
//! that a domain has.

use crate::proxy_core::address::Address;
use crate::proxy_core::ip::{IpAddr, SocketAddr};
use crate::proxy_core::ip_filter::{is_private_ip, is_private_ipv4, is_private_ipv6};
use crate::text;
use vstd::prelude::*;

verus! {

/// Why a lookup failed.
#[derive(Debug)]
pub enum DnsError {
    /// The host, which has no addresses.
    NotFound(String),
    /// The text of the time after which the lookup was given up.
    Timeout(String),
    /// The text that is no host.
    InvalidHost(String),
    /// The text of any other error.
    Other(String),
}

/// The kinds of I/O errors that a lookup ends in.
#[derive(Debug, Clone, Copy, PartialEq, Eq, Structural)]
pub enum IoErrorKind {
    NotFound,
    TimedOut,
    InvalidInput,
    Other,
}

/// An I/O error: its kind and its text.
#[derive(Debug)]
pub struct IoFailure {
    pub kind: IoErrorKind,
    pub message: String,
}

/// The I/O error that a failed lookup ends in.
pub open spec fn dns_failure(e: DnsError) -> (IoErrorKind, Seq<char>) {
    match e {
        DnsError::NotFound(host) => (IoErrorKind::NotFound, "no addresses found for "@ + host@),
        DnsError::Timeout(after) => (IoErrorKind::TimedOut, "DNS query timeout after "@ + after@),
        DnsError::InvalidHost(host) => (IoErrorKind::InvalidInput, "invalid host: "@ + host@),
        DnsError::Other(message) => (IoErrorKind::Other, message@),
    }
}

/// The I/O error that a failed lookup ends in.
pub fn dns_error_to_io(e: &DnsError) -> (r: IoFailure)
    ensures
        (r.kind, r.message@) == dns_failure(*e),
{
    match e {
        DnsError::NotFound(host) => IoFailure {
            kind: IoErrorKind::NotFound,
            message: text::concat("no addresses found for ", host.as_str()),
        },
        DnsError::Timeout(after) => IoFailure {
            kind: IoErrorKind::TimedOut,
            message: text::concat("DNS query timeout after ", after.as_str()),
        },
        DnsError::InvalidHost(host) => IoFailure {
            kind: IoErrorKind::InvalidInput,
            message: text::concat("invalid host: ", host.as_str()),
        },
        DnsError::Other(message) => IoFailure {
            kind: IoErrorKind::Other,
            message: message.clone(),
        },
    }
}

/// Whether an address must be looked up: IP addresses never are.
pub fn needs_lookup(addr: &Address) -> (r: bool)
    ensures
        r == (addr is Domain),
{
    match addr {
        Address::Domain(_, _) => true,
        _ => false,
    }
}

/// Where to connect to, or the failure.
pub open spec fn connect_target(addr: Address, lookup: Result<Vec<IpAddr>, DnsError>) -> Result<
    (IpAddr, u16),
    (IoErrorKind, Seq<char>),
> {
    match addr {
        Address::IPv4(o, p) => Ok((IpAddr::V4(o), p)),
        Address::IPv6(o, p) => Ok((IpAddr::V6(o), p)),
        Address::Domain(host, p) => match lookup {
            Ok(found) => if found@.len() > 0 {
                Ok((found@[0], p))
            } else {
                Err((IoErrorKind::NotFound, "no addresses found for "@ + host@))
            },
            Err(e) => Err(dns_failure(e)),
        },
    }
}

/// Where to connect to: an IP address as it stands, or the first address found for a domain.
pub fn resolve_socket_addr(addr: &Address, lookup: &Result<Vec<IpAddr>, DnsError>) -> (r: Result<
    SocketAddr,
    IoFailure,
>)
    ensures
        match r {
            Ok(a) => connect_target(*addr, *lookup) == Ok::<_, (IoErrorKind, Seq<char>)>(
                (a.ip, a.port),
            ),
            Err(f) => connect_target(*addr, *lookup) == Err::<(IpAddr, u16), _>(
                (f.kind, f.message@),
            ),
        },
        match addr {
            Address::IPv4(o, p) => r matches Ok(a) && a.ip == IpAddr::V4(*o) && a.port == p,
            Address::IPv6(o, p) => r matches Ok(a) && a.ip == IpAddr::V6(*o) && a.port == p,
            Address::Domain(host, p) => match lookup {
                Ok(found) => if found@.len() > 0 {
                    r matches Ok(a) && a.ip == found@[0] && a.port == p
                } else {
                    r matches Err(e) && e.kind == IoErrorKind::NotFound && e.message@
                        == "no addresses found for "@ + host@
                },
                Err(e) => r matches Err(f) && (f.kind, f.message@) == dns_failure(*e),
            },
        },
{
    match addr {
        Address::IPv4(o, port) => Ok(SocketAddr { ip: IpAddr::V4(*o), port: *port }),
        Address::IPv6(o, port) => Ok(SocketAddr { ip: IpAddr::V6(*o), port: *port }),
        Address::Domain(host, port) => match lookup {
            Ok(found) => {
                if found.len() > 0 {
                    Ok(SocketAddr { ip: found[0], port: *port })
                } else {
                    Err(
                        IoFailure {
                            kind: IoErrorKind::NotFound,
                            message: text::concat("no addresses found for ", host.as_str()),
                        },
                    )
                }
            },
            Err(e) => Err(dns_error_to_io(e)),
        },
    }
}

/// Whether any of the addresses may not be reached directly.
pub open spec fn any_private(found: Seq<IpAddr>) -> bool {
    exists|i: int|
        0 <= i < found.len() && crate::proxy_core::ip_filter::private_ip(#[trigger] found[i])
}

/// What checking a destination comes to: whether it is private, and the addresses of a domain
/// that were found and checked, all of them.
pub open spec fn checked(addr: Address, lookup: Result<Vec<IpAddr>, DnsError>) -> (
    bool,
    Option<Seq<IpAddr>>,
) {
    match addr {
        Address::IPv4(o, _) => (crate::proxy_core::ip_filter::private_v4(o@), None),
        Address::IPv6(o, _) => (crate::proxy_core::ip_filter::private_v6(o@), None),
        Address::Domain(_, _) => match lookup {
            Err(_) => (false, None),
            Ok(found) => if any_private(found@) {
                (true, None)
            } else if found@.len() == 0 {
                (false, None)
            } else {
                (false, Some(found@))
            },
        },
    }
}

/// The contents of an optional list of addresses.
pub open spec fn ips_view(v: Option<Vec<IpAddr>>) -> Option<Seq<IpAddr>> {
    match v {
        Some(ips) => Some(ips@),
        None => None,
    }
}

fn has_private(found: &Vec<IpAddr>) -> (r: bool)
    ensures
        r == any_private(found@),
{
    let mut i: usize = 0;
    while i < found.len()
        invariant
            i <= found@.len(),
            forall|j: int|
                0 <= j < i ==> !crate::proxy_core::ip_filter::private_ip(#[trigger] found@[j]),
        decreases found@.len() - i,
    {
        if is_private_ip(&found[i]) {
            return true;
        }
        i += 1;
    }
    false
}

fn copied(found: &Vec<IpAddr>) -> (r: Vec<IpAddr>)
    ensures
        r@ == found@,
{
    let mut ips: Vec<IpAddr> = Vec::new();
    let mut i: usize = 0;
    while i < found.len()
        invariant
            i <= found@.len(),
            ips@ == found@.take(i as int),
        decreases found@.len() - i,
    {
        ips.push(found[i]);
        i += 1;
        assert(ips@ =~= found@.take(i as int));
    }
    assert(found@.take(found@.len() as int) =~= found@);
    ips
}

/// Checks a destination. One private address among those of a domain makes it private; of a
/// public domain every address comes back, in both families, so that nothing needs to be
/// looked up again.
pub fn check_private_and_resolve(addr: &Address, lookup: &Result<Vec<IpAddr>, DnsError>) -> (r: (
    bool,
    Option<Vec<IpAddr>>,
))
    ensures
        (r.0, ips_view(r.1)) == checked(*addr, *lookup),
{
    match addr {
        Address::IPv4(o, _) => (is_private_ipv4(o), None),
        Address::IPv6(o, _) => (is_private_ipv6(o), None),
        Address::Domain(_, _) => match lookup {
            Err(_) => (false, None),
            Ok(found) => {
                if has_private(found) {
                    (true, None)
                } else if found.len() == 0 {
                    (false, None)
                } else {
                    (false, Some(copied(found)))
                }
            },
        },
    }
}

/// Whether a destination leads to an address that may not be reached directly: it is one itself,
/// or any of the addresses that were found for its domain is.
pub open spec fn leads_to_reserved(addr: Address, lookup: Result<Vec<IpAddr>, DnsError>) -> bool {
    match addr {
        Address::IPv4(o, _) => crate::proxy_core::ip_filter::in_reserved(IpAddr::V4(o)),
        Address::IPv6(o, _) => crate::proxy_core::ip_filter::in_reserved(IpAddr::V6(o)),
        Address::Domain(_, _) => lookup matches Ok(found) && exists|i: int|
            0 <= i < found@.len() && crate::proxy_core::ip_filter::in_reserved(
                #[trigger] found@[i],
            ),
    }
}

/// A destination is found private if and only if it leads to a reserved address, wherever among
/// the addresses of a domain that one stands. Of a domain that is not private all the addresses
/// come back that were found, in order, if any were; of anything else none do.
pub proof fn law_check_looks_at_every_address(
    addr: Address,
    lookup: Result<Vec<IpAddr>, DnsError>,
)
    ensures
        checked(addr, lookup).0 <==> leads_to_reserved(addr, lookup),
        match addr {
            Address::Domain(_, _) => match lookup {
                Ok(found) => checked(addr, lookup).1 == (if !leads_to_reserved(addr, lookup)
                    && found@.len() > 0 {
                    Some(found@)
                } else {
                    None
                }),
                Err(_) => checked(addr, lookup).1 is None,
            },
            _ => checked(addr, lookup).1 is None,
        },
{
    match addr {
        Address::IPv4(o, _) => crate::proxy_core::ip_filter::law_private_ip_is_reserved(
            IpAddr::V4(o),
        ),
        Address::IPv6(o, _) => crate::proxy_core::ip_filter::law_private_ip_is_reserved(
            IpAddr::V6(o),
        ),
        Address::Domain(_, _) => {
            if let Ok(found) = lookup {
                assert forall|i: int|
                    0 <= i < found@.len() implies crate::proxy_core::ip_filter::private_ip(
                    #[trigger] found@[i],
                ) == crate::proxy_core::ip_filter::in_reserved(found@[i]) by {
                    crate::proxy_core::ip_filter::law_private_ip_is_reserved(found@[i]);
                }
            }
        },
    }
}

/// A failed lookup keeps its kind, and the text of its failure ends with what the lookup said.
pub proof fn law_failures_keep_their_kind(e: DnsError)
    ensures
        match e {
            DnsError::NotFound(t) => dns_failure(e).0 == IoErrorKind::NotFound
                && t@.is_suffix_of(dns_failure(e).1),
            DnsError::Timeout(t) => dns_failure(e).0 == IoErrorKind::TimedOut
                && t@.is_suffix_of(dns_failure(e).1),
            DnsError::InvalidHost(t) => dns_failure(e).0 == IoErrorKind::InvalidInput
                && t@.is_suffix_of(dns_failure(e).1),
            DnsError::Other(t) => dns_failure(e) == (IoErrorKind::Other, t@),
        },
{
}

/// An IP address is connected to as it is, whatever a lookup says; a domain at the first address
/// that was found for it; both at the destination's own port. Only a domain can fail, with the
/// lookup or because nothing was found, and then its host is named.
pub proof fn law_targets_are_the_destinations(
    addr: Address,
    lookup: Result<Vec<IpAddr>, DnsError>,
)
    ensures
        match addr {
            Address::IPv4(o, p) => connect_target(addr, lookup) matches Ok(t) && t == (
                IpAddr::V4(o),
                p,
            ),
            Address::IPv6(o, p) => connect_target(addr, lookup) matches Ok(t) && t == (
                IpAddr::V6(o),
                p,
            ),
            Address::Domain(host, p) => match lookup {
                Ok(found) => (found@.len() > 0 ==> (connect_target(addr, lookup) matches Ok(t) && t.1
                    == p && t.0 == found@.first())) && (found@.len() == 0 ==> (connect_target(
                    addr,
                    lookup,
                ) matches Err(f) && f.0 == IoErrorKind::NotFound && host@.is_suffix_of(f.1))),
                Err(e) => connect_target(addr, lookup) matches Err(f) && f == dns_failure(e),
            },
        },
{
}

} // verus!
