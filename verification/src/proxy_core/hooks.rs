//! Hooks that a node is made with, and where a destination is routed to.

use crate::acl::OutboundHandler;
use crate::proxy_core::address::Address;
use crate::proxy_core::dns::{check_private_and_resolve, DnsError};
use crate::proxy_core::ip::IpAddr;
use std::sync::Arc;
use vstd::prelude::*;

verus! {

/// A user's number.
pub type UserId = i64;

/// Finds the user that a credential belongs to: the password of HTTP basic authentication.
pub trait Authenticator {
    fn authenticate(&self, credential: &str) -> Option<UserId>;
}

/// Counts what users do.
pub trait StatsCollector {
    fn record_request(&self, user_id: UserId);

    fn record_upload(&self, user_id: UserId, bytes: u64);

    fn record_download(&self, user_id: UserId, bytes: u64);
}

/// Where a destination is routed to.
pub enum OutboundType {
    /// A direct connection. `resolved` holds every address of a domain that was looked up and
    /// checked, so that nothing is looked up again; `dialer` is the outbound whose options a
    /// bare connect cannot apply.
    Direct { resolved: Option<Vec<IpAddr>>, dialer: Option<Arc<OutboundHandler>> },
    /// No connection.
    Reject,
    /// A connection through a proxy, which looks names up itself.
    Proxy(Arc<OutboundHandler>),
}

/// Where a destination is routed to.
pub enum RouteView {
    Direct { resolved: Option<Seq<IpAddr>>, dialer: Option<crate::acl::HandlerView> },
    Reject,
    Proxy(crate::acl::HandlerView),
}

/// What an optional dialer does.
pub open spec fn dialer_view(d: Option<Arc<OutboundHandler>>) -> Option<crate::acl::HandlerView> {
    match d {
        Some(h) => Some((*h)@),
        None => None,
    }
}

impl View for OutboundType {
    type V = RouteView;

    open spec fn view(&self) -> RouteView {
        match self {
            OutboundType::Direct { resolved, dialer } => RouteView::Direct {
                resolved: crate::proxy_core::dns::ips_view(*resolved),
                dialer: dialer_view(*dialer),
            },
            OutboundType::Reject => RouteView::Reject,
            OutboundType::Proxy(h) => RouteView::Proxy((**h)@),
        }
    }
}

/// The kind of a route, as logs show it.
pub open spec fn route_label(r: RouteView) -> Seq<char> {
    match r {
        RouteView::Direct { dialer: None, .. } => "Direct"@,
        RouteView::Direct { dialer: Some(h), .. } => "Direct("@ + crate::acl::handler_label(h)
            + ")"@,
        RouteView::Reject => "Reject"@,
        RouteView::Proxy(h) => "Proxy("@ + crate::acl::handler_label(h) + ")"@,
    }
}

impl OutboundType {
    /// The kind of the route, as logs show it.
    pub fn label(&self) -> (r: String)
        ensures
            r@ == route_label(self@),
    {
        match self {
            OutboundType::Direct { resolved: _, dialer: None } => crate::text::owned("Direct"),
            OutboundType::Direct { resolved: _, dialer: Some(h) } => crate::text::concat3(
                "Direct(",
                h.label(),
                ")",
            ),
            OutboundType::Reject => crate::text::owned("Reject"),
            OutboundType::Proxy(h) => crate::text::concat3("Proxy(", h.label(), ")"),
        }
    }
}

/// Routes everything directly.
pub struct DirectRouter {
    pub block_private_ip: bool,
}

/// What the direct router makes of a destination.
pub open spec fn plain_route(
    block: bool,
    addr: Address,
    lookup: Result<Vec<IpAddr>, DnsError>,
) -> RouteView {
    let (is_private, ips) = crate::proxy_core::dns::checked(addr, lookup);
    if !block {
        RouteView::Direct { resolved: None, dialer: None }
    } else if is_private || (ips is None && addr is Domain) {
        RouteView::Reject
    } else {
        RouteView::Direct { resolved: ips, dialer: None }
    }
}

impl DirectRouter {
    /// A router that blocks private addresses or not.
    pub fn new(block_private_ip: bool) -> (r: Self)
        ensures
            r.block_private_ip == block_private_ip,
    {
        DirectRouter { block_private_ip }
    }

    /// Where a destination is routed to, given its lookup, which counts only where private
    /// addresses are blocked. A domain that could not be checked is rejected there.
    pub fn route(&self, addr: &Address, lookup: &Result<Vec<IpAddr>, DnsError>) -> (r: OutboundType)
        ensures
            r@ == plain_route(self.block_private_ip, *addr, *lookup),
    {
        if self.block_private_ip {
            let (is_private, resolved) = check_private_and_resolve(addr, lookup);
            if is_private {
                return OutboundType::Reject;
            }
            if resolved.is_none() {
                if let Address::Domain(_, _) = addr {
                    return OutboundType::Reject;
                }
            }
            return OutboundType::Direct { resolved, dialer: None };
        }
        OutboundType::Direct { resolved: None, dialer: None }
    }
}

/// Whether a direct connection can only reach public addresses: the destination is a public IP
/// address, or a domain with known addresses, all of them public.
pub open spec fn public_target(addr: Address, resolved: Option<Seq<IpAddr>>) -> bool {
    match addr {
        Address::IPv4(o, _) => !crate::proxy_core::ip_filter::private_v4(o@),
        Address::IPv6(o, _) => !crate::proxy_core::ip_filter::private_v6(o@),
        Address::Domain(_, _) => resolved is Some && resolved->0.len() > 0 && forall|i: int|
            0 <= i < resolved->0.len() ==> !crate::proxy_core::ip_filter::private_ip(
                #[trigger] resolved->0[i],
            ),
    }
}

/// What passes the check with known addresses is public.
pub proof fn lemma_checked_public(addr: Address, lookup: Result<Vec<IpAddr>, DnsError>)
    ensures
        ({
            let (is_private, ips) = crate::proxy_core::dns::checked(addr, lookup);
            !is_private && (ips is Some || !(addr is Domain)) ==> public_target(addr, ips)
        }),
{
}

/// Where private addresses are blocked, a direct route is to a public IP address, or to a
/// domain whose addresses are all known, all public, and all handed on.
pub proof fn law_direct_blocks_private(addr: Address, lookup: Result<Vec<IpAddr>, DnsError>)
    ensures
        plain_route(true, addr, lookup) matches RouteView::Direct { resolved, .. }
            ==> public_target(addr, resolved),
{
    lemma_checked_public(addr, lookup);
}

/// Whether the addresses of a destination are known as far as they must be: an IP address has
/// itself, and a domain needs a lookup that found something.
pub open spec fn has_addresses(addr: Address, lookup: Result<Vec<IpAddr>, DnsError>) -> bool {
    addr is Domain ==> (lookup matches Ok(found) && found@.len() > 0)
}

/// The addresses of a domain that a lookup found; none for an IP address.
pub open spec fn known_addresses(addr: Address, lookup: Result<Vec<IpAddr>, DnsError>) -> Option<
    Seq<IpAddr>,
> {
    match (addr, lookup) {
        (Address::Domain(_, _), Ok(found)) => Some(found@),
        _ => None,
    }
}

/// The direct router lets everything through where private addresses are not blocked. Where they
/// are, it rejects exactly what leads to a reserved address and the domains without a known
/// address, and hands every known address on with the rest.
pub proof fn law_direct_router_decides(
    block: bool,
    addr: Address,
    lookup: Result<Vec<IpAddr>, DnsError>,
)
    ensures
        !block ==> plain_route(block, addr, lookup) == (RouteView::Direct {
            resolved: None,
            dialer: None,
        }),
        block ==> (plain_route(block, addr, lookup) is Reject <==> (
        crate::proxy_core::dns::leads_to_reserved(addr, lookup) || !has_addresses(addr, lookup))),
        block && !(plain_route(block, addr, lookup) is Reject) ==> plain_route(block, addr, lookup)
            == (RouteView::Direct { resolved: known_addresses(addr, lookup), dialer: None }),
{
    crate::proxy_core::dns::law_check_looks_at_every_address(addr, lookup);
}

/// What logs show of a route is its kind and the kind of its outbound, and nothing of where that
/// is or how it is entered.
pub proof fn law_labels_hide_outbounds(
    a: crate::acl::HandlerView,
    b: crate::acl::HandlerView,
    resolved: Option<Seq<IpAddr>>,
    other: Option<Seq<IpAddr>>,
)
    requires
        match (a, b) {
            (
                crate::acl::HandlerView::Socks5 { allow_udp: x, .. },
                crate::acl::HandlerView::Socks5 { allow_udp: y, .. },
            ) => x == y,
            (crate::acl::HandlerView::Http { .. }, crate::acl::HandlerView::Http { .. }) => true,
            (crate::acl::HandlerView::Direct { .. }, crate::acl::HandlerView::Direct { .. }) => true,
            (crate::acl::HandlerView::Reject, crate::acl::HandlerView::Reject) => true,
            _ => false,
        },
    ensures
        route_label(RouteView::Proxy(a)) == route_label(RouteView::Proxy(b)),
        route_label(RouteView::Direct { resolved, dialer: Some(a) }) == route_label(
            RouteView::Direct { resolved: other, dialer: Some(b) },
        ),
        route_label(RouteView::Direct { resolved, dialer: None }) == route_label(
            RouteView::Direct { resolved: other, dialer: None },
        ),
{
}

} // verus!
