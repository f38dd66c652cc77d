//! Network address of a tunnel's destination.

use crate::proxy_core::ip;
use crate::text;
use std::borrow::Cow;
use vstd::prelude::*;

verus! {

/// Network address (IPv4, IPv6 or domain) with a port.
#[derive(Debug, Clone, PartialEq, Eq, Hash)]
pub enum Address {
    IPv4([u8; 4], u16),
    IPv6([u8; 16], u16),
    Domain(String, u16),
}

/// What an address stands for.
pub enum AddressView {
    IPv4(Seq<u8>, u16),
    IPv6(Seq<u8>, u16),
    Domain(Seq<char>, u16),
}

impl View for Address {
    type V = AddressView;

    open spec fn view(&self) -> AddressView {
        match self {
            Address::IPv4(o, p) => AddressView::IPv4(o@, *p),
            Address::IPv6(o, p) => AddressView::IPv6(o@, *p),
            Address::Domain(d, p) => AddressView::Domain(d@, *p),
        }
    }
}

/// The host part of an address: the text of its IP address or its domain.
pub open spec fn host_text(a: AddressView) -> Seq<char> {
    match a {
        AddressView::IPv4(o, _) => ip::ipv4_text(o),
        AddressView::IPv6(o, _) => ip::ipv6_text(ip::segments(o)),
        AddressView::Domain(d, _) => d,
    }
}

/// The port of an address.
pub open spec fn port_of(a: AddressView) -> u16 {
    match a {
        AddressView::IPv4(_, p) => p,
        AddressView::IPv6(_, p) => p,
        AddressView::Domain(_, p) => p,
    }
}

/// The text of an address: host, colon and port, an IPv6 host in brackets.
pub open spec fn address_text(a: AddressView) -> Seq<char> {
    let port = seq![':'] + text::decimal_text(port_of(a) as nat);
    match a {
        AddressView::IPv6(_, _) => seq!['['] + host_text(a) + seq![']'] + port,
        _ => host_text(a) + port,
    }
}

/// The bytes of eight groups.
pub open spec fn octets_of(g: Seq<u16>) -> Seq<u8> {
    Seq::new(
        16,
        |i: int|
            if i % 2 == 0 {
                (g[i / 2] / 256) as u8
            } else {
                (g[i / 2] % 256) as u8
            },
    )
}

/// The address that an authority `host:port` names. A host in brackets is an IPv6 address, and
/// white space may surround its port; any other host ends at the last colon and is an IPv4
/// address where it reads as one, else a domain.
pub open spec fn authority_value(s: Seq<char>) -> Option<AddressView> {
    if s.len() > 0 && s[0] == '[' {
        let close = text::first_index(s, ']', 0);
        let rest = s.skip(close + 1);
        let port = text::unsigned_value(text::trimmed(rest.skip(1)), 65535);
        let host = ip::ipv6_value(s.subrange(1, close));
        if close >= 0 && rest.len() > 0 && rest[0] == ':' && port is Some && host is Some {
            Some(AddressView::IPv6(octets_of(host->0), port->0 as u16))
        } else {
            None
        }
    } else {
        let colon = text::last_index(s, ':');
        let port = text::unsigned_value(s.skip(colon + 1), 65535);
        let host = s.take(colon);
        if colon >= 0 && port is Some {
            match ip::ipv4_value(host) {
                Some(o) => Some(AddressView::IPv4(o, port->0 as u16)),
                None => Some(AddressView::Domain(host, port->0 as u16)),
            }
        } else {
            None
        }
    }
}

/// The bytes of the groups of an address are the bytes of the address.
pub proof fn lemma_octets_of_segments(o: Seq<u8>)
    requires
        o.len() == 16,
    ensures
        octets_of(ip::segments(o)) == o,
{
    assert forall|i: int| 0 <= i < 16 implies #[trigger] octets_of(ip::segments(o))[i] == o[i] by {
        assert(ip::segments(o)[i / 2] == ip::group_of(o[2 * (i / 2)], o[2 * (i / 2) + 1]));
        if i % 2 == 0 {
            assert(2 * (i / 2) == i);
        } else {
            assert(2 * (i / 2) + 1 == i);
        }
    }
    assert(octets_of(ip::segments(o)) =~= o);
}

impl Address {
    /// Reads an authority `host:port`.
    pub fn from_authority(authority: &str) -> (r: Option<Address>)
        ensures
            match r {
                Some(a) => authority_value(authority@) == Some(a@),
                None => authority_value(authority@) is None,
            },
    {
        let chars: Vec<char> = text::chars_of(authority);
        let s: &[char] = chars.as_slice();
        let n: usize = s.len();
        if n > 0 && s[0] == '[' {
            let close: usize = match text::find_first(s, ']') {
                Some(i) => i,
                None => {
                    return None;
                },
            };
            let ghost rest = s@.skip(close + 1);
            if n - close < 2 || s[close + 1] != ':' {
                assert(rest.len() == 0 || rest[0] != ':');
                return None;
            }
            assert(close >= 1);
            assert(rest[0] == ':');
            let port_chars: &[char] = text::trim(vstd::slice::slice_subrange(s, close + 2, n));
            assert(s@.subrange(close + 2, n as int) =~= rest.skip(1));
            let port: u64 = match text::parse_unsigned(port_chars, 65535) {
                Some(p) => p,
                None => {
                    return None;
                },
            };
            return match ip::parse_ipv6(vstd::slice::slice_subrange(s, 1, close)) {
                Some(o) => {
                    proof {
                        lemma_octets_of_segments(o@);
                    }
                    Some(Address::IPv6(o, port as u16))
                },
                None => None,
            };
        }
        let colon: usize = match text::find_last(s, ':') {
            Some(i) => i,
            None => {
                return None;
            },
        };
        assert(s@.subrange(colon + 1, n as int) =~= s@.skip(colon + 1));
        assert(s@.subrange(0, colon as int) =~= s@.take(colon as int));
        let host: &[char] = vstd::slice::slice_subrange(s, 0, colon);
        let port: u64 = match text::parse_unsigned(
            vstd::slice::slice_subrange(s, colon + 1, n),
            65535,
        ) {
            Some(p) => p,
            None => {
                return None;
            },
        };
        match ip::parse_ipv4(host) {
            Some(o) => Some(Address::IPv4(o, port as u16)),
            None => Some(Address::Domain(text::string_of(host), port as u16)),
        }
    }

    /// The port.
    pub fn port(&self) -> (r: u16)
        ensures
            r == port_of(self@),
    {
        match self {
            Address::IPv4(_, port) => *port,
            Address::IPv6(_, port) => *port,
            Address::Domain(_, port) => *port,
        }
    }

    fn host_chars(&self) -> (r: Vec<char>)
        ensures
            r@ == host_text(self@),
    {
        let mut out: Vec<char> = Vec::new();
        match self {
            Address::IPv4(o, _) => {
                ip::push_ipv4(&mut out, o);
                assert(out@ =~= host_text(self@));
                out
            },
            Address::IPv6(o, _) => {
                ip::push_ipv6(&mut out, o);
                assert(out@ =~= host_text(self@));
                out
            },
            Address::Domain(d, _) => text::chars_of(d.as_str()),
        }
    }

    /// The host: the domain as it stands, or the text of the IP address.
    pub fn host(&self) -> (r: Cow<'_, str>)
        ensures
            r@ == host_text(self@),
            (r is Borrowed) == (self is Domain),
    {
        match self {
            Address::Domain(d, _) => Cow::Borrowed(d.as_str()),
            _ => Cow::Owned(text::string_of(self.host_chars().as_slice())),
        }
    }

    /// The text `host:port`, with brackets around an IPv6 host.
    pub fn to_string(&self) -> (r: String)
        ensures
            r@ == address_text(self@),
    {
        let host: Vec<char> = self.host_chars();
        let mut out: Vec<char> = Vec::new();
        let v6: bool = match self {
            Address::IPv6(_, _) => true,
            _ => false,
        };
        if v6 {
            out.push('[');
        }
        text::push_chars(&mut out, host.as_slice());
        if v6 {
            out.push(']');
        }
        out.push(':');
        text::push_number(&mut out, self.port() as u64, 10);
        assert(out@ =~= address_text(self@));
        text::string_of(out.as_slice())
    }
}

proof fn lemma_last_index_join(a: Seq<char>, b: Seq<char>)
    requires
        !b.contains(':'),
    ensures
        text::last_index(a + seq![':'] + b, ':') == a.len(),
    decreases b.len(),
{
    let s = a + seq![':'] + b;
    if b.len() > 0 {
        assert(b.contains(b.last()));
        assert(s.last() == b.last());
        let b1 = b.drop_last();
        assert(!b1.contains(':')) by {
            if b1.contains(':') {
                let i = choose|i: int| 0 <= i < b1.len() && b1[i] == ':';
                assert(b[i] == ':');
            }
        }
        lemma_last_index_join(a, b1);
        assert(s.drop_last() =~= a + seq![':'] + b1);
    } else {
        assert(s.last() == ':');
    }
}

proof fn lemma_port_text(port: u16)
    ensures
        text::unsigned_value(text::decimal_text(port as nat), 65535) == Some(port as nat),
        !text::decimal_text(port as nat).contains(':'),
        text::trimmed(text::decimal_text(port as nat)) == text::decimal_text(port as nat),
{
    let t = text::decimal_text(port as nat);
    text::lemma_decimal_text(port as nat);
    assert(text::is_digit(t[0]));
    assert(text::is_digit(t[t.len() - 1]));
    if t.contains(':') {
        let i = choose|i: int| 0 <= i < t.len() && t[i] == ':';
        assert(text::is_digit(t[i]));
    }
    text::lemma_trimmed_id(t);
}

/// Reading the text of an address gives the address back, but for a domain that starts with a
/// bracket or reads as an IPv4 address.
pub proof fn law_authority_round_trip(a: AddressView)
    requires
        match a {
            AddressView::IPv4(o, _) => o.len() == 4,
            AddressView::IPv6(o, _) => o.len() == 16,
            AddressView::Domain(d, _) => (d.len() > 0 ==> d[0] != '[') && ip::ipv4_value(
                d,
            ) is None,
        },
    ensures
        authority_value(address_text(a)) == Some(a),
{
    let s = address_text(a);
    let port = text::decimal_text(port_of(a) as nat);
    let host = host_text(a);
    lemma_port_text(port_of(a));
    match a {
        AddressView::IPv6(o, p) => {
            let g = ip::segments(o);
            ip::law_ipv6_round_trip(g);
            lemma_octets_of_segments(o);
            ip::lemma_ipv6_chars(g);
            let close = host.len() as int + 1;
            assert(s[close] == ']');
            assert forall|j: int| 0 <= j < close implies s[j] != ']' by {
                if j > 0 {
                    assert(s[j] == host[j - 1]);
                    assert(host.contains(host[j - 1]));
                }
            }
            text::lemma_first_index(s, ']', 0, close);
            assert(s.subrange(1, close) =~= host);
            let rest = s.skip(close + 1);
            assert(rest =~= seq![':'] + port);
            assert(rest.skip(1) =~= port);
        },
        _ => {
            lemma_last_index_join(host, port);
            assert(s =~= host + seq![':'] + port);
            assert(s.skip(host.len() as int + 1) =~= port);
            assert(s.take(host.len() as int) =~= host);
            if a is IPv4 {
                let o = a->IPv4_0;
                ip::law_ipv4_round_trip(o);
                ip::lemma_ipv4_chars(o);
            }
            assert(s[0] != '[') by {
                if host.len() > 0 {
                    assert(s[0] == host[0]);
                    assert(host.contains(host[0]));
                } else {
                    assert(s[0] == ':');
                }
            }
        },
    }
}

/// The text of an address is its host, a colon and its port in decimal, with brackets around an
/// IPv6 host; the host is the address in its own text, or the domain as it stands.
pub proof fn law_address_text_is_host_and_port(a: AddressView)
    ensures
        match a {
            AddressView::IPv4(o, p) => host_text(a) == ip::ipv4_text(o) && port_of(a) == p
                && address_text(a) == ip::ipv4_text(o) + seq![':'] + text::decimal_text(p as nat),
            AddressView::IPv6(o, p) => host_text(a) == ip::ipv6_text(ip::segments(o)) && port_of(a)
                == p && address_text(a) == seq!['['] + ip::ipv6_text(ip::segments(o)) + seq![
                ']',
                ':',
            ] + text::decimal_text(p as nat),
            AddressView::Domain(d, p) => host_text(a) == d && port_of(a) == p && address_text(a) == d
                + seq![':'] + text::decimal_text(p as nat),
        },
{
    let p = text::decimal_text(port_of(a) as nat);
    match a {
        AddressView::IPv6(o, _) => {
            let h = host_text(a);
            assert(address_text(a) =~= seq!['['] + h + seq![']', ':'] + p);
        },
        _ => {
            let h = host_text(a);
            assert(address_text(a) =~= h + seq![':'] + p);
        },
    }
}

/// An authority without brackets is what stands before its last colon and the port behind it: an
/// IPv4 address where the host is one, else a domain. It names nothing without a colon, and
/// nothing where what follows is no port.
pub proof fn law_plain_authority(host: Seq<char>, port: Seq<char>, s: Seq<char>)
    requires
        host.len() > 0 ==> host[0] != '[',
        !port.contains(':'),
        !s.contains(':'),
        s.len() > 0 ==> s[0] != '[',
    ensures
        authority_value(s) is None,
        text::unsigned_value(port, 65535) is None ==> authority_value(host + seq![':'] + port)
            is None,
        text::unsigned_value(port, 65535) matches Some(p) ==> authority_value(
            host + seq![':'] + port,
        ) == Some(
            match ip::ipv4_value(host) {
                Some(o) => AddressView::IPv4(o, p as u16),
                None => AddressView::Domain(host, p as u16),
            },
        ),
{
    let t = host + seq![':'] + port;
    lemma_last_index_join(host, port);
    assert(t.skip(host.len() as int + 1) =~= port);
    assert(t.take(host.len() as int) =~= host);
    assert(t[0] != '[') by {
        if host.len() > 0 {
            assert(t[0] == host[0]);
        } else {
            assert(t[0] == ':');
        }
    }
    text::law_last_index(s, ':');
}

/// An authority in brackets is an IPv6 address and, behind a colon, a port that white space may
/// surround. It names nothing where the brackets are not closed, where no colon follows them, or
/// where either part is not what it should be.
pub proof fn law_bracketed_authority(host: Seq<char>, rest: Seq<char>, port: Seq<char>)
    requires
        !host.contains(']'),
        rest.len() > 0 ==> rest[0] != ':',
    ensures
        authority_value(seq!['['] + host) is None,
        authority_value(seq!['['] + host + seq![']'] + rest) is None,
        authority_value(seq!['['] + host + seq![']', ':'] + port) == (match (
            ip::ipv6_value(host),
            text::unsigned_value(text::trimmed(port), 65535),
        ) {
            (Some(g), Some(p)) => Some(AddressView::IPv6(octets_of(g), p as u16)),
            _ => None,
        }),
{
    let open = seq!['['] + host;
    assert forall|j: int| 0 <= j < open.len() implies open[j] != ']' by {
        if j > 0 {
            assert(open[j] == host[j - 1]);
            assert(host.contains(host[j - 1]));
        }
    }
    text::law_first_index(open, ']');
    assert(!open.contains(']'));
    let close = host.len() as int + 1;
    let a = seq!['['] + host + seq![']'] + rest;
    assert forall|j: int| 0 <= j < close implies a[j] != ']' by {
        assert(a[j] == open[j]);
    }
    text::lemma_first_index(a, ']', 0, close);
    assert(a.skip(close + 1) =~= rest);
    let b = seq!['['] + host + seq![']', ':'] + port;
    assert forall|j: int| 0 <= j < close implies b[j] != ']' by {
        assert(b[j] == open[j]);
    }
    text::lemma_first_index(b, ']', 0, close);
    assert(b.subrange(1, close) =~= host);
    assert(b.skip(close + 1) =~= seq![':'] + port);
    assert(b.skip(close + 1).skip(1) =~= port);
}

} // verus!
