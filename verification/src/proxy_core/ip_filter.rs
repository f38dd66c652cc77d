//! Which IP addresses a client may not reach directly.

use crate::proxy_core::ip::IpAddr;
use vstd::prelude::*;

verus! {

/// Whether an IPv4 address is loopback (127/8), private (10/8, 172.16/12, 192.168/16),
/// link-local (169.254/16), "this network" (0/8), shared (100.64/10), protocol-assigned
/// (192.0.0/24), broadcast or multicast (224/4).
pub open spec fn private_v4(o: Seq<u8>) -> bool {
    ||| o[0] == 127
    ||| o[0] == 10
    ||| o[0] == 172 && 16 <= o[1] <= 31
    ||| o[0] == 192 && o[1] == 168
    ||| o[0] == 169 && o[1] == 254
    ||| o[0] == 0
    ||| o[0] == 100 && 64 <= o[1] <= 127
    ||| o[0] == 192 && o[1] == 0 && o[2] == 0
    ||| o[0] == 255 && o[1] == 255 && o[2] == 255 && o[3] == 255
    ||| 224 <= o[0] <= 239
}

/// Whether an IPv6 address is loopback (`::1`), unique local (`fc00::/7`) or link-local
/// (`fe80::/10`).
pub open spec fn private_v6(o: Seq<u8>) -> bool {
    ||| (forall|i: int| 0 <= i < 15 ==> #[trigger] o[i] == 0) && o[15] == 1
    ||| o[0] == 0xfc || o[0] == 0xfd
    ||| o[0] == 0xfe && 0x80 <= o[1] <= 0xbf
}

/// Whether an IP address may not be reached directly.
pub open spec fn private_ip(a: IpAddr) -> bool {
    match a {
        IpAddr::V4(o) => private_v4(o@),
        IpAddr::V6(o) => private_v6(o@),
    }
}

/// Whether an IPv4 address may not be reached directly.
pub fn is_private_ipv4(o: &[u8; 4]) -> (r: bool)
    ensures
        r == private_v4(o@),
        r == in_reserved_v4(big_endian(o@)),
{
    proof {
        law_private_v4_is_reserved(o@);
    }
    let (a, b, c, d): (u8, u8, u8, u8) = (o[0], o[1], o[2], o[3]);
    a == 127 || a == 10 || (a == 172 && 16 <= b && b <= 31) || (a == 192 && b == 168) || (a == 169
        && b == 254) || a == 0 || (a == 100 && 64 <= b && b <= 127) || (a == 192 && b == 0 && c
        == 0) || (a == 255 && b == 255 && c == 255 && d == 255) || (224 <= a && a <= 239)
}

fn is_loopback_ipv6(o: &[u8; 16]) -> (r: bool)
    ensures
        r == ((forall|i: int| 0 <= i < 15 ==> #[trigger] o@[i] == 0) && o@[15] == 1),
{
    let mut i: usize = 0;
    while i < 15
        invariant
            i <= 15,
            forall|j: int| 0 <= j < i ==> #[trigger] o@[j] == 0,
        decreases 15 - i,
    {
        if o[i] != 0 {
            assert(o@[i as int] != 0);
            return false;
        }
        i += 1;
    }
    o[15] == 1
}

fn is_ipv6_ula(o: &[u8; 16]) -> (r: bool)
    ensures
        r == (o@[0] == 0xfc || o@[0] == 0xfd),
{
    o[0] == 0xfc || o[0] == 0xfd
}

fn is_ipv6_link_local(o: &[u8; 16]) -> (r: bool)
    ensures
        r == (o@[0] == 0xfe && 0x80 <= o@[1] <= 0xbf),
{
    o[0] == 0xfe && 0x80 <= o[1] && o[1] <= 0xbf
}

/// Whether an IPv6 address may not be reached directly.
pub fn is_private_ipv6(o: &[u8; 16]) -> (r: bool)
    ensures
        r == private_v6(o@),
        r == in_reserved_v6(o@),
{
    proof {
        law_private_v6_is_reserved(o@);
    }
    is_loopback_ipv6(o) || is_ipv6_ula(o) || is_ipv6_link_local(o)
}

/// Whether an IP address may not be reached directly.
pub fn is_private_ip(a: &IpAddr) -> (r: bool)
    ensures
        r == private_ip(*a),
        r == in_reserved(*a),
{
    match a {
        IpAddr::V4(o) => is_private_ipv4(o),
        IpAddr::V6(o) => is_private_ipv6(o),
    }
}

/// The number that bytes stand for, most significant first.
pub open spec fn big_endian(o: Seq<u8>) -> nat
    decreases o.len(),
{
    if o.len() == 0 {
        0
    } else {
        big_endian(o.drop_last()) * 256 + o.last() as nat
    }
}

/// Whether two addresses lie in the same block of that size: they share the bits in front.
pub open spec fn same_block(n: nat, base: nat, size: nat) -> bool {
    n / size == base / size
}

/// Whether the number of an IPv4 address lies in 10.0.0.0/8, 172.16.0.0/12, 192.168.0.0/16,
/// 127.0.0.0/8, 169.254.0.0/16, 0.0.0.0/8, 100.64.0.0/10, 192.0.0.0/24, 224.0.0.0/4 or
/// 255.255.255.255/32.
pub open spec fn in_reserved_v4(n: nat) -> bool {
    ||| same_block(n, 0x0a00_0000, 0x100_0000)
    ||| same_block(n, 0xac10_0000, 0x10_0000)
    ||| same_block(n, 0xc0a8_0000, 0x1_0000)
    ||| same_block(n, 0x7f00_0000, 0x100_0000)
    ||| same_block(n, 0xa9fe_0000, 0x1_0000)
    ||| same_block(n, 0x0000_0000, 0x100_0000)
    ||| same_block(n, 0x6440_0000, 0x40_0000)
    ||| same_block(n, 0xc000_0000, 0x100)
    ||| same_block(n, 0xe000_0000, 0x1000_0000)
    ||| n == 0xffff_ffff
}

/// Whether the bytes of an IPv6 address are those of `::1`, or lie in `fc00::/7` or `fe80::/10`.
pub open spec fn in_reserved_v6(o: Seq<u8>) -> bool {
    ||| big_endian(o) == 1
    ||| same_block(big_endian(o.take(2)), 0xfc00, 0x200)
    ||| same_block(big_endian(o.take(2)), 0xfe80, 0x40)
}

/// Whether an IP address lies in one of the reserved blocks.
pub open spec fn in_reserved(a: IpAddr) -> bool {
    match a {
        IpAddr::V4(o) => in_reserved_v4(big_endian(o@)),
        IpAddr::V6(o) => in_reserved_v6(o@),
    }
}

proof fn lemma_big_endian_two(a: u8, b: u8)
    ensures
        big_endian(seq![a, b]) == a * 256 + b,
{
    reveal_with_fuel(big_endian, 3);
    assert(seq![a, b].drop_last() =~= seq![a]);
    assert(seq![a].drop_last() =~= Seq::<u8>::empty());
}

proof fn lemma_big_endian_four(o: Seq<u8>)
    requires
        o.len() == 4,
    ensures
        big_endian(o) == o[0] * 0x100_0000 + o[1] * 0x1_0000 + o[2] * 0x100 + o[3],
{
    reveal_with_fuel(big_endian, 5);
    assert(o.drop_last().drop_last().drop_last().drop_last() =~= Seq::<u8>::empty());
}

proof fn lemma_big_endian_zero(o: Seq<u8>)
    ensures
        big_endian(o) == 0 <==> forall|i: int| 0 <= i < o.len() ==> #[trigger] o[i] == 0,
    decreases o.len(),
{
    if o.len() > 0 {
        let init = o.drop_last();
        lemma_big_endian_zero(init);
        if big_endian(o) == 0 {
            assert forall|i: int| 0 <= i < o.len() implies #[trigger] o[i] == 0 by {
                if i < init.len() {
                    assert(init[i] == 0);
                }
            }
        } else if forall|i: int| 0 <= i < o.len() ==> #[trigger] o[i] == 0 {
            assert forall|i: int| 0 <= i < init.len() implies #[trigger] init[i] == 0 by {
                assert(o[i] == 0);
            }
            assert(o[o.len() - 1] == 0);
        }
    }
}

/// An IPv4 address may not be reached directly if and only if it shares its first bits with one of
/// the reserved blocks: what counts is its number, and all of a block counts.
pub proof fn law_private_v4_is_reserved(o: Seq<u8>)
    requires
        o.len() == 4,
    ensures
        private_v4(o) <==> in_reserved_v4(big_endian(o)),
{
    lemma_big_endian_four(o);
    let n = big_endian(o);
    assert(n / 0x100_0000 == o[0]);
    assert(n / 0x1_0000 == o[0] * 256 + o[1]);
    assert(n / 0x100 == o[0] * 0x1_0000 + o[1] * 256 + o[2]);
    assert(n / 0x10_0000 == o[0] * 16 + o[1] / 16);
    assert(n / 0x40_0000 == o[0] * 4 + o[1] / 64);
    assert(n / 0x1000_0000 == o[0] / 16);
}

/// An IPv6 address may not be reached directly if and only if it is the loopback address, or
/// shares its first seven bits with `fc00::` or its first ten with `fe80::`.
pub proof fn law_private_v6_is_reserved(o: Seq<u8>)
    requires
        o.len() == 16,
    ensures
        private_v6(o) <==> in_reserved_v6(o),
{
    assert(o.take(2) =~= seq![o[0], o[1]]);
    lemma_big_endian_two(o[0], o[1]);
    let init = o.drop_last();
    lemma_big_endian_zero(init);
    assert((forall|i: int| 0 <= i < 15 ==> #[trigger] o[i] == 0) <==> big_endian(init) == 0) by {
        if forall|i: int| 0 <= i < 15 ==> #[trigger] o[i] == 0 {
            assert forall|i: int| 0 <= i < init.len() implies #[trigger] init[i] == 0 by {
                assert(o[i] == 0);
            }
        }
        if big_endian(init) == 0 {
            assert forall|i: int| 0 <= i < 15 implies #[trigger] o[i] == 0 by {
                assert(init[i] == 0);
            }
        }
    }
    assert(big_endian(o) == big_endian(init) * 256 + o[15]);
}

/// An IP address may not be reached directly if and only if it lies in one of the reserved blocks
/// of its version.
pub proof fn law_private_ip_is_reserved(a: IpAddr)
    ensures
        private_ip(a) <==> in_reserved(a),
{
    match a {
        IpAddr::V4(o) => law_private_v4_is_reserved(o@),
        IpAddr::V6(o) => law_private_v6_is_reserved(o@),
    }
}

} // verus!
