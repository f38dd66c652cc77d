//! IP addresses, socket addresses and their text forms.
//!
//! An IPv4 address is written in dotted decimal, without leading zeros. An IPv6 address is
//! written as groups of hexadecimal digits; `::` stands for at least one group of zeros, and
//! the last two groups may be written as an IPv4 address.

use crate::text;
use vstd::prelude::*;

verus! {

/// An IP address.
#[derive(Debug, Clone, Copy, PartialEq, Eq)]
pub enum IpAddr {
    V4([u8; 4]),
    V6([u8; 16]),
}

/// An IP address and a port.
#[derive(Debug, Clone, Copy, PartialEq, Eq)]
pub struct SocketAddr {
    pub ip: IpAddr,
    pub port: u16,
}

/// The parts joined by a separator.
pub open spec fn join(parts: Seq<Seq<char>>, sep: char) -> Seq<char>
    decreases parts.len(),
{
    if parts.len() == 0 {
        Seq::empty()
    } else if parts.len() == 1 {
        parts[0]
    } else {
        join(parts.drop_last(), sep) + seq![sep] + parts.last()
    }
}

/// Whether every part has characters and none holds the separator.
pub open spec fn clean_parts(parts: Seq<Seq<char>>, sep: char) -> bool {
    forall|i: int|
        0 <= i < parts.len() ==> (#[trigger] parts[i]).len() > 0 && !parts[i].contains(sep)
}

/// Splitting what was joined gives the parts back.
proof fn lemma_pieces_of_join(parts: Seq<Seq<char>>, sep: char)
    requires
        parts.len() > 0,
        clean_parts(parts, sep),
    ensures
        text::pieces(join(parts, sep), sep) == parts,
    decreases parts.len(),
{
    if parts.len() == 1 {
        text::lemma_pieces_single(parts[0], sep);
        assert(seq![parts[0]] =~= parts);
    } else {
        let init = parts.drop_last();
        assert forall|i: int| 0 <= i < init.len() implies (#[trigger] init[i]).len() > 0
            && !init[i].contains(sep) by {
            assert(init[i] == parts[i]);
        }
        lemma_pieces_of_join(init, sep);
        assert(parts[parts.len() - 1] == parts.last());
        text::lemma_pieces_single(parts.last(), sep);
        text::lemma_pieces_join(join(init, sep), parts.last(), sep);
        assert(init + seq![parts.last()] =~= parts);
    }
}

/// The number in one part of a dotted address: one to three digits, no leading zero, at
/// most 255.
pub open spec fn octet_value(p: Seq<char>) -> Option<u8> {
    if 1 <= p.len() <= 3 && text::all_digits(p) && (p.len() > 1 ==> p[0] != '0')
        && text::decimal_value(p) <= 255 {
        Some(text::decimal_value(p) as u8)
    } else {
        None
    }
}

/// The four numbers of a dotted address.
pub open spec fn ipv4_value(s: Seq<char>) -> Option<Seq<u8>> {
    let p = text::pieces(s, '.');
    if p.len() == 4 && octet_value(p[0]) is Some && octet_value(p[1]) is Some && octet_value(
        p[2],
    ) is Some && octet_value(p[3]) is Some {
        Some(
            seq![
                octet_value(p[0])->0,
                octet_value(p[1])->0,
                octet_value(p[2])->0,
                octet_value(p[3])->0,
            ],
        )
    } else {
        None
    }
}

/// The dotted text of an IPv4 address.
pub open spec fn ipv4_text(o: Seq<u8>) -> Seq<char> {
    join(o.map_values(|b: u8| text::decimal_text(b as nat)), '.')
}

/// Reads one part of a dotted address.
fn parse_octet(p: &[char]) -> (r: Option<u8>)
    ensures
        r == octet_value(p@),
{
    if p.len() < 1 || p.len() > 3 {
        return None;
    }
    if p.len() > 1 && p[0] == '0' {
        return None;
    }
    if p[0] == '+' {
        assert(!text::is_digit(p@[0]));
        return None;
    }
    match text::parse_unsigned(p, 255) {
        Some(v) => Some(v as u8),
        None => None,
    }
}

/// Reads a dotted IPv4 address.
pub fn parse_ipv4(s: &[char]) -> (r: Option<[u8; 4]>)
    ensures
        match r {
            Some(o) => ipv4_value(s@) == Some(o@),
            None => ipv4_value(s@) is None,
        },
{
    let parts: Vec<Vec<char>> = text::split_at_each(s, '.');
    let ghost p = text::pieces(s@, '.');
    assert(p == text::texts(parts@));
    if parts.len() != 4 {
        return None;
    }
    assert(p[0] == parts@[0]@ && p[1] == parts@[1]@ && p[2] == parts@[2]@ && p[3] == parts@[3]@);
    match (
        parse_octet(parts[0].as_slice()),
        parse_octet(parts[1].as_slice()),
        parse_octet(parts[2].as_slice()),
        parse_octet(parts[3].as_slice()),
    ) {
        (Some(a), Some(b), Some(c), Some(d)) => {
            let o: [u8; 4] = [a, b, c, d];
            assert(o@ =~= seq![a, b, c, d]);
            Some(o)
        },
        _ => None,
    }
}

proof fn lemma_digits_exclude(s: Seq<char>, sep: char)
    requires
        text::all_hex(s) || text::all_digits(s),
        sep == '.' || sep == ':',
    ensures
        !s.contains(sep),
{
    if s.contains(sep) {
        let i = choose|i: int| 0 <= i < s.len() && s[i] == sep;
        assert(text::is_hex_digit(s[i]) || text::is_digit(s[i]));
    }
}

/// The text of a byte reads back as the byte.
proof fn lemma_octet_text(b: u8)
    ensures
        octet_value(text::decimal_text(b as nat)) == Some(b),
        !text::decimal_text(b as nat).contains('.'),
        !text::decimal_text(b as nat).contains(':'),
        text::decimal_text(b as nat).len() > 0,
{
    let t = text::decimal_text(b as nat);
    text::lemma_decimal_text(b as nat);
    lemma_digits_exclude(t, '.');
    lemma_digits_exclude(t, ':');
    text::lemma_decimal_text((b / 10) as nat);
    text::lemma_decimal_text((b / 100) as nat);
    reveal_with_fuel(text::number_text, 4);
}

/// Reading the text of an IPv4 address gives the address back.
pub proof fn law_ipv4_round_trip(o: Seq<u8>)
    requires
        o.len() == 4,
    ensures
        ipv4_value(ipv4_text(o)) == Some(o),
{
    let parts = o.map_values(|b: u8| text::decimal_text(b as nat));
    assert forall|i: int| 0 <= i < parts.len() implies (#[trigger] parts[i]).len() > 0
        && !parts[i].contains('.') by {
        lemma_octet_text(o[i]);
    }
    lemma_pieces_of_join(parts, '.');
    lemma_octet_text(o[0]);
    lemma_octet_text(o[1]);
    lemma_octet_text(o[2]);
    lemma_octet_text(o[3]);
    assert(ipv4_value(ipv4_text(o))->0 =~= o);
}

/// Appends the dotted text of an IPv4 address.
pub fn push_ipv4(out: &mut Vec<char>, o: &[u8; 4])
    ensures
        final(out)@ == old(out)@ + ipv4_text(o@),
{
    let ghost parts = o@.map_values(|b: u8| text::decimal_text(b as nat));
    let mut i: usize = 0;
    assert(old(out)@ + join(parts.take(0), '.') =~= old(out)@);
    while i < 4
        invariant
            i <= 4,
            parts == o@.map_values(|b: u8| text::decimal_text(b as nat)),
            parts.len() == 4,
            out@ == old(out)@ + join(parts.take(i as int), '.'),
        decreases 4 - i,
    {
        if i > 0 {
            out.push('.');
        }
        text::push_number(out, o[i] as u64, 10);
        proof {
            let t = parts.take(i + 1);
            assert(t.drop_last() =~= parts.take(i as int));
            assert(t.last() == text::decimal_text(o@[i as int] as nat));
            if i == 0 {
                assert(parts.take(0) =~= Seq::<Seq<char>>::empty());
                assert(join(t, '.') == t[0]);
                assert(out@ =~= old(out)@ + join(t, '.'));
            } else {
                assert(out@ =~= old(out)@ + (join(parts.take(i as int), '.') + seq!['.']
                    + t.last()));
            }
        }
        i += 1;
    }
    assert(parts.take(4) =~= parts);
}

/// The number in one group of an IPv6 address: one to four hexadecimal digits.
pub open spec fn group_value(p: Seq<char>) -> Option<u16> {
    if 1 <= p.len() <= 4 && text::all_hex(p) {
        Some(text::hex_value(p) as u16)
    } else {
        None
    }
}

/// The numbers of groups that are all hexadecimal.
pub open spec fn hex_groups(p: Seq<Seq<char>>) -> Option<Seq<u16>> {
    if forall|i: int| 0 <= i < p.len() ==> group_value(#[trigger] p[i]) is Some {
        Some(Seq::new(p.len(), |i: int| group_value(p[i])->0))
    } else {
        None
    }
}

/// The number whose two bytes are `hi` and `lo`.
pub open spec fn group_of(hi: u8, lo: u8) -> u16 {
    (hi * 256 + lo) as u16
}

/// The numbers of a run of groups; its last two may be written as an IPv4 address where
/// `dotted_tail` allows it. No text at all is no groups.
pub open spec fn groups_value(s: Seq<char>, dotted_tail: bool) -> Option<Seq<u16>> {
    let p = text::pieces(s, ':');
    if s.len() == 0 {
        Some(Seq::empty())
    } else if dotted_tail && ipv4_value(p.last()) is Some {
        let o = ipv4_value(p.last())->0;
        match hex_groups(p.drop_last()) {
            Some(h) => Some(h + seq![group_of(o[0], o[1]), group_of(o[2], o[3])]),
            None => None,
        }
    } else {
        hex_groups(p)
    }
}

/// The first `::` at or behind index `i`; `-1` if there is none.
pub open spec fn find_double(s: Seq<char>, i: int) -> int
    decreases s.len() - i,
{
    if i + 1 >= s.len() {
        -1
    } else if s[i] == ':' && s[i + 1] == ':' {
        i
    } else {
        find_double(s, i + 1)
    }
}

/// A run of zeros.
pub open spec fn zeros(n: int) -> Seq<u16> {
    Seq::new(n as nat, |i: int| 0u16)
}

/// The eight groups of an IPv6 address: written out in full, or with one `::` in place of at
/// least one group of zeros.
pub open spec fn ipv6_value(s: Seq<char>) -> Option<Seq<u16>> {
    let k = find_double(s, 0);
    if k < 0 {
        match groups_value(s, true) {
            Some(g) => if g.len() == 8 {
                Some(g)
            } else {
                None
            },
            None => None,
        }
    } else {
        match (groups_value(s.take(k), false), groups_value(s.skip(k + 2), true)) {
            (Some(h), Some(t)) => if h.len() + t.len() <= 7 {
                Some(h + zeros(8 - h.len() - t.len()) + t)
            } else {
                None
            },
            _ => None,
        }
    }
}

/// The groups of an IPv6 address given by its bytes.
pub open spec fn segments(o: Seq<u8>) -> Seq<u16> {
    Seq::new(8, |i: int| group_of(o[2 * i], o[2 * i + 1]))
}

proof fn lemma_hex_bound(p: Seq<char>)
    requires
        text::all_hex(p),
        p.len() <= 4,
    ensures
        p.len() == 0 ==> text::hex_value(p) == 0,
        p.len() == 1 ==> text::hex_value(p) < 16,
        p.len() == 2 ==> text::hex_value(p) < 256,
        p.len() == 3 ==> text::hex_value(p) < 4096,
        p.len() == 4 ==> text::hex_value(p) < 65536,
    decreases p.len(),
{
    if p.len() > 0 {
        let q = p.drop_last();
        assert forall|i: int| 0 <= i < q.len() implies text::is_hex_digit(#[trigger] q[i]) by {
            assert(q[i] == p[i]);
        }
        lemma_hex_bound(q);
        assert(text::is_hex_digit(p[p.len() - 1]));
        assert(text::hex_digit_value(p.last()) < 16);
    }
}

/// Reads one group of an IPv6 address.
fn parse_group(p: &[char]) -> (r: Option<u16>)
    ensures
        r == group_value(p@),
{
    if p.len() < 1 || p.len() > 4 {
        return None;
    }
    let mut value: u32 = 0;
    let mut i: usize = 0;
    assert(p@.take(0) =~= Seq::<char>::empty());
    while i < p.len()
        invariant
            i <= p@.len() <= 4,
            text::all_hex(p@.take(i as int)),
            value == text::hex_value(p@.take(i as int)),
        decreases p@.len() - i,
    {
        let c: char = p[i];
        let ghost next = p@.take(i + 1);
        proof {
            assert(next.drop_last() =~= p@.take(i as int));
            assert(next.last() == c);
            lemma_hex_bound(p@.take(i as int));
        }
        let d: u32 = if '0' <= c && c <= '9' {
            c as u32 - '0' as u32
        } else if 'a' <= c && c <= 'f' {
            c as u32 - 'a' as u32 + 10
        } else if 'A' <= c && c <= 'F' {
            c as u32 - 'A' as u32 + 10
        } else {
            assert(!text::is_hex_digit(p@[i as int]));
            return None;
        };
        assert forall|j: int| 0 <= j < next.len() implies text::is_hex_digit(
            #[trigger] next[j],
        ) by {
            if j < i {
                assert(p@.take(i as int)[j] == next[j]);
            }
        }
        value = value * 16 + d;
        i += 1;
    }
    assert(p@.take(p@.len() as int) =~= p@);
    proof {
        lemma_hex_bound(p@);
    }
    Some(value as u16)
}

/// Reads groups that are all hexadecimal: the first `n` parts.
fn parse_hex_groups(parts: &Vec<Vec<char>>, n: usize) -> (r: Option<Vec<u16>>)
    requires
        n <= parts@.len(),
    ensures
        match r {
            Some(g) => hex_groups(text::texts(parts@).take(n as int)) == Some(g@),
            None => hex_groups(text::texts(parts@).take(n as int)) is None,
        },
{
    let mut out: Vec<u16> = Vec::new();
    let mut i: usize = 0;
    let ghost p = text::texts(parts@).take(n as int);
    while i < n
        invariant
            i <= n <= parts@.len(),
            p == text::texts(parts@).take(n as int),
            out@.len() == i,
            forall|j: int|
                0 <= j < i ==> group_value(#[trigger] p[j]) == Some(out@[j]),
        decreases n - i,
    {
        assert(p[i as int] == parts@[i as int]@);
        match parse_group(parts[i].as_slice()) {
            Some(g) => {
                out.push(g);
            },
            None => {
                return None;
            },
        }
        i += 1;
    }
    assert(hex_groups(p)->0 =~= out@);
    Some(out)
}

/// Reads a run of groups.
fn parse_groups(s: &[char], dotted_tail: bool) -> (r: Option<Vec<u16>>)
    ensures
        match r {
            Some(g) => groups_value(s@, dotted_tail) == Some(g@),
            None => groups_value(s@, dotted_tail) is None,
        },
{
    if s.len() == 0 {
        let empty: Vec<u16> = Vec::new();
        assert(empty@ =~= Seq::<u16>::empty());
        return Some(empty);
    }
    let parts: Vec<Vec<char>> = text::split_at_each(s, ':');
    let ghost p = text::pieces(s@, ':');
    let n: usize = parts.len();
    assert(p.last() == parts@[n - 1]@);
    assert(p.take(n as int) =~= p);
    assert(p.take(n - 1) =~= p.drop_last());
    if dotted_tail {
        if let Some(o) = parse_ipv4(parts[n - 1].as_slice()) {
            return match parse_hex_groups(&parts, n - 1) {
                Some(h) => {
                    let mut g: Vec<u16> = h;
                    g.push(o[0] as u16 * 256 + o[1] as u16);
                    g.push(o[2] as u16 * 256 + o[3] as u16);
                    assert(g@ =~= h@ + seq![group_of(o[0], o[1]), group_of(o[2], o[3])]);
                    Some(g)
                },
                None => None,
            };
        }
    }
    parse_hex_groups(&parts, n)
}

/// Reads an IPv6 address as its eight groups.
fn parse_segments(s: &[char]) -> (r: Option<Vec<u16>>)
    ensures
        match r {
            Some(g) => ipv6_value(s@) == Some(g@) && g@.len() == 8,
            None => ipv6_value(s@) is None,
        },
{
    let mut k: usize = 0;
    let mut found: bool = false;
    while !found && s.len() - k >= 2
        invariant
            k <= s@.len(),
            !found ==> find_double(s@, 0) == find_double(s@, k as int),
            found ==> find_double(s@, 0) == k && k + 1 < s@.len(),
        decreases s@.len() - k + if found { 0int } else { 1int },
    {
        if s[k] == ':' && s[k + 1] == ':' {
            found = true;
        } else {
            k += 1;
        }
    }
    if !found {
        return match parse_groups(s, true) {
            Some(g) => if g.len() == 8 {
                Some(g)
            } else {
                None
            },
            None => None,
        };
    }
    let n: usize = s.len();
    assert(k + 2 <= n);
    let head = match parse_groups(vstd::slice::slice_subrange(s, 0, k), false) {
        Some(h) => h,
        None => {
            return None;
        },
    };
    let tail = match parse_groups(vstd::slice::slice_subrange(s, k + 2, n), true) {
        Some(t) => t,
        None => {
            return None;
        },
    };
    assert(s@.subrange(0, k as int) =~= s@.take(k as int));
    assert(s@.subrange(k + 2, s@.len() as int) =~= s@.skip(k + 2));
    if head.len() > 7 || tail.len() > 7 - head.len() {
        return None;
    }
    let ghost fill = 8 - head@.len() - tail@.len();
    let mut g: Vec<u16> = Vec::new();
    let mut i: usize = 0;
    while i < 8
        invariant
            i <= 8,
            g@.len() == i,
            head@.len() + tail@.len() <= 7,
            forall|j: int|
                0 <= j < i ==> #[trigger] g@[j] == (if j < head@.len() {
                    head@[j]
                } else if j < 8 - tail@.len() {
                    0
                } else {
                    tail@[j - (8 - tail@.len())]
                }),
        decreases 8 - i,
    {
        if i < head.len() {
            g.push(head[i]);
        } else if i < 8 - tail.len() {
            g.push(0);
        } else {
            g.push(tail[i - (8 - tail.len())]);
        }
        i += 1;
    }
    assert(g@ =~= head@ + zeros(fill) + tail@);
    Some(g)
}

/// Reads an IPv6 address.
pub fn parse_ipv6(s: &[char]) -> (r: Option<[u8; 16]>)
    ensures
        match r {
            Some(o) => ipv6_value(s@) == Some(segments(o@)),
            None => ipv6_value(s@) is None,
        },
{
    match parse_segments(s) {
        Some(g) => {
            let mut o: [u8; 16] = [0; 16];
            let mut i: usize = 0;
            while i < 8
                invariant
                    i <= 8,
                    g@.len() == 8,
                    forall|j: int| 0 <= j < i ==> group_of(o@[2 * j], o@[2 * j + 1]) == g@[j],
                decreases 8 - i,
            {
                let ghost before = o@;
                o[2 * i] = (g[i] / 256) as u8;
                o[2 * i + 1] = (g[i] % 256) as u8;
                assert forall|j: int| 0 <= j < i + 1 implies group_of(o@[2 * j], o@[2 * j + 1])
                    == g@[j] by {
                    if j < i {
                        assert(o@[2 * j] == before[2 * j]);
                        assert(o@[2 * j + 1] == before[2 * j + 1]);
                    }
                }
                i += 1;
            }
            assert(segments(o@) =~= g@);
            Some(o)
        },
        None => None,
    }
}

/// How many zeros follow one another from index `i` on.
pub open spec fn zero_run(g: Seq<u16>, i: int) -> nat
    decreases g.len() - i,
{
    if i < 0 || i >= g.len() || g[i] != 0 {
        0
    } else {
        1 + zero_run(g, i + 1)
    }
}

/// The first longest run of zeros at or behind index `i`: its start and its length.
pub open spec fn best_run(g: Seq<u16>, i: int) -> (int, nat)
    decreases g.len() - i,
{
    if i >= g.len() {
        (g.len() as int, 0)
    } else {
        let rest = best_run(g, i + 1);
        let here = zero_run(g, i);
        if here >= rest.1 {
            (i, here)
        } else {
            rest
        }
    }
}

/// Whether the groups are an IPv4 address mapped into IPv6.
pub open spec fn is_mapped(g: Seq<u16>) -> bool {
    g[0] == 0 && g[1] == 0 && g[2] == 0 && g[3] == 0 && g[4] == 0 && g[5] == 0xffff
}

/// The bytes of the last two groups.
pub open spec fn mapped_octets(g: Seq<u16>) -> Seq<u8> {
    seq![(g[6] / 256) as u8, (g[6] % 256) as u8, (g[7] / 256) as u8, (g[7] % 256) as u8]
}

/// The texts of the groups.
pub open spec fn group_texts(g: Seq<u16>) -> Seq<Seq<char>> {
    g.map_values(|x: u16| text::hex_text(x as nat))
}

/// The canonical text of an IPv6 address: the first longest run of two or more zero groups
/// becomes `::`, and a mapped IPv4 address keeps its dotted form.
pub open spec fn ipv6_text(g: Seq<u16>) -> Seq<char> {
    if is_mapped(g) {
        "::ffff:"@ + ipv4_text(mapped_octets(g))
    } else {
        let (start, len) = best_run(g, 0);
        if len > 1 {
            join(group_texts(g.take(start)), ':') + "::"@ + join(
                group_texts(g.skip(start + len)),
                ':',
            )
        } else {
            join(group_texts(g), ':')
        }
    }
}

proof fn lemma_zero_run(g: Seq<u16>, i: int)
    requires
        0 <= i <= g.len(),
    ensures
        i + zero_run(g, i) <= g.len(),
        forall|j: int| i <= j < i + zero_run(g, i) ==> g[j] == 0,
    decreases g.len() - i,
{
    if i < g.len() && g[i] == 0 {
        lemma_zero_run(g, i + 1);
    }
}

proof fn lemma_best_run(g: Seq<u16>, i: int)
    requires
        0 <= i <= g.len(),
    ensures
        i <= best_run(g, i).0 <= g.len(),
        best_run(g, i).1 == zero_run(g, best_run(g, i).0),
    decreases g.len() - i,
{
    if i < g.len() {
        lemma_best_run(g, i + 1);
    }
}

/// Appends groups joined by colons: those from `from` up to `to`.
fn push_groups(out: &mut Vec<char>, g: &Vec<u16>, from: usize, to: usize)
    requires
        from <= to <= g@.len(),
    ensures
        final(out)@ == old(out)@ + join(group_texts(g@.subrange(from as int, to as int)), ':'),
{
    let ghost parts = group_texts(g@.subrange(from as int, to as int));
    let mut i: usize = from;
    assert(parts.take(0) =~= Seq::<Seq<char>>::empty());
    assert(old(out)@ + join(parts.take(0), ':') =~= old(out)@);
    while i < to
        invariant
            from <= i <= to <= g@.len(),
            parts == group_texts(g@.subrange(from as int, to as int)),
            out@ == old(out)@ + join(parts.take(i - from), ':'),
        decreases to - i,
    {
        if i > from {
            out.push(':');
        }
        text::push_number(out, g[i] as u64, 16);
        proof {
            let t = parts.take(i - from + 1);
            assert(t.drop_last() =~= parts.take(i - from));
            assert(t.last() == text::hex_text(g@[i as int] as nat));
            if i == from {
                assert(join(t, ':') == t[0]);
                assert(parts.take(0) =~= Seq::<Seq<char>>::empty());
                assert(out@ =~= old(out)@ + join(t, ':'));
            } else {
                assert(out@ =~= old(out)@ + (join(parts.take(i - from), ':') + seq![':']
                    + t.last()));
            }
        }
        i += 1;
    }
    assert(parts.take(to - from) =~= parts);
}

/// The groups of an IPv6 address.
fn segments_of(o: &[u8; 16]) -> (r: Vec<u16>)
    ensures
        r@ == segments(o@),
{
    let mut g: Vec<u16> = Vec::new();
    let mut i: usize = 0;
    while i < 8
        invariant
            i <= 8,
            g@ == segments(o@).take(i as int),
        decreases 8 - i,
    {
        g.push(o[2 * i] as u16 * 256 + o[2 * i + 1] as u16);
        i += 1;
        assert(g@ =~= segments(o@).take(i as int));
    }
    assert(segments(o@).take(8) =~= segments(o@));
    g
}

/// Appends the canonical text of an IPv6 address.
pub fn push_ipv6(out: &mut Vec<char>, o: &[u8; 16])
    ensures
        final(out)@ == old(out)@ + ipv6_text(segments(o@)),
{
    let g: Vec<u16> = segments_of(o);
    if g[0] == 0 && g[1] == 0 && g[2] == 0 && g[3] == 0 && g[4] == 0 && g[5] == 0xffff {
        proof {
            reveal_strlit("::ffff:");
        }
        out.push(':');
        out.push(':');
        out.push('f');
        out.push('f');
        out.push('f');
        out.push('f');
        out.push(':');
        assert(out@ =~= old(out)@ + "::ffff:"@);
        let v4: [u8; 4] = [
            (g[6] / 256) as u8,
            (g[6] % 256) as u8,
            (g[7] / 256) as u8,
            (g[7] % 256) as u8,
        ];
        assert(v4@ =~= mapped_octets(g@));
        push_ipv4(out, &v4);
        assert(out@ =~= old(out)@ + ipv6_text(g@));
        return ;
    }
    let mut start: usize = 8;
    let mut len: usize = 0;
    let mut run: usize = 0;
    let mut i: usize = 8;
    while i > 0
        invariant
            i <= 8,
            g@.len() == 8,
            best_run(g@, i as int) == (start as int, len as nat),
            run == zero_run(g@, i as int),
            run <= 8 - i,
        decreases i,
    {
        i -= 1;
        if g[i] == 0 {
            run += 1;
        } else {
            run = 0;
        }
        if run >= len {
            start = i;
            len = run;
        }
    }
    proof {
        lemma_best_run(g@, 0);
        lemma_zero_run(g@, start as int);
        reveal_strlit("::");
    }
    if len > 1 {
        assert(g@.subrange(0, start as int) =~= g@.take(start as int));
        assert(g@.subrange(start + len, 8) =~= g@.skip(start + len));
        push_groups(out, &g, 0, start);
        out.push(':');
        out.push(':');
        push_groups(out, &g, start + len, 8);
        assert(out@ =~= old(out)@ + ipv6_text(g@));
    } else {
        assert(g@.subrange(0, 8) =~= g@);
        push_groups(out, &g, 0, 8);
    }
}

proof fn lemma_hex_len(n: nat)
    requires
        n < 65536,
    ensures
        1 <= text::hex_text(n).len() <= 4,
{
    text::lemma_hex_text(n);
    text::lemma_hex_text(n / 16);
    text::lemma_hex_text(n / 16 / 16);
    text::lemma_hex_text(n / 16 / 16 / 16);
}

/// The text of a group reads back as the group, and is no dotted address.
proof fn lemma_group_text(x: u16)
    ensures
        group_value(text::hex_text(x as nat)) == Some(x),
        !text::hex_text(x as nat).contains(':'),
        text::hex_text(x as nat).len() > 0,
        ipv4_value(text::hex_text(x as nat)) is None,
{
    let t = text::hex_text(x as nat);
    text::lemma_hex_text(x as nat);
    lemma_hex_len(x as nat);
    lemma_digits_exclude(t, ':');
    lemma_digits_exclude(t, '.');
    text::lemma_pieces_single(t, '.');
}

proof fn lemma_clean_groups(g: Seq<u16>)
    ensures
        clean_parts(group_texts(g), ':'),
{
    assert forall|i: int| 0 <= i < group_texts(g).len() implies (#[trigger] group_texts(
        g,
    )[i]).len() > 0 && !group_texts(g)[i].contains(':') by {
        lemma_group_text(g[i]);
    }
}

/// Joined groups neither start nor end with a colon, and hold no two colons in a row.
proof fn lemma_join_colons(parts: Seq<Seq<char>>)
    requires
        clean_parts(parts, ':'),
        parts.len() > 0,
    ensures
        join(parts, ':').len() > 0,
        join(parts, ':')[0] != ':',
        join(parts, ':').last() != ':',
        forall|k: int|
            0 <= k < join(parts, ':').len() - 1 ==> !(#[trigger] join(parts, ':')[k] == ':' && join(
                parts,
                ':',
            )[k + 1] == ':'),
    decreases parts.len(),
{
    let s = join(parts, ':');
    let last = parts[parts.len() - 1];
    assert(last.len() > 0 && !last.contains(':'));
    assert forall|k: int| 0 <= k < last.len() implies last[k] != ':' by {
        assert(last.contains(last[k]));
    }
    if parts.len() > 1 {
        let init = parts.drop_last();
        assert forall|i: int| 0 <= i < init.len() implies (#[trigger] init[i]).len() > 0
            && !init[i].contains(':') by {
            assert(init[i] == parts[i]);
        }
        lemma_join_colons(init);
        let a = join(init, ':');
        assert(s == a + seq![':'] + last);
        assert forall|k: int| 0 <= k < s.len() - 1 implies !(#[trigger] s[k] == ':' && s[k + 1]
            == ':') by {
            if k < a.len() - 1 {
                assert(s[k] == a[k] && s[k + 1] == a[k + 1]);
            } else if k == a.len() - 1 {
                assert(s[k] == a.last());
            } else if k == a.len() {
                assert(s[k + 1] == last[0]);
            } else {
                assert(s[k] == last[k - a.len() - 1]);
            }
        }
    }
}

/// Where the first two colons in a row are, in text that has none before `k`.
proof fn lemma_find_double(s: Seq<char>, i: int, k: int)
    requires
        0 <= i <= k,
        forall|j: int| i <= j < k && j + 1 < s.len() ==> !(#[trigger] s[j] == ':' && s[j + 1]
            == ':'),
        k + 1 < s.len() ==> s[k] == ':' && s[k + 1] == ':',
    ensures
        find_double(s, i) == (if k + 1 < s.len() {
            k
        } else {
            -1
        }),
    decreases k - i,
{
    if i < k && i + 1 < s.len() {
        lemma_find_double(s, i + 1, k);
    }
}

/// The texts of groups read back as the groups.
proof fn lemma_groups_read(g: Seq<u16>, dotted_tail: bool)
    ensures
        groups_value(join(group_texts(g), ':'), dotted_tail) == Some(g),
{
    let parts = group_texts(g);
    let s = join(parts, ':');
    lemma_clean_groups(g);
    if g.len() == 0 {
        assert(s =~= Seq::<char>::empty());
        assert(g =~= Seq::<u16>::empty());
    } else {
        lemma_join_colons(parts);
        lemma_pieces_of_join(parts, ':');
        lemma_group_text(g[g.len() - 1]);
        assert(parts.last() == text::hex_text(g[g.len() - 1] as nat));
        assert forall|i: int| 0 <= i < parts.len() implies group_value(#[trigger] parts[i]) == Some(
            g[i],
        ) by {
            lemma_group_text(g[i]);
        }
        assert(hex_groups(parts)->0 =~= g);
    }
}

proof fn lemma_mapped_read(g: Seq<u16>)
    requires
        g.len() == 8,
        is_mapped(g),
    ensures
        ipv6_value(ipv6_text(g)) == Some(g),
{
    let s = ipv6_text(g);
    reveal_strlit("::ffff:");
    let o = mapped_octets(g);
    let t = ipv4_text(o);
    let tail = s.skip(2);
    assert(s[0] == ':' && s[1] == ':');
    lemma_find_double(s, 0, 0);
    assert(s.take(0) =~= Seq::<char>::empty());
    let ffff = seq!['f', 'f', 'f', 'f'];
    assert(tail =~= ffff + seq![':'] + t);
    lemma_mapped_tail(o);
    assert(group_of(o[0], o[1]) == g[6]);
    assert(group_of(o[2], o[3]) == g[7]);
    assert(Seq::<u16>::empty() + zeros(5) + seq![0xffffu16, g[6], g[7]] =~= g);
}

proof fn lemma_compressed_read(h: Seq<u16>, t: Seq<u16>)
    requires
        h.len() + t.len() <= 7,
    ensures
        ipv6_value(join(group_texts(h), ':') + "::"@ + join(group_texts(t), ':')) == Some(
            h + zeros(8 - h.len() - t.len()) + t,
        ),
{
    let a = join(group_texts(h), ':');
    let b = join(group_texts(t), ':');
    let s = a + "::"@ + b;
    reveal_strlit("::");
    lemma_clean_groups(h);
    if h.len() > 0 {
        lemma_join_colons(group_texts(h));
    }
    let k = a.len() as int;
    assert(s[k] == ':' && s[k + 1] == ':');
    assert forall|j: int| 0 <= j < k && j + 1 < s.len() implies !(#[trigger] s[j] == ':' && s[j + 1]
        == ':') by {
        if j + 1 < k {
            assert(s[j] == a[j] && s[j + 1] == a[j + 1]);
        } else {
            assert(s[j] == a.last());
        }
    }
    lemma_find_double(s, 0, k);
    assert(s.take(k) =~= a);
    assert(s.skip(k + 2) =~= b);
    lemma_groups_read(h, false);
    lemma_groups_read(t, true);
}

/// Reading the canonical text of an IPv6 address gives the address back.
pub proof fn law_ipv6_round_trip(g: Seq<u16>)
    requires
        g.len() == 8,
    ensures
        ipv6_value(ipv6_text(g)) == Some(g),
{
    if is_mapped(g) {
        lemma_mapped_read(g);
    } else {
        let (start, len) = best_run(g, 0);
        lemma_best_run(g, 0);
        lemma_zero_run(g, start);
        if len > 1 {
            let h = g.take(start);
            let t = g.skip(start + len);
            lemma_compressed_read(h, t);
            assert(h + zeros(8 - h.len() - t.len()) + t =~= g);
        } else {
            let s = ipv6_text(g);
            lemma_clean_groups(g);
            lemma_join_colons(group_texts(g));
            lemma_find_double(s, 0, s.len() as int);
            lemma_groups_read(g, true);
        }
    }
}

/// The tail of a mapped address reads as its three groups.
proof fn lemma_mapped_tail(o: Seq<u8>)
    requires
        o.len() == 4,
    ensures
        groups_value(seq!['f', 'f', 'f', 'f'] + seq![':'] + ipv4_text(o), true) == Some(
            seq![0xffffu16, group_of(o[0], o[1]), group_of(o[2], o[3])],
        ),
{
    let ffff = seq!['f', 'f', 'f', 'f'];
    let t = ipv4_text(o);
    let s = ffff + seq![':'] + t;
    law_ipv4_round_trip(o);
    lemma_no_colon_in_ipv4(o);
    assert(!ffff.contains(':'));
    text::lemma_pieces_single(ffff, ':');
    text::lemma_pieces_single(t, ':');
    text::lemma_pieces_join(ffff, t, ':');
    let p = text::pieces(s, ':');
    assert(p =~= seq![ffff, t]);
    assert(p.drop_last() =~= seq![ffff]);
    assert(group_value(ffff) == Some(0xffffu16)) by {
        reveal_with_fuel(text::hex_value, 5);
        assert(ffff.drop_last() =~= seq!['f', 'f', 'f']);
        assert(seq!['f', 'f', 'f'].drop_last() =~= seq!['f', 'f']);
        assert(seq!['f', 'f'].drop_last() =~= seq!['f']);
        assert(seq!['f'].drop_last() =~= Seq::<char>::empty());
    }
    assert(hex_groups(seq![ffff])->0 =~= seq![0xffffu16]);
    assert(seq![0xffffu16] + seq![group_of(o[0], o[1]), group_of(o[2], o[3])] =~= seq![
        0xffffu16,
        group_of(o[0], o[1]),
        group_of(o[2], o[3]),
    ]);
}

/// Dotted text holds no colon.
proof fn lemma_no_colon_in_ipv4(o: Seq<u8>)
    ensures
        !ipv4_text(o).contains(':'),
    decreases o.len(),
{
    let f = |b: u8| text::decimal_text(b as nat);
    let parts = o.map_values(f);
    let s = ipv4_text(o);
    if s.contains(':') {
        let i = choose|i: int| 0 <= i < s.len() && s[i] == ':';
        if o.len() == 1 {
            lemma_octet_text(o[0]);
            assert(parts[0].contains(':'));
        } else if o.len() > 1 {
            lemma_no_colon_in_ipv4(o.drop_last());
            assert(parts.drop_last() =~= o.drop_last().map_values(f));
            let a = join(parts.drop_last(), '.');
            let last = parts.last();
            lemma_octet_text(o[o.len() - 1]);
            if i < a.len() {
                assert(a[i] == ':');
                assert(a.contains(':'));
            } else if i > a.len() {
                assert(last[i - a.len() - 1] == ':');
                assert(last.contains(':'));
            }
        }
    }
}

/// Whether every character of `s` is a hexadecimal digit, a dot or a colon.
pub open spec fn address_chars(s: Seq<char>) -> bool {
    forall|i: int| 0 <= i < s.len() ==> address_char(#[trigger] s[i])
}

/// Whether `c` is a hexadecimal digit, a dot or a colon.
pub open spec fn address_char(c: char) -> bool {
    text::is_hex_digit(c) || c == '.' || c == ':'
}

proof fn lemma_join_chars(parts: Seq<Seq<char>>, sep: char)
    requires
        sep == '.' || sep == ':',
        forall|i: int| 0 <= i < parts.len() ==> address_chars(#[trigger] parts[i]),
    ensures
        address_chars(join(parts, sep)),
    decreases parts.len(),
{
    if parts.len() == 1 {
        assert(address_chars(parts[0]));
    } else if parts.len() > 1 {
        let init = parts.drop_last();
        assert forall|i: int| 0 <= i < init.len() implies address_chars(#[trigger] init[i]) by {
            assert(init[i] == parts[i]);
        }
        lemma_join_chars(init, sep);
        assert(address_chars(parts[parts.len() - 1]));
        let a = join(init, sep);
        let s = join(parts, sep);
        assert forall|i: int| 0 <= i < s.len() implies address_char(#[trigger] s[i]) by {
            if i < a.len() {
                assert(s[i] == a[i]);
            } else if i > a.len() {
                assert(s[i] == parts.last()[i - a.len() - 1]);
            }
        }
    }
}

proof fn lemma_excludes_brackets(s: Seq<char>)
    requires
        address_chars(s),
    ensures
        !s.contains('['),
        !s.contains(']'),
{
    if s.contains('[') {
        let i = choose|i: int| 0 <= i < s.len() && s[i] == '[';
        assert(address_char(s[i]));
    }
    if s.contains(']') {
        let i = choose|i: int| 0 <= i < s.len() && s[i] == ']';
        assert(address_char(s[i]));
    }
}

/// The text of an IPv4 address holds no brackets.
pub proof fn lemma_ipv4_chars(o: Seq<u8>)
    ensures
        address_chars(ipv4_text(o)),
        !ipv4_text(o).contains('['),
        !ipv4_text(o).contains(']'),
{
    let parts = o.map_values(|b: u8| text::decimal_text(b as nat));
    assert forall|i: int| 0 <= i < parts.len() implies address_chars(#[trigger] parts[i]) by {
        text::lemma_decimal_text(o[i] as nat);
        assert forall|j: int| 0 <= j < parts[i].len() implies address_char(
            #[trigger] parts[i][j],
        ) by {
            assert(text::is_digit(text::decimal_text(o[i] as nat)[j]));
        }
    }
    lemma_join_chars(parts, '.');
    lemma_excludes_brackets(ipv4_text(o));
}

proof fn lemma_groups_chars(g: Seq<u16>)
    ensures
        address_chars(join(group_texts(g), ':')),
{
    let parts = group_texts(g);
    assert forall|i: int| 0 <= i < parts.len() implies address_chars(#[trigger] parts[i]) by {
        text::lemma_hex_text(g[i] as nat);
        assert forall|j: int| 0 <= j < parts[i].len() implies address_char(
            #[trigger] parts[i][j],
        ) by {
            assert(text::is_hex_digit(text::hex_text(g[i] as nat)[j]));
        }
    }
    lemma_join_chars(parts, ':');
}

/// The text of an IPv6 address holds no brackets.
pub proof fn lemma_ipv6_chars(g: Seq<u16>)
    ensures
        address_chars(ipv6_text(g)),
        !ipv6_text(g).contains('['),
        !ipv6_text(g).contains(']'),
{
    reveal_strlit("::");
    reveal_strlit("::ffff:");
    let s = ipv6_text(g);
    if is_mapped(g) {
        let t = ipv4_text(mapped_octets(g));
        lemma_ipv4_chars(mapped_octets(g));
        assert forall|i: int| 0 <= i < s.len() implies address_char(#[trigger] s[i]) by {
            if i >= 7 {
                assert(s[i] == t[i - 7]);
            }
        }
    } else {
        let (start, len) = best_run(g, 0);
        if len > 1 {
            let a = join(group_texts(g.take(start)), ':');
            let b = join(group_texts(g.skip(start + len)), ':');
            lemma_groups_chars(g.take(start));
            lemma_groups_chars(g.skip(start + len));
            assert forall|i: int| 0 <= i < s.len() implies address_char(#[trigger] s[i]) by {
                if i < a.len() {
                    assert(s[i] == a[i]);
                } else if i >= a.len() + 2 {
                    assert(s[i] == b[i - a.len() - 2]);
                }
            }
        } else {
            lemma_groups_chars(g);
        }
    }
    lemma_excludes_brackets(s);
}

/// What an IP address stands for.
pub enum IpView {
    V4(Seq<u8>),
    V6(Seq<u8>),
}

impl View for IpAddr {
    type V = IpView;

    open spec fn view(&self) -> IpView {
        match self {
            IpAddr::V4(o) => IpView::V4(o@),
            IpAddr::V6(o) => IpView::V6(o@),
        }
    }
}

impl View for SocketAddr {
    type V = (IpView, u16);

    open spec fn view(&self) -> (IpView, u16) {
        (self.ip@, self.port)
    }
}

/// Whether `s` is the text of the IP address `a`: an IPv4 address where it reads as one, else
/// an IPv6 address.
pub open spec fn reads_as_ip(s: Seq<char>, a: IpView) -> bool {
    match a {
        IpView::V4(o) => ipv4_value(s) == Some(o),
        IpView::V6(o) => ipv4_value(s) is None && o.len() == 16 && ipv6_value(s) == Some(
            segments(o),
        ),
    }
}

/// Whether `s` is an IP address.
pub open spec fn is_ip_text(s: Seq<char>) -> bool {
    ipv4_value(s) is Some || ipv6_value(s) is Some
}

/// The text of an IP address.
pub open spec fn ip_text(a: IpView) -> Seq<char> {
    match a {
        IpView::V4(o) => ipv4_text(o),
        IpView::V6(o) => ipv6_text(segments(o)),
    }
}

impl IpAddr {
    /// Reads an IP address.
    pub fn parse(s: &str) -> (r: Option<IpAddr>)
        ensures
            match r {
                Some(a) => reads_as_ip(s@, a@),
                None => !is_ip_text(s@),
            },
    {
        let chars: Vec<char> = text::chars_of(s);
        if let Some(o) = parse_ipv4(chars.as_slice()) {
            return Some(IpAddr::V4(o));
        }
        match parse_ipv6(chars.as_slice()) {
            Some(o) => Some(IpAddr::V6(o)),
            None => None,
        }
    }

    /// The text of the address.
    pub fn to_string(&self) -> (r: String)
        ensures
            r@ == ip_text(self@),
    {
        let mut out: Vec<char> = Vec::new();
        match self {
            IpAddr::V4(o) => {
                push_ipv4(&mut out, o);
            },
            IpAddr::V6(o) => {
                push_ipv6(&mut out, o);
            },
        }
        assert(out@ =~= ip_text(self@));
        text::string_of(out.as_slice())
    }
}

/// Reading the text of an IP address gives the address back: IPv6 text never reads as IPv4.
pub proof fn law_ip_round_trip(a: IpView)
    requires
        match a {
            IpView::V4(o) => o.len() == 4,
            IpView::V6(o) => o.len() == 16,
        },
    ensures
        reads_as_ip(ip_text(a), a),
{
    match a {
        IpView::V4(o) => {
            law_ipv4_round_trip(o);
        },
        IpView::V6(o) => {
            let g = segments(o);
            law_ipv6_round_trip(g);
            lemma_ipv6_has_colon(g);
            lemma_colon_is_not_ipv4(ipv6_text(g));
        },
    }
}

proof fn lemma_join_has_sep(parts: Seq<Seq<char>>, sep: char)
    requires
        parts.len() > 1,
    ensures
        join(parts, sep).contains(sep),
{
    let a = join(parts.drop_last(), sep);
    assert(join(parts, sep)[a.len() as int] == sep);
}

proof fn lemma_ipv6_has_colon(g: Seq<u16>)
    requires
        g.len() == 8,
    ensures
        ipv6_text(g).contains(':'),
{
    reveal_strlit("::");
    reveal_strlit("::ffff:");
    let s = ipv6_text(g);
    if is_mapped(g) {
        assert(s[0] == ':');
    } else {
        let (start, len) = best_run(g, 0);
        if len > 1 {
            let a = join(group_texts(g.take(start)), ':');
            assert(s[a.len() as int] == ':');
        } else {
            lemma_join_has_sep(group_texts(g), ':');
        }
    }
}

/// The characters of a text are those of its pieces and the separator.
proof fn lemma_pieces_cover(s: Seq<char>, sep: char, c: char)
    requires
        s.contains(c),
        c != sep,
    ensures
        exists|i: int|
            0 <= i < text::pieces(s, sep).len() && (#[trigger] text::pieces(s, sep)[i]).contains(c),
    decreases s.len(),
{
    text::lemma_pieces_nonempty(s.drop_last(), sep);
    let p = text::pieces(s.drop_last(), sep);
    let q = text::pieces(s, sep);
    if s.last() == c {
        let last = q[q.len() - 1];
        assert(last == p.last().push(c));
        assert(last[last.len() - 1] == c);
        assert(q[q.len() - 1].contains(c));
    } else {
        let k = choose|k: int| 0 <= k < s.len() && s[k] == c;
        assert(s.drop_last()[k] == c);
        assert(s.drop_last().contains(c));
        lemma_pieces_cover(s.drop_last(), sep, c);
        let i = choose|i: int| 0 <= i < p.len() && (#[trigger] p[i]).contains(c);
        let j = choose|j: int| 0 <= j < p[i].len() && p[i][j] == c;
        assert(q[i][j] == c);
        assert(q[i].contains(c));
    }
}

/// Text with a colon is no dotted address.
proof fn lemma_colon_is_not_ipv4(s: Seq<char>)
    requires
        s.contains(':'),
    ensures
        ipv4_value(s) is None,
{
    lemma_pieces_cover(s, '.', ':');
    let p = text::pieces(s, '.');
    let i = choose|i: int| 0 <= i < p.len() && (#[trigger] p[i]).contains(':');
    let j = choose|j: int| 0 <= j < p[i].len() && p[i][j] == ':';
    assert(!text::is_digit(p[i][j]));
    assert(octet_value(p[i]) is None);
}

proof fn lemma_join_of_pieces(s: Seq<char>, sep: char)
    ensures
        join(text::pieces(s, sep), sep) == s,
    decreases s.len(),
{
    let p = text::pieces(s, sep);
    if s.len() == 0 {
        assert(p.len() == 1);
        assert(p[0] =~= s);
    } else {
        let init = s.drop_last();
        let q = text::pieces(init, sep);
        lemma_join_of_pieces(init, sep);
        text::lemma_pieces_nonempty(init, sep);
        if s.last() == sep {
            assert(p.drop_last() =~= q);
            assert(p.last() =~= Seq::<char>::empty());
            assert(join(p, sep) =~= s);
        } else {
            assert(p.drop_last() =~= q.drop_last());
            assert(p.last() == q.last().push(s.last()));
            if p.len() == 1 {
                assert(join(p, sep) =~= s);
            } else {
                assert(join(q, sep) == join(q.drop_last(), sep) + seq![sep] + q.last());
                assert(join(p, sep) =~= join(q, sep).push(s.last()));
                assert(init.push(s.last()) =~= s);
            }
        }
    }
}

/// The text of an IPv4 address is its four numbers in decimal with dots between them.
pub proof fn law_ipv4_text_is_dotted(o: Seq<u8>)
    requires
        o.len() == 4,
    ensures
        ipv4_text(o) == text::decimal_text(o[0] as nat) + seq!['.'] + text::decimal_text(
            o[1] as nat,
        ) + seq!['.'] + text::decimal_text(o[2] as nat) + seq!['.'] + text::decimal_text(
            o[3] as nat,
        ),
{
    let p = o.map_values(|b: u8| text::decimal_text(b as nat));
    reveal_with_fuel(join, 5);
    assert(p.drop_last().drop_last().drop_last() =~= seq![p[0]]);
    assert(p.drop_last().drop_last().last() == p[1]);
    assert(p.drop_last().last() == p[2]);
    assert(ipv4_text(o) =~= text::decimal_text(o[0] as nat) + seq!['.'] + text::decimal_text(
        o[1] as nat,
    ) + seq!['.'] + text::decimal_text(o[2] as nat) + seq!['.'] + text::decimal_text(o[3] as nat));
}

/// An IPv4 address has one text and no other: what reads as the address is its text.
pub proof fn law_ipv4_has_one_text(s: Seq<char>, o: Seq<u8>)
    ensures
        ipv4_value(s) == Some(o) <==> o.len() == 4 && s == ipv4_text(o),
{
    if ipv4_value(s) == Some(o) {
        let p = text::pieces(s, '.');
        lemma_join_of_pieces(s, '.');
        assert forall|i: int| 0 <= i < 4 implies #[trigger] p[i] == text::decimal_text(
            o[i] as nat,
        ) by {
            assert(octet_value(p[i]) == Some(o[i]));
            text::lemma_digits_are_text(p[i]);
        }
        assert(p =~= o.map_values(|b: u8| text::decimal_text(b as nat)));
    }
    if o.len() == 4 && s == ipv4_text(o) {
        law_ipv4_round_trip(o);
    }
}

/// Whether a text is a group: one to four hexadecimal digits, in either case.
pub open spec fn is_group(p: Seq<char>) -> bool {
    1 <= p.len() <= 4 && text::all_hex(p)
}

/// Whether all the texts are groups.
pub open spec fn are_groups(parts: Seq<Seq<char>>) -> bool {
    forall|i: int| 0 <= i < parts.len() ==> is_group(#[trigger] parts[i])
}

/// The numbers of groups.
pub open spec fn group_numbers(parts: Seq<Seq<char>>) -> Seq<u16> {
    Seq::new(parts.len(), |i: int| text::hex_value(parts[i]) as u16)
}

proof fn lemma_groups_are_clean(parts: Seq<Seq<char>>)
    requires
        are_groups(parts),
    ensures
        clean_parts(parts, ':'),
        forall|i: int| 0 <= i < parts.len() ==> ipv4_value(#[trigger] parts[i]) is None,
{
    assert forall|i: int| 0 <= i < parts.len() implies (#[trigger] parts[i]).len() > 0
        && !parts[i].contains(':') && ipv4_value(parts[i]) is None by {
        assert(is_group(parts[i]));
        lemma_digits_exclude(parts[i], ':');
        lemma_digits_exclude(parts[i], '.');
        text::lemma_pieces_single(parts[i], '.');
    }
}

proof fn lemma_joined_groups_read(parts: Seq<Seq<char>>, dotted_tail: bool)
    requires
        are_groups(parts),
    ensures
        groups_value(join(parts, ':'), dotted_tail) == Some(group_numbers(parts)),
{
    lemma_groups_are_clean(parts);
    if parts.len() == 0 {
        assert(group_numbers(parts) =~= Seq::<u16>::empty());
    } else {
        lemma_join_colons(parts);
        lemma_pieces_of_join(parts, ':');
        assert(ipv4_value(parts[parts.len() - 1]) is None);
        assert forall|i: int| 0 <= i < parts.len() implies group_value(#[trigger] parts[i]) == Some(
            text::hex_value(parts[i]) as u16,
        ) by {
            assert(is_group(parts[i]));
        }
        assert(hex_groups(parts)->0 =~= group_numbers(parts));
    }
}

proof fn lemma_joined_dotted_read(parts: Seq<Seq<char>>, o: Seq<u8>)
    requires
        are_groups(parts),
        o.len() == 4,
    ensures
        groups_value(join(parts.push(ipv4_text(o)), ':'), true) == Some(
            group_numbers(parts) + seq![group_of(o[0], o[1]), group_of(o[2], o[3])],
        ),
        clean_parts(parts.push(ipv4_text(o)), ':'),
{
    let all = parts.push(ipv4_text(o));
    lemma_groups_are_clean(parts);
    lemma_dotted_has_no_colon(o);
    law_ipv4_round_trip(o);
    assert forall|i: int| 0 <= i < all.len() implies (#[trigger] all[i]).len() > 0
        && !all[i].contains(':') by {
        if i < parts.len() {
            assert(all[i] == parts[i]);
        }
    }
    lemma_join_colons(all);
    lemma_pieces_of_join(all, ':');
    assert(all.drop_last() =~= parts);
    assert forall|i: int| 0 <= i < parts.len() implies group_value(#[trigger] parts[i]) == Some(
        text::hex_value(parts[i]) as u16,
    ) by {
        assert(is_group(parts[i]));
    }
    assert(hex_groups(parts)->0 =~= group_numbers(parts));
}

proof fn lemma_dotted_has_no_colon(o: Seq<u8>)
    requires
        o.len() == 4,
    ensures
        !ipv4_text(o).contains(':'),
        ipv4_text(o).len() > 0,
{
    law_ipv4_text_is_dotted(o);
    lemma_octet_text(o[0]);
    lemma_octet_text(o[1]);
    lemma_octet_text(o[2]);
    lemma_octet_text(o[3]);
    let (a, b, c, d) = (
        text::decimal_text(o[0] as nat),
        text::decimal_text(o[1] as nat),
        text::decimal_text(o[2] as nat),
        text::decimal_text(o[3] as nat),
    );
    let s = ipv4_text(o);
    assert forall|i: int| 0 <= i < s.len() implies s[i] != ':' by {
        let n1 = a.len() as int;
        let n2 = n1 + 1 + b.len();
        let n3 = n2 + 1 + c.len();
        if i < n1 {
            assert(s[i] == a[i]);
            assert(a.contains(a[i]));
        } else if n1 < i && i < n2 {
            assert(s[i] == b[i - n1 - 1]);
            assert(b.contains(b[i - n1 - 1]));
        } else if n2 < i && i < n3 {
            assert(s[i] == c[i - n2 - 1]);
            assert(c.contains(c[i - n2 - 1]));
        } else if n3 < i {
            assert(s[i] == d[i - n3 - 1]);
            assert(d.contains(d[i - n3 - 1]));
        }
    }
}

proof fn lemma_no_double(parts: Seq<Seq<char>>)
    requires
        clean_parts(parts, ':'),
        parts.len() > 0,
    ensures
        find_double(join(parts, ':'), 0) < 0,
{
    let s = join(parts, ':');
    lemma_join_colons(parts);
    assert forall|j: int| 0 <= j < s.len() && j + 1 < s.len() implies !(#[trigger] s[j] == ':'
        && s[j + 1] == ':') by {
        assert(0 <= j < s.len() - 1);
    }
    lemma_find_double(s, 0, s.len() as int);
}

/// Eight groups with colons between them are read as their numbers, in either case and with zeros
/// in front or without; so are six groups and an IPv4 address in place of the last two.
pub proof fn law_ipv6_is_read_in_full(parts: Seq<Seq<char>>, o: Seq<u8>)
    requires
        are_groups(parts),
        o.len() == 4,
    ensures
        parts.len() == 8 ==> ipv6_value(join(parts, ':')) == Some(group_numbers(parts)),
        parts.len() == 6 ==> ipv6_value(join(parts.push(ipv4_text(o)), ':')) == Some(
            group_numbers(parts) + seq![
                (o[0] * 256 + o[1]) as u16,
                (o[2] * 256 + o[3]) as u16,
            ],
        ),
{
    lemma_groups_are_clean(parts);
    if parts.len() > 0 {
        lemma_no_double(parts);
    }
    lemma_joined_groups_read(parts, true);
    lemma_joined_dotted_read(parts, o);
    lemma_no_double(parts.push(ipv4_text(o)));
}

proof fn lemma_double_at(a: Seq<char>, b: Seq<char>, h: Seq<Seq<char>>)
    requires
        a == join(h, ':'),
        clean_parts(h, ':'),
    ensures
        ({
            let s = a + seq![':', ':'] + b;
            find_double(s, 0) == a.len() && s.take(a.len() as int) == a && s.skip(
                a.len() as int + 2,
            ) == b
        }),
{
    let s = a + seq![':', ':'] + b;
    let k = a.len() as int;
    if h.len() > 0 {
        lemma_join_colons(h);
    }
    assert(s[k] == ':' && s[k + 1] == ':');
    assert forall|j: int| 0 <= j < k && j + 1 < s.len() implies !(#[trigger] s[j] == ':' && s[j + 1]
        == ':') by {
        if j + 1 < k {
            assert(s[j] == a[j] && s[j + 1] == a[j + 1]);
            assert(0 <= j < a.len() - 1);
        } else {
            assert(s[j] == a.last());
        }
    }
    lemma_find_double(s, 0, k);
    assert(s.take(k) =~= a);
    assert(s.skip(k + 2) =~= b);
}

proof fn lemma_short_read(h: Seq<Seq<char>>, b: Seq<char>, t: Seq<u16>)
    requires
        are_groups(h),
        groups_value(b, true) == Some(t),
    ensures
        ipv6_value(join(h, ':') + seq![':', ':'] + b) == (if h.len() + t.len() <= 7 {
            Some(group_numbers(h) + zeros(8 - h.len() - t.len()) + t)
        } else {
            None
        }),
{
    lemma_groups_are_clean(h);
    lemma_double_at(join(h, ':'), b, h);
    lemma_joined_groups_read(h, false);
    assert(group_numbers(h).len() == h.len());
}

/// Two colons stand for as many groups of zeros as are missing, at least one, wherever they stand;
/// the last two groups may be an IPv4 address there too.
pub proof fn law_ipv6_is_read_in_short(h: Seq<Seq<char>>, t: Seq<Seq<char>>, o: Seq<u8>)
    requires
        are_groups(h),
        are_groups(t),
        o.len() == 4,
    ensures
        h.len() + t.len() <= 7 ==> ipv6_value(join(h, ':') + seq![':', ':'] + join(t, ':')) == Some(
            group_numbers(h) + zeros(8 - h.len() - t.len()) + group_numbers(t),
        ),
        h.len() + t.len() <= 5 ==> ipv6_value(
            join(h, ':') + seq![':', ':'] + join(t.push(ipv4_text(o)), ':'),
        ) == Some(
            group_numbers(h) + zeros(6 - h.len() - t.len()) + (group_numbers(t) + seq![
                (o[0] * 256 + o[1]) as u16,
                (o[2] * 256 + o[3]) as u16,
            ]),
        ),
        h.len() + t.len() > 7 ==> ipv6_value(join(h, ':') + seq![':', ':'] + join(t, ':')) is None,
{
    let tail = group_numbers(t) + seq![group_of(o[0], o[1]), group_of(o[2], o[3])];
    assert(group_numbers(t).len() == t.len());
    assert(tail.len() == t.len() + 2);
    lemma_joined_groups_read(t, true);
    lemma_short_read(h, join(t, ':'), group_numbers(t));
    lemma_joined_dotted_read(t, o);
    lemma_short_read(h, join(t.push(ipv4_text(o)), ':'), tail);
}

/// Texts with colons between them and no two colons in a row are an IPv6 address only if there are
/// eight and all are groups, as long as the last is no dotted one.
pub proof fn law_ipv6_needs_eight_groups(parts: Seq<Seq<char>>)
    requires
        parts.len() > 0,
        clean_parts(parts, ':'),
        ipv4_value(parts.last()) is None,
    ensures
        ipv6_value(join(parts, ':')) is Some <==> parts.len() == 8 && are_groups(parts),
{
    lemma_join_colons(parts);
    lemma_no_double(parts);
    lemma_pieces_of_join(parts, ':');
    if are_groups(parts) {
        lemma_joined_groups_read(parts, true);
    } else {
        let i = choose|i: int| 0 <= i < parts.len() && !is_group(#[trigger] parts[i]);
        assert(group_value(parts[i]) is None);
    }
}

/// Every IPv6 address that is read has eight groups, and the bytes of a group are its number.
pub proof fn law_ipv6_has_eight_groups(s: Seq<char>, o: Seq<u8>, i: int)
    requires
        0 <= i < 8,
    ensures
        ipv6_value(s) matches Some(g) ==> g.len() == 8,
        segments(o).len() == 8,
        segments(o)[i] == o[2 * i] * 256 + o[2 * i + 1],
{
}

proof fn lemma_run_is_zeros(g: Seq<u16>, i: int, n: nat)
    requires
        0 <= i,
        i + n <= g.len(),
        forall|j: int| i <= j < i + n ==> #[trigger] g[j] == 0,
    ensures
        zero_run(g, i) >= n,
    decreases n,
{
    if n > 0 {
        assert(g[i] == 0);
        lemma_run_is_zeros(g, i + 1, (n - 1) as nat);
    }
}

proof fn lemma_best_run_is_best(g: Seq<u16>, from: int, i: int)
    requires
        0 <= from <= i <= g.len(),
    ensures
        zero_run(g, i) <= best_run(g, from).1,
        zero_run(g, i) == best_run(g, from).1 && i < g.len() ==> best_run(g, from).0 <= i,
    decreases g.len() - from,
{
    if from < g.len() {
        if i > from {
            lemma_best_run_is_best(g, from + 1, i);
        }
        lemma_best_run(g, from);
    }
}

/// Whether groups from `i` on are `n` zeros.
pub open spec fn zeros_at(g: Seq<u16>, i: int, n: int) -> bool {
    0 <= i && 0 <= n && i + n <= g.len() && forall|j: int| i <= j < i + n ==> #[trigger] g[j] == 0
}

/// The text of an IPv6 address, but for a mapped IPv4 address, shortens the longest run of zeros,
/// the first of equally long ones, if it is of two groups or more; everything else is written out
/// in hexadecimal, in lower case.
pub proof fn law_ipv6_text_shortens_longest_run(g: Seq<u16>, start: int, len: int)
    requires
        g.len() == 8,
        !(forall|j: int| 0 <= j < 5 ==> #[trigger] g[j] == 0) || g[5] != 0xffff,
        len >= 1,
        zeros_at(g, start, len),
        forall|i: int, n: int| #[trigger] zeros_at(g, i, n) ==> n <= len,
        forall|i: int| #[trigger] zeros_at(g, i, len) ==> start <= i,
    ensures
        ipv6_text(g) == (if len >= 2 {
            join(g.take(start).map_values(|x: u16| text::number_text(x as nat, 16)), ':') + seq![
                ':',
                ':',
            ] + join(
                g.skip(start + len).map_values(|x: u16| text::number_text(x as nat, 16)),
                ':',
            )
        } else {
            join(g.map_values(|x: u16| text::number_text(x as nat, 16)), ':')
        }),
{
    let (s, n) = best_run(g, 0);
    lemma_best_run(g, 0);
    lemma_zero_run(g, s);
    assert(zeros_at(g, s, n as int));
    lemma_run_is_zeros(g, start, len as nat);
    lemma_best_run_is_best(g, 0, start);
    assert(n == len);
    assert(zeros_at(g, s, len));
    assert(start <= s);
    lemma_zero_run(g, start);
    assert(zeros_at(g, start, zero_run(g, start) as int));
    assert(s == start);
    reveal_strlit("::");
    assert("::"@ =~= seq![':', ':']);
    assert(group_texts(g) =~= g.map_values(|x: u16| text::number_text(x as nat, 16)));
    assert(group_texts(g.take(start)) =~= g.take(start).map_values(
        |x: u16| text::number_text(x as nat, 16),
    ));
    assert(group_texts(g.skip(start + len)) =~= g.skip(start + len).map_values(
        |x: u16| text::number_text(x as nat, 16),
    ));
    if is_mapped(g) {
        assert forall|j: int| 0 <= j < 5 implies #[trigger] g[j] == 0 by {}
    }
}

/// A mapped IPv4 address keeps its dotted form; an address without any zero group is written out.
pub proof fn law_other_ipv6_texts(g: Seq<u16>, o: Seq<u8>)
    requires
        g.len() == 8,
        o.len() == 4,
    ensures
        g == seq![
            0u16,
            0,
            0,
            0,
            0,
            0xffff,
            (o[0] * 256 + o[1]) as u16,
            (o[2] * 256 + o[3]) as u16,
        ] ==> ipv6_text(g) == "::ffff:"@ + ipv4_text(o),
        (forall|j: int| 0 <= j < 8 ==> #[trigger] g[j] != 0) ==> ipv6_text(g) == join(
            g.map_values(|x: u16| text::number_text(x as nat, 16)),
            ':',
        ),
{
    if g == seq![
        0u16,
        0,
        0,
        0,
        0,
        0xffff,
        (o[0] * 256 + o[1]) as u16,
        (o[2] * 256 + o[3]) as u16,
    ] {
        assert(mapped_octets(g) =~= o);
    }
    if forall|j: int| 0 <= j < 8 ==> #[trigger] g[j] != 0 {
        let (s, n) = best_run(g, 0);
        lemma_best_run(g, 0);
        assert(g[0] != 0);
        if s < 8 {
            assert(g[s] != 0);
        }
        assert(n == 0);
        assert(group_texts(g) =~= g.map_values(|x: u16| text::number_text(x as nat, 16)));
    }
}

} // verus!
