//! The number of connections that a machine can carry.

use crate::text;
use vstd::prelude::*;

verus! {

/// How many connections are allowed: a fixed number, or what the machine can carry.
#[derive(Debug, Clone, Copy, PartialEq, Eq, Structural)]
pub enum MaxConnections {
    Auto,
    Fixed(usize),
}

/// Throughput of one core, in megabits per second.
pub const PER_CORE_MBPS: u64 = 1500;

/// Throughput of one user, in kilobits per second.
pub const PER_USER_KBPS: u64 = 200;

/// Memory of one session, in kilobytes.
pub const PER_SESSION_KB: u64 = 200;

/// Share of the memory that sessions may use, in percent.
pub const MEM_BUDGET_PCT: u64 = 50;

/// File descriptors kept for other uses.
pub const FD_RESERVE_DEFAULT: u64 = 1024;

/// File descriptors of one session.
pub const FD_PER_SESSION: u64 = 2;

/// Memory assumed where it is unknown, in kilobytes.
pub const DEFAULT_MEM_KB: u64 = 4_194_304;

/// File descriptors assumed where their limit is unknown.
pub const DEFAULT_NOFILE: u64 = 65_536;

/// What a text for the number of connections comes to: `auto` in any case, or a number of at
/// least one. The error says whether the text is no number or zero.
pub open spec fn max_connections_value(s: Seq<char>) -> Result<MaxConnections, MaxConnectionsError> {
    if text::ascii_lower(s) == text::ascii_lower("auto"@) {
        Ok(MaxConnections::Auto)
    } else {
        match text::unsigned_value(s, usize::MAX as int) {
            None => Err(MaxConnectionsError::NotANumber),
            Some(n) => if n == 0 {
                Err(MaxConnectionsError::Zero)
            } else {
                Ok(MaxConnections::Fixed(n as usize))
            },
        }
    }
}

/// Why a text is no number of connections.
#[derive(Debug, Clone, Copy, PartialEq, Eq, Structural)]
pub enum MaxConnectionsError {
    NotANumber,
    Zero,
}

impl MaxConnections {
    /// Reads a number of connections.
    pub fn parse(s: &str) -> (r: Result<MaxConnections, MaxConnectionsError>)
        ensures
            r == max_connections_value(s@),
    {
        if text::eq_ignore_case(s, "auto") {
            return Ok(MaxConnections::Auto);
        }
        match text::parse_unsigned(text::chars_of(s).as_slice(), usize::MAX as u64) {
            None => Err(MaxConnectionsError::NotANumber),
            Some(n) => if n == 0 {
                Err(MaxConnectionsError::Zero)
            } else {
                Ok(MaxConnections::Fixed(n as usize))
            },
        }
    }
}

impl std::str::FromStr for MaxConnections {
    type Err = String;

    /// Reads a number of connections; the error is its text.
    fn from_str(s: &str) -> (r: Result<Self, Self::Err>)
        ensures
            match max_connections_value(s@) {
                Ok(m) => r matches Ok(n) && n == m,
                Err(e) => r matches Err(t) && t@ == max_connections_error_text(e, s@),
            },
    {
        match MaxConnections::parse(s) {
            Ok(m) => Ok(m),
            Err(e) => Err(e.describe(s)),
        }
    }
}

/// The text of an error about `s`.
pub open spec fn max_connections_error_text(e: MaxConnectionsError, s: Seq<char>) -> Seq<char> {
    "Invalid max_connections '"@ + s + (match e {
        MaxConnectionsError::NotANumber => "'. Use 'auto' or a positive integer"@,
        MaxConnectionsError::Zero => "'. Must be 'auto' or a positive integer (>= 1)"@,
    })
}

impl MaxConnectionsError {
    /// The text of the error about `s`.
    pub fn describe(&self, s: &str) -> (r: String)
        ensures
            r@ == max_connections_error_text(*self, s@),
    {
        match self {
            MaxConnectionsError::NotANumber => text::concat3(
                "Invalid max_connections '",
                s,
                "'. Use 'auto' or a positive integer",
            ),
            MaxConnectionsError::Zero => text::concat3(
                "Invalid max_connections '",
                s,
                "'. Must be 'auto' or a positive integer (>= 1)",
            ),
        }
    }
}

/// What the number of connections is limited by.
#[derive(Debug, Clone, Copy, PartialEq, Eq, Structural)]
pub enum Limit {
    Cpu,
    Memory,
    FileDescriptors,
}

impl Limit {
    /// The name of the limit.
    pub fn as_str(&self) -> (r: &'static str)
        ensures
            r@ == (match self {
                Limit::Cpu => "cpu"@,
                Limit::Memory => "memory"@,
                Limit::FileDescriptors => "fd"@,
            }),
    {
        match self {
            Limit::Cpu => "cpu",
            Limit::Memory => "memory",
            Limit::FileDescriptors => "fd",
        }
    }
}

/// What each resource allows, and what follows.
#[derive(Debug, Clone, Copy, PartialEq, Eq, Structural)]
pub struct AutoBreakdown {
    pub value: usize,
    pub cpu_cap: u64,
    pub mem_cap: u64,
    pub fd_cap: u64,
    pub limiting: Limit,
}

/// The smaller of two numbers.
pub open spec fn min2(a: int, b: int) -> int {
    if a <= b {
        a
    } else {
        b
    }
}

/// A product that stops at the largest `u64`.
pub open spec fn capped_product(a: int, b: int) -> int {
    min2(a * b, u64::MAX as int)
}

/// Connections that the cores can carry; there is at least one core.
pub open spec fn cpu_cap(cpus: int) -> int {
    let n = if cpus > 1 {
        cpus
    } else {
        1
    };
    capped_product(capped_product(n, PER_CORE_MBPS as int), 1000) / (PER_USER_KBPS as int)
}

/// Connections that the memory can carry.
pub open spec fn mem_cap(total_mem_kb: int) -> int {
    capped_product(total_mem_kb, MEM_BUDGET_PCT as int) / 100 / (PER_SESSION_KB as int)
}

/// Connections that the file descriptors can carry: of a small limit a quarter is reserved.
pub open spec fn fd_cap(nofile_soft: int) -> int {
    (nofile_soft - min2(FD_RESERVE_DEFAULT as int, nofile_soft / 4)) / (FD_PER_SESSION as int)
}

/// The scarcest resource; the first of equally scarce ones.
pub open spec fn scarcest(cpu: int, mem: int, fd: int) -> Limit {
    if cpu <= mem && cpu <= fd {
        Limit::Cpu
    } else if mem <= fd {
        Limit::Memory
    } else {
        Limit::FileDescriptors
    }
}

/// What each resource allows, and what follows: what the scarcest one allows, but at least one.
pub open spec fn auto_breakdown(cpus: int, total_mem_kb: int, nofile_soft: int) -> AutoBreakdown {
    let cpu = cpu_cap(cpus);
    let mem = mem_cap(total_mem_kb);
    let fd = fd_cap(nofile_soft);
    let least = min2(min2(cpu, mem), fd);
    AutoBreakdown {
        value: (if least > 1 {
            least
        } else {
            1
        }) as usize,
        cpu_cap: cpu as u64,
        mem_cap: mem as u64,
        fd_cap: fd as u64,
        limiting: scarcest(cpu, mem, fd),
    }
}

fn mul_capped(a: u64, b: u64) -> (r: u64)
    ensures
        r == capped_product(a as int, b as int),
{
    match a.checked_mul(b) {
        Some(p) => p,
        None => u64::MAX,
    }
}

/// The number of connections that a machine can carry: what the scarcest resource allows, but
/// at least one.
pub fn compute_auto(cpus: usize, total_mem_kb: u64, nofile_soft: u64) -> (r: AutoBreakdown)
    ensures
        r == auto_breakdown(cpus as int, total_mem_kb as int, nofile_soft as int),
{
    let n: u64 = if cpus > 1 {
        cpus as u64
    } else {
        1
    };
    let cpu: u64 = mul_capped(mul_capped(n, PER_CORE_MBPS), 1000) / PER_USER_KBPS;
    let mem: u64 = mul_capped(total_mem_kb, MEM_BUDGET_PCT) / 100 / PER_SESSION_KB;
    let quarter: u64 = nofile_soft / 4;
    let reserve: u64 = if FD_RESERVE_DEFAULT < quarter {
        FD_RESERVE_DEFAULT
    } else {
        quarter
    };
    let fd: u64 = (nofile_soft - reserve) / FD_PER_SESSION;
    let a: u64 = if cpu <= mem {
        cpu
    } else {
        mem
    };
    let raw: u64 = if a <= fd {
        a
    } else {
        fd
    };
    let floor: u64 = if raw > 1 {
        raw
    } else {
        1
    };
    let limiting: Limit = if cpu <= mem && cpu <= fd {
        Limit::Cpu
    } else if mem <= fd {
        Limit::Memory
    } else {
        Limit::FileDescriptors
    };
    AutoBreakdown { value: floor as usize, cpu_cap: cpu, mem_cap: mem, fd_cap: fd, limiting }
}

/// Whether a number is more than some resource can carry.
pub open spec fn exceeds(value: int, bd: AutoBreakdown) -> bool {
    value > bd.cpu_cap || value > bd.mem_cap || value > bd.fd_cap
}

/// Whether a fixed number is more than some resource can carry.
pub fn fixed_exceeds_auto_cap(value: usize, bd: &AutoBreakdown) -> (r: bool)
    ensures
        r == exceeds(value as int, *bd),
        r == (value > bd.cpu_cap || value > bd.mem_cap || value > bd.fd_cap),
{
    let v: u64 = value as u64;
    v > bd.cpu_cap || v > bd.mem_cap || v > bd.fd_cap
}

/// How a number of connections came about.
#[derive(Debug, Clone, Copy, PartialEq, Eq, Structural)]
pub enum ResolveMode {
    Auto,
    Fixed,
}

/// The number of connections, and what it was computed from.
#[derive(Debug, Clone, Copy, PartialEq, Eq, Structural)]
pub struct ResolvedMaxConnections {
    pub value: usize,
    pub mode: ResolveMode,
    pub breakdown: AutoBreakdown,
    pub cpus: usize,
    pub total_mem_kb: u64,
    pub nofile_soft: u64,
}

/// What is known of a number, or else what is assumed.
pub open spec fn known_or(n: Option<u64>, assumed: u64) -> u64 {
    match n {
        Some(k) => k,
        None => assumed,
    }
}

/// The number of connections that is wanted, given what the machine carries.
pub open spec fn wanted_connections(wanted: MaxConnections, auto: usize) -> (usize, ResolveMode) {
    match wanted {
        MaxConnections::Auto => (auto, ResolveMode::Auto),
        MaxConnections::Fixed(n) => (n, ResolveMode::Fixed),
    }
}

/// The number of connections, given what is known of the machine: its cores, its memory in
/// kilobytes and its limit of file descriptors.
pub fn resolve(
    wanted: MaxConnections,
    cpus: Option<usize>,
    total_mem_kb: Option<u64>,
    nofile_soft: Option<u64>,
) -> (r: ResolvedMaxConnections)
    ensures
        (r.value, r.mode) == wanted_connections(wanted, r.breakdown.value),
        r.total_mem_kb == known_or(total_mem_kb, DEFAULT_MEM_KB),
        r.nofile_soft == known_or(nofile_soft, DEFAULT_NOFILE),
        r.cpus == (match cpus {
            Some(n) => n,
            None => 1,
        }),
        r.total_mem_kb == (match total_mem_kb {
            Some(n) => n,
            None => DEFAULT_MEM_KB,
        }),
        r.nofile_soft == (match nofile_soft {
            Some(n) => n,
            None => DEFAULT_NOFILE,
        }),
        r.breakdown == auto_breakdown(
            r.cpus as int,
            r.total_mem_kb as int,
            r.nofile_soft as int,
        ),
        match wanted {
            MaxConnections::Auto => r.mode == ResolveMode::Auto && r.value == r.breakdown.value,
            MaxConnections::Fixed(n) => r.mode == ResolveMode::Fixed && r.value == n,
        },
{
    let cpus: usize = match cpus {
        Some(n) => n,
        None => 1,
    };
    let total_mem_kb: u64 = match total_mem_kb {
        Some(n) => n,
        None => DEFAULT_MEM_KB,
    };
    let nofile_soft: u64 = match nofile_soft {
        Some(n) => n,
        None => DEFAULT_NOFILE,
    };
    let breakdown: AutoBreakdown = compute_auto(cpus, total_mem_kb, nofile_soft);
    match wanted {
        MaxConnections::Fixed(n) => ResolvedMaxConnections {
            value: n,
            mode: ResolveMode::Fixed,
            breakdown,
            cpus,
            total_mem_kb,
            nofile_soft,
        },
        MaxConnections::Auto => ResolvedMaxConnections {
            value: breakdown.value,
            mode: ResolveMode::Auto,
            breakdown,
            cpus,
            total_mem_kb,
            nofile_soft,
        },
    }
}

/// The memory in kilobytes, given the number of pages and their size.
pub open spec fn memory_kb(pages: int, page_size: int) -> Option<int> {
    if pages > 0 && page_size > 0 {
        Some(capped_product(pages, page_size) / 1024)
    } else {
        None
    }
}

/// The memory in kilobytes, given the number of pages and their size as the system reports
/// them; none where either is not positive.
pub fn total_memory_kb(pages: i64, page_size: i64) -> (r: Option<u64>)
    ensures
        match r {
            Some(kb) => memory_kb(pages as int, page_size as int) == Some(kb as int),
            None => memory_kb(pages as int, page_size as int) is None,
        },
        match r {
            Some(kb) => pages > 0 && page_size > 0 && kb == capped_product(
                pages as int,
                page_size as int,
            ) / 1024,
            None => pages <= 0 || page_size <= 0,
        },
{
    if pages > 0 && page_size > 0 {
        Some(mul_capped(pages as u64, page_size as u64) / 1024)
    } else {
        None
    }
}

/// The limit of file descriptors, given the outcome of asking for it.
pub fn nofile_soft_limit(status: i32, soft: u64) -> (r: Option<u64>)
    ensures
        r == (if status == 0 {
            Some(soft)
        } else {
            None
        }),
{
    if status == 0 {
        Some(soft)
    } else {
        None
    }
}

/// At least one connection is always allowed, and no more than any resource can carry, but for
/// that one; the limiting resource is one that allows the least.
pub proof fn law_auto_within_caps(cpus: usize, total_mem_kb: u64, nofile_soft: u64)
    requires
        cpu_cap(cpus as int) <= usize::MAX || mem_cap(total_mem_kb as int) <= usize::MAX || fd_cap(
            nofile_soft as int,
        ) <= usize::MAX,
    ensures
        ({
            let bd = auto_breakdown(cpus as int, total_mem_kb as int, nofile_soft as int);
            let cap = match bd.limiting {
                Limit::Cpu => bd.cpu_cap,
                Limit::Memory => bd.mem_cap,
                Limit::FileDescriptors => bd.fd_cap,
            };
            &&& bd.value >= 1
            &&& bd.value > 1 ==> bd.value <= bd.cpu_cap && bd.value <= bd.mem_cap && bd.value
                <= bd.fd_cap
            &&& cap <= bd.cpu_cap && cap <= bd.mem_cap && cap <= bd.fd_cap
        }),
{
}

/// More of any resource never means fewer connections.
pub proof fn law_caps_monotone(a: int, b: int)
    requires
        0 <= a <= b,
    ensures
        cpu_cap(a) <= cpu_cap(b),
        mem_cap(a) <= mem_cap(b),
        fd_cap(a) <= fd_cap(b),
{
}

/// A core carries 7500 connections, and there is at least one core; a session takes 400 kilobytes
/// of the memory, for half of it is kept; and two file descriptors of those that are left once a
/// quarter, but no more than 1024, is kept. Where a product cannot be counted, it counts as the
/// largest number that can.
pub proof fn law_caps_follow_the_resources(cpus: int, mem_kb: int, nofile: int)
    requires
        0 <= cpus,
        0 <= mem_kb,
        0 <= nofile,
    ensures
        1 <= cpus && cpus * 1_500_000 <= u64::MAX ==> cpu_cap(cpus) == cpus * 7500,
        cpus == 0 ==> cpu_cap(cpus) == 7500,
        cpus * 1_500_000 > u64::MAX ==> cpu_cap(cpus) == u64::MAX / 200,
        mem_kb * 50 <= u64::MAX ==> 400 * mem_cap(mem_kb) <= mem_kb < 400 * (mem_cap(mem_kb) + 1),
        mem_kb * 50 > u64::MAX ==> mem_cap(mem_kb) == u64::MAX / 20_000,
        nofile >= 4096 ==> 2 * fd_cap(nofile) <= nofile - 1024 < 2 * fd_cap(nofile) + 2,
        nofile < 4096 ==> 2 * fd_cap(nofile) <= nofile - nofile / 4 < 2 * fd_cap(nofile) + 2,
{
}

/// The number of connections is what the scarcest resource carries, exactly, but at least one; and
/// the limit named is that of the scarcest, cores before memory before descriptors where they are
/// equally scarce.
pub proof fn law_scarcest_resource_decides(cpus: usize, mem_kb: u64, nofile: u64)
    requires
        fd_cap(nofile as int) <= usize::MAX,
    ensures
        ({
            let bd = auto_breakdown(cpus as int, mem_kb as int, nofile as int);
            let (c, m, f) = (
                cpu_cap(cpus as int),
                mem_cap(mem_kb as int),
                fd_cap(nofile as int),
            );
            &&& bd.cpu_cap == c && bd.mem_cap == m && bd.fd_cap == f
            &&& c <= m && c <= f ==> bd.limiting == Limit::Cpu && (c >= 1 ==> bd.value == c)
            &&& m < c && m <= f ==> bd.limiting == Limit::Memory && (m >= 1 ==> bd.value == m)
            &&& f < c && f < m ==> bd.limiting == Limit::FileDescriptors && (f >= 1 ==> bd.value
                == f)
            &&& c < 1 || m < 1 || f < 1 ==> bd.value == 1
        }),
{
    law_caps_follow_the_resources(cpus as int, mem_kb as int, nofile as int);
}

/// The text of a number of at least one is that many connections, `auto` in any case is what the
/// machine carries, zero is refused as zero, and a number too large to count or a text that is
/// none is refused as no number.
pub proof fn law_connection_texts_are_read(n: nat, s: Seq<char>)
    ensures
        1 <= n <= usize::MAX ==> max_connections_value(text::decimal_text(n)) == Ok::<
            _,
            MaxConnectionsError,
        >(MaxConnections::Fixed(n as usize)),
        n == 0 ==> max_connections_value(text::decimal_text(n)) == Err::<MaxConnections, _>(
            MaxConnectionsError::Zero,
        ),
        n > usize::MAX ==> max_connections_value(text::decimal_text(n)) == Err::<MaxConnections, _>(
            MaxConnectionsError::NotANumber,
        ),
        text::ascii_lower(s) == "auto"@ ==> max_connections_value(s) == Ok::<
            _,
            MaxConnectionsError,
        >(MaxConnections::Auto),
        text::ascii_lower(s) != "auto"@ && (s.len() == 0 || (s[0] != '+' && !text::is_digit(s[0]))
            || exists|i: int| 1 <= i < s.len() && !text::is_digit(#[trigger] s[i]))
            ==> max_connections_value(s) == Err::<MaxConnections, _>(
            MaxConnectionsError::NotANumber,
        ),
        ("Invalid max_connections '"@ + s).is_prefix_of(
            max_connections_error_text(MaxConnectionsError::Zero, s),
        ),
        ("Invalid max_connections '"@ + s).is_prefix_of(
            max_connections_error_text(MaxConnectionsError::NotANumber, s),
        ),
{
    reveal_strlit("auto");
    assert(text::ascii_lower("auto"@) =~= "auto"@);
    let t = text::decimal_text(n);
    text::lemma_decimal_text(n);
    text::law_number_texts_are_read(n, Seq::empty(), usize::MAX as int);
    assert(Seq::<char>::empty() + t =~= t);
    assert(text::is_digit(t[0]));
    assert(text::ascii_lower(t)[0] == t[0]);
    assert("auto"@[0] == 'a');
    if s.len() == 0 || (s[0] != '+' && !text::is_digit(s[0])) || exists|i: int|
        1 <= i < s.len() && !text::is_digit(#[trigger] s[i]) {
        text::law_other_texts_are_no_numbers(s, usize::MAX as int);
    }
}

/// A fixed number is kept, whatever the machine carries, and only without one the machine decides;
/// what is known of the machine counts as it is, and where nothing is known 4 gigabytes and 65536
/// descriptors are assumed.
pub proof fn law_wishes_come_first(n: usize, auto: usize, k: u64)
    ensures
        wanted_connections(MaxConnections::Fixed(n), auto) == (n, ResolveMode::Fixed),
        wanted_connections(MaxConnections::Auto, auto) == (auto, ResolveMode::Auto),
        known_or(Some(k), auto as u64) == k,
        known_or(None, DEFAULT_MEM_KB) == 4 * 1024 * 1024,
        known_or(None, DEFAULT_NOFILE) == 65536,
{
}

/// The memory is the bytes of all pages in whole kilobytes, as far as they can be counted, and
/// unknown exactly where a number is not positive.
pub proof fn law_memory_is_all_pages(pages: int, page_size: int)
    ensures
        memory_kb(pages, page_size) is None <==> pages <= 0 || page_size <= 0,
        pages > 0 && page_size > 0 && pages * page_size <= u64::MAX ==> 1024 * memory_kb(
            pages,
            page_size,
        )->0 <= pages * page_size < 1024 * (memory_kb(pages, page_size)->0 + 1),
        pages > 0 && page_size > 0 && pages * page_size > u64::MAX ==> memory_kb(pages, page_size)
            == Some(u64::MAX as int / 1024),
{
}

/// A number is too much if and only if the scarcest resource does not carry it.
pub proof fn law_too_much_is_more_than_the_scarcest(value: int, cpus: int, mem_kb: int, nofile: int)
    requires
        0 <= cpus,
        0 <= mem_kb,
        0 <= nofile <= u64::MAX,
    ensures
        exceeds(value, auto_breakdown(cpus, mem_kb, nofile)) <==> value > min2(
            min2(cpu_cap(cpus), mem_cap(mem_kb)),
            fd_cap(nofile),
        ),
        forall|a: int, b: int| #[trigger] min2(a, b) <= a && min2(a, b) <= b && (min2(a, b) == a
            || min2(a, b) == b),
{
    law_caps_follow_the_resources(cpus, mem_kb, nofile);
    assert(cpu_cap(cpus) <= u64::MAX && mem_cap(mem_kb) <= u64::MAX && fd_cap(nofile) <= u64::MAX);
    assert(cpu_cap(cpus) >= 0 && mem_cap(mem_kb) >= 0 && fd_cap(nofile) >= 0);
}

} // verus!
