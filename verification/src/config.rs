//! The node's settings: from the command line and from the panel.

use crate::config_auto::MaxConnections;
use crate::text;
use crate::time::Duration;
use vstd::prelude::*;

verus! {

/// Where the node keeps its state by default.
pub const DEFAULT_DATA_DIR: &'static str = "/var/lib/naive-agent-node";

/// Which IP version is used to reach the panel.
#[derive(Debug, Clone, Copy, PartialEq, Eq, Structural)]
pub enum IpVersion {
    V4,
    V6,
    Auto,
}

/// The IP version that a name in lower case stands for.
pub open spec fn ip_version(name: Seq<char>) -> Option<IpVersion> {
    if name == "v4"@ || name == "ipv4"@ || name == "4"@ {
        Some(IpVersion::V4)
    } else if name == "v6"@ || name == "ipv6"@ || name == "6"@ {
        Some(IpVersion::V6)
    } else if name == "auto"@ {
        Some(IpVersion::Auto)
    } else {
        None
    }
}

/// The IP version that a name in lower case stands for.
pub fn ip_version_of(name: &str) -> (r: Option<IpVersion>)
    ensures
        r == ip_version(name@),
{
    if text::same_text(name, "v4") || text::same_text(name, "ipv4") || text::same_text(name, "4") {
        Some(IpVersion::V4)
    } else if text::same_text(name, "v6") || text::same_text(name, "ipv6") || text::same_text(
        name,
        "6",
    ) {
        Some(IpVersion::V6)
    } else if text::same_text(name, "auto") {
        Some(IpVersion::Auto)
    } else {
        None
    }
}

/// Reads an IP version, in any case; the error says what is accepted.
pub fn parse_ip_version(s: &str) -> (r: Result<IpVersion, String>)
    ensures
        match ip_version(text::lowercased(s@)) {
            Some(v) => r == Ok::<IpVersion, String>(v),
            None => r matches Err(e) && e@ == "Invalid IP version '"@ + s@
                + "'. Use 'v4', 'v6', or 'auto'"@,
        },
        vstd::utf8::is_ascii_chars(s@) ==> match ip_version(text::ascii_lower(s@)) {
            Some(v) => r == Ok::<IpVersion, String>(v),
            None => r is Err,
        },
{
    let lower: String = s.to_lowercase();
    match ip_version_of(lower.as_str()) {
        Some(v) => Ok(v),
        None => Err(
            text::concat3("Invalid IP version '", s, "'. Use 'v4', 'v6', or 'auto'"),
        ),
    }
}

/// Whether `c` belongs to a unit.
pub open spec fn is_unit_char(c: char) -> bool {
    ('a' <= c && c <= 'z') || ('A' <= c && c <= 'Z') || c == 'µ'
}

/// Whether two letters that follow each other occur in a unit below a second: `ns`, `nanos`,
/// `us`, `ms`, `millis`.
pub open spec fn sub_second_pair(c: char, d: char) -> bool {
    ||| c == 'n' && (d == 's' || d == 'a')
    ||| c == 'u' && d == 's'
    ||| c == 'm' && d == 's'
    ||| c == 'i' && d == 'l'
}

/// Whether what stands at `i` is needed to write parts of a second: a decimal point, or letters
/// of a unit below a second.
pub open spec fn sub_second_at(s: Seq<char>, i: int) -> bool {
    ||| s[i] == '.' || s[i] == 'µ'
    ||| i + 1 < s.len() && sub_second_pair(s[i], s[i + 1])
}

/// Which part of a duration a character belongs to.
#[derive(Clone, Copy, PartialEq, Eq, Structural)]
pub enum SpanPart {
    Number,
    Fraction,
    Unit,
}

/// A duration read up to some character: the part that it is in, the number that counts for the
/// next unit, and a bound on the seconds that the spans so far come to.
pub struct SpanScan {
    pub part: SpanPart,
    pub number: nat,
    pub bound: nat,
}

/// The seconds that `n` and a fraction of a unit come to at most, where the unit starts with `c`
/// and `d`: a thousandth each below a second, and a year each where nothing shorter is known. Four
/// more make up for nanoseconds that carry over.
pub open spec fn span_bound(n: nat, c: char, d: char) -> nat {
    if c == 'n' || c == 'u' || c == 'µ' || (c == 'm' && d == 's') {
        n / 1000 + 4
    } else if c == 's' {
        n + 5
    } else if c == 'm' && d != 'o' {
        60 * n + 64
    } else if c == 'h' {
        3600 * n + 3604
    } else if c == 'd' {
        86_400 * n + 86_404
    } else if c == 'w' {
        604_800 * n + 604_804
    } else if c == 'm' || c == 'M' {
        2_630_016 * n + 2_630_020
    } else {
        31_557_600 * n + 31_557_604
    }
}

/// The character at `i`, or a blank past the end.
pub open spec fn char_or_blank(s: Seq<char>, i: int) -> char {
    if i < s.len() {
        s[i]
    } else {
        ' '
    }
}

/// A duration read up to and with the character `c`, which `d` follows.
pub open spec fn scan_char(st: SpanScan, c: char, d: char) -> SpanScan {
    if text::is_digit(c) {
        let digit = (c as int - '0' as int) as nat;
        match st.part {
            SpanPart::Number => SpanScan { number: st.number * 10 + digit, ..st },
            SpanPart::Fraction => st,
            SpanPart::Unit => SpanScan { part: SpanPart::Number, number: digit, ..st },
        }
    } else if st.part == SpanPart::Unit {
        st
    } else if is_unit_char(c) {
        SpanScan {
            part: SpanPart::Unit,
            number: 0,
            bound: st.bound + span_bound(st.number, c, d),
        }
    } else if c == '.' {
        SpanScan { part: SpanPart::Fraction, ..st }
    } else {
        st
    }
}

/// The first `n` characters of a duration, read.
pub open spec fn scanned(s: Seq<char>, n: nat) -> SpanScan
    decreases n,
{
    if n == 0 {
        SpanScan { part: SpanPart::Number, number: 0, bound: 0 }
    } else {
        scan_char(scanned(s, (n - 1) as nat), s[n - 1], char_or_blank(s, n as int))
    }
}

/// Whether a sum of seconds up to `u64::MAX` is never met by nanoseconds that carry over: the
/// text holds nothing below a second, or its spans come to less than `u64::MAX` seconds.
pub open spec fn duration_fits(s: Seq<char>) -> bool {
    ||| forall|i: int| 0 <= i < s.len() ==> !#[trigger] sub_second_at(s, i)
    ||| scanned(s, s.len()).bound < u64::MAX
}

/// Numbers are cut off here: one unit of any kind is then too much for the bound.
const NUMBER_CAP: u128 = 18_446_744_073_709_551_616_000;

/// The bound is cut off here.
const BOUND_CAP: u128 = 18_446_744_073_709_551_615;

spec fn capped(n: nat, cap: nat) -> nat {
    if n < cap {
        n
    } else {
        cap
    }
}

fn capped_span_bound(n: u128, c: char, d: char, Ghost(exact): Ghost<nat>) -> (r: u128)
    requires
        n == capped(exact, NUMBER_CAP as nat),
    ensures
        r == span_bound(n as nat, c, d),
        r < 600_000_000_000_000_000_000_000_000_000,
        capped(r as nat, BOUND_CAP as nat) == capped(span_bound(exact, c, d), BOUND_CAP as nat),
{
    if c == 'n' || c == 'u' || c == 'µ' || (c == 'm' && d == 's') {
        n / 1000 + 4
    } else if c == 's' {
        n + 5
    } else if c == 'm' && d != 'o' {
        60 * n + 64
    } else if c == 'h' {
        3600 * n + 3604
    } else if c == 'd' {
        86_400 * n + 86_404
    } else if c == 'w' {
        604_800 * n + 604_804
    } else if c == 'm' || c == 'M' {
        2_630_016 * n + 2_630_020
    } else {
        31_557_600 * n + 31_557_604
    }
}

/// Whether a text can be read as a duration without its seconds overflowing.
pub fn is_duration_fitting(s: &str) -> (r: bool)
    ensures
        r == duration_fits(s@),
{
    let chars: Vec<char> = text::chars_of(s);
    let n: usize = chars.len();
    let mut whole: bool = true;
    let mut part: SpanPart = SpanPart::Number;
    let mut number: u128 = 0;
    let mut bound: u128 = 0;
    let mut i: usize = 0;
    while i < n
        invariant
            i <= n,
            n == chars@.len(),
            part == scanned(chars@, i as nat).part,
            number == capped(scanned(chars@, i as nat).number, NUMBER_CAP as nat),
            bound == capped(scanned(chars@, i as nat).bound, BOUND_CAP as nat),
            whole == (forall|j: int| 0 <= j < i ==> !#[trigger] sub_second_at(chars@, j)),
        decreases n - i,
    {
        let c: char = chars[i];
        let d: char = if n - i >= 2 {
            chars[i + 1]
        } else {
            ' '
        };
        let ghost before = scanned(chars@, i as nat);
        assert(d == char_or_blank(chars@, i + 1));
        assert(scanned(chars@, (i + 1) as nat) == scan_char(before, c, d));
        if '0' <= c && c <= '9' {
            let digit: u128 = (c as u32 - '0' as u32) as u128;
            match part {
                SpanPart::Number => {
                    number = number * 10 + digit;
                    if number > NUMBER_CAP {
                        number = NUMBER_CAP;
                    }
                },
                SpanPart::Fraction => {},
                SpanPart::Unit => {
                    part = SpanPart::Number;
                    number = digit;
                },
            }
        } else if part != SpanPart::Unit && (('a' <= c && c <= 'z') || ('A' <= c && c <= 'Z') || c
            == 'µ') {
            bound = bound + capped_span_bound(number, c, d, Ghost(before.number));
            if bound > BOUND_CAP {
                bound = BOUND_CAP;
            }
            part = SpanPart::Unit;
            number = 0;
        } else if part != SpanPart::Unit && c == '.' {
            part = SpanPart::Fraction;
        }
        let pair: bool = (c == 'n' && (d == 's' || d == 'a')) || (c == 'u' && d == 's') || (c == 'm'
            && d == 's') || (c == 'i' && d == 'l');
        let mark: bool = c == '.' || c == 'µ' || (n - i >= 2 && pair);
        assert(mark == sub_second_at(chars@, i as int));
        if mark {
            whole = false;
        }
        i += 1;
    }
    whole || bound < BOUND_CAP
}

/// The error `humantime::DurationError`.
#[verifier::external_type_specification]
#[verifier::external_body]
pub struct ExDurationError(humantime::DurationError);

/// What `humantime` reads `t` as: seconds and nanoseconds; none where it is no duration.
pub uninterp spec fn humantime_span(t: Seq<char>) -> Option<(u64, u32)>;

/// `humantime::parse_duration`: the duration in seconds and nanoseconds, or an error, depending
/// on the text alone. The nanoseconds are less than a second. It panics where a sum of seconds
/// comes to `u64::MAX` just as the nanoseconds make up another second; the text must not be such
/// that this can be.
#[verifier::external_body]
fn parse_human(t: &str) -> (r: Result<(u64, u32), humantime::DurationError>)
    requires
        duration_fits(t@),
    ensures
        (match r {
            Ok(d) => Some(d),
            Err(_) => None,
        }) == humantime_span(t@),
        r matches Ok(d) ==> d.1 < crate::time::NANOS_PER_SEC,
{
    humantime::parse_duration(t).map(|d| (d.as_secs(), d.subsec_nanos()))
}

/// What a duration comes to, given what `humantime` makes of its text: that, or else a plain
/// number of seconds.
pub open spec fn duration_value(human: Option<(u64, u32)>, s: Seq<char>) -> Option<Duration> {
    match human {
        Some(d) => Some(Duration { secs: d.0, nanos: d.1 }),
        None => match text::unsigned_value(s, u64::MAX as int) {
            Some(n) => Some(Duration { secs: n as u64, nanos: 0 }),
            None => None,
        },
    }
}

/// The text of the error about a duration.
pub open spec fn duration_error_text(s: Seq<char>) -> Seq<char> {
    "Invalid duration '"@ + s + "'. Use formats like '60s', '2m', '1h' or plain seconds"@
}

/// What a duration comes to, given what `humantime` makes of its text.
pub fn duration_or_secs(human: Option<(u64, u32)>, s: &str) -> (r: Result<Duration, String>)
    ensures
        match duration_value(human, s@) {
            Some(d) => r == Ok::<Duration, String>(d),
            None => r matches Err(e) && e@ == duration_error_text(s@),
        },
{
    match human {
        Some(d) => Ok(Duration { secs: d.0, nanos: d.1 }),
        None => match text::parse_unsigned(text::chars_of(s).as_slice(), u64::MAX) {
            Some(n) => Ok(Duration { secs: n, nanos: 0 }),
            None => Err(
                text::concat3(
                    "Invalid duration '",
                    s,
                    "'. Use formats like '60s', '2m', '1h' or plain seconds",
                ),
            ),
        },
    }
}

/// Reads a duration: with units, or a plain number of seconds.
pub fn parse_duration(s: &str) -> (r: Result<Duration, String>)
    requires
        duration_fits(s@),
    ensures
        match duration_value(humantime_span(s@), s@) {
            Some(d) => r == Ok::<Duration, String>(d),
            None => r matches Err(e) && e@ == duration_error_text(s@),
        },
        r matches Ok(d) ==> d.wf(),
{
    match parse_human(s) {
        Ok(d) => duration_or_secs(Some(d), s),
        Err(_) => duration_or_secs(None, s),
    }
}

/// The settings of the command line.
#[derive(Debug)]
pub struct CliArgs {
    pub server_host: String,
    pub port: u16,
    pub node: u32,
    pub server_name: Option<String>,
    pub ca_file: Option<String>,
    pub cert_file: String,
    pub key_file: String,
    pub fetch_users_interval: Duration,
    pub report_traffics_interval: Duration,
    pub heartbeat_interval: Duration,
    pub api_timeout: Duration,
    pub log_mode: String,
    pub data_dir: String,
    pub acl_conf_file: Option<String>,
    pub block_private_ip: bool,
    pub refresh_geodata: bool,
    pub panel_ip_version: IpVersion,
    pub conn_idle_timeout: Duration,
    pub tcp_connect_timeout: Duration,
    pub request_timeout: Duration,
    pub tls_handshake_timeout: Duration,
    pub buffer_size: usize,
    pub tcp_backlog: i32,
    pub tcp_nodelay: bool,
    pub uplink_only_timeout: Duration,
    pub downlink_only_timeout: Duration,
    pub max_connections: MaxConnections,
}

/// What the file system says of the files that the settings name.
#[derive(Debug, Clone, Copy)]
pub struct FileFacts {
    pub cert_exists: bool,
    pub key_exists: bool,
    pub ca_exists: bool,
    pub acl_exists: bool,
}

/// Why the settings cannot be used.
#[derive(Debug, Clone, Copy, PartialEq, Eq, Structural)]
pub enum ConfigError {
    ServerHostEmpty,
    PortZero,
    NodeZero,
    CertFileEmpty,
    KeyFileEmpty,
    CertFileMissing,
    KeyFileMissing,
    FetchUsersIntervalZero,
    ReportTrafficsIntervalZero,
    HeartbeatIntervalZero,
    LogModeInvalid,
    CaFileMissing,
    AclFileMissing,
    AclFileFormat,
}

/// Whether a name in lower case is a log level.
pub open spec fn log_level(name: Seq<char>) -> bool {
    name == "trace"@ || name == "debug"@ || name == "info"@ || name == "warn"@ || name == "error"@
}

/// Whether a name in lower case is a log level.
pub fn is_log_level(name: &str) -> (r: bool)
    ensures
        r == log_level(name@),
{
    text::same_text(name, "trace") || text::same_text(name, "debug") || text::same_text(
        name,
        "info",
    ) || text::same_text(name, "warn") || text::same_text(name, "error")
}

/// Whether an extension is that of an ACL file: `yaml` or `yml`, in any case.
pub open spec fn acl_extension(ext: Seq<char>) -> bool {
    text::ascii_lower(ext) == text::ascii_lower("yaml"@) || text::ascii_lower(ext)
        == text::ascii_lower("yml"@)
}

/// Whether an extension is that of an ACL file.
pub fn is_acl_extension(ext: &str) -> (r: bool)
    ensures
        r == acl_extension(ext@),
{
    text::eq_ignore_case(ext, "yaml") || text::eq_ignore_case(ext, "yml")
}

/// The file name at the end of a path: the last part between slashes that is neither empty nor a
/// single dot. It is empty where there is no such part, or where that part is two dots.
pub open spec fn file_name(path: Seq<char>) -> Seq<char>
    decreases path.len(),
{
    let slash = text::last_index(path, '/');
    let part = path.skip(slash + 1);
    if part == ".."@ {
        Seq::empty()
    } else if part.len() > 0 && part != "."@ {
        part
    } else if 0 <= slash < path.len() {
        file_name(path.take(slash))
    } else {
        Seq::empty()
    }
}

/// The extension of a path: what follows the last dot of its file name. It is empty where there is
/// no dot, or none but the first character.
pub open spec fn path_extension(path: Seq<char>) -> Seq<char> {
    let name = file_name(path);
    let dot = text::last_index(name, '.');
    if dot > 0 {
        name.skip(dot + 1)
    } else {
        Seq::empty()
    }
}

fn file_name_of(path: &[char]) -> (r: Vec<char>)
    ensures
        r@ == file_name(path@),
{
    let mut end: usize = path.len();
    assert(path@.take(end as int) =~= path@);
    loop
        invariant
            end <= path@.len(),
            file_name(path@) == file_name(path@.take(end as int)),
        decreases end,
    {
        let rest: &[char] = vstd::slice::slice_subrange(path, 0, end);
        assert(rest@ =~= path@.take(end as int));
        let slash: Option<usize> = text::find_last(rest, '/');
        let start: usize = match slash {
            Some(k) => k + 1,
            None => 0,
        };
        proof {
            text::lemma_last_index_bound(rest@, '/');
            reveal_strlit(".");
            reveal_strlit("..");
        }
        let part: &[char] = vstd::slice::slice_subrange(path, start, end);
        assert(part@ =~= rest@.skip(start as int));
        let n: usize = part.len();
        if n == 2 && part[0] == '.' && part[1] == '.' {
            assert(part@ =~= ".."@);
            return Vec::new();
        }
        if n > 1 || (n == 1 && part[0] != '.') {
            let mut out: Vec<char> = Vec::new();
            text::push_chars(&mut out, part);
            assert(out@ =~= part@);
            return out;
        }
        assert(n == 1 ==> part@ =~= "."@);
        match slash {
            Some(k) => {
                assert(rest@.take(k as int) =~= path@.take(k as int));
                end = k;
            },
            None => {
                return Vec::new();
            },
        }
    }
}

/// The extension of a path; empty where it has none.
pub fn extension(path: &str) -> (r: String)
    ensures
        r@ == path_extension(path@),
{
    let name: Vec<char> = file_name_of(text::chars_of(path).as_slice());
    let n: usize = name.len();
    match text::find_last(name.as_slice(), '.') {
        Some(dot) => if dot > 0 {
            let ext: &[char] = vstd::slice::slice_subrange(name.as_slice(), dot + 1, n);
            assert(ext@ =~= name@.skip(dot + 1));
            text::string_of(ext)
        } else {
            String::new()
        },
        None => String::new(),
    }
}

/// Whether a span is empty.
pub open spec fn zero_span(d: Duration) -> bool {
    d.secs == 0 && d.nanos == 0
}

/// What is wrong with the settings, in the order in which they are looked at.
pub open spec fn config_fault(c: CliArgs, f: FileFacts) -> Option<ConfigError> {
    fault_by_level(c, f, log_level(text::lowercased(c.log_mode@)))
}

/// What is wrong with the settings, given whether the log mode is a level.
pub open spec fn fault_by_level(c: CliArgs, f: FileFacts, is_level: bool) -> Option<ConfigError> {
    if c.server_host@.len() == 0 {
        Some(ConfigError::ServerHostEmpty)
    } else if c.port == 0 {
        Some(ConfigError::PortZero)
    } else if c.node == 0 {
        Some(ConfigError::NodeZero)
    } else if c.cert_file@.len() == 0 {
        Some(ConfigError::CertFileEmpty)
    } else if c.key_file@.len() == 0 {
        Some(ConfigError::KeyFileEmpty)
    } else if !f.cert_exists {
        Some(ConfigError::CertFileMissing)
    } else if !f.key_exists {
        Some(ConfigError::KeyFileMissing)
    } else if zero_span(c.fetch_users_interval) {
        Some(ConfigError::FetchUsersIntervalZero)
    } else if zero_span(c.report_traffics_interval) {
        Some(ConfigError::ReportTrafficsIntervalZero)
    } else if zero_span(c.heartbeat_interval) {
        Some(ConfigError::HeartbeatIntervalZero)
    } else if !is_level {
        Some(ConfigError::LogModeInvalid)
    } else if c.ca_file is Some && !f.ca_exists {
        Some(ConfigError::CaFileMissing)
    } else if c.acl_conf_file is Some && !f.acl_exists {
        Some(ConfigError::AclFileMissing)
    } else if c.acl_conf_file is Some && !acl_extension(path_extension(opt_text(c.acl_conf_file))) {
        Some(ConfigError::AclFileFormat)
    } else {
        None
    }
}

/// The text of what is wrong with the settings.
pub open spec fn config_error_text(e: ConfigError, c: CliArgs) -> Seq<char> {
    match e {
        ConfigError::ServerHostEmpty => "Server host is required (--server_host)"@,
        ConfigError::PortZero => "Port must be a positive integer (--port)"@,
        ConfigError::NodeZero => "Node ID must be a positive integer"@,
        ConfigError::CertFileEmpty => "TLS certificate file path is required (--cert_file)"@,
        ConfigError::KeyFileEmpty => "TLS private key file path is required (--key_file)"@,
        ConfigError::CertFileMissing => "TLS certificate file not found: "@ + c.cert_file@,
        ConfigError::KeyFileMissing => "TLS private key file not found: "@ + c.key_file@,
        ConfigError::FetchUsersIntervalZero => "fetch_users_interval must be greater than 0"@,
        ConfigError::ReportTrafficsIntervalZero =>
            "report_traffics_interval must be greater than 0"@,
        ConfigError::HeartbeatIntervalZero => "heartbeat_interval must be greater than 0"@,
        ConfigError::LogModeInvalid => "Invalid log_mode '"@ + c.log_mode@
            + "'. Valid values: trace, debug, info, warn, error"@,
        ConfigError::CaFileMissing => "CA certificate file not found: "@ + opt_text(c.ca_file),
        ConfigError::AclFileMissing => "ACL config file not found: "@ + opt_text(c.acl_conf_file),
        ConfigError::AclFileFormat =>
            "Invalid ACL config file format: expected .yaml or .yml extension"@,
    }
}

/// An optional text; no text where there is none.
pub open spec fn opt_text(t: Option<String>) -> Seq<char> {
    match t {
        Some(s) => s@,
        None => Seq::empty(),
    }
}

fn prefixed(prefix: &str, t: &Option<String>) -> (r: String)
    ensures
        r@ == prefix@ + opt_text(*t),
{
    match t {
        Some(s) => text::concat(prefix, s.as_str()),
        None => {
            let r: String = text::owned(prefix);
            assert(r@ =~= prefix@ + Seq::<char>::empty());
            r
        },
    }
}

impl ConfigError {
    /// The text of what is wrong with the settings.
    pub fn describe(&self, cli: &CliArgs) -> (r: String)
        ensures
            r@ == config_error_text(*self, *cli),
    {
        match self {
            ConfigError::ServerHostEmpty => text::owned("Server host is required (--server_host)"),
            ConfigError::PortZero => text::owned("Port must be a positive integer (--port)"),
            ConfigError::NodeZero => text::owned("Node ID must be a positive integer"),
            ConfigError::CertFileEmpty => text::owned(
                "TLS certificate file path is required (--cert_file)",
            ),
            ConfigError::KeyFileEmpty => text::owned(
                "TLS private key file path is required (--key_file)",
            ),
            ConfigError::CertFileMissing => text::concat(
                "TLS certificate file not found: ",
                cli.cert_file.as_str(),
            ),
            ConfigError::KeyFileMissing => text::concat(
                "TLS private key file not found: ",
                cli.key_file.as_str(),
            ),
            ConfigError::FetchUsersIntervalZero => text::owned(
                "fetch_users_interval must be greater than 0",
            ),
            ConfigError::ReportTrafficsIntervalZero => text::owned(
                "report_traffics_interval must be greater than 0",
            ),
            ConfigError::HeartbeatIntervalZero => text::owned(
                "heartbeat_interval must be greater than 0",
            ),
            ConfigError::LogModeInvalid => text::concat3(
                "Invalid log_mode '",
                cli.log_mode.as_str(),
                "'. Valid values: trace, debug, info, warn, error",
            ),
            ConfigError::CaFileMissing => prefixed("CA certificate file not found: ", &cli.ca_file),
            ConfigError::AclFileMissing => prefixed(
                "ACL config file not found: ",
                &cli.acl_conf_file,
            ),
            ConfigError::AclFileFormat => text::owned(
                "Invalid ACL config file format: expected .yaml or .yml extension",
            ),
        }
    }
}

impl CliArgs {
    /// Checks the settings, given what the file system says of the files that they name.
    pub fn validate(&self, files: &FileFacts) -> (r: Result<(), ConfigError>)
        ensures
            match config_fault(*self, *files) {
                None => r is Ok,
                Some(e) => r == Err::<(), ConfigError>(e),
            },
            vstd::utf8::is_ascii_chars(self.log_mode@) ==> match fault_by_level(
                *self,
                *files,
                log_level(text::ascii_lower(self.log_mode@)),
            ) {
                None => r is Ok,
                Some(e) => r == Err::<(), ConfigError>(e),
            },
    {
        if self.server_host.as_str().is_empty() {
            return Err(ConfigError::ServerHostEmpty);
        }
        if self.port == 0 {
            return Err(ConfigError::PortZero);
        }
        if self.node == 0 {
            return Err(ConfigError::NodeZero);
        }
        if self.cert_file.as_str().is_empty() {
            return Err(ConfigError::CertFileEmpty);
        }
        if self.key_file.as_str().is_empty() {
            return Err(ConfigError::KeyFileEmpty);
        }
        if !files.cert_exists {
            return Err(ConfigError::CertFileMissing);
        }
        if !files.key_exists {
            return Err(ConfigError::KeyFileMissing);
        }
        if self.fetch_users_interval.is_zero() {
            return Err(ConfigError::FetchUsersIntervalZero);
        }
        if self.report_traffics_interval.is_zero() {
            return Err(ConfigError::ReportTrafficsIntervalZero);
        }
        if self.heartbeat_interval.is_zero() {
            return Err(ConfigError::HeartbeatIntervalZero);
        }
        let lower: String = self.log_mode.as_str().to_lowercase();
        if !is_log_level(lower.as_str()) {
            return Err(ConfigError::LogModeInvalid);
        }
        if self.ca_file.is_some() && !files.ca_exists {
            return Err(ConfigError::CaFileMissing);
        }
        if let Some(path) = &self.acl_conf_file {
            if !files.acl_exists {
                return Err(ConfigError::AclFileMissing);
            }
            if !is_acl_extension(extension(path.as_str()).as_str()) {
                return Err(ConfigError::AclFileFormat);
            }
        }
        Ok(())
    }
}

/// Settings are accepted if and only if host, port, node, certificate and key are given, the
/// certificate and the key exist, the three intervals are not empty, the log mode is a level in
/// any case, and a CA file or an ACL file that is named exists, the latter as YAML.
pub proof fn law_accepted_settings(c: CliArgs, f: FileFacts)
    ensures
        config_fault(c, f) is None <==> {
            &&& c.server_host@.len() > 0
            &&& c.port > 0
            &&& c.node > 0
            &&& c.cert_file@.len() > 0 && f.cert_exists
            &&& c.key_file@.len() > 0 && f.key_exists
            &&& !zero_span(c.fetch_users_interval)
            &&& !zero_span(c.report_traffics_interval)
            &&& !zero_span(c.heartbeat_interval)
            &&& log_level(text::lowercased(c.log_mode@))
            &&& c.ca_file is Some ==> f.ca_exists
            &&& c.acl_conf_file is Some ==> f.acl_exists && acl_extension(
                path_extension(opt_text(c.acl_conf_file)),
            )
        },
{
}

/// QUIC congestion control of a node.
#[derive(Debug, Clone, Copy, PartialEq, Eq, Structural)]
pub enum CongestionControl {
    Bbr,
    Cubic,
    NewReno,
}

impl Default for CongestionControl {
    fn default() -> (r: Self)
        ensures
            r == CongestionControl::Bbr,
    {
        CongestionControl::Bbr
    }
}

/// Transport of a node: HTTP/2 over TLS, or HTTP/3 over QUIC.
#[derive(Debug, Clone, Copy, PartialEq, Eq, Structural)]
pub enum NaiveNetwork {
    Tcp,
    Udp,
}

impl Default for NaiveNetwork {
    fn default() -> (r: Self)
        ensures
            r == NaiveNetwork::Tcp,
    {
        NaiveNetwork::Tcp
    }
}

impl NaiveNetwork {
    /// The name of the transport.
    pub fn as_str(&self) -> (r: &'static str)
        ensures
            r@ == (match self {
                NaiveNetwork::Tcp => "tcp"@,
                NaiveNetwork::Udp => "udp"@,
            }),
    {
        match self {
            NaiveNetwork::Tcp => "tcp",
            NaiveNetwork::Udp => "udp",
        }
    }
}

/// The panel's settings of a node.
#[derive(Debug, Clone, Copy, PartialEq, Eq, Structural)]
pub struct NaiveConfig {
    pub server_port: u16,
    pub network: NaiveNetwork,
    pub congestion_control: CongestionControl,
}

/// The settings of connections.
#[derive(Debug, Clone, Copy, PartialEq, Eq, Structural)]
pub struct ConnConfig {
    pub idle_timeout: Duration,
    pub uplink_only_timeout: Duration,
    pub downlink_only_timeout: Duration,
    pub connect_timeout: Duration,
    pub request_timeout: Duration,
    pub tls_handshake_timeout: Duration,
    pub buffer_size: usize,
    pub tcp_backlog: i32,
    pub tcp_nodelay: bool,
    pub max_connections: usize,
}

impl ConnConfig {
    /// The settings of connections out of those of the command line.
    pub fn from_cli(cli: &CliArgs, max_connections: usize) -> (r: Self)
        ensures
            r == (ConnConfig {
                idle_timeout: cli.conn_idle_timeout,
                uplink_only_timeout: cli.uplink_only_timeout,
                downlink_only_timeout: cli.downlink_only_timeout,
                connect_timeout: cli.tcp_connect_timeout,
                request_timeout: cli.request_timeout,
                tls_handshake_timeout: cli.tls_handshake_timeout,
                buffer_size: cli.buffer_size,
                tcp_backlog: cli.tcp_backlog,
                tcp_nodelay: cli.tcp_nodelay,
                max_connections,
            }),
    {
        ConnConfig {
            idle_timeout: cli.conn_idle_timeout,
            uplink_only_timeout: cli.uplink_only_timeout,
            downlink_only_timeout: cli.downlink_only_timeout,
            connect_timeout: cli.tcp_connect_timeout,
            request_timeout: cli.request_timeout,
            tls_handshake_timeout: cli.tls_handshake_timeout,
            buffer_size: cli.buffer_size,
            tcp_backlog: cli.tcp_backlog,
            tcp_nodelay: cli.tcp_nodelay,
            max_connections,
        }
    }

    /// The idle timeout in whole seconds.
    pub fn idle_timeout_secs(&self) -> (r: u64)
        ensures
            r == self.idle_timeout.secs,
    {
        self.idle_timeout.as_secs()
    }

    /// The time for a remote to finish once its client has, in whole seconds.
    pub fn uplink_only_timeout_secs(&self) -> (r: u64)
        ensures
            r == self.uplink_only_timeout.secs,
    {
        self.uplink_only_timeout.as_secs()
    }

    /// The time for a client to finish once its remote has, in whole seconds.
    pub fn downlink_only_timeout_secs(&self) -> (r: u64)
        ensures
            r == self.downlink_only_timeout.secs,
    {
        self.downlink_only_timeout.as_secs()
    }
}

/// The settings of a server.
#[derive(Debug)]
pub struct ServerConfig {
    pub port: u16,
    pub cert: Option<String>,
    pub key: Option<String>,
    pub acl_conf_file: Option<String>,
    pub data_dir: String,
    pub block_private_ip: bool,
    pub congestion_control: CongestionControl,
}

impl ServerConfig {
    /// The settings of a server: port and congestion control from the panel, the rest from the
    /// command line.
    pub fn from_remote(remote: &NaiveConfig, cli: &CliArgs) -> (r: Self)
        ensures
            r.port == remote.server_port,
            r.cert matches Some(t) && t@ == cli.cert_file@,
            r.key matches Some(t) && t@ == cli.key_file@,
            crate::acl::text_view(r.acl_conf_file) == crate::acl::text_view(cli.acl_conf_file),
            r.data_dir@ == cli.data_dir@,
            r.block_private_ip == cli.block_private_ip,
            r.congestion_control == remote.congestion_control,
    {
        ServerConfig {
            port: remote.server_port,
            cert: Some(cli.cert_file.clone()),
            key: Some(cli.key_file.clone()),
            acl_conf_file: match &cli.acl_conf_file {
                Some(p) => Some(p.clone()),
                None => None,
            },
            data_dir: cli.data_dir.clone(),
            block_private_ip: cli.block_private_ip,
            congestion_control: remote.congestion_control,
        }
    }
}

/// Each IP version has its three names, or one, and no other text is a version.
pub proof fn law_ip_versions_have_names(name: Seq<char>)
    ensures
        ip_version(name) == Some(IpVersion::V4) <==> name == "v4"@ || name == "ipv4"@ || name
            == "4"@,
        ip_version(name) == Some(IpVersion::V6) <==> name == "v6"@ || name == "ipv6"@ || name
            == "6"@,
        ip_version(name) == Some(IpVersion::Auto) <==> name == "auto"@,
{
    reveal_strlit("v4");
    reveal_strlit("ipv4");
    reveal_strlit("4");
    reveal_strlit("v6");
    reveal_strlit("ipv6");
    reveal_strlit("6");
    reveal_strlit("auto");
    assert("v4"@.len() == 2 && "v6"@.len() == 2 && "4"@.len() == 1 && "6"@.len() == 1);
    assert("ipv4"@.len() == 4 && "ipv6"@.len() == 4 && "auto"@.len() == 4);
    assert("v4"@[1] == '4' && "v6"@[1] == '6' && "4"@[0] == '4' && "6"@[0] == '6');
    assert("ipv4"@[3] == '4' && "ipv6"@[3] == '6' && "auto"@[3] == 'o');
}

/// There are five log levels.
pub proof fn law_log_levels_have_names(name: Seq<char>)
    ensures
        log_level(name) <==> name == "error"@ || name == "warn"@ || name == "info"@ || name
            == "debug"@ || name == "trace"@,
{
}

/// An ACL file is YAML by its extension, in any case.
pub proof fn law_acl_files_are_yaml(ext: Seq<char>)
    ensures
        acl_extension(ext) <==> text::ascii_lower(ext) == "yaml"@ || text::ascii_lower(ext)
            == "yml"@,
{
    reveal_strlit("yaml");
    reveal_strlit("yml");
    assert(text::ascii_lower("yaml"@) =~= "yaml"@);
    assert(text::ascii_lower("yml"@) =~= "yml"@);
}

/// The conditions that settings must meet, each with the error where they do not, in the order in
/// which they are looked at.
pub open spec fn checks(c: CliArgs, f: FileFacts, is_level: bool) -> Seq<(bool, ConfigError)> {
    seq![
        (c.server_host@.len() > 0, ConfigError::ServerHostEmpty),
        (c.port >= 1, ConfigError::PortZero),
        (c.node >= 1, ConfigError::NodeZero),
        (c.cert_file@.len() > 0, ConfigError::CertFileEmpty),
        (c.key_file@.len() > 0, ConfigError::KeyFileEmpty),
        (f.cert_exists, ConfigError::CertFileMissing),
        (f.key_exists, ConfigError::KeyFileMissing),
        (
            c.fetch_users_interval.secs > 0 || c.fetch_users_interval.nanos > 0,
            ConfigError::FetchUsersIntervalZero,
        ),
        (
            c.report_traffics_interval.secs > 0 || c.report_traffics_interval.nanos > 0,
            ConfigError::ReportTrafficsIntervalZero,
        ),
        (
            c.heartbeat_interval.secs > 0 || c.heartbeat_interval.nanos > 0,
            ConfigError::HeartbeatIntervalZero,
        ),
        (is_level, ConfigError::LogModeInvalid),
        (c.ca_file is None || f.ca_exists, ConfigError::CaFileMissing),
        (c.acl_conf_file is None || f.acl_exists, ConfigError::AclFileMissing),
        (
            c.acl_conf_file is None || acl_extension(path_extension(c.acl_conf_file->0@)),
            ConfigError::AclFileFormat,
        ),
    ]
}

/// Settings are refused with the error of the first condition that they do not meet, and accepted
/// where they meet all of them.
pub proof fn law_first_fault_is_reported(c: CliArgs, f: FileFacts, is_level: bool, k: int)
    requires
        0 <= k <= 14,
        forall|i: int| 0 <= i < k ==> (#[trigger] checks(c, f, is_level)[i]).0,
        k < 14 ==> !checks(c, f, is_level)[k].0,
    ensures
        fault_by_level(c, f, is_level) == (if k < 14 {
            Some(checks(c, f, is_level)[k].1)
        } else {
            None
        }),
{
    let s = checks(c, f, is_level);
    if k > 0 {
        assert(s[0].0);
    }
    if k > 1 {
        assert(s[1].0);
    }
    if k > 2 {
        assert(s[2].0);
    }
    if k > 3 {
        assert(s[3].0);
    }
    if k > 4 {
        assert(s[4].0);
    }
    if k > 5 {
        assert(s[5].0);
    }
    if k > 6 {
        assert(s[6].0);
    }
    if k > 7 {
        assert(s[7].0);
    }
    if k > 8 {
        assert(s[8].0);
    }
    if k > 9 {
        assert(s[9].0);
    }
    if k > 10 {
        assert(s[10].0);
    }
    if k > 11 {
        assert(s[11].0);
    }
    if k > 12 {
        assert(s[12].0);
    }
    if k > 13 {
        assert(s[13].0);
    }
}

/// What is wrong with a file is said with its path, and what is wrong with the log mode with it.
pub proof fn law_config_errors_name_what_is_wrong(c: CliArgs)
    ensures
        c.cert_file@.is_suffix_of(config_error_text(ConfigError::CertFileMissing, c)),
        c.key_file@.is_suffix_of(config_error_text(ConfigError::KeyFileMissing, c)),
        c.ca_file matches Some(p) ==> p@.is_suffix_of(
            config_error_text(ConfigError::CaFileMissing, c),
        ),
        c.acl_conf_file matches Some(p) ==> p@.is_suffix_of(
            config_error_text(ConfigError::AclFileMissing, c),
        ),
        ("Invalid log_mode '"@ + c.log_mode@).is_prefix_of(
            config_error_text(ConfigError::LogModeInvalid, c),
        ),
{
}

/// A duration is what its text with units says, to the nanosecond; where it says nothing, a plain
/// number is that many whole seconds, as far as they can be counted, and anything else is none.
pub proof fn law_durations_are_kept(secs: u64, nanos: u32, n: nat, s: Seq<char>)
    ensures
        duration_value(Some((secs, nanos)), s) == Some(Duration { secs, nanos }),
        n <= u64::MAX ==> duration_value(None, text::decimal_text(n)) == Some(
            Duration { secs: n as u64, nanos: 0 },
        ),
        n > u64::MAX ==> duration_value(None, text::decimal_text(n)) is None,
        (exists|i: int| 1 <= i < s.len() && !text::is_digit(#[trigger] s[i])) ==> duration_value(
            None,
            s,
        ) is None,
        ("Invalid duration '"@ + s).is_prefix_of(duration_error_text(s)),
{
    text::law_number_texts_are_read(n, Seq::empty(), u64::MAX as int);
    assert(Seq::<char>::empty() + text::decimal_text(n) =~= text::decimal_text(n));
    if exists|i: int| 1 <= i < s.len() && !text::is_digit(#[trigger] s[i]) {
        text::law_other_texts_are_no_numbers(s, u64::MAX as int);
    }
}

proof fn lemma_last_index_behind(front: Seq<char>, c: char, back: Seq<char>)
    requires
        !back.contains(c),
    ensures
        text::last_index(front + seq![c] + back, c) == front.len(),
{
    let s = front + seq![c] + back;
    text::law_last_index(s, c);
    assert(s[front.len() as int] == c);
    assert(s.contains(s[front.len() as int]));
    let k = text::last_index(s, c);
    if k > front.len() {
        assert(s[k] == back[k - front.len() - 1]);
        assert(back.contains(back[k - front.len() - 1]));
    }
}

proof fn lemma_name_at_end(dir: Seq<char>, name: Seq<char>)
    requires
        !name.contains('/'),
        name.len() > 0,
        name != seq!['.'],
        name != seq!['.', '.'],
    ensures
        file_name(name) == name,
        file_name(dir + seq!['/'] + name) == name,
{
    let s = dir + seq!['/'] + name;
    reveal_strlit(".");
    reveal_strlit("..");
    assert("."@ =~= seq!['.']);
    assert(".."@ =~= seq!['.', '.']);
    lemma_last_index_behind(dir, '/', name);
    assert(s.skip(dir.len() as int + 1) =~= name);
    text::law_last_index(name, '/');
    text::lemma_last_index_bound(name, '/');
    assert(name.skip(0) =~= name);
}

/// The extension of a path is what follows the last dot of its file name, whatever directories
/// come before it; a file name without a dot behind its first character has none.
pub proof fn law_extension_is_behind_the_last_dot(
    dir: Seq<char>,
    stem: Seq<char>,
    ext: Seq<char>,
    plain: Seq<char>,
)
    requires
        stem.len() > 0,
        !stem.contains('/'),
        !ext.contains('/') && !ext.contains('.'),
        stem + seq!['.'] + ext != seq!['.', '.'],
        plain.len() > 0,
        !plain.contains('/'),
        forall|i: int| 1 <= i < plain.len() ==> #[trigger] plain[i] != '.',
        plain != seq!['.'],
    ensures
        path_extension(stem + seq!['.'] + ext) == ext,
        path_extension(dir + seq!['/'] + (stem + seq!['.'] + ext)) == ext,
        path_extension(plain).len() == 0,
        path_extension(dir + seq!['/'] + plain).len() == 0,
{
    let name = stem + seq!['.'] + ext;
    assert(!name.contains('/')) by {
        if name.contains('/') {
            let i = choose|i: int| 0 <= i < name.len() && name[i] == '/';
            if i < stem.len() {
                assert(stem.contains(stem[i]));
            } else if i > stem.len() {
                assert(ext.contains(ext[i - stem.len() - 1]));
            }
        }
    }
    assert(name.len() >= 2);
    lemma_name_at_end(dir, name);
    lemma_last_index_behind(stem, '.', ext);
    assert(name.skip(stem.len() as int + 1) =~= ext);
    assert(plain != seq!['.', '.']) by {
        if plain == seq!['.', '.'] {
            assert(plain[1] == '.');
        }
    }
    lemma_name_at_end(dir, plain);
    text::law_last_index(plain, '.');
    if text::last_index(plain, '.') > 0 {
        assert(plain[text::last_index(plain, '.')] != '.');
    }
}

/// A slash at the end of a path, or a slash and a dot, does not change its file name.
pub proof fn law_trailing_slashes_do_not_count(path: Seq<char>)
    ensures
        path_extension(path + seq!['/']) == path_extension(path),
        path_extension(path + seq!['/', '.']) == path_extension(path),
{
    reveal_strlit(".");
    reveal_strlit("..");
    assert("."@ =~= seq!['.']);
    let a = path + seq!['/'];
    assert(path + seq!['/'] + Seq::<char>::empty() =~= a);
    lemma_last_index_behind(path, '/', Seq::empty());
    assert(a.skip(path.len() as int + 1) =~= Seq::<char>::empty());
    assert(a.take(path.len() as int) =~= path);
    let b = path + seq!['/', '.'];
    assert(path + seq!['/'] + seq!['.'] =~= b);
    lemma_last_index_behind(path, '/', seq!['.']);
    assert(b.skip(path.len() as int + 1) =~= seq!['.']);
    assert(b.take(path.len() as int) =~= path);
}

/// A duration of ordinary size can always be read: one of up to five hundred characters whose
/// numbers are no more than a thousand million, with whatever units.
pub proof fn law_ordinary_durations_fit(s: Seq<char>)
    requires
        s.len() <= 500,
        forall|i: nat| i <= s.len() ==> (#[trigger] scanned(s, i)).number <= 1_000_000_000,
    ensures
        duration_fits(s),
{
    lemma_bound_grows(s, s.len());
}

proof fn lemma_bound_grows(s: Seq<char>, n: nat)
    requires
        n <= s.len(),
        forall|i: nat| i <= s.len() ==> (#[trigger] scanned(s, i)).number <= 1_000_000_000,
    ensures
        scanned(s, n).bound <= n * 31_557_600_031_557_604,
    decreases n,
{
    if n > 0 {
        lemma_bound_grows(s, (n - 1) as nat);
        let before = scanned(s, (n - 1) as nat);
        assert(before.number <= 1_000_000_000);
        assert(span_bound(before.number, s[n - 1], char_or_blank(s, n as int))
            <= 31_557_600_031_557_604);
    }
}

/// A number is read digit by digit, a decimal point ends it, and a unit counts it once; white
/// space counts for nothing.
pub proof fn law_spans_are_scanned(st: SpanScan, d: nat, next: char)
    requires
        d < 10,
        st.part == SpanPart::Number,
    ensures
        scan_char(st, text::digit_char(d), next).number == 10 * st.number + d,
        scan_char(st, text::digit_char(d), next).bound == st.bound,
        scan_char(st, ' ', next) == st,
        scan_char(st, '.', next).part == SpanPart::Fraction && scan_char(st, '.', next).number
            == st.number,
        scan_char(st, 's', next).bound == st.bound + st.number + 5,
        scan_char(st, 'h', next).bound >= st.bound + 3600 * st.number,
        scan_char(st, 'd', next).bound >= st.bound + 86_400 * st.number,
        scan_char(st, 'w', next).bound >= st.bound + 604_800 * st.number,
        scan_char(st, 'y', next).bound >= st.bound + 31_557_600 * st.number,
        scan_char(st, 'M', next).bound >= st.bound + 2_630_016 * st.number,
        next != 's' ==> scan_char(st, 'm', next).bound >= st.bound + 60 * st.number,
        next == 'o' ==> scan_char(st, 'm', next).bound >= st.bound + 2_630_016 * st.number,
{
}

} // verus!
