//! Connection-level config shared by the source and the destination, the
//! duration syntax of `connect_timeout`, and the TNS connect descriptor.
//!
//! TLS is wallet-based, the way the Oracle network stack does it: the server is
//! verified against an Oracle wallet whose directory goes into the descriptor's
//! `MY_WALLET_DIRECTORY`.

use vstd::prelude::*;

use crate::text::{
    chars_of, decimal, is_ascii_digit, is_white_space, law_decimal_round_trip, lemma_decimal_digits,
    lemma_trim_idempotent, lemma_trim_no_edges, parse_u64_range, parse_u64_spec, push_decimal,
    trim, trim_bounds,
};

verus! {

// ── Canonical text formats (shared by source TO_CHAR and destination TO_*) ─────

/// `DATE` to text. Oracle DATE always carries a time component.
pub const FMT_DATE: &'static str = "YYYY-MM-DD HH24:MI:SS";

/// `TIMESTAMP` to text, microsecond precision (canonical data is microseconds).
pub const FMT_TIMESTAMP: &'static str = "YYYY-MM-DD HH24:MI:SS.FF6";

/// `TIMESTAMP WITH [LOCAL] TIME ZONE` to text, with explicit offset.
pub const FMT_TIMESTAMP_TZ: &'static str = "YYYY-MM-DD HH24:MI:SS.FF6 TZH:TZM";

// ── Config structs ─────────────────────────────────────────────────────────────

/// Connection-level config shared by both oracle plugins.
#[derive(Debug)]
pub struct ConnectionConfig {
    /// Host name; `localhost` when the config leaves it out.
    pub host: String,
    /// Listener port; 1521 when the config leaves it out.
    pub port: u16,
    /// Oracle service name (e.g. `FREEPDB1`). Either this or `sid`.
    pub service_name: Option<String>,
    /// Legacy SID, as an alternative to `service_name`.
    pub sid: Option<String>,
    pub user: String,
    pub password: String,
    pub tls: Option<TlsConfig>,
    /// Connection establishment timeout ("10s", "500ms"); 10 seconds when absent.
    pub connect_timeout: Option<String>,
}

/// Wallet-based TLS for the native client. When `enabled`, the connector uses
/// `PROTOCOL=TCPS`; the server is verified against the wallet at `wallet_dir`.
#[derive(Debug)]
pub struct TlsConfig {
    /// Turn on TCPS. When false the block is a no-op (plaintext TCP).
    pub enabled: bool,
    /// Directory holding an auto-login Oracle wallet (`cwallet.sso`).
    pub wallet_dir: Option<String>,
    /// `SSL_SERVER_DN_MATCH`: verify the server certificate DN/SAN matches the
    /// service. Defaults to true.
    pub server_dn_match: bool,
    /// Expected server distinguished name (`SSL_SERVER_CERT_DN`).
    pub distinguished_name: Option<String>,
}

/// The host used when the config names none.
pub fn default_host() -> (r: String)
    ensures
        r@ == "localhost"@,
{
    String::from_str("localhost")
}

/// The port used when the config names none.
pub fn default_port() -> (r: u16)
    ensures
        r == 1521,
{
    1521
}

/// The default of the boolean options that are on unless turned off.
pub fn default_true() -> (r: bool)
    ensures
        r,
{
    true
}

// ── Durations ─────────────────────────────────────────────────────────────────

/// A span of time: whole seconds plus a sub-second count of nanoseconds.
#[derive(Debug, Clone, Copy, PartialEq, Eq, Structural)]
pub struct Duration {
    secs: u64,
    nanos: u32,
}

impl Duration {
    #[verifier::type_invariant]
    spec fn nanos_below_one_second(self) -> bool {
        self.nanos < 1_000_000_000
    }

    /// The whole span in nanoseconds.
    pub closed spec fn total_nanos(self) -> int {
        self.secs * 1_000_000_000 + self.nanos
    }

    /// The sub-second part is below one second, as in every span this type
    /// hands out.
    pub closed spec fn canonical(self) -> bool {
        self.nanos < 1_000_000_000
    }

    /// Two canonical spans of the same length are the same value.
    pub proof fn lemma_total_nanos_determines(a: Duration, b: Duration)
        requires
            a.canonical(),
            b.canonical(),
            a.total_nanos() == b.total_nanos(),
        ensures
            a == b,
    {
        assert(a.secs == b.secs && a.nanos == b.nanos) by (nonlinear_arith)
            requires
                a.nanos < 1_000_000_000,
                b.nanos < 1_000_000_000,
                a.secs * 1_000_000_000 + a.nanos == b.secs * 1_000_000_000 + b.nanos,
                a.secs >= 0,
                b.secs >= 0,
        ;
    }

    /// A span of `secs` whole seconds.
    pub fn from_secs(secs: u64) -> (d: Duration)
        ensures
            d.total_nanos() == secs * 1_000_000_000,
            d.canonical(),
    {
        Duration { secs, nanos: 0 }
    }

    /// A span of `millis` milliseconds.
    pub fn from_millis(millis: u64) -> (d: Duration)
        ensures
            d.total_nanos() == millis * 1_000_000,
            d.canonical(),
    {
        let secs = millis / 1000;
        let rest = millis % 1000;
        let nanos: u32 = (rest as u32) * 1_000_000;
        Duration { secs, nanos }
    }

    /// The number of whole seconds in the span.
    pub fn as_secs(&self) -> (r: u64)
        ensures
            r == self.total_nanos() / 1_000_000_000,
    {
        proof {
            use_type_invariant(self);
        }
        self.secs
    }

    /// The nanoseconds beyond the whole seconds.
    pub fn subsec_nanos(&self) -> (r: u32)
        ensures
            r == self.total_nanos() % 1_000_000_000,
    {
        proof {
            use_type_invariant(self);
        }
        self.nanos
    }
}

/// The number text of a duration and its unit, in seconds per unit (0 stands
/// for milliseconds). `ms` is looked for before `s`, so "10ms" is ten
/// milliseconds and not "10m" with a stray `s`.
pub open spec fn split_unit(t: Seq<char>) -> Option<(Seq<char>, nat)> {
    let n = t.len();
    if n >= 2 && t[n - 2] == 'm' && t[n - 1] == 's' {
        Some((t.take(n - 2), 0))
    } else if n >= 1 && t[n - 1] == 's' {
        Some((t.take(n - 1), 1))
    } else if n >= 1 && t[n - 1] == 'm' {
        Some((t.take(n - 1), 60))
    } else if n >= 1 && t[n - 1] == 'h' {
        Some((t.take(n - 1), 3600))
    } else if n >= 1 && t[n - 1] == 'd' {
        Some((t.take(n - 1), 86400))
    } else {
        None
    }
}

/// The count and unit that a duration text spells, once trimmed.
pub open spec fn duration_count(s: Seq<char>) -> Option<(nat, nat)> {
    match split_unit(trim(s)) {
        Some((num, unit)) => match parse_u64_spec(trim(num)) {
            Some(count) => Some((count, unit)),
            None => None,
        },
        None => None,
    }
}

/// A count in whole seconds whose product with the unit leaves `u64`.
pub open spec fn duration_overflows(s: Seq<char>) -> bool {
    match duration_count(s) {
        Some((count, unit)) => unit > 0 && count * unit > u64::MAX,
        None => false,
    }
}

/// The span, in nanoseconds, that a duration text denotes.
pub open spec fn duration_nanos(s: Seq<char>) -> Option<int> {
    match duration_count(s) {
        Some((count, unit)) => Some(
            if unit == 0 {
                (count * 1_000_000) as int
            } else {
                (count * unit * 1_000_000_000) as int
            },
        ),
        None => None,
    }
}

/// The text of the error for the invalid duration text `input`.
pub open spec fn duration_message(input: Seq<char>) -> Seq<char> {
    "invalid duration '"@ + input
        + "': expected a number followed by ms/s/m/h/d (e.g. '10s', '500ms', '2h')"@
}

/// A duration text that is not a number followed by `ms`, `s`, `m`, `h` or `d`.
#[derive(Debug)]
pub struct DurationError {
    /// The offending text, trimmed.
    pub input: String,
}

impl DurationError {
    /// The error's text.
    pub fn message(&self) -> (r: String)
        ensures
            r@ == duration_message(self.input@),
    {
        let mut r = String::from_str("invalid duration '");
        r.append(self.input.as_str());
        r.append("': expected a number followed by ms/s/m/h/d (e.g. '10s', '500ms', '2h')");
        r
    }
}

/// The error for the trimmed duration text `v[from..to]`.
fn dur_err(v: &Vec<char>, from: usize, to: usize) -> (e: DurationError)
    requires
        from <= to <= v.len(),
    ensures
        e.input@ == v@.subrange(from as int, to as int),
{
    DurationError { input: crate::text::string_of_range(v, from, to) }
}

/// Whether `parse_duration(s)` can be computed: a count of seconds, minutes,
/// hours or days whose value in seconds fits in a `u64`.
pub fn duration_fits(s: &str) -> (r: bool)
    ensures
        r == !duration_overflows(s@),
{
    let v = chars_of(s);
    let (a, b) = trim_bounds(&v, 0, v.len());
    assert(v@.subrange(0, v@.len() as int) =~= v@);
    let ghost t = v@.subrange(a as int, b as int);
    let (k, unit) = suffix_of(&v, a, b);
    if k == 0 {
        return true;
    }
    let (c, d) = trim_bounds(&v, a, b - k);
    assert(t.take(t.len() - k) =~= v@.subrange(a as int, b - k));
    match parse_u64_range(&v, c, d) {
        Some(count) => {
            if unit == 0 {
                true
            } else {
                assert(count * unit > u64::MAX <==> count > u64::MAX / unit) by (nonlinear_arith)
                    requires
                        unit > 0,
                ;
                count <= u64::MAX / unit
            }
        },
        None => true,
    }
}

/// The length of the unit suffix of `v[a..b]` (0 when there is none) and the
/// unit in seconds (0 for milliseconds), as `split_unit` reads them.
fn suffix_of(v: &Vec<char>, a: usize, b: usize) -> (r: (usize, u64))
    requires
        a <= b <= v.len(),
    ensures
        r.0 <= b - a,
        ({
            let t = v@.subrange(a as int, b as int);
            match split_unit(t) {
                Some((num, unit)) => r.0 > 0 && num == t.take(t.len() - r.0) && unit == r.1,
                None => r.0 == 0,
            }
        }),
{
    let n = b - a;
    if n >= 2 && v[b - 2] == 'm' && v[b - 1] == 's' {
        (2, 0)
    } else if n >= 1 && v[b - 1] == 's' {
        (1, 1)
    } else if n >= 1 && v[b - 1] == 'm' {
        (1, 60)
    } else if n >= 1 && v[b - 1] == 'h' {
        (1, 3600)
    } else if n >= 1 && v[b - 1] == 'd' {
        (1, 86400)
    } else {
        (0, 0)
    }
}

/// Parses a human-readable duration string into a `Duration`: surrounding
/// white space is ignored, then a count (an optional `+` and ASCII digits, with
/// white space allowed before the unit) followed by one of the units `ms`,
/// `s`, `m`, `h`, `d`.
pub fn parse_duration(s: &str) -> (r: Result<Duration, DurationError>)
    requires
        !duration_overflows(s@),
    ensures
        r is Ok <==> duration_nanos(s@) is Some,
        r matches Ok(d) ==> duration_nanos(s@) == Some(d.total_nanos()) && d.canonical(),
        r matches Err(e) ==> e.input@ == trim(s@),
{
    let v = chars_of(s);
    let (a, b) = trim_bounds(&v, 0, v.len());
    assert(v@.subrange(0, v@.len() as int) =~= v@);
    let ghost t = v@.subrange(a as int, b as int);
    let (k, unit) = suffix_of(&v, a, b);
    if k == 0 {
        return Err(dur_err(&v, a, b));
    }
    let (c, d) = trim_bounds(&v, a, b - k);
    assert(t.take(t.len() - k) =~= v@.subrange(a as int, b - k));
    match parse_u64_range(&v, c, d) {
        Some(count) => {
            if unit == 0 {
                Ok(Duration::from_millis(count))
            } else {
                proof {
                    assert(count * unit <= u64::MAX);
                }
                let secs = count * unit;
                let dur = Duration::from_secs(secs);
                assert(dur.total_nanos() == count * unit * 1_000_000_000) by (nonlinear_arith)
                    requires
                        dur.total_nanos() == secs * 1_000_000_000,
                        secs == count * unit,
                ;
                Ok(dur)
            }
        },
        None => Err(dur_err(&v, a, b)),
    }
}

// ── Connect descriptor ─────────────────────────────────────────────────────────

/// The `CONNECT_DATA` body: the service name when there is one, else the SID.
pub open spec fn connect_data(cfg: ConnectionConfig) -> Option<Seq<char>> {
    match cfg.service_name {
        Some(svc) => Some("(SERVICE_NAME="@ + svc@ + ")"@),
        None => match cfg.sid {
            Some(sid) => Some("(SID="@ + sid@ + ")"@),
            None => None,
        },
    }
}

/// TLS is on when a `tls` block is present and enabled.
pub open spec fn tls_on(cfg: ConnectionConfig) -> bool {
    cfg.tls matches Some(t) && t.enabled
}

/// The `CONNECT_TIMEOUT` in whole seconds: the configured span rounded down,
/// and at least 1; 10 when none is configured; `None` when the text is invalid.
pub open spec fn timeout_secs(cfg: ConnectionConfig) -> Option<int> {
    match cfg.connect_timeout {
        Some(s) => match duration_nanos(s@) {
            Some(ns) => Some(
                if ns / 1_000_000_000 >= 1 {
                    ns / 1_000_000_000
                } else {
                    1
                },
            ),
            None => None,
        },
        None => Some(10),
    }
}

/// The `SECURITY` section: DN matching, the pinned DN if any, then the wallet
/// directory if any; empty without TLS.
pub open spec fn security_section(cfg: ConnectionConfig) -> Seq<char> {
    if tls_on(cfg) {
        let t = cfg.tls->0;
        "(SECURITY="@ + (if t.server_dn_match {
            "(SSL_SERVER_DN_MATCH=yes)"@
        } else {
            "(SSL_SERVER_DN_MATCH=no)"@
        }) + (match t.distinguished_name {
            Some(dn) => "(SSL_SERVER_CERT_DN=\""@ + dn@ + "\")"@,
            None => Seq::<char>::empty(),
        }) + (match t.wallet_dir {
            Some(dir) => "(MY_WALLET_DIRECTORY="@ + dir@ + ")"@,
            None => Seq::<char>::empty(),
        }) + ")"@
    } else {
        Seq::<char>::empty()
    }
}

/// The whole descriptor for the given `CONNECT_DATA` body and timeout.
pub open spec fn descriptor_text(cfg: ConnectionConfig, data: Seq<char>, timeout: int) -> Seq<
    char,
> {
    "(DESCRIPTION=(CONNECT_TIMEOUT="@ + decimal(timeout as nat) + ")(ADDRESS=(PROTOCOL="@ + (
    if tls_on(cfg) {
        "TCPS"@
    } else {
        "TCP"@
    }) + ")(HOST="@ + cfg.host@ + ")(PORT="@ + decimal(cfg.port as nat) + "))(CONNECT_DATA="@
        + data + ")"@ + security_section(cfg) + ")"@
}

/// Why no descriptor could be built.
#[derive(Debug)]
pub enum DescriptorError {
    /// Neither `service_name` nor `sid` is set.
    MissingServiceOrSid,
    /// `connect_timeout` is not a valid duration.
    InvalidConnectTimeout(DurationError),
}

impl DescriptorError {
    /// The error's text, outermost context first.
    pub fn message(&self) -> (r: String)
        ensures
            self is MissingServiceOrSid ==> r@ == "oracle config requires either service_name or sid"@,
            self is InvalidConnectTimeout ==> r@ == "invalid connect_timeout: "@ + duration_message(
                self->InvalidConnectTimeout_0.input@,
            ),
    {
        match self {
            DescriptorError::MissingServiceOrSid => {
                String::from_str("oracle config requires either service_name or sid")
            },
            DescriptorError::InvalidConnectTimeout(e) => {
                let mut r = String::from_str("invalid connect_timeout: ");
                let m = e.message();
                r.append(m.as_str());
                r
            },
        }
    }
}

/// The `CONNECT_DATA` body of `cfg`, if it names a service or a SID.
fn connect_data_of(cfg: &ConnectionConfig) -> (r: Option<String>)
    ensures
        r is Some <==> connect_data(*cfg) is Some,
        r matches Some(d) ==> d@ == connect_data(*cfg)->0,
{
    let mut data = String::new();
    match &cfg.service_name {
        Some(svc) => {
            data.append("(SERVICE_NAME=");
            data.append(svc.as_str());
            data.append(")");
        },
        None => match &cfg.sid {
            Some(sid) => {
                data.append("(SID=");
                data.append(sid.as_str());
                data.append(")");
            },
            None => {
                return None;
            },
        },
    }
    Some(data)
}

/// The `SECURITY` section of `cfg`.
fn security_of(cfg: &ConnectionConfig) -> (r: String)
    ensures
        r@ == security_section(*cfg),
{
    let mut security = String::new();
    let tls_enabled = match &cfg.tls {
        Some(t) => t.enabled,
        None => false,
    };
    if tls_enabled {
        let t = cfg.tls.as_ref().unwrap();
        security.append("(SECURITY=");
        if t.server_dn_match {
            security.append("(SSL_SERVER_DN_MATCH=yes)");
        } else {
            security.append("(SSL_SERVER_DN_MATCH=no)");
        }
        if let Some(dn) = &t.distinguished_name {
            security.append("(SSL_SERVER_CERT_DN=\"");
            security.append(dn.as_str());
            security.append("\")");
        }
        if let Some(dir) = &t.wallet_dir {
            security.append("(MY_WALLET_DIRECTORY=");
            security.append(dir.as_str());
            security.append(")");
        }
        security.append(")");
    }
    security
}

/// The statement every session runs right after connecting. Numbers cross
/// the connector as text, so the session's decimal and group separators are
/// pinned to `.` and `,`: text-to-`NUMBER` conversions then read the same way
/// whatever the client or server locale.
pub fn session_setup_sql() -> (r: String)
    ensures
        r@ == "ALTER SESSION SET NLS_NUMERIC_CHARACTERS = '.,'"@,
{
    String::from_str("ALTER SESSION SET NLS_NUMERIC_CHARACTERS = '.,'")
}

/// Builds the TNS connect descriptor string passed to the native client.
/// Plaintext uses `PROTOCOL=TCP`; TLS uses `PROTOCOL=TCPS` plus a `SECURITY`
/// section (wallet directory and DN matching).
pub fn build_descriptor(cfg: &ConnectionConfig) -> (r: Result<String, DescriptorError>)
    requires
        connect_data(*cfg) is Some && cfg.connect_timeout is Some ==> !duration_overflows(
            cfg.connect_timeout->0@,
        ),
    ensures
        connect_data(*cfg) is None ==> r matches Err(DescriptorError::MissingServiceOrSid),
        connect_data(*cfg) is Some && timeout_secs(*cfg) is None ==> (r matches Err(
            DescriptorError::InvalidConnectTimeout(e),
        ) && e.input@ == trim(cfg.connect_timeout->0@)),
        connect_data(*cfg) is Some && timeout_secs(*cfg) is Some ==> (r matches Ok(d) && d@
            == descriptor_text(*cfg, connect_data(*cfg)->0, timeout_secs(*cfg)->0)),
{
    let data = match connect_data_of(cfg) {
        Some(data) => data,
        None => {
            return Err(DescriptorError::MissingServiceOrSid);
        },
    };
    let tls_enabled = match &cfg.tls {
        Some(t) => t.enabled,
        None => false,
    };
    let timeout: u64 = match &cfg.connect_timeout {
        Some(s) => match parse_duration(s.as_str()) {
            Ok(d) => {
                let secs = d.as_secs();
                if secs >= 1 {
                    secs
                } else {
                    1
                }
            },
            Err(e) => {
                return Err(DescriptorError::InvalidConnectTimeout(e));
            },
        },
        None => 10,
    };
    let security = security_of(cfg);
    let mut out = String::from_str("(DESCRIPTION=(CONNECT_TIMEOUT=");
    push_decimal(&mut out, timeout);
    out.append(")(ADDRESS=(PROTOCOL=");
    if tls_enabled {
        out.append("TCPS");
    } else {
        out.append("TCP");
    }
    out.append(")(HOST=");
    out.append(cfg.host.as_str());
    out.append(")(PORT=");
    push_decimal(&mut out, cfg.port as u64);
    out.append("))(CONNECT_DATA=");
    out.append(data.as_str());
    out.append(")");
    out.append(security.as_str());
    out.append(")");
    Ok(out)
}

// ── Laws ─────────────────────────────────────────────────────────────────────

/// The text of a unit, by its length in seconds (0 for milliseconds).
pub open spec fn unit_text(unit: nat) -> Seq<char> {
    if unit == 0 {
        seq!['m', 's']
    } else if unit == 1 {
        seq!['s']
    } else if unit == 60 {
        seq!['m']
    } else if unit == 3600 {
        seq!['h']
    } else {
        seq!['d']
    }
}

/// Every accepted unit reads back: a `u64` count written in decimal followed
/// by `ms`, `s`, `m`, `h` or `d` parses to that count of that unit.
pub proof fn law_duration_round_trip(n: nat, unit: nat)
    requires
        n <= u64::MAX,
        unit == 0 || unit == 1 || unit == 60 || unit == 3600 || unit == 86400,
    ensures
        duration_count(decimal(n) + unit_text(unit)) == Some((n, unit)),
        duration_nanos(decimal(n) + unit_text(unit)) == Some(
            if unit == 0 {
                (n * 1_000_000) as int
            } else {
                (n * unit * 1_000_000_000) as int
            },
        ),
        duration_overflows(decimal(n) + unit_text(unit)) <==> (unit > 0 && n * unit > u64::MAX),
{
    let d = decimal(n);
    let u = unit_text(unit);
    let t = d + u;
    lemma_decimal_digits(n);
    assert(is_ascii_digit(d[0]));
    assert(is_ascii_digit(d.last()));
    assert(t[0] == d[0]);
    assert(t.last() == u.last());
    lemma_trim_no_edges(t);
    assert(t[t.len() - u.len() - 1] == d.last());
    assert(t.take(t.len() - u.len()) =~= d);
    lemma_trim_no_edges(d);
    law_decimal_round_trip(n);
}

/// Surrounding white space never changes what a duration text means.
pub proof fn law_duration_ignores_surrounding_space(s: Seq<char>)
    ensures
        duration_count(trim(s)) == duration_count(s),
        duration_nanos(trim(s)) == duration_nanos(s),
        duration_overflows(trim(s)) == duration_overflows(s),
{
    lemma_trim_idempotent(s);
}

/// The connect timeout is never below one second.
pub proof fn law_timeout_at_least_one_second(cfg: ConnectionConfig)
    ensures
        timeout_secs(cfg) matches Some(t) ==> t >= 1,
{
}

} // verus!
