//! Time ranges, timestamps and the choice of the API key.

use crate::text::{decimal, lower_of, lowercase, parse_u64, parse_u64_spec, trim, trim_of};
use vstd::prelude::*;

verus! {

/// An instant: seconds since 1970-01-01T00:00:00Z and nanoseconds past that second.
#[derive(Clone, Copy, PartialEq, Eq, Structural, Debug)]
pub struct Timestamp {
    pub secs: i64,
    pub nanos: u32,
}

/// The instant that an RFC 3339 text denotes, as chrono reads it.
pub uninterp spec fn rfc3339_instant(s: Seq<char>) -> Option<Timestamp>;

/// The `%Y-%m-%dT%H:%M:%SZ` form of an instant, as chrono writes it.
pub uninterp spec fn iso_utc_text(t: Timestamp) -> Option<Seq<char>>;

/// The `%Y-%m-%d %H:%M:%S UTC` form of an instant, as chrono writes it.
pub uninterp spec fn display_utc_text(t: Timestamp) -> Option<Seq<char>>;

/// Relies on `chrono::DateTime::parse_from_rfc3339`: the instant a text
/// denotes, or chrono's message when it is not RFC 3339; the instant
/// depends on the text alone.
#[verifier::external_body]
fn parse_rfc3339(s: &str) -> (r: Result<Timestamp, String>)
    ensures
        r matches Ok(t) ==> rfc3339_instant(s@) == Some(t),
        r is Err ==> rfc3339_instant(s@) is None,
{
    match chrono::DateTime::parse_from_rfc3339(s) {
        Ok(d) => Ok(Timestamp { secs: d.timestamp(), nanos: d.timestamp_subsec_nanos() }),
        Err(e) => Err(e.to_string()),
    }
}

/// Relies on `chrono::DateTime::from_timestamp` and `format`: the instant
/// written as `%Y-%m-%dT%H:%M:%SZ`, or `None` when chrono cannot represent it.
#[verifier::external_body]
fn iso_utc(t: Timestamp) -> (r: Option<String>)
    ensures
        r matches Some(s) ==> iso_utc_text(t) == Some(s@),
        r is None ==> iso_utc_text(t) is None,
{
    chrono::DateTime::from_timestamp(t.secs, t.nanos).map(
        |d| d.format("%Y-%m-%dT%H:%M:%SZ").to_string(),
    )
}

/// Relies on `chrono::DateTime::from_timestamp` and `format`: the instant
/// written as `%Y-%m-%d %H:%M:%S UTC`, or `None` when chrono cannot represent it.
#[verifier::external_body]
fn display_utc(t: Timestamp) -> (r: Option<String>)
    ensures
        r matches Some(s) ==> display_utc_text(t) == Some(s@),
        r is None ==> display_utc_text(t) is None,
{
    chrono::DateTime::from_timestamp(t.secs, t.nanos).map(
        |d| d.format("%Y-%m-%d %H:%M:%S UTC").to_string(),
    )
}

/// Relies on `chrono::DateTime::with_timezone(&Local)` and `format`: the
/// instant in the machine's time zone as `%Y-%m-%d %H:%M:%S %:z`; what it
/// reads depends on the machine, so nothing is stated of the text.
#[verifier::external_body]
fn display_local(t: Timestamp) -> (r: Option<String>) {
    chrono::DateTime::from_timestamp(t.secs, t.nanos).map(
        |d| d.with_timezone(&chrono::Local).format("%Y-%m-%d %H:%M:%S %:z").to_string(),
    )
}

/// Relies on `chrono::Utc::now`: the current instant; nothing is known of it.
#[verifier::external_body]
fn now_utc() -> (r: Timestamp) {
    let d = chrono::Utc::now();
    Timestamp { secs: d.timestamp(), nanos: d.timestamp_subsec_nanos() }
}

/// The current instant as ISO 8601 (`%Y-%m-%dT%H:%M:%SZ`).
pub fn now_text() -> (r: Result<String, String>)
    ensures
        r matches Ok(s) ==> exists|t: Timestamp| iso_utc_text(t) == Some(s@),
{
    format_time(now_utc())
}

/// The text without any trailing `Z` or `z`.
pub open spec fn strip_zulu(s: Seq<char>) -> Seq<char>
    decreases s.len(),
{
    if s.len() > 0 && (s.last() == 'Z' || s.last() == 'z') {
        strip_zulu(s.drop_last())
    } else {
        s
    }
}

/// The instant an ISO-8601 text denotes: its trimmed form without trailing
/// `Z`s, read as RFC 3339 once `Z` is appended, or else as it stands.
pub open spec fn time_of(s: Seq<char>) -> Option<Timestamp> {
    let core = strip_zulu(trim_of(s));
    match rfc3339_instant(core + "Z"@) {
        Some(t) => Some(t),
        None => rfc3339_instant(core),
    }
}

/// Parses an ISO-8601 time.
pub fn parse_time(s: &str) -> (r: Result<Timestamp, String>)
    ensures
        r matches Ok(t) ==> time_of(s@) == Some(t),
        r is Err ==> time_of(s@) is None,
{
    let t = trim(s);
    let n = t.unicode_len();
    let mut end: usize = n;
    assert(t@.subrange(0, n as int) =~= t@);
    while end > 0 && is_zulu(t.get_char(end - 1))
        invariant
            end <= n,
            n == t@.len(),
            strip_zulu(t@) == strip_zulu(t@.subrange(0, end as int)),
        decreases end,
    {
        proof {
            assert(t@.subrange(0, end as int).drop_last() =~= t@.subrange(0, end - 1));
        }
        end = end - 1;
    }
    let core = t.substring_char(0, end);
    proof {
        assert(t@.subrange(0, n as int) =~= t@);
        assert(strip_zulu(t@.subrange(0, end as int)) == t@.subrange(0, end as int));
    }
    let mut with_z = core.to_owned();
    with_z.append("Z");
    match parse_rfc3339(with_z.as_str()) {
        Ok(ts) => Ok(ts),
        Err(_) => parse_rfc3339(core),
    }
}

fn is_zulu(c: char) -> (r: bool)
    ensures
        r == (c == 'Z' || c == 'z'),
{
    c == 'Z' || c == 'z'
}

/// Formats an instant as ISO 8601 (`%Y-%m-%dT%H:%M:%SZ`) for the API.
pub fn format_time(t: Timestamp) -> (r: Result<String, String>)
    ensures
        r matches Ok(s) ==> iso_utc_text(t) == Some(s@),
        r is Err ==> iso_utc_text(t) is None,
{
    match iso_utc(t) {
        Some(s) => Ok(s),
        None => Err(String::from_str("time out of range")),
    }
}

/// Formats an ISO-8601 timestamp for display: in UTC when `use_utc`, else in
/// the local time zone. A text that is no time comes back unchanged.
pub fn format_timestamp_display(ts: &str, use_utc: bool) -> (r: String)
    ensures
        time_of(ts@) is None ==> r@ == ts@,
        time_of(ts@) is Some && use_utc ==> r@ == match display_utc_text(time_of(ts@)->0) {
            Some(x) => x,
            None => ts@,
        },
{
    let t = match parse_time(ts) {
        Ok(t) => t,
        Err(_) => return ts.to_owned(),
    };
    let shown = if use_utc {
        display_utc(t)
    } else {
        display_local(t)
    };
    match shown {
        Some(s) => s,
        None => ts.to_owned(),
    }
}

/// The text without its spaces.
pub open spec fn without_spaces(s: Seq<char>) -> Seq<char>
    decreases s.len(),
{
    if s.len() == 0 {
        s
    } else if s.last() == ' ' {
        without_spaces(s.drop_last())
    } else {
        without_spaces(s.drop_last()).push(s.last())
    }
}

/// Number of leading ASCII digits.
pub open spec fn digit_run(s: Seq<char>) -> nat
    decreases s.len(),
{
    if s.len() > 0 && '0' <= s[0] <= '9' {
        1 + digit_run(s.drop_first())
    } else {
        0
    }
}

/// `p` begins the text.
pub open spec fn starts_with(s: Seq<char>, p: Seq<char>) -> bool {
    s.len() >= p.len() && s.subrange(0, p.len() as int) == p
}

/// Seconds per unit of a range: minutes (`min...`), hours (`hr...` or
/// `hour...`) or days (`day...`).
pub open spec fn unit_seconds(u: Seq<char>) -> Option<nat> {
    if starts_with(u, "min"@) {
        Some(60)
    } else if starts_with(u, "hr"@) || starts_with(u, "hour"@) {
        Some(3600)
    } else if starts_with(u, "day"@) {
        Some(86400)
    } else {
        None
    }
}

/// How a range text reads: trimmed, lower-cased and without spaces, a
/// decimal number followed by a unit.
pub open spec fn range_parts(range: Seq<char>) -> (Option<u64>, Seq<char>) {
    let s = without_spaces(lower_of(trim_of(range)));
    let k = digit_run(s);
    (parse_u64_spec(s.subrange(0, k as int)), trim_of(s.subrange(k as int, s.len() as int)))
}

/// The seconds a range text denotes, or why it denotes none.
pub open spec fn range_result(range: Seq<char>) -> Result<u64, Seq<char>> {
    let (num, unit) = range_parts(range);
    match num {
        None => Err("Invalid range: "@ + range),
        Some(n) => match unit_seconds(unit) {
            None => Err("Unknown time unit in range: "@ + range),
            Some(m) => if n * m <= u64::MAX {
                Ok((n * m) as u64)
            } else {
                Err("Invalid range: "@ + range)
            },
        },
    }
}

fn begins_with(s: &str, p: &str) -> (r: bool)
    ensures
        r == starts_with(s@, p@),
{
    let n = s.unicode_len();
    let m = p.unicode_len();
    if n < m {
        return false;
    }
    crate::text::str_eq(s.substring_char(0, m), p)
}

/// Parses a range such as `30min`, `1day` or `7days` into seconds.
pub fn parse_range(range_str: &str) -> (r: Result<u64, String>)
    ensures
        match range_result(range_str@) {
            Ok(n) => r == Ok::<u64, String>(n),
            Err(m) => r matches Err(e) && e@ == m,
        },
{
    let t = trim(range_str);
    let low = lowercase(t);
    let mut s = String::new();
    let n = low.as_str().unicode_len();
    let mut i: usize = 0;
    while i < n
        invariant
            i <= n,
            n == low@.len(),
            s@ == without_spaces(low@.subrange(0, i as int)),
        decreases n - i,
    {
        let c = low.as_str().get_char(i);
        proof {
            assert(low@.subrange(0, i + 1).drop_last() =~= low@.subrange(0, i as int));
        }
        if c != ' ' {
            crate::text::push_char(&mut s, c);
        }
        i = i + 1;
    }
    proof {
        assert(low@.subrange(0, n as int) =~= low@);
    }
    let len = s.as_str().unicode_len();
    let mut k: usize = 0;
    assert(s@.subrange(0, len as int) =~= s@);
    while k < len && is_digit(s.as_str().get_char(k))
        invariant
            k <= len,
            len == s@.len(),
            digit_run(s@) == k + digit_run(s@.subrange(k as int, len as int)),
        decreases len - k,
    {
        proof {
            assert(s@.subrange(k as int, len as int).drop_first() =~= s@.subrange(k + 1, len as int));
        }
        k = k + 1;
    }
    proof {
        assert(s@.subrange(0, len as int) =~= s@);
        if k < len {
            assert(s@.subrange(k as int, len as int)[0] == s@[k as int]);
        }
    }
    let num = parse_u64(s.as_str().substring_char(0, k));
    let unit = trim(s.as_str().substring_char(k, len));
    let factor: u64 = if begins_with(unit, "min") {
        60
    } else if begins_with(unit, "hr") || begins_with(unit, "hour") {
        3600
    } else if begins_with(unit, "day") {
        86400
    } else {
        0
    };
    match num {
        None => {
            let mut e = String::from_str("Invalid range: ");
            e.append(range_str);
            Err(e)
        },
        Some(v) => {
            if factor == 0 {
                let mut e = String::from_str("Unknown time unit in range: ");
                e.append(range_str);
                Err(e)
            } else if v <= u64::MAX / factor {
                assert(v * factor <= u64::MAX) by (nonlinear_arith)
                    requires
                        v <= u64::MAX / factor,
                        factor > 0,
                ;
                Ok(v * factor)
            } else {
                assert(v * factor > u64::MAX) by (nonlinear_arith)
                    requires
                        v > u64::MAX / factor,
                        factor > 0,
                ;
                let mut e = String::from_str("Invalid range: ");
                e.append(range_str);
                Err(e)
            }
        },
    }
}

fn is_digit(c: char) -> (r: bool)
    ensures
        r == ('0' <= c <= '9'),
{
    '0' <= c && c <= '9'
}

/// Widest range the API accepts: two weeks, in seconds.
pub const MAX_RANGE_SECS: i64 = 1209600;

/// Whole seconds from `from` to a later `to`.
pub open spec fn whole_seconds(from: Timestamp, to: Timestamp) -> int {
    if to.nanos >= from.nanos {
        to.secs - from.secs
    } else {
        to.secs - from.secs - 1
    }
}

/// `a` comes strictly before `b`.
pub open spec fn before(a: Timestamp, b: Timestamp) -> bool {
    a.secs < b.secs || (a.secs == b.secs && a.nanos < b.nanos)
}

/// The result is a plain error with exactly this message.
pub open spec fn other_error(r: Result<(), crate::error::Error>, msg: Seq<char>) -> bool {
    r matches Err(crate::error::Error::Other(m)) && m@ == msg
}

/// Validates that a time range is well ordered and at most two weeks long.
pub fn validate_time_range(from: &str, to: &str) -> (r: Result<(), crate::error::Error>)
    ensures
        time_of(from@) is None ==> r matches Err(crate::error::Error::Other(_)),
        time_of(from@) is Some && time_of(to@) is None ==> r matches Err(
            crate::error::Error::Other(_),
        ),
        time_of(from@) matches Some(f) ==> time_of(to@) matches Some(t) ==> {
            &&& !before(f, t) ==> other_error(r, "from_time must be before to_time"@)
            &&& before(f, t) && whole_seconds(f, t) > MAX_RANGE_SECS ==> other_error(
                r,
                "Time range cannot exceed 2 weeks"@,
            )
            &&& before(f, t) && whole_seconds(f, t) <= MAX_RANGE_SECS ==> r is Ok
        },
{
    let f = match parse_time(from) {
        Ok(t) => t,
        Err(e) => return Err(crate::error::Error::Other(e)),
    };
    let t = match parse_time(to) {
        Ok(t) => t,
        Err(e) => return Err(crate::error::Error::Other(e)),
    };
    if !(f.secs < t.secs || (f.secs == t.secs && f.nanos < t.nanos)) {
        return Err(crate::error::Error::Other(String::from_str("from_time must be before to_time")));
    }
    let whole: i128 = if t.nanos >= f.nanos {
        t.secs as i128 - f.secs as i128
    } else {
        t.secs as i128 - f.secs as i128 - 1
    };
    if whole > MAX_RANGE_SECS as i128 {
        return Err(crate::error::Error::Other(String::from_str("Time range cannot exceed 2 weeks")));
    }
    Ok(())
}

/// The `(from, to)` texts of a range of `range` ending at `end`, when the
/// range is valid and both ends can be written.
pub open spec fn range_texts(range: Seq<char>, end: Timestamp) -> Option<(Seq<char>, Seq<char>)> {
    match range_result(range) {
        Ok(n) => if end.secs - n >= i64::MIN {
            let start = Timestamp { secs: (end.secs - n) as i64, nanos: end.nanos };
            match (iso_utc_text(start), iso_utc_text(end)) {
                (Some(a), Some(b)) => Some((a, b)),
                _ => None,
            }
        } else {
            None
        },
        Err(_) => None,
    }
}

/// The ISO-8601 ends of a range of `range` that ends at `end`.
pub fn range_ending_at(range: &str, end: Timestamp) -> (r: Result<(String, String), String>)
    ensures
        r matches Ok((a, b)) ==> range_texts(range@, end) == Some((a@, b@)),
        r is Err ==> range_texts(range@, end) is None,
{
    let secs = parse_range(range)?;
    if (end.secs as i128) - (secs as i128) < i64::MIN as i128 {
        return Err(String::from_str("time out of range"));
    }
    let start = Timestamp { secs: ((end.secs as i128) - (secs as i128)) as i64, nanos: end.nanos };
    let a = format_time(start)?;
    let b = format_time(end)?;
    Ok((a, b))
}

/// The ISO-8601 ends of a range of `range` ending at `to`, or now.
pub fn calculate_range(range: &str, to: Option<&str>) -> (r: Result<(String, String), String>)
    ensures
        to is Some && time_of(to->0@) is None ==> r is Err,
        to is Some && time_of(to->0@) is Some ==> match r {
            Ok((a, b)) => range_texts(range@, time_of(to->0@)->0) == Some((a@, b@)),
            Err(_) => range_texts(range@, time_of(to->0@)->0) is None,
        },
        to is None ==> exists|end: Timestamp|
            match r {
                Ok((a, b)) => #[trigger] range_texts(range@, end) == Some((a@, b@)),
                Err(_) => range_texts(range@, end) is None,
            },
{
    let end = match to {
        Some(t) => parse_time(t)?,
        None => now_utc(),
    };
    range_ending_at(range, end)
}

/// The secret manager that gave the API key.
#[derive(Clone, Copy, PartialEq, Eq, Structural, Debug)]
pub enum ApiKeySource {
    OnePassword,
    Bitwarden,
    Keepassxc,
}

/// The message when no secret manager gave a key.
pub const NO_API_KEY: &'static str = "API key not found. Configure a secret backend: SCOUT_OP_ENTRY_PATH (1Password), SCOUT_BW_ITEM_ID (Bitwarden), or SCOUT_KPXC_DB+SCOUT_KPXC_ENTRY (KeePassXC). Plain-text keys are not supported.";

/// A key that a secret manager gave.
pub open spec fn usable(k: Option<String>) -> bool {
    k matches Some(s) && s@.len() > 0
}

/// The secret manager asked after `s`: 1Password, then Bitwarden, then KeePassXC.
pub open spec fn next_source(s: ApiKeySource) -> Option<ApiKeySource> {
    match s {
        ApiKeySource::OnePassword => Some(ApiKeySource::Bitwarden),
        ApiKeySource::Bitwarden => Some(ApiKeySource::Keepassxc),
        ApiKeySource::Keepassxc => None,
    }
}

/// Where the search for the API key stands.
#[derive(Debug)]
pub enum KeySearch {
    /// Ask this secret manager next.
    Ask(ApiKeySource),
    /// The key, and the secret manager that gave it.
    Found(String, ApiKeySource),
    /// No secret manager gave a key.
    NotFound(String),
}

/// One step of the search for the API key. It starts (`None`) by asking
/// 1Password; a non-empty answer of the secret manager just asked is the key;
/// otherwise the next secret manager is asked (Bitwarden, then KeePassXC),
/// and after the last one the search fails. No manager is asked once a key
/// is found.
pub fn get_api_key(answered: Option<(ApiKeySource, Option<String>)>) -> (r: KeySearch)
    ensures
        answered is None ==> r == KeySearch::Ask(ApiKeySource::OnePassword),
        answered matches Some((s, k)) ==> if usable(k) {
            r == KeySearch::Found(k->0, s)
        } else {
            match next_source(s) {
                Some(n) => r == KeySearch::Ask(n),
                None => r matches KeySearch::NotFound(m) && m@ == NO_API_KEY@,
            }
        },
{
    match answered {
        None => KeySearch::Ask(ApiKeySource::OnePassword),
        Some((s, k)) => {
            match k {
                Some(key) => if !key.as_str().is_empty() {
                    return KeySearch::Found(key, s);
                },
                None => {},
            }
            match s {
                ApiKeySource::OnePassword => KeySearch::Ask(ApiKeySource::Bitwarden),
                ApiKeySource::Bitwarden => KeySearch::Ask(ApiKeySource::Keepassxc),
                ApiKeySource::Keepassxc => KeySearch::NotFound(String::from_str(NO_API_KEY)),
            }
        },
    }
}

} // verus!
