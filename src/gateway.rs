//! Requests to the remote service: their URLs, their time windows, and how
//! a response is judged.

use crate::error::Error;
use crate::helpers::{calculate_range, range_texts, time_of, validate_time_range, Timestamp};
use crate::json::{json_get, json_str, JsonValue};
use crate::text::str_eq;
use vstd::string::StringSliceAdditionalSpecFns;
use vstd::prelude::*;

verus! {

/// Where the service's API lives.
pub const API_BASE: &'static str = "https://scoutapm.com/api/v0";

/// The bytes that percent-encoding leaves as they are.
pub open spec fn unreserved(b: u8) -> bool {
    (0x30 <= b <= 0x39) || (0x41 <= b <= 0x5a) || (0x61 <= b <= 0x7a) || b == 0x2d || b == 0x2e
        || b == 0x5f || b == 0x7e
}

/// An upper-case hexadecimal digit.
pub open spec fn hex_digit(d: nat) -> char {
    if d < 10 {
        (('0' as nat) + d) as char
    } else {
        (('A' as nat) + d - 10) as char
    }
}

/// Percent-encoding of bytes: unreserved bytes stay, every other byte
/// becomes `%` and two upper-case hexadecimal digits.
pub open spec fn percent_encoded(b: Seq<u8>) -> Seq<char>
    decreases b.len(),
{
    if b.len() == 0 {
        Seq::empty()
    } else {
        let last = b.last();
        percent_encoded(b.drop_last()) + if unreserved(last) {
            seq![last as char]
        } else {
            seq!['%', hex_digit((last / 16) as nat), hex_digit((last % 16) as nat)]
        }
    }
}

/// Relies on `urlencoding::encode`: every byte of the UTF-8 text except
/// ASCII letters, digits and `-._~` becomes `%` and two upper-case
/// hexadecimal digits.
#[verifier::external_body]
fn encode(s: &str) -> (r: String)
    ensures
        r@ == percent_encoded(s.spec_bytes()),
{
    urlencoding::encode(s).into_owned()
}

/// One query parameter, its value percent-encoded.
pub fn encoded_param(name: &str, value: &str) -> (r: String)
    ensures
        r@ == name@ + "="@ + percent_encoded(value.spec_bytes()),
{
    let mut p = name.to_owned();
    p.append("=");
    let v = encode(value);
    p.append(v.as_str());
    p
}

/// One query parameter whose value needs no encoding (a number).
pub fn number_param(name: &str, value: u64) -> (r: String)
    ensures
        r@ == name@ + "="@ + crate::text::decimal(value as nat),
{
    let mut p = name.to_owned();
    p.append("=");
    let v = crate::text::decimal_string(value);
    p.append(v.as_str());
    p
}

/// Parameters joined with `&`.
pub open spec fn joined(params: Seq<Seq<char>>) -> Seq<char>
    decreases params.len(),
{
    if params.len() == 0 {
        Seq::empty()
    } else if params.len() == 1 {
        params[0]
    } else {
        joined(params.drop_last()) + "&"@ + params.last()
    }
}

/// A URL with its query: `?` and the parameters joined with `&`, or the URL
/// alone when there are none.
pub fn with_query(url: &str, params: &Vec<String>) -> (r: String)
    ensures
        params@.len() == 0 ==> r@ == url@,
        params@.len() > 0 ==> r@ == url@ + "?"@ + joined(crate::order::views(params@)),
{
    let mut out = url.to_owned();
    if params.len() == 0 {
        return out;
    }
    out.append("?");
    let ghost start = out@;
    let mut i: usize = 0;
    while i < params.len()
        invariant
            i <= params@.len(),
            params@.len() > 0,
            out@ == start + joined(crate::order::views(params@).subrange(0, i as int)),
        decreases params@.len() - i,
    {
        if i > 0 {
            out.append("&");
        }
        out.append(params[i].as_str());
        i = i + 1;
        proof {
            let vs = crate::order::views(params@);
            assert(vs.subrange(0, i as int).drop_last() =~= vs.subrange(0, i - 1));
            if i == 1 {
                assert(vs.subrange(0, 1) =~= seq![vs[0]]);
            }
        }
    }
    proof {
        assert(crate::order::views(params@).subrange(0, params@.len() as int) =~= crate::order::views(
            params@,
        ));
    }
    out
}

/// The metric types the service knows.
pub open spec fn valid_metric(m: Seq<char>) -> bool {
    m == "apdex"@ || m == "response_time"@ || m == "response_time_95th"@ || m == "errors"@ || m
        == "throughput"@ || m == "queue_time"@
}

/// The insight types the service knows.
pub open spec fn valid_insight(t: Seq<char>) -> bool {
    t == "n_plus_one"@ || t == "memory_bloat"@ || t == "slow_query"@
}

/// Validates a metric type against those the service knows.
pub fn validate_metric_type(metric_type: &str) -> (r: Result<(), Error>)
    ensures
        r is Ok <==> valid_metric(metric_type@),
        r matches Err(e) ==> e matches Error::Other(m) && m@
            == "Invalid metric_type. Must be one of: apdex, response_time, response_time_95th, errors, throughput, queue_time"@,
{
    if str_eq(metric_type, "apdex") || str_eq(metric_type, "response_time") || str_eq(
        metric_type,
        "response_time_95th",
    ) || str_eq(metric_type, "errors") || str_eq(metric_type, "throughput") || str_eq(
        metric_type,
        "queue_time",
    ) {
        Ok(())
    } else {
        Err(
            Error::Other(
                String::from_str(
                    "Invalid metric_type. Must be one of: apdex, response_time, response_time_95th, errors, throughput, queue_time",
                ),
            ),
        )
    }
}

/// Validates an insight type against those the service knows.
pub fn validate_insight_type(insight_type: &str) -> (r: Result<(), Error>)
    ensures
        r is Ok <==> valid_insight(insight_type@),
        r matches Err(e) ==> e matches Error::Other(m) && m@
            == "Invalid insight_type. Must be one of: n_plus_one, memory_bloat, slow_query"@,
{
    if str_eq(insight_type, "n_plus_one") || str_eq(insight_type, "memory_bloat") || str_eq(
        insight_type,
        "slow_query",
    ) {
        Ok(())
    } else {
        Err(
            Error::Other(
                String::from_str(
                    "Invalid insight_type. Must be one of: n_plus_one, memory_bloat, slow_query",
                ),
            ),
        )
    }
}

/// How the service judged a request.
#[derive(Debug)]
pub enum Verdict {
    Success,
    /// Authentication failed.
    Unauthorized,
    /// The service reported an error with this message and status.
    Failed { message: String, status: u16 },
}

/// The `header.status` member of a response body.
pub open spec fn header_status(body: JsonValue) -> Option<JsonValue> {
    match json_get(body, "header"@) {
        Some(h) => json_get(h, "status"@),
        None => None,
    }
}

/// The status message of a response body, or `fallback`.
pub open spec fn status_message(body: JsonValue, fallback: Seq<char>) -> Seq<char> {
    match header_status(body) {
        Some(s) => match json_str(json_get(s, "message"@)) {
            Some(m) => m,
            None => fallback,
        },
        None => fallback,
    }
}

/// The unsigned integer a number's text writes: decimal digits only, with a
/// value that fits in 64 bits.
pub open spec fn unsigned_of(text: Seq<char>) -> Option<u64> {
    if text.len() > 0 && text[0] != '+' {
        crate::text::parse_u64_spec(text)
    } else {
        None
    }
}

/// The status code of a response body, when it is written as an unsigned
/// integer.
pub open spec fn status_code(body: JsonValue) -> Option<int> {
    match header_status(body) {
        Some(s) => match json_get(s, "code"@) {
            Some(JsonValue::Number(n)) => match unsigned_of(n.text@) {
                Some(c) => Some(c as int),
                None => None,
            },
            _ => None,
        },
        None => None,
    }
}

/// The unsigned integer a number's text writes.
fn unsigned_number(text: &str) -> (r: Option<u64>)
    ensures
        r == unsigned_of(text@),
{
    if text.unicode_len() > 0 && text.get_char(0) != '+' {
        crate::text::parse_u64(text)
    } else {
        None
    }
}

/// How a response with an HTTP status and a body is judged: 401 fails
/// authentication; another status outside 200..300 is an error with the
/// body's status message (or `API request failed`); a body whose status
/// code is 400 or more is an error with its message (or `Unknown API
/// error`) and that code cut to 16 bits; anything else succeeds.
pub open spec fn verdict_of(http: u16, body: JsonValue, v: Verdict) -> bool {
    if http == 401 {
        v is Unauthorized
    } else if !(200 <= http < 300) {
        v matches Verdict::Failed { message, status } && message@ == status_message(
            body,
            "API request failed"@,
        ) && status == http
    } else if status_code(body) is Some && status_code(body)->0 >= 400 {
        v matches Verdict::Failed { message, status } && message@ == status_message(
            body,
            "Unknown API error"@,
        ) && status == status_code(body)->0 % 65536
    } else {
        v is Success
    }
}

fn status_of(body: &JsonValue) -> (r: Option<&JsonValue>)
    ensures
        r matches Some(x) ==> header_status(*body) == Some(*x),
        r is None ==> header_status(*body) is None,
{
    match body.get("header") {
        Some(h) => h.get("status"),
        None => None,
    }
}

fn message_or(body: &JsonValue, fallback: &str) -> (r: String)
    ensures
        r@ == status_message(*body, fallback@),
{
    match status_of(body) {
        Some(s) => match s.get("message") {
            Some(m) => match m.as_str() {
                Some(t) => t.to_owned(),
                None => fallback.to_owned(),
            },
            None => fallback.to_owned(),
        },
        None => fallback.to_owned(),
    }
}

/// Judges a response by its HTTP status and body.
pub fn judge_response(http: u16, body: &JsonValue) -> (r: Verdict)
    ensures
        verdict_of(http, *body, r),
{
    if http == 401 {
        return Verdict::Unauthorized;
    }
    if !(200 <= http && http < 300) {
        return Verdict::Failed { message: message_or(body, "API request failed"), status: http };
    }
    let code = match status_of(body) {
        Some(s) => match s.get("code") {
            Some(JsonValue::Number(n)) => unsigned_number(n.text.as_str()),
            _ => None,
        },
        None => None,
    };
    match code {
        Some(c) => if c >= 400 {
            Verdict::Failed {
                message: message_or(body, "Unknown API error"),
                status: (c % 65536) as u16,
            }
        } else {
            Verdict::Success
        },
        None => Verdict::Success,
    }
}

/// Two texts denote instants, the first before the second, at most two
/// weeks apart.
pub open spec fn valid_window(from: Seq<char>, to: Seq<char>) -> bool {
    &&& time_of(from) is Some
    &&& time_of(to) is Some
    &&& crate::helpers::before(time_of(from)->0, time_of(to)->0)
    &&& crate::helpers::whole_seconds(time_of(from)->0, time_of(to)->0)
        <= crate::helpers::MAX_RANGE_SECS
}

/// The first text of a pair, when there is one.
pub open spec fn first_of(p: Option<(Seq<char>, Seq<char>)>) -> Seq<char> {
    match p {
        Some((a, _)) => a,
        None => Seq::empty(),
    }
}

/// The second text of a pair, when there is one.
pub open spec fn second_of(p: Option<(Seq<char>, Seq<char>)>) -> Seq<char> {
    match p {
        Some((_, b)) => b,
        None => Seq::empty(),
    }
}

/// A range ending at the time `to` denotes gives a valid window.
pub open spec fn window_ending(range: Seq<char>, to: Seq<char>) -> bool {
    &&& time_of(to) is Some
    &&& range_texts(range, time_of(to)->0) is Some
    &&& valid_window(
        first_of(range_texts(range, time_of(to)->0)),
        second_of(range_texts(range, time_of(to)->0)),
    )
}

/// The window of a listing request: the given range ending at `to` (or
/// now); with neither range nor ends, the last seven days; otherwise the
/// given ends, `to` defaulting to now and `from` to seven days before `to`.
/// The window must then be valid.
pub fn listing_window(from: Option<&str>, to: Option<&str>, range: Option<&str>) -> (r: Result<
    (String, String),
    Error,
>)
    ensures
        r matches Ok((f, t)) ==> valid_window(f@, t@),
        range is None && from is Some && to is Some ==> match r {
            Ok((f, t)) => f@ == from->0@ && t@ == to->0@,
            Err(_) => !valid_window(from->0@, to->0@),
        },
        range is Some && to is Some ==> match r {
            Ok((f, t)) => time_of(to->0@) is Some && range_texts(range->0@, time_of(to->0@)->0)
                == Some((f@, t@)),
            Err(_) => !window_ending(range->0@, to->0@),
        },
        range is None && from is None && to is Some ==> match r {
            Ok((f, t)) => t@ == to->0@ && time_of(to->0@) is Some && range_texts(
                "7days"@,
                time_of(to->0@)->0,
            ) is Some && f@ == first_of(range_texts("7days"@, time_of(to->0@)->0)),
            Err(_) => !(time_of(to->0@) is Some && range_texts("7days"@, time_of(to->0@)->0) is Some
                && valid_window(first_of(range_texts("7days"@, time_of(to->0@)->0)), to->0@)),
        },
        range is Some && to is None ==> (r matches Ok((f, t)) ==> exists|end: Timestamp|
            #[trigger] range_texts(range->0@, end) == Some((f@, t@))),
        range is None && from is None && to is None ==> (r matches Ok((f, t)) ==> exists|
            end: Timestamp,
        | #[trigger] range_texts("7days"@, end) == Some((f@, t@))),
{
    let (f, t) = match range {
        Some(rg) => match calculate_range(rg, to) {
            Ok(p) => p,
            Err(e) => return Err(Error::Other(e)),
        },
        None => if from.is_none() && to.is_none() {
            match calculate_range("7days", None) {
                Ok(p) => p,
                Err(e) => return Err(Error::Other(e)),
            }
        } else {
            let t = match to {
                Some(t) => t.to_owned(),
                None => match crate::helpers::now_text() {
                    Ok(s) => s,
                    Err(e) => return Err(Error::Other(e)),
                },
            };
            let f = match from {
                Some(f) => f.to_owned(),
                None => match calculate_range("7days", Some(t.as_str())) {
                    Ok((f, _)) => f,
                    Err(e) => return Err(Error::Other(e)),
                },
            };
            (f, t)
        },
    };
    match validate_time_range(f.as_str(), t.as_str()) {
        Ok(()) => Ok((f, t)),
        Err(e) => Err(e),
    }
}

/// The optional window of a metric request: the given range ending at `to`
/// (or now), else the given ends; when both ends are known they must form
/// a valid window.
pub fn metric_window(from: Option<&str>, to: Option<&str>, range: Option<&str>) -> (r: Result<
    (Option<String>, Option<String>),
    Error,
>)
    ensures
        range is None && (from is None || to is None) ==> (r is Ok && opt_view(r->Ok_0.0)
            == opt_str_view(from) && opt_view(r->Ok_0.1) == opt_str_view(to)),
        range is None && from is Some && to is Some ==> match r {
            Ok((f, t)) => opt_view(f) == opt_str_view(from) && opt_view(t) == opt_str_view(to)
                && valid_window(from->0@, to->0@),
            Err(_) => !valid_window(from->0@, to->0@),
        },
        range is Some ==> match r {
            Ok((Some(f), Some(t))) => valid_window(f@, t@),
            Ok(_) => false,
            Err(_) => true,
        },
        range is Some && to is Some ==> match r {
            Ok((Some(f), Some(t))) => time_of(to->0@) is Some && range_texts(
                range->0@,
                time_of(to->0@)->0,
            ) == Some((f@, t@)),
            Ok(_) => false,
            Err(_) => !window_ending(range->0@, to->0@),
        },
        range is Some && to is None ==> (r matches Ok((Some(f), Some(t))) ==> exists|
            end: Timestamp,
        | #[trigger] range_texts(range->0@, end) == Some((f@, t@))),
{
    let (f, t) = match range {
        Some(rg) => match calculate_range(rg, to) {
            Ok((f, t)) => (Some(f), Some(t)),
            Err(e) => return Err(Error::Other(e)),
        },
        None => (
            match from {
                Some(f) => Some(f.to_owned()),
                None => None,
            },
            match to {
                Some(t) => Some(t.to_owned()),
                None => None,
            },
        ),
    };
    match (&f, &t) {
        (Some(a), Some(b)) => {
            validate_time_range(a.as_str(), b.as_str())?;
        },
        _ => {},
    }
    Ok((f, t))
}

/// The view of an optional string.
pub open spec fn opt_view(s: Option<String>) -> Option<Seq<char>> {
    match s {
        Some(x) => Some(x@),
        None => None,
    }
}

/// The view of an optional string slice.
pub open spec fn opt_str_view(s: Option<&str>) -> Option<Seq<char>> {
    match s {
        Some(x) => Some(x@),
        None => None,
    }
}

/// An application was reported at or after `since`.
pub fn reported_since(last_reported_at: Option<&str>, since: Timestamp) -> (r: bool)
    ensures
        r == (last_reported_at matches Some(s) && time_of(s@) matches Some(t) && !crate::helpers::before(
            t,
            since,
        )),
{
    match last_reported_at {
        Some(s) => match crate::helpers::parse_time(s) {
            Ok(t) => !(t.secs < since.secs || (t.secs == since.secs && t.nanos < since.nanos)),
            Err(_) => false,
        },
        None => false,
    }
}

/// The trailing window over which endpoints, error groups and metric series are fetched.
pub const TRAILING_WINDOW: &'static str = "7days";

/// The most insights fetched at once.
pub const INSIGHT_LIMIT: u32 = 50;

/// The query that fetches one tab's dataset.
#[derive(Clone, Copy, PartialEq, Eq, Structural, Debug)]
pub enum TabQuery {
    /// Endpoints over the trailing window.
    Endpoints,
    /// Insights of every kind, up to `INSIGHT_LIMIT`.
    Insights,
    /// The names of the available metric types.
    MetricTypes,
    /// Error groups over the trailing window, to be listed newest first.
    ErrorGroups,
}

/// The query that fetches a tab's dataset.
pub fn query_for(tab: crate::view::Tab) -> (r: TabQuery)
    ensures
        r == match tab {
            crate::view::Tab::Endpoints => TabQuery::Endpoints,
            crate::view::Tab::Insights => TabQuery::Insights,
            crate::view::Tab::Metrics => TabQuery::MetricTypes,
            crate::view::Tab::Errors => TabQuery::ErrorGroups,
        },
{
    match tab {
        crate::view::Tab::Endpoints => TabQuery::Endpoints,
        crate::view::Tab::Insights => TabQuery::Insights,
        crate::view::Tab::Metrics => TabQuery::MetricTypes,
        crate::view::Tab::Errors => TabQuery::ErrorGroups,
    }
}

} // verus!
