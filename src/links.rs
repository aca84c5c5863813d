//! Links to the monitoring service's web pages: which resource a link shows
//! and the identifiers it carries.

use base64::Engine;
use crate::order::views;
use crate::text::{parse_u64, parse_u64_spec, push_char, str_eq};
use vstd::prelude::*;
use vstd::utf8::{decode_utf8, valid_utf8};

verus! {

/// The path of a URL, as the `url` crate parses it.
pub uninterp spec fn url_path_of(s: Seq<char>) -> Option<Seq<char>>;

/// The bytes of a text under URL-safe base64 without padding.
pub uninterp spec fn base64_url_bytes(s: Seq<char>) -> Option<Seq<u8>>;

/// The bytes of a text under standard base64.
pub uninterp spec fn base64_standard_bytes(s: Seq<char>) -> Option<Seq<u8>>;

/// Relies on `url::Url::parse` and `url::Url::path`: the path of the URL, or
/// the parse error's text; it depends on the text alone.
#[verifier::external_body]
fn url_path(s: &str) -> (r: Result<String, String>)
    ensures
        r matches Ok(p) ==> url_path_of(s@) == Some(p@),
        r is Err ==> url_path_of(s@) is None,
{
    match url::Url::parse(s) {
        Ok(u) => Ok(u.path().to_string()),
        Err(e) => Err(e.to_string()),
    }
}

/// Relies on base64's `URL_SAFE_NO_PAD` engine `decode`: the decoded bytes,
/// or the decode error's text.
#[verifier::external_body]
fn decode_url_safe(s: &str) -> (r: Result<Vec<u8>, String>)
    ensures
        r matches Ok(b) ==> base64_url_bytes(s@) == Some(b@),
        r is Err ==> base64_url_bytes(s@) is None,
{
    base64::engine::general_purpose::URL_SAFE_NO_PAD.decode(s.as_bytes()).map_err(|e| e.to_string())
}

/// Relies on base64's `STANDARD` engine `decode`: the decoded bytes, or the
/// decode error's text.
#[verifier::external_body]
fn decode_standard(s: &str) -> (r: Result<Vec<u8>, String>)
    ensures
        r matches Ok(b) ==> base64_standard_bytes(s@) == Some(b@),
        r is Err ==> base64_standard_bytes(s@) is None,
{
    base64::engine::general_purpose::STANDARD.decode(s.as_bytes()).map_err(|e| e.to_string())
}

/// Relies on `String::from_utf8`: the text that valid UTF-8 bytes encode.
#[verifier::external_body]
fn utf8_text(b: Vec<u8>) -> (r: Result<String, String>)
    ensures
        (r is Ok) == valid_utf8(b@),
        r matches Ok(s) ==> s@ == decode_utf8(b@),
{
    String::from_utf8(b).map_err(|e| e.to_string())
}

/// The text an endpoint identifier encodes: base64 (URL-safe without
/// padding, else standard) of UTF-8.
pub open spec fn endpoint_text(id: Seq<char>) -> Option<Seq<char>> {
    let bytes = match base64_url_bytes(id) {
        Some(b) => Some(b),
        None => base64_standard_bytes(id),
    };
    match bytes {
        Some(b) => if valid_utf8(b) {
            Some(decode_utf8(b))
        } else {
            None
        },
        None => None,
    }
}

/// Decodes a base64 endpoint identifier into readable text when possible.
pub fn decode_endpoint_id(endpoint_id: &str) -> (r: Result<String, String>)
    ensures
        r matches Ok(t) ==> endpoint_text(endpoint_id@) == Some(t@),
        r is Err ==> endpoint_text(endpoint_id@) is None,
{
    let bytes = match decode_url_safe(endpoint_id) {
        Ok(b) => b,
        Err(_) => decode_standard(endpoint_id)?,
    };
    utf8_text(bytes)
}

/// The text without leading slashes.
pub open spec fn strip_front(s: Seq<char>) -> Seq<char>
    decreases s.len(),
{
    if s.len() > 0 && s[0] == '/' {
        strip_front(s.drop_first())
    } else {
        s
    }
}

/// The text without trailing slashes.
pub open spec fn strip_back(s: Seq<char>) -> Seq<char>
    decreases s.len(),
{
    if s.len() > 0 && s.last() == '/' {
        strip_back(s.drop_last())
    } else {
        s
    }
}

/// The pieces of a text between slashes (one more than its slashes).
pub open spec fn split_slash(s: Seq<char>) -> Seq<Seq<char>>
    decreases s.len(),
{
    if s.len() == 0 {
        seq![Seq::empty()]
    } else {
        let prev = split_slash(s.drop_last());
        if s.last() == '/' {
            prev.push(Seq::empty())
        } else {
            prev.update(prev.len() - 1, prev.last().push(s.last()))
        }
    }
}

proof fn lemma_split_nonempty(s: Seq<char>)
    ensures
        split_slash(s).len() >= 1,
    decreases s.len(),
{
    if s.len() > 0 {
        lemma_split_nonempty(s.drop_last());
    }
}

/// The segments of a URL path: the pieces between slashes once leading and
/// trailing slashes are removed.
pub open spec fn path_segments(path: Seq<char>) -> Seq<Seq<char>> {
    split_slash(strip_back(strip_front(path)))
}

/// The segments of a URL path.
pub fn segments(path: &str) -> (r: Vec<String>)
    ensures
        views(r@) == path_segments(path@),
{
    let n = path.unicode_len();
    let mut a: usize = 0;
    assert(path@.subrange(0, n as int) =~= path@);
    while a < n && path.get_char(a) == '/'
        invariant
            a <= n,
            n == path@.len(),
            strip_front(path@) == strip_front(path@.subrange(a as int, n as int)),
        decreases n - a,
    {
        proof {
            assert(path@.subrange(a as int, n as int).drop_first() =~= path@.subrange(
                a + 1,
                n as int,
            ));
        }
        a = a + 1;
    }
    let front = path.substring_char(a, n);
    let m = front.unicode_len();
    let mut b: usize = m;
    assert(front@.subrange(0, m as int) =~= front@);
    while b > 0 && front.get_char(b - 1) == '/'
        invariant
            b <= m,
            m == front@.len(),
            strip_back(front@) == strip_back(front@.subrange(0, b as int)),
        decreases b,
    {
        proof {
            assert(front@.subrange(0, b as int).drop_last() =~= front@.subrange(0, b - 1));
        }
        b = b - 1;
    }
    let core = front.substring_char(0, b);
    proof {
        assert(strip_front(path@) == front@);
        assert(strip_back(front@) == core@);
    }
    let mut pieces: Vec<String> = Vec::new();
    let mut cur = String::new();
    let mut i: usize = 0;
    assert(core@.subrange(0, 0) =~= Seq::<char>::empty());
    while i < b
        invariant
            i <= b,
            b == core@.len(),
            views(pieces@).push(cur@) == split_slash(core@.subrange(0, i as int)),
        decreases b - i,
    {
        let c = core.get_char(i);
        let ghost pre = core@.subrange(0, i as int);
        proof {
            assert(core@.subrange(0, i + 1).drop_last() =~= pre);
            lemma_split_nonempty(pre);
        }
        if c == '/' {
            let ghost pv = views(pieces@);
            let ghost cv = cur@;
            let done = cur;
            pieces.push(done);
            cur = String::new();
            proof {
                assert(views(pieces@) =~= pv.push(cv));
                assert(views(pieces@).push(cur@) =~= split_slash(core@.subrange(0, i + 1)));
            }
        } else {
            let ghost pv = views(pieces@);
            push_char(&mut cur, c);
            proof {
                assert(views(pieces@).push(cur@) =~= split_slash(core@.subrange(0, i + 1)));
            }
        }
        i = i + 1;
    }
    proof {
        assert(core@.subrange(0, b as int) =~= core@);
    }
    let ghost pv = views(pieces@);
    let ghost cv = cur@;
    pieces.push(cur);
    proof {
        assert(views(pieces@) =~= pv.push(cv));
    }
    pieces
}

/// The kind of resource a link shows.
#[derive(Clone, Copy, PartialEq, Eq, Structural, Debug)]
pub enum ScoutUrlType {
    App,
    Endpoint,
    Trace,
    ErrorGroup,
    Insight,
    Unknown,
}

/// What a link shows and the identifiers it carries.
#[derive(Clone, Debug)]
pub struct ParsedScoutUrl {
    pub url_type: ScoutUrlType,
    pub app_id: Option<u64>,
    pub endpoint_id: Option<String>,
    pub trace_id: Option<u64>,
    pub error_id: Option<u64>,
    pub insight_type: Option<String>,
    pub decoded_endpoint: Option<String>,
}

/// Position of the first segment equal to `w`, searching from `from`.
pub open spec fn segment_index_from(segs: Seq<Seq<char>>, w: Seq<char>, from: int) -> Option<int>
    decreases segs.len() - from,
{
    if from < 0 || from >= segs.len() {
        None
    } else if segs[from] == w {
        Some(from)
    } else {
        segment_index_from(segs, w, from + 1)
    }
}

/// The segment that follows the first segment equal to `w`.
pub open spec fn segment_after(segs: Seq<Seq<char>>, w: Seq<char>) -> Option<Seq<char>> {
    match segment_index_from(segs, w, 0) {
        Some(i) => if i < segs.len() - 1 {
            Some(segs[i + 1])
        } else {
            None
        },
        None => None,
    }
}

/// The number in the segment that follows the first segment equal to `w`.
pub open spec fn number_after(segs: Seq<Seq<char>>, w: Seq<char>) -> Option<u64> {
    match segment_after(segs, w) {
        Some(s) => parse_u64_spec(s),
        None => None,
    }
}

/// The kind of resource that path segments show: the most specific word
/// among `trace`, `endpoints`, `error_groups` and `insights`, else an
/// application when the path starts with `apps` and has at least two
/// segments.
pub open spec fn url_type_of(segs: Seq<Seq<char>>) -> ScoutUrlType {
    if segment_index_from(segs, "trace"@, 0) is Some {
        ScoutUrlType::Trace
    } else if segment_index_from(segs, "endpoints"@, 0) is Some {
        ScoutUrlType::Endpoint
    } else if segment_index_from(segs, "error_groups"@, 0) is Some {
        ScoutUrlType::ErrorGroup
    } else if segment_index_from(segs, "insights"@, 0) is Some {
        ScoutUrlType::Insight
    } else if segment_index_from(segs, "apps"@, 0) is Some && segs.len() >= 2 && segs[0]
        == "apps"@ {
        ScoutUrlType::App
    } else {
        ScoutUrlType::Unknown
    }
}

/// An optional text holds exactly `v`.
pub open spec fn opt_text(t: Option<String>, v: Option<Seq<char>>) -> bool {
    match (t, v) {
        (Some(a), Some(b)) => a@ == b,
        (None, None) => true,
        _ => false,
    }
}

/// What a link's path segments carry.
pub open spec fn parsed_from(p: ParsedScoutUrl, segs: Seq<Seq<char>>) -> bool {
    &&& p.url_type == url_type_of(segs)
    &&& p.app_id == number_after(segs, "apps"@)
    &&& opt_text(p.endpoint_id, segment_after(segs, "endpoints"@))
    &&& p.trace_id == number_after(segs, "trace"@)
    &&& p.error_id == number_after(segs, "error_groups"@)
    &&& opt_text(p.insight_type, segment_after(segs, "insights"@))
    &&& opt_text(
        p.decoded_endpoint,
        match segment_after(segs, "endpoints"@) {
            Some(id) => endpoint_text(id),
            None => None,
        },
    )
}

/// Position of the first segment equal to `w`.
fn find_segment(segs: &Vec<String>, w: &str) -> (r: Option<usize>)
    ensures
        r matches Some(i) ==> segment_index_from(views(segs@), w@, 0) == Some(i as int) && i
            < segs@.len(),
        r is None ==> segment_index_from(views(segs@), w@, 0) is None,
{
    let ghost vs = views(segs@);
    let mut i: usize = 0;
    while i < segs.len()
        invariant
            i <= segs@.len(),
            vs == views(segs@),
            segment_index_from(vs, w@, 0) == segment_index_from(vs, w@, i as int),
        decreases segs@.len() - i,
    {
        if str_eq(segs[i].as_str(), w) {
            return Some(i);
        }
        i = i + 1;
    }
    None
}

/// The segment that follows the first segment equal to `w`.
fn after_segment<'a>(segs: &'a Vec<String>, w: &str) -> (r: Option<&'a String>)
    ensures
        r matches Some(s) ==> segment_after(views(segs@), w@) == Some(s@),
        r is None ==> segment_after(views(segs@), w@) is None,
{
    match find_segment(segs, w) {
        Some(i) => if i < segs.len() - 1 {
            Some(&segs[i + 1])
        } else {
            None
        },
        None => None,
    }
}

/// The number in the segment that follows the first segment equal to `w`.
fn number_segment(segs: &Vec<String>, w: &str) -> (r: Option<u64>)
    ensures
        r == number_after(views(segs@), w@),
{
    match after_segment(segs, w) {
        Some(s) => parse_u64(s.as_str()),
        None => None,
    }
}

/// Parses a link to the service's web pages and extracts the resource
/// kind and identifiers; fails only when the text is no URL.
pub fn parse_scout_url(url: &str) -> (r: Result<ParsedScoutUrl, String>)
    ensures
        r is Err <==> url_path_of(url@) is None,
        r matches Ok(p) ==> parsed_from(p, path_segments(url_path_of(url@)->0)),
{
    let path = url_path(url)?;
    let segs = segments(path.as_str());
    let ghost vs = views(segs@);
    let url_type = if find_segment(&segs, "trace").is_some() {
        ScoutUrlType::Trace
    } else if find_segment(&segs, "endpoints").is_some() {
        ScoutUrlType::Endpoint
    } else if find_segment(&segs, "error_groups").is_some() {
        ScoutUrlType::ErrorGroup
    } else if find_segment(&segs, "insights").is_some() {
        ScoutUrlType::Insight
    } else if find_segment(&segs, "apps").is_some() && segs.len() >= 2 && str_eq(
        segs[0].as_str(),
        "apps",
    ) {
        ScoutUrlType::App
    } else {
        ScoutUrlType::Unknown
    };
    let endpoint_id = match after_segment(&segs, "endpoints") {
        Some(s) => Some(s.clone()),
        None => None,
    };
    let insight_type = match after_segment(&segs, "insights") {
        Some(s) => Some(s.clone()),
        None => None,
    };
    let decoded_endpoint = match &endpoint_id {
        Some(id) => match decode_endpoint_id(id.as_str()) {
            Ok(t) => Some(t),
            Err(_) => None,
        },
        None => None,
    };
    Ok(
        ParsedScoutUrl {
            url_type,
            app_id: number_segment(&segs, "apps"),
            endpoint_id,
            trace_id: number_segment(&segs, "trace"),
            error_id: number_segment(&segs, "error_groups"),
            insight_type,
            decoded_endpoint,
        },
    )
}

} // verus!
