use scout::apps::{filtered_app_indices, resolve_app};
use scout::gateway::{
    validate_metric_type, encoded_param, judge_response, listing_window, number_param, with_query,
    Verdict,
};
use scout::helpers::KeySearch;
use scout::search::SearchState;
use scout::series::{downsample, sample_indices, MIN_SCALE_MILLI};
use scout::{
    collect_series_points, decode_endpoint_id, endpoints_as_list, errors_as_list,
    format_endpoint_table, get_api_key, insights_as_list, metric_unit, parse_range, parse_time,
    render_series, truncate, validate_time_range, ApiKeySource, Application, Error, JsonNumber,
    JsonValue, SeriesPoint, SeriesView, Tab,
};

fn text(s: &str) -> JsonValue {
    JsonValue::Str(s.to_string())
}

fn num(n: i64) -> JsonValue {
    JsonValue::Number(JsonNumber { text: n.to_string(), milli: n * 1000 })
}

fn obj(members: Vec<(&str, JsonValue)>) -> JsonValue {
    JsonValue::Object(members.into_iter().map(|(k, v)| (k.to_string(), v)).collect())
}

fn app(id: u64, name: &str) -> Application {
    Application { id, name: name.to_string(), last_reported_at: String::new() }
}

#[test]
fn filter_matches_name_or_id_ignoring_case() {
    let apps = vec![app(12, "Shop"), app(7, "Blog"), app(120, "Admin")];
    assert_eq!(filtered_app_indices(&apps, "SH"), vec![0]);
    assert_eq!(filtered_app_indices(&apps, "12"), vec![0, 2]);
    assert_eq!(filtered_app_indices(&apps, "BLOG"), vec![1]);
    assert_eq!(filtered_app_indices(&apps, " blog"), Vec::<usize>::new());
    assert_eq!(filtered_app_indices(&apps, ""), vec![0, 1, 2]);
    assert_eq!(filtered_app_indices(&apps, "zzz"), Vec::<usize>::new());
}

#[test]
fn resolve_by_id_or_name() {
    let apps = vec![app(12, "Shop"), app(7, "Blog")];
    assert_eq!(resolve_app(&apps, "7").map(|(i, id, _)| (i, id)), Some((1, 7)));
    assert_eq!(resolve_app(&apps, " shop ").map(|(i, _, n)| (i, n)), Some((0, "Shop".to_string())));
    assert!(resolve_app(&apps, "99").is_none());
    assert!(resolve_app(&apps, "   ").is_none());
}

#[test]
fn debounce_commits_only_after_idle_threshold() {
    let mut s = SearchState::new();
    s.type_char('a', 1000);
    assert!(!s.tick(1199));
    assert_eq!(s.committed, "");
    assert!(s.tick(1200));
    assert_eq!(s.committed, "a");
    s.backspace(1300);
    assert!(!s.tick(1400));
    assert!(s.tick(1500));
    assert_eq!(s.committed, "");
}

#[test]
fn downsampling_picks_evenly_spaced_points() {
    assert_eq!(sample_indices(10, 4), vec![0, 2, 5, 7]);
    assert_eq!(sample_indices(3, 5), vec![0, 1, 2]);
    assert_eq!(sample_indices(5, 5), vec![0, 1, 2, 3, 4]);
    let pts: Vec<SeriesPoint> = (0..6)
        .map(|i| SeriesPoint { timestamp: format!("t{}", i), milli: i * 10 })
        .collect();
    let d = downsample(&pts, 3);
    assert_eq!(d.iter().map(|p| p.milli).collect::<Vec<_>>(), vec![0, 20, 40]);
    let all = downsample(&pts, 10);
    assert_eq!(all.len(), 6);
}

#[test]
fn series_shapes_are_all_read() {
    let pairs = JsonValue::Array(vec![
        JsonValue::Array(vec![text("2024-01-01T00:00:00Z"), num(5)]),
        obj(vec![("time", text("2024-01-01T00:01:00Z")), ("value", num(7))]),
        text("junk"),
    ]);
    let pts = collect_series_points(&pairs);
    assert_eq!(pts.len(), 2);
    assert_eq!(pts[1].milli, 7000);
    let wrapped = obj(vec![("points", pairs)]);
    assert_eq!(collect_series_points(&wrapped).len(), 2);
    let nested = obj(vec![
        ("empty", obj(vec![])),
        ("response_time", obj(vec![("data", JsonValue::Array(vec![obj(vec![("timestamp", text("x")), ("value", num(1))])]))])),
    ]);
    assert_eq!(collect_series_points(&nested).len(), 1);
    assert_eq!(collect_series_points(&num(3)).len(), 0);
}

#[test]
fn chart_scales_to_the_largest_value() {
    let payload = JsonValue::Array(vec![
        JsonValue::Array(vec![text("2024-01-02T00:00:00Z"), num(50)]),
        JsonValue::Array(vec![text("2024-01-01T00:00:00Z"), num(100)]),
    ]);
    match render_series(&payload, 80, "response_time", true) {
        SeriesView::Chart(c) => {
            assert_eq!(c.total, 2);
            assert_eq!(c.unit, "ms");
            assert_eq!(c.top, 100_000);
            assert_eq!(c.bars.iter().map(|b| b.height).collect::<Vec<_>>(), vec![100, 50]);
            assert_eq!(c.bars[0].label, "01 00:00:00 UTC");
        }
        SeriesView::NoData => panic!("points were lost"),
    }
    let small = JsonValue::Array(vec![JsonValue::Array(vec![text("a"), JsonNumber { text: "0.5".into(), milli: 500 }.into_value()])]);
    match render_series(&small, 80, "apdex", true) {
        SeriesView::Chart(c) => {
            assert_eq!(c.top, MIN_SCALE_MILLI);
            assert_eq!(c.bars[0].height, 50);
            assert_eq!(c.unit, "");
        }
        SeriesView::NoData => panic!("point was lost"),
    }
    assert!(matches!(render_series(&JsonValue::Null, 80, "apdex", true), SeriesView::NoData));
}

trait IntoValue {
    fn into_value(self) -> JsonValue;
}

impl IntoValue for JsonNumber {
    fn into_value(self) -> JsonValue {
        JsonValue::Number(self)
    }
}

#[test]
fn units_follow_the_metric_type() {
    assert_eq!(metric_unit("throughput"), "RPM");
    assert_eq!(metric_unit(" Response_Time "), "ms");
    assert_eq!(metric_unit("queue_time"), "ms");
    assert_eq!(metric_unit("errors"), "count");
    assert_eq!(metric_unit("apdex"), "");
    assert_eq!(metric_unit("other"), "");
}

#[test]
fn endpoints_are_listed_newest_first() {
    let payload = obj(vec![(
        "endpoints",
        JsonValue::Array(vec![
            obj(vec![("name", text("old")), ("last_seen", text("2024-01-01"))]),
            obj(vec![("transaction_name", text("new")), ("last_seen", text("2024-02-01"))]),
            obj(vec![("last_seen", text("2024-01-15"))]),
        ]),
    )]);
    let l = endpoints_as_list(payload);
    let labels: Vec<&str> = l.rows.iter().map(|r| r.label.as_str()).collect();
    assert_eq!(labels, vec!["new", "?", "old"]);
    assert_eq!(l.rows[0].record, 1);
}

#[test]
fn insights_are_labelled_by_group() {
    let payload = obj(vec![
        ("n_plus_one", JsonValue::Array(vec![obj(vec![("title", text("N+1 in cart"))]), obj(vec![])])),
        ("meta", text("ignored")),
    ]);
    let l = insights_as_list(payload);
    let mut labels: Vec<&str> = l.rows.iter().map(|r| r.label.as_str()).collect();
    labels.sort();
    assert_eq!(labels, vec!["N+1 in cart", "n_plus_one #2"]);
    let arr = insights_as_list(JsonValue::Array(vec![obj(vec![])]));
    assert_eq!(arr.rows[0].label, "Item 1");
}

#[test]
fn errors_are_labelled_by_message() {
    let l = errors_as_list(vec![obj(vec![("name", text("E"))]), obj(vec![("message", text("M"))])]);
    let labels: Vec<&str> = l.rows.iter().map(|r| r.label.as_str()).collect();
    assert_eq!(labels, vec!["E", "M"]);
}

#[test]
fn detail_table_sorts_and_pads_keys() {
    let v = obj(vec![
        ("zeta", JsonValue::Null),
        ("a", JsonValue::Bool(true)),
        ("list", JsonValue::Array(vec![num(1), num(2)])),
        ("note", text("two\nlines")),
    ]);
    assert_eq!(
        format_endpoint_table(&v),
        "  a     true\n  list  [2 items]\n  note  two lines\n  zeta  \u{2014}\n"
    );
    assert_eq!(format_endpoint_table(&num(1)), "  (no data)");
}

#[test]
fn ranges_and_their_errors() {
    assert_eq!(parse_range("2 hours").unwrap(), 7200);
    assert_eq!(parse_range("5HR").unwrap(), 18000);
    assert_eq!(parse_range("days").unwrap_err(), "Invalid range: days");
    assert_eq!(parse_range("3weeks").unwrap_err(), "Unknown time unit in range: 3weeks");
    assert_eq!(parse_range("99999999999999999999min").unwrap_err(), "Invalid range: 99999999999999999999min");
}

#[test]
fn time_windows_are_validated() {
    assert!(validate_time_range("2024-01-01T00:00:00Z", "2024-01-02T00:00:00Z").is_ok());
    match validate_time_range("2024-01-02T00:00:00Z", "2024-01-01T00:00:00Z") {
        Err(Error::Other(m)) => assert_eq!(m, "from_time must be before to_time"),
        _ => panic!("reversed window accepted"),
    }
    match validate_time_range("2024-01-01T00:00:00Z", "2024-02-01T00:00:00Z") {
        Err(Error::Other(m)) => assert_eq!(m, "Time range cannot exceed 2 weeks"),
        _ => panic!("long window accepted"),
    }
    assert!(validate_time_range("soon", "2024-01-01T00:00:00Z").is_err());
    let t = parse_time(" 2024-01-01T00:00:10z ").unwrap();
    assert_eq!(t.secs, 1704067210);
    let (f, to) = listing_window(None, Some("2024-01-08T00:00:00Z"), None).unwrap();
    assert_eq!(f, "2024-01-01T00:00:00Z");
    assert_eq!(to, "2024-01-08T00:00:00Z");
}

#[test]
fn api_key_comes_from_the_first_backend_that_has_one() {
    assert!(matches!(get_api_key(None), KeySearch::Ask(ApiKeySource::OnePassword)));
    assert!(matches!(
        get_api_key(Some((ApiKeySource::OnePassword, Some(String::new())))),
        KeySearch::Ask(ApiKeySource::Bitwarden)
    ));
    match get_api_key(Some((ApiKeySource::Bitwarden, Some("bw".into())))) {
        KeySearch::Found(k, s) => {
            assert_eq!(k, "bw");
            assert_eq!(s, ApiKeySource::Bitwarden);
        }
        other => panic!("unexpected {:?}", other),
    }
    assert!(matches!(
        get_api_key(Some((ApiKeySource::Bitwarden, None))),
        KeySearch::Ask(ApiKeySource::Keepassxc)
    ));
    match get_api_key(Some((ApiKeySource::Keepassxc, None))) {
        KeySearch::NotFound(m) => assert!(m.starts_with("API key not found")),
        other => panic!("unexpected {:?}", other),
    }
}

#[test]
fn endpoint_ids_decode_from_base64() {
    assert_eq!(decode_endpoint_id("R0VUIC9jYXJ0").unwrap(), "GET /cart");
    assert_eq!(decode_endpoint_id("R0VUIC9jYXJ0Lw").unwrap(), "GET /cart/");
    assert!(decode_endpoint_id("!!").is_err());
}

#[test]
fn links_carry_their_identifiers() {
    let p = scout::parse_scout_url("https://scoutapm.com/apps/9/endpoints/R0VUIC9jYXJ0").unwrap();
    assert_eq!(p.url_type, scout::ScoutUrlType::Endpoint);
    assert_eq!(p.endpoint_id.as_deref(), Some("R0VUIC9jYXJ0"));
    assert_eq!(p.decoded_endpoint.as_deref(), Some("GET /cart"));
    let a = scout::parse_scout_url("https://scoutapm.com/apps/9/").unwrap();
    assert_eq!(a.url_type, scout::ScoutUrlType::App);
    assert_eq!(a.app_id, Some(9));
    assert!(scout::parse_scout_url("not a url").is_err());
}

#[test]
fn requests_are_built_and_judged() {
    let params = vec![encoded_param("from", "2024-01-01T00:00:00Z"), number_param("limit", 50)];
    assert_eq!(
        with_query("https://x/apps/1", &params),
        "https://x/apps/1?from=2024-01-01T00%3A00%3A00Z&limit=50"
    );
    assert_eq!(with_query("https://x", &vec![]), "https://x");
    assert!(validate_metric_type("apdex").is_ok());
    assert!(validate_metric_type("cpu").is_err());
    assert!(matches!(judge_response(401, &JsonValue::Null), Verdict::Unauthorized));
    match judge_response(500, &JsonValue::Null) {
        Verdict::Failed { message, status } => {
            assert_eq!(message, "API request failed");
            assert_eq!(status, 500);
        }
        _ => panic!("server error accepted"),
    }
    let body = obj(vec![("header", obj(vec![("status", obj(vec![("code", num(404)), ("message", text("nope"))]))]))]);
    match judge_response(200, &body) {
        Verdict::Failed { message, status } => {
            assert_eq!(message, "nope");
            assert_eq!(status, 404);
        }
        _ => panic!("error payload accepted"),
    }
    assert!(matches!(judge_response(200, &obj(vec![])), Verdict::Success));
}

#[test]
fn cells_are_truncated_with_an_ellipsis() {
    assert_eq!(truncate("short", 12), "short");
    assert_eq!(truncate("a\nb", 12), "a b");
    assert_eq!(truncate("abcdefghijklmnop", 12), "abcdefghijk\u{2026}");
}

#[test]
fn tabs_cycle_both_ways() {
    assert_eq!(Tab::Errors.next(), Tab::Endpoints);
    assert_eq!(Tab::Endpoints.prev(), Tab::Errors);
    assert_eq!(Tab::all().map(|t| t.as_str()), ["Endpoints", "Insights", "Metrics", "Errors"]);
}

#[test]
fn latest_points_come_newest_first() {
    let payload = JsonValue::Array(vec![
        JsonValue::Array(vec![text("2024-01-01"), num(1)]),
        JsonValue::Array(vec![text("2024-01-03"), num(3)]),
        JsonValue::Array(vec![text("2024-01-02"), num(2)]),
    ]);
    let (rows, more) = scout::series::latest_points(&payload, 2);
    assert_eq!(rows.iter().map(|p| p.milli).collect::<Vec<_>>(), vec![3000, 2000]);
    assert_eq!(more, 1);
}

#[test]
fn times_out_of_range_and_bad_ranges_fail() {
    assert!(scout::format_time(scout::Timestamp { secs: i64::MAX, nanos: 0 }).is_err());
    assert_eq!(
        scout::format_time(scout::Timestamp { secs: 86400, nanos: 0 }).unwrap(),
        "1970-01-02T00:00:00Z"
    );
    assert!(scout::calculate_range("soon", None).is_err());
    assert_eq!(
        scout::calculate_range("1day", Some("2024-01-02T00:00:00Z")).unwrap(),
        ("2024-01-01T00:00:00Z".to_string(), "2024-01-02T00:00:00Z".to_string())
    );
    assert_eq!(scout::format_timestamp_display("not a time", true), "not a time");
    assert_eq!(scout::format_timestamp_display("2024-01-02T03:04:05Z", true), "2024-01-02 03:04:05 UTC");
}

#[test]
fn padded_base64_uses_the_standard_alphabet() {
    assert_eq!(decode_endpoint_id("R0VUIC9jYXJ0Lw==").unwrap(), "GET /cart/");
    assert!(decode_endpoint_id("/w").is_err());
}

#[test]
fn equal_times_keep_the_received_order() {
    let payload = obj(vec![
        ("n_plus_one", JsonValue::Array(vec![obj(vec![("x", num(1))])])),
        ("slow_query", JsonValue::Array(vec![obj(vec![("name", text("Q"))])])),
    ]);
    let l = insights_as_list(payload);
    let labels: Vec<&str> = l.rows.iter().map(|r| r.label.as_str()).collect();
    assert_eq!(labels, vec!["n_plus_one #1", "Q"]);
}

#[test]
fn truncation_counts_bytes() {
    assert_eq!(truncate("\u{e9}\u{e9}", 3), "\u{e9}\u{2026}");
    assert_eq!(truncate("\u{e9}\u{e9}", 4), "\u{e9}\u{e9}");
    assert_eq!(truncate("a\u{e9}", 2), "a\u{2026}");
}

#[test]
fn status_codes_count_only_as_unsigned_integers() {
    let coded = |code: JsonValue| obj(vec![("header", obj(vec![("status", obj(vec![("code", code)]))]))]);
    let float = JsonValue::Number(JsonNumber { text: "400.0".into(), milli: 400_000 });
    assert!(matches!(judge_response(200, &coded(float)), Verdict::Success));
    let huge = JsonValue::Number(JsonNumber { text: "100000000000000000".into(), milli: i64::MAX });
    assert!(matches!(judge_response(200, &coded(huge)), Verdict::Failed { .. }));
}
