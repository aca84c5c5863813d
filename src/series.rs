//! The series renderer: points extracted from a metric payload, ordered,
//! sampled to the display width and scaled for a chart.

use crate::json::{json_at, json_get, json_milli, json_str, or_else, JsonValue};
use crate::order::{is_permutation, sort_order, sorted_by, stable_by, views};
use crate::text::{lower_of, lowercase, str_eq, trim, trim_of};
use vstd::prelude::*;

verus! {

broadcast use vstd::std_specs::vec::group_vec_axioms;

/// One point of a time series: its timestamp and its value in thousandths.
#[derive(Debug)]
pub struct SeriesPoint {
    pub timestamp: String,
    pub milli: i64,
}

/// Abstract value of a point.
pub open spec fn point_view(p: SeriesPoint) -> (Seq<char>, i64) {
    (p.timestamp@, p.milli)
}

/// Abstract values of points.
pub open spec fn point_views(s: Seq<SeriesPoint>) -> Seq<(Seq<char>, i64)> {
    s.map_values(|p: SeriesPoint| point_view(p))
}

/// The point an item stands for: a `[timestamp, value]` pair, or an object
/// with a `timestamp` (or `time`) string and a numeric `value`.
pub open spec fn point_of(p: JsonValue) -> Option<(Seq<char>, i64)> {
    match (json_str(json_at(p, 0)), json_milli(json_at(p, 1))) {
        (Some(t), Some(m)) => Some((t, m)),
        _ => match (
            json_str(or_else(json_get(p, "timestamp"@), json_get(p, "time"@))),
            json_milli(json_get(p, "value"@)),
        ) {
            (Some(t), Some(m)) => Some((t, m)),
            _ => None,
        },
    }
}

/// The points of the first `n` items, in order; items of no known shape are skipped.
pub open spec fn points_in(items: Seq<JsonValue>, n: int) -> Seq<(Seq<char>, i64)>
    decreases n,
{
    if n <= 0 {
        Seq::empty()
    } else {
        let prev = points_in(items, n - 1);
        match point_of(items[n - 1]) {
            Some(p) => prev.push(p),
            None => prev,
        }
    }
}

/// Number of members of an object.
pub open spec fn member_count(v: JsonValue) -> nat {
    match v {
        JsonValue::Object(fields) => fields@.len(),
        _ => 0,
    }
}

/// The points of a payload: an array of points; an object holding them
/// under `points` (or `data`); else the points of the first member that
/// has any.
pub open spec fn series_of(v: JsonValue) -> Seq<(Seq<char>, i64)>
    decreases v, member_count(v) + 1,
{
    match v {
        JsonValue::Array(items) => points_in(items@, items@.len() as int),
        JsonValue::Object(fields) => match or_else(json_get(v, "points"@), json_get(v, "data"@)) {
            Some(JsonValue::Array(items)) => points_in(items@, items@.len() as int),
            _ => first_child_series(v, 0),
        },
        _ => Seq::empty(),
    }
}

/// The points of the first member, from the `i`-th on, that has any.
pub open spec fn first_child_series(v: JsonValue, i: int) -> Seq<(Seq<char>, i64)>
    decreases v, member_count(v) - i,
{
    match v {
        JsonValue::Object(fields) => if 0 <= i < fields@.len() {
            let s = series_of(fields@[i].1);
            if s.len() > 0 {
                s
            } else {
                first_child_series(v, i + 1)
            }
        } else {
            Seq::empty()
        },
        _ => Seq::empty(),
    }
}

/// The point an item stands for.
fn point_from(p: &JsonValue) -> (r: Option<SeriesPoint>)
    ensures
        r matches Some(x) ==> point_of(*p) == Some(point_view(x)),
        r is None ==> point_of(*p) is None,
{
    let ts = match p.at(0) {
        Some(t) => t.as_str(),
        None => None,
    };
    let val = match p.at(1) {
        Some(x) => x.as_milli(),
        None => None,
    };
    match (ts, val) {
        (Some(t), Some(m)) => {
            return Some(SeriesPoint { timestamp: t.to_owned(), milli: m });
        },
        _ => {},
    }
    let tm = match p.get("timestamp") {
        Some(x) => Some(x),
        None => p.get("time"),
    };
    let ts = match tm {
        Some(t) => t.as_str(),
        None => None,
    };
    let val = match p.get("value") {
        Some(x) => x.as_milli(),
        None => None,
    };
    match (ts, val) {
        (Some(t), Some(m)) => Some(SeriesPoint { timestamp: t.to_owned(), milli: m }),
        _ => None,
    }
}

/// The points of items, in order.
fn points_from(items: &Vec<JsonValue>) -> (r: Vec<SeriesPoint>)
    ensures
        point_views(r@) == points_in(items@, items@.len() as int),
{
    let mut out: Vec<SeriesPoint> = Vec::new();
    let mut i: usize = 0;
    while i < items.len()
        invariant
            i <= items@.len(),
            point_views(out@) == points_in(items@, i as int),
        decreases items@.len() - i,
    {
        let ghost ob = out@;
        match point_from(&items[i]) {
            Some(p) => {
                let ghost pv = point_view(p);
                out.push(p);
                proof {
                    assert(point_views(out@) =~= point_views(ob).push(pv));
                }
            },
            None => {},
        }
        i = i + 1;
    }
    out
}

/// Extracts the points of a metric payload, trying the known shapes in turn.
pub fn collect_series_points(v: &JsonValue) -> (r: Vec<SeriesPoint>)
    ensures
        point_views(r@) == series_of(*v),
    decreases v,
{
    match v {
        JsonValue::Array(items) => points_from(items),
        JsonValue::Object(fields) => {
            let inner = match v.get("points") {
                Some(x) => Some(x),
                None => v.get("data"),
            };
            match inner {
                Some(JsonValue::Array(items)) => {
                    return points_from(items);
                },
                _ => {},
            }
            let mut i: usize = 0;
            while i < fields.len()
                invariant
                    *v == JsonValue::Object(*fields),
                    i <= fields@.len(),
                    series_of(*v) == first_child_series(*v, i as int),
                decreases fields@.len() - i,
            {
                let r = collect_series_points(&fields[i].1);
                if r.len() > 0 {
                    return r;
                }
                i = i + 1;
            }
            Vec::new()
        },
        _ => Vec::new(),
    }
}

/// A copy of a point.
pub fn copy_point(p: &SeriesPoint) -> (r: SeriesPoint)
    ensures
        point_view(r) == point_view(*p),
{
    SeriesPoint { timestamp: p.timestamp.clone(), milli: p.milli }
}

/// The timestamps of abstract points.
pub open spec fn series_times(s: Seq<(Seq<char>, i64)>) -> Seq<Seq<char>> {
    s.map_values(|x: (Seq<char>, i64)| x.0)
}

/// `o` holds the points of `s` ordered by timestamp, ascending or
/// descending, points with equal timestamps in their order in `s`.
pub open spec fn ordered_series(
    s: Seq<(Seq<char>, i64)>,
    o: Seq<(Seq<char>, i64)>,
    descending: bool,
) -> bool {
    exists|p: Seq<usize>|
        {
            &&& is_permutation(p, s.len())
            &&& sorted_by(series_times(s), p, descending)
            &&& stable_by(series_times(s), p)
            &&& o == p.map_values(|k: usize| s[k as int])
        }
}

/// Points ordered by timestamp (lexicographically, which orders ISO-8601
/// times), ascending or descending; equal timestamps keep their order.
pub fn sort_points(points: &Vec<SeriesPoint>, descending: bool) -> (r: Vec<SeriesPoint>)
    ensures
        r@.len() == points@.len(),
        ordered_series(point_views(points@), point_views(r@), descending),
{
    let mut keys: Vec<String> = Vec::new();
    let mut i: usize = 0;
    while i < points.len()
        invariant
            i <= points@.len(),
            keys@.len() == i,
            forall|j: int| 0 <= j < i ==> (#[trigger] keys@[j])@ == points@[j].timestamp@,
        decreases points@.len() - i,
    {
        keys.push(points[i].timestamp.clone());
        i = i + 1;
    }
    let order = sort_order(&keys, descending);
    proof {
    }
    let r = pick(points, &order);
    proof {
        let s = point_views(points@);
        assert(series_times(s) =~= views(keys@));
        assert(point_views(r@) =~= order@.map_values(|k: usize| s[k as int]));
    }
    r
}

/// The points at the given positions, in that order.
fn pick(points: &Vec<SeriesPoint>, idx: &Vec<usize>) -> (r: Vec<SeriesPoint>)
    requires
        forall|j: int| 0 <= j < idx@.len() ==> #[trigger] idx@[j] < points@.len(),
    ensures
        r@.len() == idx@.len(),
        forall|j: int|
            0 <= j < idx@.len() ==> point_view(#[trigger] r@[j]) == point_view(
                points@[idx@[j] as int],
            ),
{
    let mut out: Vec<SeriesPoint> = Vec::new();
    let mut j: usize = 0;
    while j < idx.len()
        invariant
            j <= idx@.len(),
            forall|k: int| 0 <= k < idx@.len() ==> #[trigger] idx@[k] < points@.len(),
            out@.len() == j,
            forall|k: int|
                0 <= k < j ==> point_view(#[trigger] out@[k]) == point_view(
                    points@[idx@[k] as int],
                ),
        decreases idx@.len() - j,
    {
        out.push(copy_point(&points[idx[j]]));
        j = j + 1;
    }
    out
}

/// The positions that sampling `n` points down to `t` keeps: `i * n / t`
/// for each `i` below `t` when `t < n`, else every position.
pub open spec fn sample_positions(n: nat, t: nat) -> Seq<usize> {
    if t < n {
        Seq::new(t, |i: int| (i * (n as int) / (t as int)) as usize)
    } else {
        Seq::new(n, |i: int| i as usize)
    }
}

proof fn lemma_sample_step(i: int, n: int, t: int)
    requires
        0 < t < n,
        0 <= i,
    ensures
        i * n / t < (i + 1) * n / t,
{
    assert((i + 1) * n == i * n + n) by (nonlinear_arith);
    assert(i * n >= 0) by (nonlinear_arith)
        requires
            0 <= i,
            0 < n,
    ;
    vstd::arithmetic::div_mod::lemma_div_plus_one(i * n, t);
    vstd::arithmetic::div_mod::lemma_div_is_ordered(i * n + t, i * n + n, t);
}

proof fn lemma_sample_bound(i: int, n: int, t: int)
    requires
        0 < t < n,
        0 <= i < t,
    ensures
        0 <= i * n / t < n,
{
    assert(i * n < t * n) by (nonlinear_arith)
        requires
            0 <= i < t,
            0 < n,
    ;
    assert(i * n >= 0) by (nonlinear_arith)
        requires
            0 <= i,
            0 < n,
    ;
    vstd::arithmetic::div_mod::lemma_div_is_ordered(i * n, t * n - 1, t);
    assert((t * n - 1) / t < n) by (nonlinear_arith)
        requires
            0 < t,
            0 < n,
    ;
}

/// Sampling `n` points to a target `t < n` keeps exactly `t` positions, in
/// strictly increasing order and all within range; with `t >= n` it keeps
/// every position in order.
pub proof fn lemma_sampling(n: nat, t: nat)
    requires
        n <= usize::MAX,
    ensures
        t < n ==> sample_positions(n, t).len() == t,
        t >= n ==> sample_positions(n, t) == Seq::new(n, |i: int| i as usize),
        forall|a: int, b: int|
            0 <= a < b < sample_positions(n, t).len() ==> sample_positions(n, t)[a]
                < sample_positions(n, t)[b],
        forall|a: int|
            0 <= a < sample_positions(n, t).len() ==> #[trigger] sample_positions(n, t)[a] < n,
{
    if t < n && t > 0 {
        assert forall|a: int, b: int|
            0 <= a < b < t implies #[trigger] sample_positions(n, t)[a] < #[trigger] sample_positions(
            n,
            t,
        )[b] by {
            lemma_sample_bound(a, n as int, t as int);
            lemma_sample_bound(b, n as int, t as int);
            lemma_increasing(a, b, n as int, t as int);
        }
        assert forall|a: int| 0 <= a < t implies #[trigger] sample_positions(n, t)[a] < n by {
            lemma_sample_bound(a, n as int, t as int);
        }
    }
}

proof fn lemma_increasing(a: int, b: int, n: int, t: int)
    requires
        0 < t < n,
        0 <= a < b,
    ensures
        a * n / t < b * n / t,
    decreases b - a,
{
    lemma_sample_step(a, n, t);
    if a + 1 < b {
        lemma_increasing(a + 1, b, n, t);
    }
}

/// The positions kept when sampling `n` points down to `t`.
pub fn sample_indices(n: usize, t: usize) -> (r: Vec<usize>)
    ensures
        r@ == sample_positions(n as nat, t as nat),
{
    let mut out: Vec<usize> = Vec::new();
    if t < n {
        let mut i: usize = 0;
        while i < t
            invariant
                t < n,
                i <= t,
                out@ == sample_positions(n as nat, t as nat).subrange(0, i as int),
            decreases t - i,
        {
            proof {
                lemma_sample_bound(i as int, n as int, t as int);
            }
            assert((i as int) * (n as int) <= u128::MAX) by (nonlinear_arith)
                requires
                    0 <= i <= 0xffff_ffff_ffff_ffffint,
                    0 <= n <= 0xffff_ffff_ffff_ffffint,
            ;
            let prod: u128 = (i as u128) * (n as u128);
            let q: u128 = prod / (t as u128);
            assert(q == (i as int) * (n as int) / (t as int));
            let k = q as usize;
            out.push(k);
            i = i + 1;
            proof {
                assert(out@ =~= sample_positions(n as nat, t as nat).subrange(0, i as int));
            }
        }
    } else {
        let mut i: usize = 0;
        while i < n
            invariant
                t >= n,
                i <= n,
                out@ == sample_positions(n as nat, t as nat).subrange(0, i as int),
            decreases n - i,
        {
            out.push(i);
            i = i + 1;
            proof {
                assert(out@ =~= sample_positions(n as nat, t as nat).subrange(0, i as int));
            }
        }
    }
    proof {
        assert(out@ =~= sample_positions(n as nat, t as nat));
    }
    out
}

/// Samples points down to at most `target` evenly spaced ones (the point at
/// `i * n / target` for each `i`); with `n <= target` the points are kept as
/// they are.
pub fn downsample(points: &Vec<SeriesPoint>, target: usize) -> (r: Vec<SeriesPoint>)
    ensures
        point_views(r@) == sample_positions(points@.len(), target as nat).map_values(
            |k: usize| point_view(points@[k as int]),
        ),
        target as nat >= points@.len() ==> point_views(r@) == point_views(points@),
        (target as nat) < points@.len() ==> r@.len() == target,
        target as nat >= points@.len() ==> r@.len() == points@.len(),
{
    let n = points.len();
    let idx = sample_indices(n, target);
    proof {
        lemma_sampling(n as nat, target as nat);
    }
    let r = pick(points, &idx);
    proof {
        assert(point_views(r@) =~= sample_positions(points@.len(), target as nat).map_values(
            |k: usize| point_view(points@[k as int]),
        ));
        if target as nat >= points@.len() {
            assert(point_views(r@) =~= point_views(points@));
            assert(r@.len() == point_views(r@).len());
        }
    }
    r
}

/// The unit of a metric type: `ms` for times, `RPM` for throughput, `count`
/// for errors, none for apdex or an unknown type.
pub open spec fn unit_of(metric_type: Seq<char>) -> Seq<char> {
    let k = lower_of(trim_of(metric_type));
    if k == "throughput"@ {
        "RPM"@
    } else if k == "response_time"@ || k == "response_time_95th"@ || k == "queue_time"@ {
        "ms"@
    } else if k == "errors"@ {
        "count"@
    } else {
        ""@
    }
}

/// Unit for display of a metric type (e.g. `ms`, `RPM`).
pub fn metric_unit(metric_type: &str) -> (r: &'static str)
    ensures
        r@ == unit_of(metric_type@),
{
    let k = lowercase(trim(metric_type));
    let k = k.as_str();
    if str_eq(k, "throughput") {
        "RPM"
    } else if str_eq(k, "response_time") || str_eq(k, "response_time_95th") || str_eq(
        k,
        "queue_time",
    ) {
        "ms"
    } else if str_eq(k, "errors") {
        "count"
    } else {
        ""
    }
}

/// The smallest scale of a chart, in thousandths (a value of 1).
pub const MIN_SCALE_MILLI: i64 = 1000;

/// The largest of the first `n` values, and at least `MIN_SCALE_MILLI`.
pub open spec fn scale_of(vals: Seq<i64>, n: int) -> i64
    decreases n,
{
    if n <= 0 {
        MIN_SCALE_MILLI
    } else {
        let m = scale_of(vals, n - 1);
        if vals[n - 1] > m {
            vals[n - 1]
        } else {
            m
        }
    }
}

/// A value's bar height on a 0 to 100 scale whose top is `top`.
pub open spec fn bar_height(v: i64, top: i64) -> int {
    if v <= 0 {
        0
    } else {
        (v as int) * 100 / (top as int)
    }
}

/// The values of points.
pub open spec fn values(s: Seq<SeriesPoint>) -> Seq<i64> {
    s.map_values(|p: SeriesPoint| p.milli)
}

proof fn lemma_scale_bounds(vals: Seq<i64>, n: int)
    requires
        0 <= n <= vals.len(),
    ensures
        scale_of(vals, n) >= MIN_SCALE_MILLI,
        forall|i: int| 0 <= i < n ==> vals[i] <= scale_of(vals, n),
    decreases n,
{
    if n > 0 {
        lemma_scale_bounds(vals, n - 1);
    }
}

/// The scale of a chart: the largest value, and at least `MIN_SCALE_MILLI`.
pub fn chart_scale(points: &Vec<SeriesPoint>) -> (r: i64)
    ensures
        r == scale_of(values(points@), points@.len() as int),
        r >= MIN_SCALE_MILLI,
        forall|i: int| 0 <= i < points@.len() ==> (#[trigger] points@[i]).milli <= r,
{
    let mut m: i64 = MIN_SCALE_MILLI;
    let mut i: usize = 0;
    while i < points.len()
        invariant
            i <= points@.len(),
            m == scale_of(values(points@), i as int),
        decreases points@.len() - i,
    {
        if points[i].milli > m {
            m = points[i].milli;
        }
        i = i + 1;
    }
    proof {
        lemma_scale_bounds(values(points@), points@.len() as int);
        assert forall|i: int| 0 <= i < points@.len() implies (#[trigger] points@[i]).milli <= m by {
            assert(values(points@)[i] == points@[i].milli);
        }
    }
    m
}

/// Bar height of a value on a 0 to 100 scale whose top is `top`.
pub fn height_of(v: i64, top: i64) -> (r: u64)
    requires
        top >= MIN_SCALE_MILLI,
        v <= top,
    ensures
        r == bar_height(v, top),
        r <= 100,
{
    if v <= 0 {
        return 0;
    }
    let h = (v as i128) * 100 / (top as i128);
    assert(0 <= (v as int) * 100 / (top as int) <= 100) by (nonlinear_arith)
        requires
            0 < v <= top,
    ;
    h as u64
}

/// Trailing characters kept of a time label.
pub const LABEL_CHARS: usize = 15;

/// The label of a time shown in UTC: the timestamp as displayed (unchanged
/// when it is no time), cut to its last `LABEL_CHARS` characters.
pub open spec fn utc_label(ts: Seq<char>) -> Seq<char> {
    crate::text::last_chars(
        match crate::helpers::time_of(ts) {
            Some(t) => match crate::helpers::display_utc_text(t) {
                Some(x) => x,
                None => ts,
            },
            None => ts,
        },
        LABEL_CHARS as nat,
    )
}

/// The values of bars.
pub open spec fn bar_values(bars: Seq<ChartPoint>) -> Seq<i64> {
    bars.map_values(|b: ChartPoint| b.milli)
}

/// The label of a point's time: the timestamp as displayed, cut to its last
/// `LABEL_CHARS` characters.
pub fn time_label(ts: &str, use_utc: bool) -> (r: String)
    ensures
        r@.len() <= LABEL_CHARS,
        use_utc ==> r@ == utc_label(ts@),
        crate::helpers::time_of(ts@) is None ==> r@ == crate::text::last_chars(
            ts@,
            LABEL_CHARS as nat,
        ),
        crate::helpers::time_of(ts@) is Some && use_utc ==> r@ == crate::text::last_chars(
            match crate::helpers::display_utc_text(crate::helpers::time_of(ts@)->0) {
                Some(x) => x,
                None => ts@,
            },
            LABEL_CHARS as nat,
        ),
{
    let shown = crate::helpers::format_timestamp_display(ts, use_utc);
    let s = shown.as_str();
    let n = s.unicode_len();
    if n <= LABEL_CHARS {
        shown
    } else {
        crate::text::copy_range(s, n - LABEL_CHARS, n)
    }
}

/// One bar of a chart.
#[derive(Debug)]
pub struct ChartPoint {
    pub label: String,
    pub milli: i64,
    pub height: u64,
}

/// A chart of a metric series: its sampled bars in time order, how many
/// points the series had, the width of each bar, the value at the top of
/// the scale and the unit.
#[derive(Debug)]
pub struct SeriesChart {
    pub bars: Vec<ChartPoint>,
    pub total: usize,
    pub bar_width: usize,
    pub top: i64,
    pub unit: String,
}

/// What the overlay shows for a metric series.
#[derive(Debug)]
pub enum SeriesView {
    /// The payload held no point.
    NoData,
    Chart(SeriesChart),
}

/// The text shown for a payload without points.
pub const NO_DATA_TEXT: &'static str = "  No time-series points in response.\n  (Raw structure may differ; check API docs.)";

/// Number of points a chart shows for a display `width`.
pub open spec fn target_points(width: nat) -> nat {
    if width > 5 {
        (width - 4) as nat
    } else {
        1
    }
}

/// The width of each bar for `n` bars across `width` columns: between one
/// and three columns, narrower as bars get more numerous.
pub open spec fn bar_width_for(width: nat, n: nat) -> nat {
    let room = if width > 4 {
        (width - 4) as nat
    } else {
        0
    };
    let w = if n == 0 {
        3
    } else {
        room / n
    };
    if w < 1 {
        1
    } else if w > 3 {
        3
    } else {
        w
    }
}

/// Turns a metric payload into a chart for a display `width`: its points in
/// time order, sampled evenly down to what the width holds, each scaled to
/// 0..100 against the largest sampled value (at least 1); a payload without
/// points gives `NoData`.
pub fn render_series(payload: &JsonValue, width: usize, metric_type: &str, use_utc: bool) -> (r:
    SeriesView)
    ensures
        (r is NoData) == (series_of(*payload).len() == 0),
        r matches SeriesView::Chart(c) ==> {
            &&& c.total == series_of(*payload).len()
            &&& c.unit@ == unit_of(metric_type@)
            &&& c.top >= MIN_SCALE_MILLI
            &&& c.bars@.len() == if c.total <= target_points(width as nat) {
                c.total as nat
            } else {
                target_points(width as nat)
            }
            &&& c.bar_width == bar_width_for(width as nat, c.bars@.len())
            &&& c.top == scale_of(bar_values(c.bars@), c.bars@.len() as int)
            &&& exists|o: Seq<(Seq<char>, i64)>|
                {
                    &&& ordered_series(series_of(*payload), o, false)
                    &&& forall|i: int|
                        0 <= i < c.bars@.len() ==> {
                            let k = sample_positions(o.len(), target_points(width as nat))[i];
                            &&& (#[trigger] c.bars@[i]).milli == o[k as int].1
                            &&& use_utc ==> c.bars@[i].label@ == utc_label(o[k as int].0)
                        }
                }
            &&& forall|i: int|
                0 <= i < c.bars@.len() ==> (#[trigger] c.bars@[i]).height == bar_height(
                    c.bars@[i].milli,
                    c.top,
                ) && c.bars@[i].height <= 100 && c.bars@[i].milli <= c.top
                    && c.bars@[i].label@.len() <= LABEL_CHARS
        },
{
    let points = collect_series_points(payload);
    if points.len() == 0 {
        return SeriesView::NoData;
    }
    let ordered = sort_points(&points, false);
    let target: usize = if width > 5 {
        width - 4
    } else {
        1
    };
    let sampled = downsample(&ordered, target);
    let top = chart_scale(&sampled);
    let mut bars: Vec<ChartPoint> = Vec::new();
    let mut i: usize = 0;
    while i < sampled.len()
        invariant
            i <= sampled@.len(),
            forall|k: int|
                0 <= k < i ==> (#[trigger] bars@[k]).milli == sampled@[k].milli && (use_utc
                    ==> bars@[k].label@ == utc_label(sampled@[k].timestamp@)),
            top >= MIN_SCALE_MILLI,
            forall|k: int| 0 <= k < sampled@.len() ==> (#[trigger] sampled@[k]).milli <= top,
            bars@.len() == i,
            forall|k: int|
                0 <= k < i ==> (#[trigger] bars@[k]).height == bar_height(bars@[k].milli, top)
                    && bars@[k].height <= 100 && bars@[k].milli <= top && bars@[k].label@.len()
                    <= LABEL_CHARS,
        decreases sampled@.len() - i,
    {
        let p = &sampled[i];
        let h = height_of(p.milli, top);
        let label = time_label(p.timestamp.as_str(), use_utc);
        bars.push(ChartPoint { label, milli: p.milli, height: h });
        i = i + 1;
    }
    let room = if width > 4 {
        width - 4
    } else {
        0
    };
    let n = bars.len();
    let w = room / n;
    let bar_width = if w < 1 {
        1
    } else if w > 3 {
        3
    } else {
        w
    };
    proof {
        assert(point_views(points@).len() == points@.len());
        let o = point_views(ordered@);
        assert(ordered_series(series_of(*payload), o, false));
        assert(bar_values(bars@) =~= values(sampled@));
        let sp = sample_positions(o.len(), target as nat);
        assert forall|i: int| 0 <= i < bars@.len() implies {
            let k = sp[i];
            &&& (#[trigger] bars@[i]).milli == o[k as int].1
            &&& use_utc ==> bars@[i].label@ == utc_label(o[k as int].0)
        } by {
            lemma_sampling(ordered@.len(), target as nat);
            assert(o.len() == ordered@.len());
            assert(sp[i] < o.len());
            assert(point_views(sampled@)[i] == point_view(sampled@[i]));
            assert(point_views(sampled@)[i] == point_view(ordered@[sp[i] as int]));
            assert(o[sp[i] as int] == point_view(ordered@[sp[i] as int]));
        }
    }
    SeriesView::Chart(
        SeriesChart {
            bars,
            total: points.len(),
            bar_width,
            top,
            unit: metric_unit(metric_type).to_owned(),
        },
    )
}

/// Rows shown under a chart.
pub const TABLE_ROWS: usize = 30;

/// The latest points of a metric payload: the series ordered newest first
/// (equal times in payload order), its first `limit` points, and how many
/// more there are.
pub fn latest_points(payload: &JsonValue, limit: usize) -> (r: (Vec<SeriesPoint>, usize))
    ensures
        r.0@.len() == if series_of(*payload).len() <= limit {
            series_of(*payload).len()
        } else {
            limit as nat
        },
        r.0@.len() + r.1 == series_of(*payload).len(),
        exists|o: Seq<(Seq<char>, i64)>|
            ordered_series(series_of(*payload), o, true) && point_views(r.0@) == o.subrange(
                0,
                r.0@.len() as int,
            ),
{
    let points = collect_series_points(payload);
    proof {
        assert(point_views(points@).len() == points@.len());
    }
    let ordered = sort_points(&points, true);
    let ghost ov = ordered@;
    let n = ordered.len();
    let take = if n <= limit {
        n
    } else {
        limit
    };
    let mut out: Vec<SeriesPoint> = Vec::new();
    let mut i: usize = 0;
    while i < take
        invariant
            i <= take,
            take <= ordered@.len(),
            ov == ordered@,
            out@.len() == i,
            forall|k: int| 0 <= k < i ==> point_view(#[trigger] out@[k]) == point_view(ov[k]),
        decreases take - i,
    {
        out.push(copy_point(&ordered[i]));
        i = i + 1;
    }
    proof {
        let o = point_views(ov);
        assert(point_views(out@) =~= o.subrange(0, take as int));
        assert(ordered_series(series_of(*payload), o, true));
    }
    (out, n - take)
}

/// The heading of a value column: `Value`, with the unit in parentheses
/// when there is one.
pub open spec fn value_heading(unit: Seq<char>) -> Seq<char> {
    if unit.len() == 0 {
        "Value"@
    } else {
        "Value ("@ + unit + ")"@
    }
}

/// The heading of a value column for a unit.
pub fn value_header(unit: &str) -> (r: String)
    ensures
        r@ == value_heading(unit@),
{
    if unit.is_empty() {
        String::from_str("Value")
    } else {
        let mut h = String::from_str("Value (");
        h.append(unit);
        h.append(")");
        h
    }
}

/// The heading of a time column: in UTC or in the local time zone.
pub fn time_header(use_utc: bool) -> (r: &'static str)
    ensures
        r@ == if use_utc {
            "Time (UTC)"@
        } else {
            "Time (local)"@
        },
{
    if use_utc {
        "Time (UTC)"
    } else {
        "Time (local)"
    }
}

} // verus!
