//! Tab datasets: the rows that each tab lists, built from fetched payloads,
//! and the detail text of one record.

use crate::json::{
    json_get, json_str, member_position, opt_str, or_else, JsonValue,
};
use crate::view::Tab;
use crate::order::{is_permutation, sort_order, sorted_by, views};
use crate::text::{
    decimal, decimal_string, flatten_lines, lex_lt, pad_to, push_flattened, push_padded,
    push_prefix, take_chars,
};
use vstd::prelude::*;

verus! {

/// The time of a record used to order rows: the first present of its
/// `last_seen`, `first_seen`, `timestamp`, `created_at`, `time` and
/// `reported_at` members, when that member is a string; else empty.
pub open spec fn time_key(v: JsonValue) -> Seq<char> {
    let t = or_else(
        json_get(v, "last_seen"@),
        or_else(
            json_get(v, "first_seen"@),
            or_else(
                json_get(v, "timestamp"@),
                or_else(
                    json_get(v, "created_at"@),
                    or_else(json_get(v, "time"@), json_get(v, "reported_at"@)),
                ),
            ),
        ),
    );
    match json_str(t) {
        Some(s) => s,
        None => Seq::empty(),
    }
}

/// The text of the first present of two members, when it is a string; else `fallback`.
pub open spec fn text_or(v: JsonValue, k1: Seq<char>, k2: Seq<char>, fallback: Seq<char>) -> Seq<
    char,
> {
    match json_str(or_else(json_get(v, k1), json_get(v, k2))) {
        Some(s) => s,
        None => fallback,
    }
}

/// The first present of two members.
fn first_member<'a>(v: &'a JsonValue, k1: &str, k2: &str) -> (r: Option<&'a JsonValue>)
    ensures
        r matches Some(x) ==> or_else(json_get(*v, k1@), json_get(*v, k2@)) == Some(*x),
        r is None ==> or_else(json_get(*v, k1@), json_get(*v, k2@)) is None,
{
    match v.get(k1) {
        Some(x) => Some(x),
        None => v.get(k2),
    }
}

/// The text of the first present of two members, when it is a string.
fn text_member(v: &JsonValue, k1: &str, k2: &str) -> (r: Option<String>)
    ensures
        r matches Some(s) ==> json_str(or_else(json_get(*v, k1@), json_get(*v, k2@))) == Some(
            s@,
        ),
        r is None ==> json_str(or_else(json_get(*v, k1@), json_get(*v, k2@))) is None,
{
    match opt_str(first_member(v, k1, k2)) {
        Some(s) => Some(s.to_owned()),
        None => None,
    }
}

/// The time of a record used to order rows, newest first.
pub fn time_sort_key(v: &JsonValue) -> (r: String)
    ensures
        r@ == time_key(*v),
{
    let t = match first_member(v, "last_seen", "first_seen") {
        Some(x) => Some(x),
        None => match first_member(v, "timestamp", "created_at") {
            Some(x) => Some(x),
            None => first_member(v, "time", "reported_at"),
        },
    };
    match opt_str(t) {
        Some(s) => s.to_owned(),
        None => String::new(),
    }
}

/// One listed row: its label and the index of its record.
#[derive(Debug)]
pub struct Row {
    pub label: String,
    pub record: usize,
}

/// Records in the order they were received, and the rows that list them
/// newest first.
#[derive(Debug)]
pub struct RecordList {
    pub records: Vec<JsonValue>,
    pub rows: Vec<Row>,
}

/// The record index of each row.
pub open spec fn row_records(rows: Seq<Row>) -> Seq<usize> {
    rows.map_values(|r: Row| r.record)
}

/// The rows list every record once, label each with `labels` at its index,
/// and go from the newest record to the oldest; records with equal times
/// keep the order in which they were received.
pub open spec fn lists_newest_first(l: RecordList, labels: Seq<Seq<char>>) -> bool {
    &&& is_permutation(row_records(l.rows@), l.records@.len())
    &&& forall|k: int|
        0 <= k < l.rows@.len() ==> (#[trigger] l.rows@[k]).label@ == labels[l.rows@[k].record as int]
    &&& forall|k: int|
        0 <= k < l.rows@.len() - 1 ==> !lex_lt(
            time_key(l.records@[(#[trigger] l.rows@[k]).record as int]),
            time_key(l.records@[l.rows@[k + 1].record as int]),
        )
    &&& forall|k: int, m: int|
        0 <= k < m < l.rows@.len() && time_key(l.records@[(#[trigger] l.rows@[k]).record as int])
            == time_key(l.records@[(#[trigger] l.rows@[m]).record as int]) ==> l.rows@[k].record
            < l.rows@[m].record
}

/// Lists records newest first, each under its label.
pub fn newest_first(records: Vec<JsonValue>, labels: Vec<String>) -> (r: RecordList)
    requires
        labels@.len() == records@.len(),
    ensures
        r.records@ == records@,
        lists_newest_first(r, views(labels@)),
{
    let mut keys: Vec<String> = Vec::new();
    let mut i: usize = 0;
    while i < records.len()
        invariant
            i <= records@.len(),
            keys@.len() == i,
            forall|j: int| 0 <= j < i ==> (#[trigger] keys@[j])@ == time_key(records@[j]),
        decreases records@.len() - i,
    {
        keys.push(time_sort_key(&records[i]));
        i = i + 1;
    }
    let order = sort_order(&keys, true);
    let ghost ks = views(keys@);
    let mut rows: Vec<Row> = Vec::new();
    let mut j: usize = 0;
    while j < order.len()
        invariant
            j <= order@.len(),
            is_permutation(order@, records@.len()),
            labels@.len() == records@.len(),
            rows@.len() == j,
            forall|k: int| 0 <= k < j ==> (#[trigger] rows@[k]).record == order@[k],
            forall|k: int|
                0 <= k < j ==> (#[trigger] rows@[k]).label@ == views(labels@)[rows@[k].record as int],
        decreases order@.len() - j,
    {
        let idx = order[j];
        rows.push(Row { label: labels[idx].clone(), record: idx });
        j = j + 1;
    }
    let r = RecordList { records, rows };
    proof {
        assert(row_records(r.rows@) =~= order@);
        assert forall|k: int| 0 <= k < r.rows@.len() - 1 implies !lex_lt(
            time_key(r.records@[(#[trigger] r.rows@[k]).record as int]),
            time_key(r.records@[r.rows@[k + 1].record as int]),
        ) by {
            assert(ks[order@[k] as int] == time_key(r.records@[order@[k] as int]));
            assert(ks[order@[k + 1] as int] == time_key(r.records@[order@[k + 1] as int]));
        }
        assert forall|k: int, m: int|
            0 <= k < m < r.rows@.len() && time_key(
                r.records@[(#[trigger] r.rows@[k]).record as int],
            ) == time_key(r.records@[(#[trigger] r.rows@[m]).record as int]) implies r.rows@[k].record
            < r.rows@[m].record by {
            assert(ks[order@[k] as int] == time_key(r.records@[order@[k] as int]));
            assert(ks[order@[m] as int] == time_key(r.records@[order@[m] as int]));
        }
    }
    r
}

/// The items of an endpoint listing: its `endpoints` array, or the payload
/// itself when it is an array.
pub open spec fn endpoint_items(v: JsonValue) -> Seq<JsonValue> {
    match json_get(v, "endpoints"@) {
        Some(JsonValue::Array(items)) => items@,
        _ => match v {
            JsonValue::Array(items) => items@,
            _ => Seq::empty(),
        },
    }
}

/// The label of an endpoint: its `name` or `transaction_name`, else `?`.
pub open spec fn endpoint_label(o: JsonValue) -> Seq<char> {
    text_or(o, "name"@, "transaction_name"@, "?"@)
}

/// Labels of records: `text_or` of two members with a fixed fallback.
fn labels_of(records: &Vec<JsonValue>, k1: &str, k2: &str, fallback: &str) -> (r: Vec<String>)
    ensures
        r@.len() == records@.len(),
        forall|i: int|
            0 <= i < records@.len() ==> (#[trigger] r@[i])@ == text_or(
                records@[i],
                k1@,
                k2@,
                fallback@,
            ),
{
    let mut out: Vec<String> = Vec::new();
    let mut i: usize = 0;
    while i < records.len()
        invariant
            i <= records@.len(),
            out@.len() == i,
            forall|j: int|
                0 <= j < i ==> (#[trigger] out@[j])@ == text_or(records@[j], k1@, k2@, fallback@),
        decreases records@.len() - i,
    {
        let label = match text_member(&records[i], k1, k2) {
            Some(s) => s,
            None => fallback.to_owned(),
        };
        out.push(label);
        i = i + 1;
    }
    out
}

/// The rows of the Endpoints tab: each endpoint under its name, newest first.
pub fn endpoints_as_list(v: JsonValue) -> (r: RecordList)
    ensures
        r.records@ == endpoint_items(v),
        lists_newest_first(r, endpoint_items(v).map_values(|o: JsonValue| endpoint_label(o))),
{
    let items: Vec<JsonValue> = match v {
        JsonValue::Object(fields) => {
            let mut fields = fields;
            match member_position(&fields, "endpoints") {
                Some(i) => {
                    let (_, member) = fields.remove(i);
                    match member {
                        JsonValue::Array(items) => items,
                        _ => Vec::new(),
                    }
                },
                None => Vec::new(),
            }
        },
        JsonValue::Array(items) => items,
        _ => Vec::new(),
    };
    let labels = labels_of(&items, "name", "transaction_name", "?");
    proof {
        assert(views(labels@) =~= items@.map_values(|o: JsonValue| endpoint_label(o)));
    }
    newest_first(items, labels)
}

/// The rows of the Errors tab: each error group under its message (or
/// name, else `?`), newest first.
pub fn errors_as_list(items: Vec<JsonValue>) -> (r: RecordList)
    ensures
        r.records@ == items@,
        lists_newest_first(
            r,
            items@.map_values(|o: JsonValue| text_or(o, "message"@, "name"@, "?"@)),
        ),
{
    let labels = labels_of(&items, "message", "name", "?");
    proof {
        assert(views(labels@) =~= items@.map_values(
            |o: JsonValue| text_or(o, "message"@, "name"@, "?"@),
        ));
    }
    newest_first(items, labels)
}

/// The label of the `i`-th item of an insight group with no name or title.
pub open spec fn numbered(prefix: Seq<char>, i: int) -> Seq<char> {
    prefix + decimal((i + 1) as nat)
}

/// Labelled items of one array: each under its `name` or `title`, else
/// under `prefix` followed by its position counted from one.
pub open spec fn labelled_items(items: Seq<JsonValue>, prefix: Seq<char>) -> Seq<
    (Seq<char>, JsonValue),
> {
    Seq::new(
        items.len(),
        |i: int| (text_or(items[i], "name"@, "title"@, numbered(prefix, i)), items[i]),
    )
}

/// Labelled items of the array members of an object, member after member;
/// other members are skipped.
pub open spec fn insight_groups(fields: Seq<(String, JsonValue)>) -> Seq<(Seq<char>, JsonValue)>
    decreases fields.len(),
{
    if fields.len() == 0 {
        Seq::empty()
    } else {
        let prev = insight_groups(fields.drop_last());
        match fields.last().1 {
            JsonValue::Array(items) => prev + labelled_items(items@, fields.last().0@ + " #"@),
            _ => prev,
        }
    }
}

/// Labelled items of an insights payload: the groups of an object, or the
/// items of an array (unnamed ones numbered as `Item n`).
pub open spec fn insight_entries(v: JsonValue) -> Seq<(Seq<char>, JsonValue)> {
    match v {
        JsonValue::Object(fields) => insight_groups(fields@),
        JsonValue::Array(items) => labelled_items(items@, "Item "@),
        _ => Seq::empty(),
    }
}

/// Appends the items of one array, each with its label, to `records` and `labels`.
fn push_labelled(
    records: &mut Vec<JsonValue>,
    labels: &mut Vec<String>,
    items: Vec<JsonValue>,
    prefix: &str,
)
    requires
        old(labels)@.len() == old(records)@.len(),
    ensures
        final(records)@ == old(records)@ + labelled_items(items@, prefix@).map_values(
            |e: (Seq<char>, JsonValue)| e.1,
        ),
        views(final(labels)@) == views(old(labels)@) + labelled_items(items@, prefix@).map_values(
            |e: (Seq<char>, JsonValue)| e.0,
        ),
{
    let ghost all = items@;
    let ghost r0 = records@;
    let ghost l0 = views(labels@);
    let ghost entries = labelled_items(all, prefix@);
    let mut rest = items;
    proof {
        assert(all.len() == rest.len());
    }
    let mut i: usize = 0;
    while rest.len() > 0
        invariant
            all.len() <= usize::MAX,
            i <= all.len(),
            rest@ == all.subrange(i as int, all.len() as int),
            entries == labelled_items(all, prefix@),
            records@ == r0 + entries.subrange(0, i as int).map_values(
                |e: (Seq<char>, JsonValue)| e.1,
            ),
            views(labels@) == l0 + entries.subrange(0, i as int).map_values(
                |e: (Seq<char>, JsonValue)| e.0,
            ),
        decreases rest@.len(),
    {
        let item = rest.remove(0);
        let label = match text_member(&item, "name", "title") {
            Some(s) => s,
            None => {
                let mut s = prefix.to_owned();
                let n = decimal_string(i as u64 + 1);
                s.append(n.as_str());
                s
            },
        };
        proof {
            assert(item == all[i as int]);
            assert(label@ == entries[i as int].0);
        }
        let ghost lb = labels@;
        let ghost lv = label@;
        records.push(item);
        labels.push(label);
        i = i + 1;
        proof {
            assert(views(labels@) =~= views(lb).push(lv));
            assert(rest@ =~= all.subrange(i as int, all.len() as int));
            assert(records@ =~= r0 + entries.subrange(0, i as int).map_values(
                |e: (Seq<char>, JsonValue)| e.1,
            ));
            assert(views(labels@) =~= l0 + entries.subrange(0, i as int).map_values(
                |e: (Seq<char>, JsonValue)| e.0,
            ));
        }
    }
    proof {
        assert(entries.subrange(0, i as int) =~= entries);
    }
}

/// The rows of the Insights tab: the items of each insight group (or of a
/// plain array), each under its name or title, else numbered, newest first.
pub fn insights_as_list(v: JsonValue) -> (r: RecordList)
    ensures
        r.records@ == insight_entries(v).map_values(|e: (Seq<char>, JsonValue)| e.1),
        lists_newest_first(r, insight_entries(v).map_values(|e: (Seq<char>, JsonValue)| e.0)),
{
    let ghost v0 = v;
    let mut records: Vec<JsonValue> = Vec::new();
    let mut labels: Vec<String> = Vec::new();
    match v {
        JsonValue::Object(fields) => {
            let ghost all = fields@;
            let mut rest = fields;
            proof {
        assert(all.len() == rest.len());
    }
            let mut i: usize = 0;
            while rest.len() > 0
                invariant
                    all.len() <= usize::MAX,
                    i <= all.len(),
                    rest@ == all.subrange(i as int, all.len() as int),
                    labels@.len() == records@.len(),
                    records@ == insight_groups(all.subrange(0, i as int)).map_values(
                        |e: (Seq<char>, JsonValue)| e.1,
                    ),
                    views(labels@) == insight_groups(all.subrange(0, i as int)).map_values(
                        |e: (Seq<char>, JsonValue)| e.0,
                    ),
                decreases rest@.len(),
            {
                let ghost before = all.subrange(0, i as int);
                let (kind, member) = rest.remove(0);
                proof {
                    assert(all.subrange(0, i + 1).drop_last() =~= before);
                    assert(all.subrange(0, i + 1).last() == (kind, member));
                }
                match member {
                    JsonValue::Array(items) => {
                        let mut prefix = kind;
                        prefix.append(" #");
                        push_labelled(&mut records, &mut labels, items, prefix.as_str());
                    },
                    _ => {},
                }
                i = i + 1;
                proof {
                    assert(rest@ =~= all.subrange(i as int, all.len() as int));
                    assert(records@ =~= insight_groups(all.subrange(0, i as int)).map_values(
                        |e: (Seq<char>, JsonValue)| e.1,
                    ));
                    assert(views(labels@) =~= insight_groups(all.subrange(0, i as int)).map_values(
                        |e: (Seq<char>, JsonValue)| e.0,
                    ));
                }
            }
            proof {
                assert(all.subrange(0, i as int) =~= all);
            }
        },
        JsonValue::Array(items) => {
            push_labelled(&mut records, &mut labels, items, "Item ");
        },
        _ => {},
    }
    proof {
        assert(records@ =~= insight_entries(v0).map_values(|e: (Seq<char>, JsonValue)| e.1));
        assert(views(labels@) =~= insight_entries(v0).map_values(
            |e: (Seq<char>, JsonValue)| e.0,
        ));
    }
    newest_first(records, labels)
}

/// Widest key shown in a detail table.
pub const DETAIL_KEY_WIDTH: usize = 24;

/// A member value as one short text.
pub open spec fn value_text(v: JsonValue) -> Seq<char> {
    match v {
        JsonValue::Null => "\u{2014}"@,
        JsonValue::Bool(b) => if b {
            "true"@
        } else {
            "false"@
        },
        JsonValue::Number(n) => n.text@,
        JsonValue::Str(s) => s@,
        JsonValue::Array(items) => "["@ + decimal(items@.len()) + " items]"@,
        JsonValue::Object(_) => "{\u{2026}}"@,
    }
}

/// The longest key among the first `n` members.
pub open spec fn longest_key(fields: Seq<(String, JsonValue)>, n: int) -> nat
    decreases n,
{
    if n <= 0 {
        0
    } else {
        let prev = longest_key(fields, n - 1);
        if fields[n - 1].0@.len() > prev {
            fields[n - 1].0@.len()
        } else {
            prev
        }
    }
}

/// The width of the key column: the longest key, at most `DETAIL_KEY_WIDTH`.
pub open spec fn key_width(fields: Seq<(String, JsonValue)>) -> nat {
    let m = longest_key(fields, fields.len() as int);
    if m > DETAIL_KEY_WIDTH {
        DETAIL_KEY_WIDTH as nat
    } else {
        m
    }
}

/// One line of a detail table.
pub open spec fn detail_line(key: Seq<char>, val: Seq<char>, width: nat) -> Seq<char> {
    "  "@ + pad_to(take_chars(key, width), width) + "  "@ + flatten_lines(val) + "\n"@
}

/// The lines of the members taken in the order `p`, first `n` of them.
pub open spec fn detail_lines(
    fields: Seq<(String, JsonValue)>,
    p: Seq<usize>,
    width: nat,
    n: int,
) -> Seq<char>
    decreases n,
{
    if n <= 0 {
        Seq::empty()
    } else {
        detail_lines(fields, p, width, n - 1) + detail_line(
            fields[p[n - 1] as int].0@,
            value_text(fields[p[n - 1] as int].1),
            width,
        )
    }
}

/// The members of an object; none for other values.
pub open spec fn members(v: JsonValue) -> Seq<(String, JsonValue)> {
    match v {
        JsonValue::Object(fields) => fields@,
        _ => Seq::empty(),
    }
}

/// The keys of members.
pub open spec fn member_keys(fields: Seq<(String, JsonValue)>) -> Seq<Seq<char>> {
    fields.map_values(|f: (String, JsonValue)| f.0@)
}

/// The detail text of a record: one line per member, in the order `p`, or a
/// placeholder when there is none.
pub open spec fn detail_text(v: JsonValue, p: Seq<usize>) -> Seq<char> {
    let fields = members(v);
    if fields.len() == 0 {
        "  (no data)"@
    } else {
        detail_lines(fields, p, key_width(fields), fields.len() as int)
    }
}

/// Appends the short text of a member value, line feeds turned into spaces.
fn push_value_text(out: &mut String, v: &JsonValue)
    ensures
        final(out)@ == old(out)@ + flatten_lines(value_text(*v)),
{
    match v {
        JsonValue::Null => push_flattened(out, "\u{2014}"),
        JsonValue::Bool(b) => if *b {
            push_flattened(out, "true")
        } else {
            push_flattened(out, "false")
        },
        JsonValue::Number(n) => push_flattened(out, n.text.as_str()),
        JsonValue::Str(s) => push_flattened(out, s.as_str()),
        JsonValue::Array(items) => {
            let mut t = String::from_str("[");
            let n = decimal_string(items.len() as u64);
            t.append(n.as_str());
            t.append(" items]");
            push_flattened(out, t.as_str());
        },
        JsonValue::Object(_) => push_flattened(out, "{\u{2026}}"),
    }
}

/// Appends the first `width` characters of the text, padded to `width`.
fn push_prefix_padded(out: &mut String, s: &str, width: usize)
    ensures
        final(out)@ == old(out)@ + pad_to(take_chars(s@, width as nat), width as nat),
{
    let mut t = String::new();
    push_prefix(&mut t, s, width);
    push_padded(out, t.as_str(), width);
}

/// Formats a record as a table of its members, one `key  value` line each,
/// sorted by key, keys cut and padded to a common width.
pub fn format_endpoint_table(v: &JsonValue) -> (r: String)
    ensures
        exists|p: Seq<usize>|
            {
                &&& is_permutation(p, members(*v).len())
                &&& sorted_by(member_keys(members(*v)), p, false)
                &&& r@ == detail_text(*v, p)
            },
{
    match v {
        JsonValue::Object(fields) => {
            if fields.len() == 0 {
                let r = String::from_str("  (no data)");
                proof {
                    let p = Seq::<usize>::empty();
                    assert(is_permutation(p, 0));
                    assert(r@ == detail_text(*v, p));
                }
                return r;
            }
            let mut keys: Vec<String> = Vec::new();
            let mut longest: usize = 0;
            let mut i: usize = 0;
            while i < fields.len()
                invariant
                    *v == JsonValue::Object(*fields),
                    i <= fields@.len(),
                    keys@.len() == i,
                    forall|j: int| 0 <= j < i ==> (#[trigger] keys@[j]) == fields@[j].0,
                    longest == longest_key(fields@, i as int),
                decreases fields@.len() - i,
            {
                let n = fields[i].0.as_str().unicode_len();
                if n > longest {
                    longest = n;
                }
                keys.push(fields[i].0.clone());
                i = i + 1;
            }
            let width = if longest > DETAIL_KEY_WIDTH {
                DETAIL_KEY_WIDTH
            } else {
                longest
            };
            let order = sort_order(&keys, false);
            proof {
                assert(views(keys@) =~= member_keys(fields@));
            }
            let mut out = String::new();
            let mut j: usize = 0;
            while j < order.len()
                invariant
                    *v == JsonValue::Object(*fields),
                    is_permutation(order@, fields@.len()),
                    width == key_width(fields@),
                    j <= order@.len(),
                    out@ == detail_lines(fields@, order@, width as nat, j as int),
                decreases order@.len() - j,
            {
                let f = &fields[order[j]];
                out.append("  ");
                push_prefix_padded(&mut out, f.0.as_str(), width);
                out.append("  ");
                push_value_text(&mut out, &f.1);
                out.append("\n");
                j = j + 1;
                proof {
                    assert(out@ =~= detail_lines(fields@, order@, width as nat, j as int));
                }
            }
            proof {
                assert(sorted_by(member_keys(fields@), order@, false));
                assert(out@ == detail_text(*v, order@));
            }
            out
        },
        _ => {
            let r = String::from_str("  (no data)");
            proof {
                let p = Seq::<usize>::empty();
                assert(is_permutation(p, 0));
                assert(r@ == detail_text(*v, p));
            }
            r
        },
    }
}

/// The strings among the first `n` items, in order.
pub open spec fn string_items(items: Seq<JsonValue>, n: int) -> Seq<Seq<char>>
    decreases n,
{
    if n <= 0 {
        Seq::empty()
    } else {
        let prev = string_items(items, n - 1);
        match items[n - 1] {
            JsonValue::Str(s) => prev.push(s@),
            _ => prev,
        }
    }
}

/// The items of an array payload; none for other values.
pub open spec fn array_items(v: JsonValue) -> Seq<JsonValue> {
    match v {
        JsonValue::Array(items) => items@,
        _ => Seq::empty(),
    }
}

/// The metric type names of a payload: its string items, in order.
pub fn metric_types(v: JsonValue) -> (r: Vec<String>)
    ensures
        views(r@) == string_items(array_items(v), array_items(v).len() as int),
{
    let ghost all = array_items(v);
    let mut out: Vec<String> = Vec::new();
    match v {
        JsonValue::Array(items) => {
            let mut rest = items;
            proof {
        assert(all.len() == rest.len());
    }
            let mut i: usize = 0;
            while rest.len() > 0
                invariant
                    all.len() <= usize::MAX,
                    i <= all.len(),
                    rest@ == all.subrange(i as int, all.len() as int),
                    views(out@) == string_items(all, i as int),
                decreases rest@.len(),
            {
                let item = rest.remove(0);
                proof {
                    assert(item == all[i as int]);
                }
                let ghost ob = out@;
                match item {
                    JsonValue::Str(s) => {
                        let ghost sv = s@;
                        out.push(s);
                        proof {
                            assert(views(out@) =~= views(ob).push(sv));
                        }
                    },
                    _ => {},
                }
                i = i + 1;
                proof {
                    assert(rest@ =~= all.subrange(i as int, all.len() as int));
                }
            }
        },
        _ => {},
    }
    out
}

/// The dataset of one tab.
#[derive(Debug)]
pub enum TabData {
    Records(RecordList),
    MetricTypes(Vec<String>),
}

/// The labels that a tab lists, in display order.
pub open spec fn tab_rows(d: TabData) -> Seq<Seq<char>> {
    match d {
        TabData::Records(l) => l.rows@.map_values(|r: Row| r.label@),
        TabData::MetricTypes(names) => views(names@),
    }
}

/// The records of a dataset are all listed by valid rows.
pub open spec fn well_formed_data(d: TabData) -> bool {
    match d {
        TabData::Records(l) => forall|k: int|
            0 <= k < l.rows@.len() ==> (#[trigger] l.rows@[k]).record < l.records@.len(),
        TabData::MetricTypes(_) => true,
    }
}

/// The dataset that a tab shows for a fetched payload: endpoints, insights,
/// metric type names, or error groups.
pub open spec fn dataset_spec(tab: Tab, payload: JsonValue, d: TabData) -> bool {
    match tab {
        Tab::Endpoints => d matches TabData::Records(l) && l.records@ == endpoint_items(payload)
            && lists_newest_first(
            l,
            endpoint_items(payload).map_values(|o: JsonValue| endpoint_label(o)),
        ),
        Tab::Insights => d matches TabData::Records(l) && l.records@ == insight_entries(
            payload,
        ).map_values(|e: (Seq<char>, JsonValue)| e.1) && lists_newest_first(
            l,
            insight_entries(payload).map_values(|e: (Seq<char>, JsonValue)| e.0),
        ),
        Tab::Metrics => d matches TabData::MetricTypes(names) && views(names@) == string_items(
            array_items(payload),
            array_items(payload).len() as int,
        ),
        Tab::Errors => d matches TabData::Records(l) && l.records@ == array_items(payload)
            && lists_newest_first(
            l,
            array_items(payload).map_values(|o: JsonValue| text_or(o, "message"@, "name"@, "?"@)),
        ),
    }
}

proof fn lemma_listed_well_formed(l: RecordList, labels: Seq<Seq<char>>)
    requires
        lists_newest_first(l, labels),
    ensures
        well_formed_data(TabData::Records(l)),
{
    assert forall|k: int| 0 <= k < l.rows@.len() implies (#[trigger] l.rows@[k]).record
        < l.records@.len() by {
        assert(row_records(l.rows@)[k] == l.rows@[k].record);
    }
}

/// Builds the dataset of a tab from its fetched payload.
pub fn dataset_for(tab: Tab, payload: JsonValue) -> (r: TabData)
    ensures
        dataset_spec(tab, payload, r),
        well_formed_data(r),
{
    match tab {
        Tab::Endpoints => {
            let ghost p = payload;
            let l = endpoints_as_list(payload);
            proof {
                lemma_listed_well_formed(
                    l,
                    endpoint_items(p).map_values(|o: JsonValue| endpoint_label(o)),
                );
            }
            TabData::Records(l)
        },
        Tab::Insights => {
            let ghost p = payload;
            let l = insights_as_list(payload);
            proof {
                lemma_listed_well_formed(
                    l,
                    insight_entries(p).map_values(|e: (Seq<char>, JsonValue)| e.0),
                );
            }
            TabData::Records(l)
        },
        Tab::Metrics => TabData::MetricTypes(metric_types(payload)),
        Tab::Errors => {
            let items = match payload {
                JsonValue::Array(items) => items,
                _ => Vec::new(),
            };
            let ghost its = items@;
            let l = errors_as_list(items);
            proof {
                lemma_listed_well_formed(
                    l,
                    its.map_values(|o: JsonValue| text_or(o, "message"@, "name"@, "?"@)),
                );
            }
            TabData::Records(l)
        },
    }
}

impl TabData {
    /// Number of rows the tab lists.
    pub fn list_len(&self) -> (r: usize)
        ensures
            r == tab_rows(*self).len(),
    {
        match self {
            TabData::Records(l) => l.rows.len(),
            TabData::MetricTypes(names) => names.len(),
        }
    }

    /// Label of the row at `i`.
    pub fn row_label(&self, i: usize) -> (r: &str)
        requires
            i < tab_rows(*self).len(),
        ensures
            r@ == tab_rows(*self)[i as int],
    {
        match self {
            TabData::Records(l) => l.rows[i].label.as_str(),
            TabData::MetricTypes(names) => names[i].as_str(),
        }
    }

    /// The metric type name at `i`, for the Metrics tab.
    pub fn get_metric_type(&self, i: usize) -> (r: Option<&str>)
        ensures
            r matches Some(s) ==> *self is MetricTypes && i < tab_rows(*self).len() && s@
                == tab_rows(*self)[i as int],
            r is None ==> !(*self is MetricTypes) || i >= tab_rows(*self).len(),
    {
        match self {
            TabData::MetricTypes(names) => if i < names.len() {
                Some(names[i].as_str())
            } else {
                None
            },
            _ => None,
        }
    }

    /// The label and record of the row at `i`, for a tab that lists records.
    pub fn get_item(&self, i: usize) -> (r: Option<(&str, &JsonValue)>)
        requires
            well_formed_data(*self),
        ensures
            r matches Some((label, rec)) ==> *self matches TabData::Records(l) && i
                < l.rows@.len() && label@ == l.rows@[i as int].label@ && *rec
                == l.records@[l.rows@[i as int].record as int],
            r is None ==> !(*self is Records) || i >= tab_rows(*self).len(),
    {
        match self {
            TabData::Records(l) => if i < l.rows.len() {
                let row = &l.rows[i];
                Some((row.label.as_str(), &l.records[row.record]))
            } else {
                None
            },
            _ => None,
        }
    }
}

} // verus!
