//! Plain-text rendering of JSON documents for batch output: key-value lines
//! for objects, tables for arrays of objects, numbered entries otherwise.

use crate::json::{json_get, JsonValue};
use crate::output::{truncate, truncated};
use crate::text::{push_char, push_spaces, spaces};
use vstd::prelude::*;

verus! {

broadcast use vstd::std_specs::vec::group_vec_axioms;

/// Width of a table column.
pub const COLUMN_WIDTH: usize = 12;

/// Widest rule under a table header.
pub const RULE_WIDTH: usize = 80;

/// The JSON string literal of a text, quoted and escaped as serde_json
/// writes it.
pub uninterp spec fn json_string_literal(s: Seq<char>) -> Seq<char>;

/// Relies on `serde_json::to_string` on a `str`: the quoted and escaped
/// literal, which depends on the text alone (serialising a `str` does not fail).
#[verifier::external_body]
fn json_literal(s: &str) -> (r: String)
    ensures
        r@ == json_string_literal(s@),
{
    match serde_json::to_string(s) {
        Ok(t) => t,
        Err(_) => String::new(),
    }
}

/// The JSON text of a value that holds no other value.
pub open spec fn scalar_text(v: JsonValue) -> Seq<char> {
    match v {
        JsonValue::Null => "null"@,
        JsonValue::Bool(b) => if b {
            "true"@
        } else {
            "false"@
        },
        JsonValue::Number(n) => n.text@,
        JsonValue::Str(s) => json_string_literal(s@),
        _ => Seq::empty(),
    }
}

/// The short text of a value in a cell or after a key; none for arrays and objects.
pub open spec fn short_text(v: JsonValue) -> Option<Seq<char>> {
    match v {
        JsonValue::Null => Some("null"@),
        JsonValue::Bool(b) => Some(
            if b {
                "true"@
            } else {
                "false"@
            },
        ),
        JsonValue::Number(n) => Some(n.text@),
        JsonValue::Str(s) => Some(s@),
        _ => None,
    }
}

/// A container: an array or an object.
pub open spec fn is_container(v: JsonValue) -> bool {
    v is Array || v is Object
}

/// The text right-aligned in `w` columns.
pub open spec fn right_aligned(s: Seq<char>, w: nat) -> Seq<char> {
    if s.len() >= w {
        s
    } else {
        spaces((w - s.len()) as nat) + s
    }
}

/// Number of entries of a container.
pub open spec fn entry_count(v: JsonValue) -> nat {
    match v {
        JsonValue::Array(items) => items@.len(),
        JsonValue::Object(fields) => fields@.len(),
        _ => 0,
    }
}

/// The key columns of a table: the keys of the first object.
pub open spec fn table_keys(items: Seq<JsonValue>) -> Seq<Seq<char>> {
    match items[0] {
        JsonValue::Object(fields) => fields@.map_values(|f: (String, JsonValue)| f.0@),
        _ => Seq::empty(),
    }
}

/// An array is shown as a table: it has more than one item, the first is
/// an object, and that object has keys.
pub open spec fn is_table(items: Seq<JsonValue>) -> bool {
    items.len() > 1 && items[0] is Object && table_keys(items).len() > 0
}

/// Cells joined by single spaces, the first `n` of them.
pub open spec fn joined_cells(cells: Seq<Seq<char>>, n: int) -> Seq<char>
    decreases n,
{
    if n <= 0 {
        Seq::empty()
    } else if n == 1 {
        cells[0]
    } else {
        joined_cells(cells, n - 1) + " "@ + cells[n - 1]
    }
}

/// The header of a table.
pub open spec fn header_text(keys: Seq<Seq<char>>) -> Seq<char> {
    joined_cells(
        keys.map_values(|k: Seq<char>| right_aligned(k, COLUMN_WIDTH as nat)),
        keys.len() as int,
    )
}

/// The cell of one key in one row.
pub open spec fn cell_text(row: JsonValue, key: Seq<char>) -> Seq<char> {
    let v = match json_get(row, key) {
        Some(x) => match short_text(x) {
            Some(t) => t,
            None => "-"@,
        },
        None => "-"@,
    };
    right_aligned(truncated(v, COLUMN_WIDTH as nat), COLUMN_WIDTH as nat)
}

/// The line of one row of a table.
pub open spec fn row_text(row: JsonValue, keys: Seq<Seq<char>>) -> Seq<char> {
    joined_cells(keys.map_values(|k: Seq<char>| cell_text(row, k)), keys.len() as int)
}

/// `n` dashes.
pub open spec fn dashes(n: nat) -> Seq<char> {
    Seq::new(n, |i: int| '-')
}

/// The rows of a table, first `n` items; items that are no object are skipped.
pub open spec fn table_rows(items: Seq<JsonValue>, keys: Seq<Seq<char>>, pad: Seq<char>, n: int) -> Seq<
    char,
>
    decreases n,
{
    if n <= 0 {
        Seq::empty()
    } else {
        table_rows(items, keys, pad, n - 1) + if items[n - 1] is Object {
            pad + row_text(items[n - 1], keys) + "\n"@
        } else {
            Seq::empty()
        }
    }
}

/// A table: header, rule and one line per object.
pub open spec fn table_text(items: Seq<JsonValue>, pad: Seq<char>) -> Seq<char> {
    let keys = table_keys(items);
    let header = header_text(keys);
    let rule = if crate::text::byte_len(header) < RULE_WIDTH {
        crate::text::byte_len(header)
    } else {
        RULE_WIDTH as nat
    };
    pad + header + "\n"@ + pad + dashes(rule) + "\n"@ + table_rows(items, keys, pad, items.len() as int)
}

/// The plain text of a value, each line starting with `pad`.
pub open spec fn plain_text(v: JsonValue, pad: Seq<char>) -> Seq<char>
    decreases v, entry_count(v) + 1,
{
    match v {
        JsonValue::Array(items) => if items@.len() == 0 {
            pad + "<empty>\n"@
        } else if is_table(items@) {
            table_text(items@, pad)
        } else {
            entry_lines(v, pad, items@.len() as int)
        },
        JsonValue::Object(fields) => entry_lines(v, pad, fields@.len() as int),
        _ => pad + match short_text(v) {
            Some(t) => t,
            None => Seq::empty(),
        } + "\n"@,
    }
}

/// The lines of the first `n` entries of a container: for an array each
/// item (containers under their position counted from one), for an object
/// each member (containers under `key:`).
pub open spec fn entry_lines(v: JsonValue, pad: Seq<char>, n: int) -> Seq<char>
    decreases v, n,
{
    if n <= 0 || n > entry_count(v) {
        Seq::empty()
    } else {
        let prev = entry_lines(v, pad, n - 1);
        match v {
            JsonValue::Array(items) => {
                let item = items@[n - 1];
                prev + if is_container(item) {
                    pad + "["@ + crate::text::decimal(n as nat) + "]\n"@ + plain_text(
                        item,
                        pad + "  "@,
                    )
                } else {
                    pad + scalar_text(item) + "\n"@
                }
            },
            JsonValue::Object(fields) => {
                let (k, val) = fields@[n - 1];
                prev + if is_container(val) {
                    pad + k@ + ":\n"@ + plain_text(val, pad + "  "@)
                } else {
                    pad + k@ + ": "@ + match short_text(val) {
                        Some(t) => t,
                        None => "null"@,
                    } + "\n"@
                }
            },
            _ => Seq::empty(),
        }
    }
}

/// Appends a value that holds no other value as JSON text.
fn push_scalar(out: &mut String, v: &JsonValue)
    ensures
        final(out)@ == old(out)@ + scalar_text(*v),
{
    match v {
        JsonValue::Null => out.append("null"),
        JsonValue::Bool(b) => if *b {
            out.append("true")
        } else {
            out.append("false")
        },
        JsonValue::Number(n) => out.append(n.text.as_str()),
        JsonValue::Str(s) => {
            let t = json_literal(s.as_str());
            out.append(t.as_str());
        },
        _ => {},
    }
}

/// Appends the text right-aligned in `w` columns.
fn push_right_aligned(out: &mut String, s: &str, w: usize)
    ensures
        final(out)@ == old(out)@ + right_aligned(s@, w as nat),
{
    let n = s.unicode_len();
    let ghost start = out@;
    if n < w {
        push_spaces(out, w - n);
    }
    out.append(s);
    assert(out@ =~= start + right_aligned(s@, w as nat));
}

/// The short text of an optional member, or `-`.
fn cell_value(v: Option<&JsonValue>) -> (r: String)
    ensures
        r@ == match v {
            Some(x) => match short_text(*x) {
                Some(t) => t,
                None => "-"@,
            },
            None => "-"@,
        },
{
    match v {
        Some(JsonValue::Null) => String::from_str("null"),
        Some(JsonValue::Bool(b)) => if *b {
            String::from_str("true")
        } else {
            String::from_str("false")
        },
        Some(JsonValue::Number(n)) => n.text.clone(),
        Some(JsonValue::Str(s)) => s.clone(),
        _ => String::from_str("-"),
    }
}

/// Appends a table's header, rule and rows.
fn push_table(out: &mut String, items: &Vec<JsonValue>, pad: &str)
    requires
        is_table(items@),
    ensures
        final(out)@ == old(out)@ + table_text(items@, pad@),
{
    let ghost start = out@;
    let ghost keys = table_keys(items@);
    let fields = match &items[0] {
        JsonValue::Object(f) => f,
        _ => {
            return;
        },
    };
    assert(keys == fields@.map_values(|f: (String, JsonValue)| f.0@));
    let mut header = String::new();
    let mut j: usize = 0;
    while j < fields.len()
        invariant
            j <= fields@.len(),
            keys == fields@.map_values(|f: (String, JsonValue)| f.0@),
            header@ == joined_cells(
                keys.map_values(|k: Seq<char>| right_aligned(k, COLUMN_WIDTH as nat)),
                j as int,
            ),
        decreases fields@.len() - j,
    {
        if j > 0 {
            header.append(" ");
        }
        push_right_aligned(&mut header, fields[j].0.as_str(), COLUMN_WIDTH);
        j = j + 1;
    }
    out.append(pad);
    out.append(header.as_str());
    out.append("\n");
    out.append(pad);
    let rule = crate::text::byte_len_capped(header.as_str(), RULE_WIDTH);
    let mut d: usize = 0;
    let ghost before_rule = out@;
    while d < rule
        invariant
            d <= rule,
            out@ == before_rule + dashes(d as nat),
        decreases rule - d,
    {
        push_char(out, '-');
        d = d + 1;
        assert(out@ =~= before_rule + dashes(d as nat));
    }
    out.append("\n");
    let ghost before_rows = out@;
    assert(before_rows =~= start + pad@ + header_text(keys) + "\n"@ + pad@ + dashes(rule as nat)
        + "\n"@);
    let mut i: usize = 0;
    while i < items.len()
        invariant
            i <= items@.len(),
            keys == fields@.map_values(|f: (String, JsonValue)| f.0@),
            out@ == before_rows + table_rows(items@, keys, pad@, i as int),
        decreases items@.len() - i,
    {
        match &items[i] {
            JsonValue::Object(_) => {
                let row = &items[i];
                let ghost rs = out@;
                out.append(pad);
                let mut line = String::new();
                let mut j: usize = 0;
                while j < fields.len()
                    invariant
                        j <= fields@.len(),
                        keys == fields@.map_values(|f: (String, JsonValue)| f.0@),
                        line@ == joined_cells(
                            keys.map_values(|k: Seq<char>| cell_text(*row, k)),
                            j as int,
                        ),
                    decreases fields@.len() - j,
                {
                    if j > 0 {
                        line.append(" ");
                    }
                    let v = cell_value(row.get(fields[j].0.as_str()));
                    let cut = truncate(v.as_str(), COLUMN_WIDTH);
                    push_right_aligned(&mut line, cut.as_str(), COLUMN_WIDTH);
                    j = j + 1;
                }
                out.append(line.as_str());
                out.append("\n");
                proof {
                    assert(out@ =~= rs + (pad@ + row_text(*row, keys) + "\n"@));
                }
            },
            _ => {},
        }
        i = i + 1;
    }
}

/// Appends the plain text of a value, each line starting with `pad`.
#[verifier::rlimit(40)]
fn push_plain(out: &mut String, v: &JsonValue, pad: &str)
    ensures
        final(out)@ == old(out)@ + plain_text(*v, pad@),
    decreases v,
{
    let ghost start = out@;
    match v {
        JsonValue::Array(items) => {
            if items.len() == 0 {
                out.append(pad);
                out.append("<empty>\n");
                return;
            }
            let table = match &items[0] {
                JsonValue::Object(f) => items.len() > 1 && f.len() > 0,
                _ => false,
            };
            if table {
                proof {
                    assert(table_keys(items@).len() > 0);
                }
                push_table(out, items, pad);
                return;
            }
            let mut inner = pad.to_owned();
            inner.append("  ");
            let mut i: usize = 0;
            while i < items.len()
                invariant
                    *v == JsonValue::Array(*items),
                    !is_table(items@),
                    i <= items@.len(),
                    inner@ == pad@ + "  "@,
                    out@ == start + entry_lines(*v, pad@, i as int),
                decreases items@.len() - i,
            {
                let item = &items[i];
                let ghost before = out@;
                match item {
                    JsonValue::Array(_) | JsonValue::Object(_) => {
                        out.append(pad);
                        out.append("[");
                        let num = crate::text::decimal_string(i as u64 + 1);
                        out.append(num.as_str());
                        out.append("]\n");
                        push_plain(out, item, inner.as_str());
                    },
                    _ => {
                        out.append(pad);
                        push_scalar(out, item);
                        out.append("\n");
                    },
                }
                i = i + 1;
                proof {
                    assert(out@ =~= start + entry_lines(*v, pad@, i as int));
                }
            }
        },
        JsonValue::Object(fields) => {
            let mut inner = pad.to_owned();
            inner.append("  ");
            let mut i: usize = 0;
            while i < fields.len()
                invariant
                    *v == JsonValue::Object(*fields),
                    i <= fields@.len(),
                    inner@ == pad@ + "  "@,
                    out@ == start + entry_lines(*v, pad@, i as int),
                decreases fields@.len() - i,
            {
                let k = &fields[i].0;
                let val = &fields[i].1;
                match val {
                    JsonValue::Array(_) | JsonValue::Object(_) => {
                        out.append(pad);
                        out.append(k.as_str());
                        out.append(":\n");
                        push_plain(out, val, inner.as_str());
                    },
                    _ => {
                        out.append(pad);
                        out.append(k.as_str());
                        out.append(": ");
                        let t = cell_value(Some(val));
                        out.append(t.as_str());
                        out.append("\n");
                    },
                }
                i = i + 1;
                proof {
                    assert(out@ =~= start + entry_lines(*v, pad@, i as int));
                }
            }
        },
        _ => {
            out.append(pad);
            let t = cell_value(Some(v));
            out.append(t.as_str());
            out.append("\n");
        },
    }
}

/// Formats a document as plain text: key-value lines for objects, tables
/// for arrays of objects, numbered entries for other arrays.
pub fn format_plain(v: &JsonValue) -> (r: String)
    ensures
        r@ == plain_text(*v, Seq::empty()),
{
    let mut out = String::new();
    push_plain(&mut out, v, "");
    proof {
        reveal_strlit("");
        assert(""@ =~= Seq::<char>::empty());
    }
    out
}

} // verus!
