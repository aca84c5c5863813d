//! Output formats of the batch commands and short cell texts.

use crate::text::{fit_from, flatten_lines, fitting_chars, lower_of, lowercase, prefix_within, push_flattened, str_eq};
use vstd::prelude::*;

verus! {

/// How batch results are printed.
#[derive(Debug, Clone, Copy, PartialEq, Eq, Structural)]
pub enum OutputFormat {
    /// Human-readable tables and key-value lines.
    Plain,
    /// Pretty-printed JSON.
    Json,
}

impl Default for OutputFormat {
    fn default() -> (r: OutputFormat)
        ensures
            r == OutputFormat::Plain,
    {
        OutputFormat::Plain
    }
}

/// The format a name selects, ignoring case: `plain`, `text` or `p` for
/// plain text, `json` or `j` for JSON.
pub open spec fn format_named(s: Seq<char>) -> Option<OutputFormat> {
    let k = lower_of(s);
    if k == "plain"@ || k == "text"@ || k == "p"@ {
        Some(OutputFormat::Plain)
    } else if k == "json"@ || k == "j"@ {
        Some(OutputFormat::Json)
    } else {
        None
    }
}

/// Reads an output format name.
pub fn parse_output_format(s: &str) -> (r: Result<OutputFormat, String>)
    ensures
        format_named(s@) matches Some(f) ==> r == Ok::<OutputFormat, String>(f),
        format_named(s@) is None ==> (r is Err && r->Err_0@ == "unknown output format: "@ + s@),
{
    let k = lowercase(s);
    let k = k.as_str();
    if str_eq(k, "plain") || str_eq(k, "text") || str_eq(k, "p") {
        Ok(OutputFormat::Plain)
    } else if str_eq(k, "json") || str_eq(k, "j") {
        Ok(OutputFormat::Json)
    } else {
        let mut e = String::from_str("unknown output format: ");
        e.append(s);
        Err(e)
    }
}

impl std::str::FromStr for OutputFormat {
    type Err = String;

    fn from_str(s: &str) -> Result<OutputFormat, String> {
        parse_output_format(s)
    }
}

/// A cell text: line feeds turned into spaces; when longer than `max` bytes
/// of UTF-8, cut to the characters that fit in `max - 1` bytes and ended
/// with an ellipsis.
pub open spec fn truncated(s: Seq<char>, max: nat) -> Seq<char> {
    let t = flatten_lines(s);
    if fit_from(t, max as int, 0, 0) == t.len() {
        t
    } else {
        prefix_within(t, if max > 0 {
            max - 1
        } else {
            0
        }) + "\u{2026}"@
    }
}

/// Shortens a text to at most `max` bytes for a table cell.
pub fn truncate(s: &str, max: usize) -> (r: String)
    ensures
        r@ == truncated(s@, max as nat),
{
    let mut t = String::new();
    push_flattened(&mut t, s);
    let n = t.as_str().unicode_len();
    if fitting_chars(t.as_str(), max) == n {
        return t;
    }
    let keep = if max > 0 {
        max - 1
    } else {
        0
    };
    let k = fitting_chars(t.as_str(), keep);
    let mut out = crate::text::copy_range(t.as_str(), 0, k);
    out.append("\u{2026}");
    out
}

} // verus!
