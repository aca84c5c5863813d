//! Text primitives over `str` whose behaviour the rest of the library relies on.

use std::cmp::Ordering;
use vstd::prelude::*;

verus! {

/// The lower-case form of a text, as `str::to_lowercase` computes it.
pub uninterp spec fn lower_of(s: Seq<char>) -> Seq<char>;

/// A text without its leading and trailing white space, as `str::trim` computes it.
pub uninterp spec fn trim_of(s: Seq<char>) -> Seq<char>;

/// `needle` occurs in `hay` as a contiguous run.
pub open spec fn seq_contains(hay: Seq<char>, needle: Seq<char>) -> bool {
    exists|i: int|
        0 <= i && i + needle.len() <= hay.len() && #[trigger] hay.subrange(i, i + needle.len())
            == needle
}

/// The character of a decimal digit.
pub open spec fn digit_char(d: nat) -> char {
    if d == 0 {
        '0'
    } else if d == 1 {
        '1'
    } else if d == 2 {
        '2'
    } else if d == 3 {
        '3'
    } else if d == 4 {
        '4'
    } else if d == 5 {
        '5'
    } else if d == 6 {
        '6'
    } else if d == 7 {
        '7'
    } else if d == 8 {
        '8'
    } else {
        '9'
    }
}

/// Decimal notation of a natural number, without leading zeros.
pub open spec fn decimal(n: nat) -> Seq<char>
    decreases n,
{
    if n < 10 {
        seq![digit_char(n)]
    } else {
        decimal(n / 10).push(digit_char(n % 10))
    }
}

/// `a` comes strictly before `b` in lexicographic order of code points.
pub open spec fn lex_lt(a: Seq<char>, b: Seq<char>) -> bool
    decreases a.len(),
{
    if a.len() == 0 {
        b.len() > 0
    } else if b.len() == 0 {
        false
    } else if a[0] != b[0] {
        (a[0] as int) < (b[0] as int)
    } else {
        lex_lt(a.drop_first(), b.drop_first())
    }
}

/// Lexicographic order is asymmetric.
pub proof fn lemma_lex_lt_asym(a: Seq<char>, b: Seq<char>)
    ensures
        lex_lt(a, b) ==> !lex_lt(b, a),
    decreases a.len(),
{
    if a.len() > 0 && b.len() > 0 && a[0] == b[0] {
        lemma_lex_lt_asym(a.drop_first(), b.drop_first());
    }
}

/// Lexicographic order is total on distinct texts.
pub proof fn lemma_lex_lt_total(a: Seq<char>, b: Seq<char>)
    ensures
        a != b ==> lex_lt(a, b) || lex_lt(b, a),
    decreases a.len(),
{
    if a.len() > 0 && b.len() > 0 {
        if a[0] == b[0] {
            lemma_lex_lt_total(a.drop_first(), b.drop_first());
            if a.drop_first() == b.drop_first() {
                assert(a =~= seq![a[0]] + a.drop_first());
                assert(b =~= seq![b[0]] + b.drop_first());
            }
        } else {
            assert((a[0] as int) != (b[0] as int));
        }
    } else if a.len() == 0 && b.len() == 0 {
        assert(a =~= b);
    }
}

/// Relies on `str::to_lowercase`: the result depends on the text alone, and
/// an empty text stays empty.
#[verifier::external_body]
pub fn lowercase(s: &str) -> (r: String)
    ensures
        r@ == lower_of(s@),
        s@.len() == 0 ==> r@.len() == 0,
{
    s.to_lowercase()
}

/// Relies on `str::trim`: the result depends on the text alone, and an empty
/// text stays empty.
#[verifier::external_body]
pub fn trim(s: &str) -> (r: &str)
    ensures
        r@ == trim_of(s@),
        s@.len() == 0 ==> r@.len() == 0,
{
    s.trim()
}

/// Relies on `str::contains` with a `&str` pattern: true exactly when the
/// pattern matches a sub-slice of the text.
#[verifier::external_body]
pub fn contains(hay: &str, needle: &str) -> (r: bool)
    ensures
        r == seq_contains(hay@, needle@),
{
    hay.contains(needle)
}

/// Relies on `str` equality: two slices are equal when they hold the same characters.
#[verifier::external_body]
pub fn str_eq(a: &str, b: &str) -> (r: bool)
    ensures
        r == (a@ == b@),
{
    a == b
}

/// Relies on `ToString` for `u64`: its `Display` writes the decimal notation.
#[verifier::external_body]
pub fn decimal_string(n: u64) -> (r: String)
    ensures
        r@ == decimal(n as nat),
{
    n.to_string()
}

/// Relies on `Ord` for `str`: texts compare lexicographically (byte order of
/// UTF-8 is the order of code points).
#[verifier::external_body]
pub fn compare(a: &str, b: &str) -> (r: Ordering)
    ensures
        (r == Ordering::Less) == lex_lt(a@, b@),
        (r == Ordering::Greater) == lex_lt(b@, a@),
        (r == Ordering::Equal) == (a@ == b@),
{
    a.cmp(b)
}

/// The text with the characters `from..to` copied into a new string.
pub fn copy_range(s: &str, from: usize, to: usize) -> (r: String)
    requires
        from <= to <= s@.len(),
    ensures
        r@ == s@.subrange(from as int, to as int),
{
    s.substring_char(from, to).to_owned()
}

/// Every character of the text is an ASCII digit.
pub open spec fn all_digits(s: Seq<char>) -> bool {
    forall|i: int| 0 <= i < s.len() ==> '0' <= #[trigger] s[i] <= '9'
}

/// The number that a run of decimal digits denotes.
pub open spec fn digits_value(s: Seq<char>) -> nat
    decreases s.len(),
{
    if s.len() == 0 {
        0
    } else {
        digits_value(s.drop_last()) * 10 + ((s.last() as int - '0' as int) as nat)
    }
}

/// What `u64::from_str` accepts: an optional `+`, then one or more decimal
/// digits whose value fits in 64 bits.
pub open spec fn parse_u64_spec(s: Seq<char>) -> Option<u64> {
    let d = if s.len() > 0 && s[0] == '+' {
        s.drop_first()
    } else {
        s
    };
    if d.len() > 0 && all_digits(d) && digits_value(d) <= u64::MAX {
        Some(digits_value(d) as u64)
    } else {
        None
    }
}

/// Relies on `str::parse::<u64>`: an optional `+` and decimal digits, with
/// no other character, whose value fits in a `u64`.
#[verifier::external_body]
pub fn parse_u64(s: &str) -> (r: Option<u64>)
    ensures
        r == parse_u64_spec(s@),
{
    s.parse::<u64>().ok()
}

/// Relies on `String::push`: appends one character.
#[verifier::external_body]
pub fn push_char(s: &mut String, c: char)
    ensures
        final(s)@ == old(s)@.push(c),
{
    s.push(c)
}

/// Relies on `String::pop`: removes and returns the last character, if any.
#[verifier::external_body]
pub fn pop_char(s: &mut String) -> (r: Option<char>)
    ensures
        old(s)@.len() == 0 ==> r is None && final(s)@ == old(s)@,
        old(s)@.len() > 0 ==> r == Some(old(s)@.last()) && final(s)@ == old(s)@.drop_last(),
{
    s.pop()
}

/// `n` spaces.
pub open spec fn spaces(n: nat) -> Seq<char> {
    Seq::new(n, |i: int| ' ')
}

/// The text, padded with spaces on the right to at least `width` characters.
pub open spec fn pad_to(s: Seq<char>, width: nat) -> Seq<char> {
    if s.len() >= width {
        s
    } else {
        s + spaces((width - s.len()) as nat)
    }
}

/// The text with every line feed turned into a space.
pub open spec fn flatten_lines(s: Seq<char>) -> Seq<char> {
    s.map_values(|c: char| if c == '\n' { ' ' } else { c })
}

/// The first `n` characters of the text (all of it when shorter).
pub open spec fn take_chars(s: Seq<char>, n: nat) -> Seq<char> {
    if s.len() <= n {
        s
    } else {
        s.subrange(0, n as int)
    }
}

/// The last `n` characters of the text (all of it when shorter).
pub open spec fn last_chars(s: Seq<char>, n: nat) -> Seq<char> {
    if s.len() <= n {
        s
    } else {
        s.subrange(s.len() - n, s.len() as int)
    }
}

/// Appends `n` spaces.
pub fn push_spaces(s: &mut String, n: usize)
    ensures
        final(s)@ == old(s)@ + spaces(n as nat),
{
    let ghost start = s@;
    let mut i: usize = 0;
    while i < n
        invariant
            i <= n,
            s@ == start + spaces(i as nat),
        decreases n - i,
    {
        push_char(s, ' ');
        i = i + 1;
        assert(s@ =~= start + spaces(i as nat));
    }
}

/// Appends the text padded with spaces on the right to `width` characters.
pub fn push_padded(out: &mut String, s: &str, width: usize)
    ensures
        final(out)@ == old(out)@ + pad_to(s@, width as nat),
{
    let n = s.unicode_len();
    out.append(s);
    if n < width {
        push_spaces(out, width - n);
    }
}

/// Appends the text with its line feeds turned into spaces.
pub fn push_flattened(out: &mut String, s: &str)
    ensures
        final(out)@ == old(out)@ + flatten_lines(s@),
{
    let ghost start = out@;
    let n = s.unicode_len();
    let mut i: usize = 0;
    while i < n
        invariant
            i <= n,
            n == s@.len(),
            out@ == start + flatten_lines(s@).subrange(0, i as int),
        decreases n - i,
    {
        let c = s.get_char(i);
        if c == '\n' {
            push_char(out, ' ');
        } else {
            push_char(out, c);
        }
        i = i + 1;
        assert(out@ =~= start + flatten_lines(s@).subrange(0, i as int));
    }
    assert(flatten_lines(s@).subrange(0, n as int) =~= flatten_lines(s@));
}

/// Appends the first `n` characters of the text.
pub fn push_prefix(out: &mut String, s: &str, n: usize)
    ensures
        final(out)@ == old(out)@ + take_chars(s@, n as nat),
{
    let len = s.unicode_len();
    if len <= n {
        out.append(s);
    } else {
        out.append(s.substring_char(0, n));
    }
}

/// Number of bytes of a character in UTF-8.
pub open spec fn utf8_len(c: char) -> nat {
    if (c as int) < 0x80 {
        1
    } else if (c as int) < 0x800 {
        2
    } else if (c as int) < 0x10000 {
        3
    } else {
        4
    }
}

/// Number of bytes of a text in UTF-8.
pub open spec fn byte_len(s: Seq<char>) -> nat
    decreases s.len(),
{
    if s.len() == 0 {
        0
    } else {
        byte_len(s.drop_last()) + utf8_len(s.last())
    }
}

/// Number of leading characters, from the `i`-th on, that fit in `n` bytes
/// of UTF-8 when `used` bytes are already taken (counted from the start).
pub open spec fn fit_from(s: Seq<char>, n: int, i: int, used: int) -> int
    decreases s.len() - i,
{
    if i < 0 || i >= s.len() || used + utf8_len(s[i]) > n {
        i
    } else {
        fit_from(s, n, i + 1, used + utf8_len(s[i]))
    }
}

/// The longest beginning of a text that fits in `n` bytes of UTF-8; it
/// ends on a character boundary.
pub open spec fn prefix_within(s: Seq<char>, n: int) -> Seq<char> {
    s.subrange(0, fit_from(s, n, 0, 0))
}

proof fn lemma_fit_bounds(s: Seq<char>, n: int, i: int, used: int)
    requires
        0 <= i <= s.len(),
    ensures
        i <= fit_from(s, n, i, used) <= s.len(),
    decreases s.len() - i,
{
    if i < s.len() && used + utf8_len(s[i]) <= n {
        lemma_fit_bounds(s, n, i + 1, used + utf8_len(s[i]));
    }
}

/// UTF-8 length of a character.
pub fn utf8_width(c: char) -> (r: usize)
    ensures
        r == utf8_len(c),
{
    let v = c as u32;
    if v < 0x80 {
        1
    } else if v < 0x800 {
        2
    } else if v < 0x10000 {
        3
    } else {
        4
    }
}

/// How many leading characters of a text fit in `n` bytes of UTF-8.
pub fn fitting_chars(s: &str, n: usize) -> (r: usize)
    ensures
        r == fit_from(s@, n as int, 0, 0),
        r <= s@.len(),
{
    proof {
        lemma_fit_bounds(s@, n as int, 0, 0);
    }
    let len = s.unicode_len();
    let mut i: usize = 0;
    let mut used: usize = 0;
    while i < len
        invariant
            len == s@.len(),
            i <= len,
            used <= n,
            fit_from(s@, n as int, 0, 0) == fit_from(s@, n as int, i as int, used as int),
        decreases len - i,
    {
        let w = utf8_width(s.get_char(i));
        if w > n - used {
            return i;
        }
        used = used + w;
        i = i + 1;
    }
    i
}

/// Bytes of a text in UTF-8, at most `cap`.
pub fn byte_len_capped(s: &str, cap: usize) -> (r: usize)
    ensures
        r == if byte_len(s@) < cap {
            byte_len(s@)
        } else {
            cap as nat
        },
{
    let len = s.unicode_len();
    let mut i: usize = 0;
    let mut total: u128 = 0;
    while i < len
        invariant
            len == s@.len(),
            i <= len,
            total == byte_len(s@.subrange(0, i as int)),
            total <= 4 * i,
        decreases len - i,
    {
        let w = utf8_width(s.get_char(i));
        proof {
            assert(s@.subrange(0, i + 1).drop_last() =~= s@.subrange(0, i as int));
        }
        total = total + w as u128;
        i = i + 1;
    }
    proof {
        assert(s@.subrange(0, len as int) =~= s@);
    }
    if total < cap as u128 {
        total as usize
    } else {
        cap
    }
}

} // verus!
