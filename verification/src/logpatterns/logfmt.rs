//! logfmt: `key=value` pairs separated by white space, values optionally
//! quoted with backslash escapes, and bare words without a value.
//! See <https://brandur.org/logfmt>.

use bytes::BytesMut;
use vstd::prelude::*;
use vstd::string::StringExecFns;
use vstd::utf8::encode_utf8;

use crate::text::{buffer_bytes, buffer_extend, buffer_len, chars_of, is_white_space, is_whitespace_char,
    parse_unsigned, spec_decimal, spec_parse_unsigned, string_of, decimal_chars, push_str, char_views};
use crate::defaults::chars_equal;
use super::columns::string_views;
use super::formatting::{cells_block_into, dimmed, empty_module_column_into, format_message_into,
    get_level_bytes, green, level_bytes, paint_blue, paint_bright_magenta, paint_cyan, paint_dimmed,
    spec_cells_block, spec_empty_module_column, spec_format_message, spec_timestamp_column,
    timestamp_column_into, LayoutMetrics, Timestamp, COL_SEP};

verus! {

/// The first position from `i` on that holds no white space.
pub open spec fn ws_end(s: Seq<char>, i: int) -> int
    decreases s.len() - i,
{
    if i < 0 || i >= s.len() || !is_white_space(s[i]) {
        i
    } else {
        ws_end(s, i + 1)
    }
}

/// The first position from `i` on that holds `=` or white space.
pub open spec fn key_end(s: Seq<char>, i: int) -> int
    decreases s.len() - i,
{
    if i < 0 || i >= s.len() || s[i] == '=' || is_white_space(s[i]) {
        i
    } else {
        key_end(s, i + 1)
    }
}

/// The first position from `i` on that holds white space.
pub open spec fn bare_end(s: Seq<char>, i: int) -> int
    decreases s.len() - i,
{
    if i < 0 || i >= s.len() || is_white_space(s[i]) {
        i
    } else {
        bare_end(s, i + 1)
    }
}

/// A quoted value from position `i` on, just after its opening quote: the
/// characters up to the closing quote, a backslash taking the next
/// character literally; and the position after the closing quote (the
/// end, when there is none).
pub open spec fn quoted_value(s: Seq<char>, i: int, escaped: bool) -> (Seq<char>, int)
    decreases s.len() - i,
{
    if i < 0 || i >= s.len() {
        (Seq::empty(), i)
    } else if escaped {
        let (v, e) = quoted_value(s, i + 1, false);
        (seq![s[i]] + v, e)
    } else if s[i] == '\\' {
        quoted_value(s, i + 1, true)
    } else if s[i] == '"' {
        (Seq::empty(), i + 1)
    } else {
        let (v, e) = quoted_value(s, i + 1, false);
        (seq![s[i]] + v, e)
    }
}

pub proof fn lemma_ws_end(s: Seq<char>, i: int)
    requires
        0 <= i <= s.len(),
    ensures
        i <= ws_end(s, i) <= s.len(),
        ws_end(s, i) < s.len() ==> !is_white_space(s[ws_end(s, i)]),
        forall|k: int| i <= k < ws_end(s, i) ==> is_white_space(#[trigger] s[k]),
    decreases s.len() - i,
{
    if i < s.len() && is_white_space(s[i]) {
        lemma_ws_end(s, i + 1);
    }
}

pub proof fn lemma_key_end(s: Seq<char>, i: int)
    requires
        0 <= i <= s.len(),
    ensures
        i <= key_end(s, i) <= s.len(),
        key_end(s, i) < s.len() ==> (s[key_end(s, i)] == '=' || is_white_space(s[key_end(s, i)])),
        forall|k: int| i <= k < key_end(s, i) ==> s[k] != '=' && !is_white_space(#[trigger] s[k]),
    decreases s.len() - i,
{
    if i < s.len() && s[i] != '=' && !is_white_space(s[i]) {
        lemma_key_end(s, i + 1);
    }
}

pub proof fn lemma_bare_end(s: Seq<char>, i: int)
    requires
        0 <= i <= s.len(),
    ensures
        i <= bare_end(s, i) <= s.len(),
        bare_end(s, i) < s.len() ==> is_white_space(s[bare_end(s, i)]),
        forall|k: int| i <= k < bare_end(s, i) ==> !is_white_space(#[trigger] s[k]),
    decreases s.len() - i,
{
    if i < s.len() && !is_white_space(s[i]) {
        lemma_bare_end(s, i + 1);
    }
}

pub proof fn lemma_quoted_end(s: Seq<char>, i: int, escaped: bool)
    requires
        0 <= i <= s.len(),
    ensures
        i <= quoted_value(s, i, escaped).1 <= s.len(),
    decreases s.len() - i,
{
    if i < s.len() {
        if escaped || s[i] != '"' {
            lemma_quoted_end(s, i + 1, !escaped && s[i] == '\\');
        }
    }
}

/// The tokens of a logfmt text from position `i` on: a key with its value,
/// or a bare word (no value).
pub open spec fn spec_tokens(s: Seq<char>, i: int) -> Seq<(Seq<char>, Option<Seq<char>>)>
    decreases s.len() - i,
{
    if i < 0 || i > s.len() {
        Seq::empty()
    } else {
        let a = ws_end(s, i);
        proof {
            lemma_ws_end(s, i);
        }
        if a >= s.len() {
            Seq::empty()
        } else {
            let b = key_end(s, a);
            proof {
                lemma_key_end(s, a);
            }
            let key = s.subrange(a, b);
            if b < s.len() && s[b] == '=' {
                if b + 1 < s.len() && s[b + 1] == '"' {
                    let (v, e) = quoted_value(s, b + 2, false);
                    proof {
                        lemma_quoted_end(s, b + 2, false);
                    }
                    seq![(key, Some(v))] + spec_tokens(s, e)
                } else {
                    let e = bare_end(s, b + 1);
                    proof {
                        lemma_bare_end(s, b + 1);
                    }
                    seq![(key, Some(s.subrange(b + 1, e)))] + spec_tokens(s, e)
                }
            } else {
                (if key.len() > 0 { seq![(key, None::<Seq<char>>)] } else { Seq::empty() }) + spec_tokens(s, b)
            }
        }
    }
}

} // verus!

verus! {

/// The tokens as character sequences.
pub open spec fn token_views(t: Seq<(Vec<char>, Option<Vec<char>>)>) -> Seq<(Seq<char>, Option<Seq<char>>)> {
    t.map_values(|x: (Vec<char>, Option<Vec<char>>)| (x.0@, match x.1 {
        Some(v) => Some(v@),
        None => None,
    }))
}

fn copy_range(s: &Vec<char>, from: usize, to: usize) -> (r: Vec<char>)
    requires
        from <= to <= s.len(),
    ensures
        r@ == s@.subrange(from as int, to as int),
{
    let mut r: Vec<char> = Vec::new();
    let mut k = from;
    while k < to
        invariant
            from <= k <= to <= s.len(),
            r@ == s@.subrange(from as int, k as int),
        decreases to - k,
    {
        r.push(s[k]);
        k = k + 1;
    }
    r
}

/// Reads a quoted value that starts at `start`, just after its opening
/// quote.
fn read_quoted(s: &Vec<char>, start: usize) -> (r: (Vec<char>, usize))
    requires
        start <= s.len(),
    ensures
        (r.0@, r.1 as int) == quoted_value(s@, start as int, false),
{
    let mut val: Vec<char> = Vec::new();
    let mut j = start;
    let mut escaped = false;
    let mut done = false;
    while j < s.len() && !done
        invariant
            start <= j <= s.len(),
            !done ==> quoted_value(s@, start as int, false) == (val@ + quoted_value(s@, j as int, escaped).0,
                quoted_value(s@, j as int, escaped).1),
            done ==> quoted_value(s@, start as int, false) == (val@, j as int),
        decreases s.len() - j, if done { 0int } else { 1int },
    {
        let c = s[j];
        let ghost v0 = val@;
        if escaped {
            val.push(c);
            escaped = false;
            assert(val@ + quoted_value(s@, j + 1, false).0 =~= v0 + (seq![c] + quoted_value(s@, j + 1, false).0));
        } else if c == '\\' {
            escaped = true;
        } else if c == '"' {
            done = true;
            assert(v0 + Seq::<char>::empty() =~= v0);
        } else {
            val.push(c);
            assert(val@ + quoted_value(s@, j + 1, false).0 =~= v0 + (seq![c] + quoted_value(s@, j + 1, false).0));
        }
        j = j + 1;
    }
    if !done {
        assert(val@ + Seq::<char>::empty() =~= val@);
    }
    (val, j)
}

/// Splits a logfmt text into its tokens, as `spec_tokens` describes them.
fn tokenize(s: &Vec<char>) -> (r: Vec<(Vec<char>, Option<Vec<char>>)>)
    ensures
        token_views(r@) == spec_tokens(s@, 0),
{
    let mut tokens: Vec<(Vec<char>, Option<Vec<char>>)> = Vec::new();
    let n = s.len();
    let mut pos: usize = 0;
    let mut done = false;
    while pos < n && !done
        invariant
            pos <= n == s.len(),
            !done ==> spec_tokens(s@, 0) == token_views(tokens@) + spec_tokens(s@, pos as int),
            done ==> spec_tokens(s@, 0) == token_views(tokens@),
        decreases n - pos, if done { 0int } else { 1int },
    {
        proof {
            lemma_ws_end(s@, pos as int);
        }
        let mut a = pos;
        while a < n && is_whitespace_char(s[a])
            invariant
                pos <= a <= n == s.len(),
                ws_end(s@, pos as int) == ws_end(s@, a as int),
            decreases n - a,
        {
            a = a + 1;
        }
        if a >= n {
            done = true;
            assert(token_views(tokens@) + Seq::empty() =~= token_views(tokens@));
        } else {
            proof {
                lemma_key_end(s@, a as int);
            }
            let mut b = a;
            while b < n && s[b] != '=' && !is_whitespace_char(s[b])
                invariant
                    a <= b <= n == s.len(),
                    key_end(s@, a as int) == key_end(s@, b as int),
                decreases n - b,
            {
                b = b + 1;
            }
            let key = copy_range(s, a, b);
            let ghost t0 = token_views(tokens@);
            if b < n && s[b] == '=' {
                if b + 1 < n && s[b + 1] == '"' {
                    let (v, e) = read_quoted(s, b + 2);
                    proof {
                        lemma_quoted_end(s@, b + 2, false);
                    }
                    tokens.push((key, Some(v)));
                    assert(token_views(tokens@) =~= t0.push((s@.subrange(a as int, b as int), Some(v@))));
                    pos = e;
                } else {
                    proof {
                        lemma_bare_end(s@, b + 1);
                    }
                    let mut e = b + 1;
                    while e < n && !is_whitespace_char(s[e])
                        invariant
                            b + 1 <= e <= n == s.len(),
                            bare_end(s@, b + 1) == bare_end(s@, e as int),
                        decreases n - e,
                    {
                        e = e + 1;
                    }
                    let v = copy_range(s, b + 1, e);
                    tokens.push((key, Some(v)));
                    assert(token_views(tokens@) =~= t0.push((s@.subrange(a as int, b as int), Some(v@))));
                    pos = e;
                }
            } else {
                if b > a {
                    tokens.push((key, None));
                    assert(token_views(tokens@) =~= t0.push((s@.subrange(a as int, b as int), None)));
                } else {
                    assert(token_views(tokens@) + Seq::empty() =~= token_views(tokens@));
                }
                pos = b;
            }
        }
    }
    if !done {
        assert(spec_tokens(s@, pos as int) =~= Seq::empty());
        assert(token_views(tokens@) + Seq::empty() =~= token_views(tokens@));
    }
    tokens
}

} // verus!

verus! {

/// The code of the ASCII lower case of a character.
pub open spec fn ascii_lower(c: char) -> int {
    if 'A' <= c && c <= 'Z' { (c as u32) + 32 } else { c as u32 as int }
}

/// Whether `s` spells `word` (lower case) ignoring ASCII case.
pub open spec fn ascii_eq_ignore_case(s: Seq<char>, word: Seq<char>) -> bool {
    s.len() == word.len() && forall|i: int| 0 <= i < s.len() ==> ascii_lower(#[trigger] s[i]) == word[i] as u32
}

/// The first position from `i` on that holds no ASCII digit.
pub open spec fn digits_end(s: Seq<char>, i: int) -> int
    decreases s.len() - i,
{
    if i < 0 || i >= s.len() || !('0' <= s[i] && s[i] <= '9') {
        i
    } else {
        digits_end(s, i + 1)
    }
}

/// Whether `s[i..]` is an exponent: `e` or `E`, an optional sign, one or
/// more digits, nothing after.
pub open spec fn is_exponent(s: Seq<char>, i: int) -> bool {
    &&& 0 <= i < s.len()
    &&& (s[i] == 'e' || s[i] == 'E')
    &&& {
        let j = if i + 1 < s.len() && (s[i + 1] == '+' || s[i + 1] == '-') { i + 2 } else { i + 1 };
        j < s.len() && digits_end(s, j) == s.len()
    }
}

/// Whether `s` is a decimal number: digits, optionally a point and more
/// digits, at least one digit in all, then optionally an exponent.
pub open spec fn is_decimal_number(s: Seq<char>) -> bool {
    let m = digits_end(s, 0);
    let m2 = if m < s.len() && s[m] == '.' { digits_end(s, m + 1) } else { m };
    let ndigits = if m < s.len() && s[m] == '.' { m + (m2 - (m + 1)) } else { m };
    ndigits > 0 && (m2 == s.len() || is_exponent(s, m2))
}

/// Whether `str::parse::<f64>` accepts `s`: an optional sign, then `inf`,
/// `infinity` or `nan` in any case, or a decimal number (the grammar that
/// the standard library documents).
pub open spec fn is_float_literal(s: Seq<char>) -> bool {
    let body = if s.len() > 0 && (s[0] == '+' || s[0] == '-') { s.skip(1) } else { s };
    ascii_eq_ignore_case(body, "inf"@) || ascii_eq_ignore_case(body, "infinity"@) || ascii_eq_ignore_case(
        body,
        "nan"@,
    ) || is_decimal_number(body)
}

proof fn lemma_digits_end(s: Seq<char>, i: int)
    requires
        0 <= i <= s.len(),
    ensures
        i <= digits_end(s, i) <= s.len(),
        digits_end(s, i) < s.len() ==> !('0' <= s[digits_end(s, i)] && s[digits_end(s, i)] <= '9'),
    decreases s.len() - i,
{
    if i < s.len() && '0' <= s[i] && s[i] <= '9' {
        lemma_digits_end(s, i + 1);
    }
}

fn scan_digits(s: &Vec<char>, i: usize) -> (r: usize)
    requires
        i <= s.len(),
    ensures
        r == digits_end(s@, i as int),
{
    let mut j = i;
    while j < s.len() && '0' <= s[j] && s[j] <= '9'
        invariant
            i <= j <= s.len(),
            digits_end(s@, i as int) == digits_end(s@, j as int),
        decreases s.len() - j,
    {
        j = j + 1;
    }
    j
}

fn eq_ignore_case(s: &Vec<char>, from: usize, word: &str) -> (r: bool)
    requires
        from <= s.len(),
    ensures
        r == ascii_eq_ignore_case(s@.skip(from as int), word@),
{
    let w = chars_of(word);
    if s.len() - from != w.len() {
        return false;
    }
    let mut i: usize = 0;
    while i < w.len()
        invariant
            i <= w.len(),
            s.len() - from == w.len(),
            w@ == word@,
            forall|k: int| 0 <= k < i ==> ascii_lower(#[trigger] s@.skip(from as int)[k]) == w@[k] as u32,
        decreases w.len() - i,
    {
        let c = s[from + i];
        let same = if 'A' <= c && c <= 'Z' { (c as u32) + 32 == (w[i] as u32) } else { c == w[i] };
        assert(s@.skip(from as int)[i as int] == c);
        if !same {
            proof {
                vstd::utf8::char_u32_cast(c, c as u32);
                vstd::utf8::char_u32_cast(w@[i as int], w@[i as int] as u32);
                assert(ascii_lower(s@.skip(from as int)[i as int]) != w@[i as int] as u32);
            }
            return false;
        }
        i = i + 1;
    }
    true
}

/// Whether `str::parse::<f64>` would accept the text.
fn is_float_text(text: &str) -> (r: bool)
    ensures
        r == is_float_literal(text@),
{
    let c = chars_of(text);
    let from: usize = if c.len() > 0 && (c[0] == '+' || c[0] == '-') { 1 } else { 0 };
    let ghost body = c@.skip(from as int);
    assert(body == if text@.len() > 0 && (text@[0] == '+' || text@[0] == '-') { text@.skip(1) } else { text@ }) by {
        if from == 0 {
            assert(c@.skip(0) =~= c@);
        }
    }
    if eq_ignore_case(&c, from, "inf") || eq_ignore_case(&c, from, "infinity") || eq_ignore_case(&c, from, "nan") {
        return true;
    }
    let body_v = copy_range(&c, from, c.len());
    assert(body_v@ =~= body);
    proof {
        lemma_digits_end(body, 0);
    }
    let m = scan_digits(&body_v, 0);
    let has_point = m < body_v.len() && body_v[m] == '.';
    let m2 = if has_point {
        proof {
            lemma_digits_end(body, m + 1);
        }
        scan_digits(&body_v, m + 1)
    } else {
        m
    };
    let ndigits = if has_point { m + (m2 - (m + 1)) } else { m };
    if ndigits == 0 {
        return false;
    }
    if m2 == body_v.len() {
        return true;
    }
    if !(body_v[m2] == 'e' || body_v[m2] == 'E') {
        return false;
    }
    let j = if m2 + 1 < body_v.len() && (body_v[m2 + 1] == '+' || body_v[m2 + 1] == '-') { m2 + 2 } else { m2 + 1 };
    if j >= body_v.len() {
        return false;
    }
    scan_digits(&body_v, j) == body_v.len()
}

/// What `jiff::Timestamp::strptime(format, input)` gives, as nanoseconds
/// since the epoch: `None` where it reports an error.
pub uninterp spec fn jiff_strptime(format: Seq<char>, input: Seq<char>) -> Option<i128>;

/// `jiff::Timestamp::strptime`, the result as nanoseconds.
#[verifier::external_body]
fn strptime_nanos(format: &str, input: &str) -> (r: Option<i128>)
    ensures
        r == jiff_strptime(format@, input@),
{
    jiff::Timestamp::strptime(format, input).ok().map(|t| t.as_nanosecond())
}

/// A value of a logfmt pair. A float is held as its text, which is what
/// the library can keep of it.
#[derive(Debug)]
pub enum LogValue {
    String(String),
    Int(u64),
    Float(String),
    Timestamp(Timestamp),
}

/// The first timestamp pattern that values are tried against.
pub const TIMESTAMP_PATTERN: &'static str = "%Y-%m-%dT%H:%M:%S%.fZ";
/// The second timestamp pattern that values are tried against.
pub const TIMESTAMP_PATTERN_PLAIN: &'static str = "%Y-%m-%d %H:%M:%S";

/// Whether `v` is what a raw value becomes: an unsigned integer when it
/// parses as a `u64`, else a float when it parses as an `f64`, else a
/// timestamp when `strptime` reads it with either timestamp pattern, else
/// the text itself.
pub open spec fn value_matches(v: LogValue, raw: Seq<char>) -> bool {
    let as_int = spec_parse_unsigned(raw, u64::MAX as int);
    let float = is_float_literal(raw);
    let ts1 = jiff_strptime(TIMESTAMP_PATTERN@, raw);
    let ts2 = jiff_strptime(TIMESTAMP_PATTERN_PLAIN@, raw);
    match v {
        LogValue::Int(n) => as_int == Some(n as int),
        LogValue::Float(t) => as_int is None && float && t@ == raw,
        LogValue::Timestamp(ts) => as_int is None && !float && (ts1 == Some(ts.nanosecond) || (ts1 is None
            && ts2 == Some(ts.nanosecond))),
        LogValue::String(s) => as_int is None && !float && ts1 is None && ts2 is None && s@ == raw,
    }
}

/// The value that a raw value becomes, as `value_matches` describes it.
fn classify(raw: &str) -> (v: LogValue)
    ensures
        value_matches(v, raw@),
{
    if let Some(n) = parse_unsigned(raw, u64::MAX) {
        return LogValue::Int(n);
    }
    if is_float_text(raw) {
        return LogValue::Float(raw.to_owned());
    }
    if let Some(ns) = strptime_nanos(TIMESTAMP_PATTERN, raw) {
        return LogValue::Timestamp(Timestamp { nanosecond: ns });
    }
    if let Some(ns) = strptime_nanos(TIMESTAMP_PATTERN_PLAIN, raw) {
        return LogValue::Timestamp(Timestamp { nanosecond: ns });
    }
    LogValue::String(raw.to_owned())
}

} // verus!

verus! {

/// The raw value of the last pair with `key` among the tokens.
pub open spec fn last_value(tokens: Seq<(Seq<char>, Option<Seq<char>>)>, key: Seq<char>) -> Option<Seq<char>>
    decreases tokens.len(),
{
    if tokens.len() == 0 {
        None
    } else if tokens.last().0 == key && tokens.last().1 is Some {
        tokens.last().1
    } else {
        last_value(tokens.drop_last(), key)
    }
}

/// The bare words among the tokens, in order.
pub open spec fn bare_words(tokens: Seq<(Seq<char>, Option<Seq<char>>)>) -> Seq<Seq<char>>
    decreases tokens.len(),
{
    if tokens.len() == 0 {
        Seq::empty()
    } else {
        bare_words(tokens.drop_last()) + if tokens.last().1 is None {
            seq![tokens.last().0]
        } else {
            Seq::empty()
        }
    }
}

/// The keys of the pairs.
pub open spec fn pair_keys(pairs: Seq<(String, LogValue)>) -> Seq<Seq<char>> {
    pairs.map_values(|p: (String, LogValue)| p.0@)
}

/// A parsed logfmt line: its pairs, keyed (a later pair replaces an earlier
/// one with the same key), and its bare words.
#[derive(Debug)]
pub struct LogfmtLine {
    pub pairs: Vec<(String, LogValue)>,
    pub bare: Vec<String>,
}

/// Whether `line` holds what the tokens say: each key once, with the value
/// of its last pair; and the bare words in order.
pub open spec fn line_matches(line: LogfmtLine, tokens: Seq<(Seq<char>, Option<Seq<char>>)>) -> bool {
    &&& string_views(line.bare@) == bare_words(tokens)
    &&& pair_keys(line.pairs@).no_duplicates()
    &&& forall|k: Seq<char>| pair_keys(line.pairs@).contains(k) <==> last_value(tokens, k) is Some
    &&& forall|i: int|
        0 <= i < line.pairs@.len() ==> value_matches(
            #[trigger] line.pairs@[i].1,
            last_value(tokens, line.pairs@[i].0@)->0,
        )
}

fn same_chars(a: &[char], b: &[char]) -> (r: bool)
    ensures
        r == (a@ == b@),
{
    if a.len() != b.len() {
        return false;
    }
    let mut i: usize = 0;
    while i < a.len()
        invariant
            i <= a.len() == b.len(),
            forall|k: int| 0 <= k < i ==> a@[k] == b@[k],
        decreases a.len() - i,
    {
        if a[i] != b[i] {
            return false;
        }
        i = i + 1;
    }
    assert(a@ =~= b@);
    true
}

/// The position of the pair with the key `key`, if there is one.
fn find_pair(pairs: &Vec<(String, LogValue)>, key: &[char]) -> (r: Option<usize>)
    ensures
        match r {
            Some(i) => i < pairs@.len() && pairs@[i as int].0@ == key@,
            None => !pair_keys(pairs@).contains(key@),
        },
{
    let mut j: usize = 0;
    while j < pairs.len()
        invariant
            j <= pairs.len(),
            forall|k: int| 0 <= k < j ==> pairs@[k].0@ != key@,
        decreases pairs.len() - j,
    {
        let kc = chars_of(pairs[j].0.as_str());
        if same_chars(kc.as_slice(), key) {
            return Some(j);
        }
        j = j + 1;
    }
    proof {
        if pair_keys(pairs@).contains(key@) {
            let k = choose|k: int| 0 <= k < pair_keys(pairs@).len() && pair_keys(pairs@)[k] == key@;
            assert(pairs@[k].0@ == key@);
        }
    }
    None
}

/// Parses a logfmt line.
pub fn parse_logfmt(input: &str) -> (r: LogfmtLine)
    ensures
        line_matches(r, spec_tokens(input@, 0)),
{
    let chars = chars_of(input);
    let tokens = tokenize(&chars);
    let ghost tv = token_views(tokens@);
    let mut line = LogfmtLine { pairs: Vec::new(), bare: Vec::new() };
    assert(pair_keys(line.pairs@) =~= Seq::<Seq<char>>::empty());
    assert(string_views(line.bare@) =~= Seq::<Seq<char>>::empty());
    let mut t: usize = 0;
    while t < tokens.len()
        invariant
            t <= tokens.len(),
            tv == token_views(tokens@),
            tv.len() == tokens.len(),
            line_matches(line, tv.take(t as int)),
        decreases tokens.len() - t,
    {
        let ghost prev = tv.take(t as int);
        let ghost next = tv.take(t + 1);
        assert(next.drop_last() =~= prev);
        assert(next.last() == tv[t as int]);
        assert(tv[t as int].0 == tokens@[t as int].0@);
        let key_chars = &tokens[t].0;
        match &tokens[t].1 {
            Some(raw) => {
                let raw_s = string_of(raw.as_slice());
                let value = classify(raw_s.as_str());
                let key = string_of(key_chars.as_slice());
                let ghost k = key@;
                let ghost old_pairs = line.pairs@;
                let ghost mut pos: int = 0;
                let ghost mut found = false;
                match find_pair(&line.pairs, key_chars.as_slice()) {
                    Some(i) => {
                        line.pairs.set(i, (key, value));
                        proof {
                            pos = i as int;
                            found = true;
                        }
                        assert(pair_keys(line.pairs@) =~= pair_keys(old_pairs).update(pos, k));
                        assert(pair_keys(line.pairs@) =~= pair_keys(old_pairs));
                    },
                    None => {
                        line.pairs.push((key, value));
                        proof {
                            pos = old_pairs.len() as int;
                        }
                        assert(pair_keys(line.pairs@) =~= pair_keys(old_pairs).push(k));
                    },
                }
                assert(0 <= pos < line.pairs@.len() && line.pairs@[pos].0@ == k);
                assert(string_views(line.bare@) == bare_words(next));
                assert forall|kk: Seq<char>| pair_keys(line.pairs@).contains(kk) <==> last_value(next, kk) is Some by {
                    if kk != k {
                        if pair_keys(line.pairs@).contains(kk) {
                            let w = choose|w: int| 0 <= w < pair_keys(line.pairs@).len() && pair_keys(line.pairs@)[w] == kk;
                            assert(pair_keys(old_pairs)[w] == kk);
                        }
                        if pair_keys(old_pairs).contains(kk) {
                            let w = choose|w: int| 0 <= w < pair_keys(old_pairs).len() && pair_keys(old_pairs)[w] == kk;
                            assert(pair_keys(line.pairs@)[w] == kk);
                        }
                    } else {
                        assert(pair_keys(line.pairs@)[pos] == k);
                    }
                }
                assert forall|i: int| 0 <= i < line.pairs@.len() implies value_matches(
                    #[trigger] line.pairs@[i].1,
                    last_value(next, line.pairs@[i].0@)->0,
                ) by {
                    if i == pos {
                        assert(line.pairs@[i].1 == value);
                        assert(next.last() == (k, Some(raw@)));
                        assert(last_value(next, k) == Some(raw@));
                    } else {
                        assert(old_pairs[i] == line.pairs@[i]);
                        assert(pair_keys(old_pairs)[i] == old_pairs[i].0@);
                        if found {
                            assert(pair_keys(old_pairs)[pos] == k);
                            assert(pair_keys(old_pairs)[i] != pair_keys(old_pairs)[pos]);
                        } else {
                            if pair_keys(old_pairs)[i] == k {
                                assert(pair_keys(old_pairs).contains(k));
                            }
                        }
                        assert(line.pairs@[i].0@ != k);
                    }
                }
                assert(bare_words(next) =~= bare_words(prev));
                assert(pair_keys(line.pairs@).no_duplicates()) by {
                    assert forall|a: int, b: int| 0 <= a < b < pair_keys(line.pairs@).len() implies pair_keys(line.pairs@)[a] != pair_keys(line.pairs@)[b] by {
                        if b == old_pairs.len() {
                            assert(pair_keys(old_pairs)[a] == pair_keys(line.pairs@)[a]);
                        }
                    }
                }
            },
            None => {
                let key = string_of(key_chars.as_slice());
                let ghost old_bare = line.bare@;
                line.bare.push(key);
                assert(string_views(line.bare@) =~= string_views(old_bare).push(key@));
                assert(next.last().1 is None);
                assert(bare_words(next) =~= bare_words(prev) + seq![next.last().0]);
                assert forall|kk: Seq<char>| pair_keys(line.pairs@).contains(kk) <==> last_value(next, kk) is Some by {
                    assert(last_value(next, kk) == last_value(prev, kk));
                }
                assert forall|i: int| 0 <= i < line.pairs@.len() implies value_matches(
                    #[trigger] line.pairs@[i].1,
                    last_value(next, line.pairs@[i].0@)->0,
                ) by {
                    assert(last_value(next, line.pairs@[i].0@) == last_value(prev, line.pairs@[i].0@));
                }
                assert(string_views(line.bare@) == bare_words(next));
                assert(pair_keys(line.pairs@).no_duplicates());
                assert(line_matches(line, next));
            },
        }
        t = t + 1;
    }
    assert(tv.take(tokens.len() as int) =~= tv);
    line
}

} // verus!

verus! {

/// The value of the pair with the key `key`.
pub open spec fn lookup(pairs: Seq<(String, LogValue)>, key: Seq<char>) -> Option<LogValue>
    decreases pairs.len(),
{
    if pairs.len() == 0 {
        None
    } else if pairs.last().0@ == key {
        Some(pairs.last().1)
    } else {
        lookup(pairs.drop_last(), key)
    }
}

fn find_value<'a>(pairs: &'a Vec<(String, LogValue)>, key: &str) -> (r: Option<&'a LogValue>)
    ensures
        match r {
            Some(v) => lookup(pairs@, key@) == Some(*v),
            None => lookup(pairs@, key@) is None,
        },
{
    let k = chars_of(key);
    let mut j = pairs.len();
    assert(pairs@.take(j as int) =~= pairs@);
    while j > 0
        invariant
            j <= pairs.len(),
            k@ == key@,
            lookup(pairs@, key@) == lookup(pairs@.take(j as int), key@),
        decreases j,
    {
        assert(pairs@.take(j as int).drop_last() =~= pairs@.take(j - 1));
        let kc = chars_of(pairs[j - 1].0.as_str());
        if same_chars(kc.as_slice(), k.as_slice()) {
            return Some(&pairs[j - 1].1);
        }
        j = j - 1;
    }
    None
}

/// The timestamp under the first of `timestamp`, `ts`, `time` that holds
/// one.
pub open spec fn spec_logfmt_timestamp(pairs: Seq<(String, LogValue)>) -> Option<Timestamp> {
    match lookup(pairs, "timestamp"@) {
        Some(LogValue::Timestamp(t)) => Some(t),
        _ => match lookup(pairs, "ts"@) {
            Some(LogValue::Timestamp(t)) => Some(t),
            _ => match lookup(pairs, "time"@) {
                Some(LogValue::Timestamp(t)) => Some(t),
                _ => None,
            },
        },
    }
}

/// The text under `key`, if it holds text.
pub open spec fn text_under(pairs: Seq<(String, LogValue)>, key: Seq<char>) -> Option<Seq<char>> {
    match lookup(pairs, key) {
        Some(LogValue::String(s)) => Some(s@),
        _ => None,
    }
}

/// The level: the text under `level`, `lvl` or `severity`, the first that
/// has one, else `INFO`.
pub open spec fn spec_logfmt_level(pairs: Seq<(String, LogValue)>) -> Seq<char> {
    match text_under(pairs, "level"@) {
        Some(l) => l,
        None => match text_under(pairs, "lvl"@) {
            Some(l) => l,
            None => match text_under(pairs, "severity"@) {
                Some(l) => l,
                None => "INFO"@,
            },
        },
    }
}

/// The words joined by single spaces.
pub open spec fn space_join(words: Seq<Seq<char>>) -> Seq<char>
    decreases words.len(),
{
    if words.len() == 0 {
        Seq::empty()
    } else if words.len() == 1 {
        words[0]
    } else {
        space_join(words.drop_last()) + " "@ + words.last()
    }
}

/// The message: under `message` or `msg`, else the bare words joined by
/// spaces.
pub open spec fn spec_logfmt_message(l: LogfmtLine) -> Seq<char> {
    match text_under(l.pairs@, "message"@) {
        Some(m) => m,
        None => match text_under(l.pairs@, "msg"@) {
            Some(m) => m,
            None => space_join(string_views(l.bare@)),
        },
    }
}

/// The keys whose pairs are shown in the level, time and message columns
/// rather than as cells.
pub open spec fn is_primary_key(k: Seq<char>) -> bool {
    k == "level"@ || k == "lvl"@ || k == "severity"@ || k == "message"@ || k == "msg"@ || k == "timestamp"@
        || k == "ts"@ || k == "time"@
}

/// What `jiff` displays for the timestamp with these nanoseconds (RFC 3339,
/// UTC); `None` where `Timestamp::from_nanosecond` refuses them.
pub uninterp spec fn jiff_display_text(nanosecond: i128) -> Option<Seq<char>>;

/// `jiff::Timestamp::from_nanosecond`, then displayed.
#[verifier::external_body]
fn display_text(ts: &Timestamp) -> (r: Option<String>)
    ensures
        match r {
            Some(s) => jiff_display_text(ts.nanosecond) == Some(s@),
            None => jiff_display_text(ts.nanosecond) is None,
        },
{
    jiff::Timestamp::from_nanosecond(ts.nanosecond).ok().map(|t| t.to_string())
}

pub open spec fn bright_magenta(s: Seq<char>) -> Seq<char> {
    "\x1b[95m"@ + s + "\x1b[39m"@
}

pub open spec fn blue(s: Seq<char>) -> Seq<char> {
    "\x1b[34m"@ + s + "\x1b[39m"@
}

pub open spec fn cyan(s: Seq<char>) -> Seq<char> {
    "\x1b[36m"@ + s + "\x1b[39m"@
}

/// A value in colour: text green, numbers bright magenta, timestamps blue.
pub open spec fn value_text(v: LogValue) -> Seq<char> {
    match v {
        LogValue::String(s) => green(s@),
        LogValue::Int(n) => bright_magenta(spec_decimal(n as nat)),
        LogValue::Float(t) => bright_magenta(t@),
        LogValue::Timestamp(ts) => blue(match jiff_display_text(ts.nanosecond) {
            Some(t) => t,
            None => Seq::empty(),
        }),
    }
}

/// The pair cells: `key=value` for each pair but the primary ones.
pub open spec fn pair_cells(pairs: Seq<(String, LogValue)>) -> Seq<Seq<char>>
    decreases pairs.len(),
{
    if pairs.len() == 0 {
        Seq::empty()
    } else {
        pair_cells(pairs.drop_last()) + if is_primary_key(pairs.last().0@) {
            Seq::empty()
        } else {
            seq![dimmed(pairs.last().0@) + "="@ + value_text(pairs.last().1)]
        }
    }
}

/// The cells of a logfmt line: its pairs but the primary ones, then its
/// bare words in cyan.
pub open spec fn spec_logfmt_cells(l: LogfmtLine) -> Seq<Seq<char>> {
    pair_cells(l.pairs@) + cyan_all(string_views(l.bare@))
}

/// Each word in cyan.
pub open spec fn cyan_all(words: Seq<Seq<char>>) -> Seq<Seq<char>> {
    words.map_values(|b: Seq<char>| cyan(b))
}

/// The rendering of a logfmt line: level, time column, message, cells.
pub open spec fn spec_logfmt_render(l: LogfmtLine, metrics: LayoutMetrics) -> Seq<u8> {
    level_bytes(spec_logfmt_level(l.pairs@)) + (if metrics.show_time {
        seq![32u8] + match spec_logfmt_timestamp(l.pairs@) {
            Some(t) => spec_timestamp_column(t),
            None => spec_empty_module_column(),
        }
    } else {
        encode_utf8(COL_SEP@)
    }) + spec_format_message(spec_logfmt_message(l), metrics.padding as nat, metrics.max_message_width)
        + spec_cells_block(spec_logfmt_cells(l), metrics)
}

fn value_string(v: &LogValue) -> (r: String)
    ensures
        r@ == value_text(*v),
{
    match v {
        LogValue::String(s) => super::formatting::paint_green_text(s.as_str()),
        LogValue::Int(n) => {
            let d = string_of(decimal_chars(*n).as_slice());
            paint_bright_magenta(d.as_str())
        },
        LogValue::Float(t) => paint_bright_magenta(t.as_str()),
        LogValue::Timestamp(ts) => {
            let t = match display_text(ts) {
                Some(t) => t,
                None => String::new(),
            };
            paint_blue(t.as_str())
        },
    }
}

fn is_primary(k: &str) -> (r: bool)
    ensures
        r == is_primary_key(k@),
{
    let c = chars_of(k);
    let c = c.as_slice();
    chars_equal(c, "level") || chars_equal(c, "lvl") || chars_equal(c, "severity") || chars_equal(c, "message")
        || chars_equal(c, "msg") || chars_equal(c, "timestamp") || chars_equal(c, "ts") || chars_equal(c, "time")
}

impl LogfmtLine {
    /// The timestamp under `timestamp`, `ts` or `time`.
    pub fn timestamp(&self) -> (r: Option<Timestamp>)
        ensures
            r == spec_logfmt_timestamp(self.pairs@),
    {
        if let Some(LogValue::Timestamp(t)) = find_value(&self.pairs, "timestamp") {
            return Some(*t);
        }
        if let Some(LogValue::Timestamp(t)) = find_value(&self.pairs, "ts") {
            return Some(*t);
        }
        if let Some(LogValue::Timestamp(t)) = find_value(&self.pairs, "time") {
            return Some(*t);
        }
        None
    }

    /// The level under `level`, `lvl` or `severity`, else `INFO`.
    pub fn level(&self) -> (r: String)
        ensures
            r@ == spec_logfmt_level(self.pairs@),
    {
        if let Some(LogValue::String(s)) = find_value(&self.pairs, "level") {
            return s.clone();
        }
        if let Some(LogValue::String(s)) = find_value(&self.pairs, "lvl") {
            return s.clone();
        }
        if let Some(LogValue::String(s)) = find_value(&self.pairs, "severity") {
            return s.clone();
        }
        String::from_str("INFO")
    }

    /// The message under `message` or `msg`, else the bare words joined by
    /// spaces.
    pub fn message(&self) -> (r: String)
        ensures
            r@ == spec_logfmt_message(*self),
    {
        if let Some(LogValue::String(s)) = find_value(&self.pairs, "message") {
            return s.clone();
        }
        if let Some(LogValue::String(s)) = find_value(&self.pairs, "msg") {
            return s.clone();
        }
        let mut r = String::new();
        let mut i: usize = 0;
        while i < self.bare.len()
            invariant
                i <= self.bare.len(),
                r@ == space_join(string_views(self.bare@).take(i as int)),
            decreases self.bare.len() - i,
        {
            assert(string_views(self.bare@).take(i + 1).drop_last() =~= string_views(self.bare@).take(i as int));
            if i > 0 {
                r.append(" ");
            }
            r.append(self.bare[i].as_str());
            i = i + 1;
        }
        assert(string_views(self.bare@).take(self.bare.len() as int) =~= string_views(self.bare@));
        r
    }

    /// The cells: pairs but the primary ones, then the bare words.
    pub fn cells(&self) -> (r: Vec<String>)
        ensures
            string_views(r@) == spec_logfmt_cells(*self),
    {
        let mut cells: Vec<String> = Vec::new();
        let mut i: usize = 0;
        while i < self.pairs.len()
            invariant
                i <= self.pairs.len(),
                string_views(cells@) == pair_cells(self.pairs@.take(i as int)),
            decreases self.pairs.len() - i,
        {
            assert(self.pairs@.take(i + 1).drop_last() =~= self.pairs@.take(i as int));
            let ghost before = string_views(cells@);
            if !is_primary(self.pairs[i].0.as_str()) {
                let mut c = paint_dimmed(self.pairs[i].0.as_str());
                c.append("=");
                let v = value_string(&self.pairs[i].1);
                c.append(v.as_str());
                cells.push(c);
            }
            i = i + 1;
            assert(string_views(cells@) =~= pair_cells(self.pairs@.take(i as int)));
        }
        assert(self.pairs@.take(self.pairs.len() as int) =~= self.pairs@);
        let ghost head = string_views(cells@);
        let mut j: usize = 0;
        while j < self.bare.len()
            invariant
                j <= self.bare.len(),
                head == pair_cells(self.pairs@),
                string_views(cells@) == head + cyan_all(string_views(self.bare@)).take(j as int),
            decreases self.bare.len() - j,
        {
            let c = paint_cyan(self.bare[j].as_str());
            assert(cyan_all(string_views(self.bare@))[j as int] == c@);
            let ghost before = string_views(cells@);
            cells.push(c);
            assert(string_views(cells@) =~= before.push(c@));
            assert(cyan_all(string_views(self.bare@)).take(j + 1) =~= cyan_all(string_views(self.bare@)).take(
                j as int,
            ).push(c@));
            j = j + 1;
            assert(string_views(cells@) =~= head + cyan_all(string_views(self.bare@)).take(j as int));
        }
        assert(cyan_all(string_views(self.bare@)).take(self.bare.len() as int) =~= cyan_all(
            string_views(self.bare@),
        ));
        cells
    }

    /// Appends the rendering of the line.
    pub fn render(&self, out: &mut Vec<u8>, metrics: &LayoutMetrics)
        ensures
            final(out)@ == old(out)@ + spec_logfmt_render(*self, *metrics),
    {
        let level = self.level();
        let lb = get_level_bytes(level.as_str());
        let mut i: usize = 0;
        while i < lb.len()
            invariant
                i <= lb@.len(),
                out@ == old(out)@ + lb@.take(i as int),
            decreases lb.len() - i,
        {
            out.push(lb[i]);
            i = i + 1;
            assert(out@ =~= old(out)@ + lb@.take(i as int));
        }
        assert(lb@.take(lb.len() as int) =~= lb@);
        let ghost a = out@;
        if metrics.show_time {
            out.push(32u8);
            match self.timestamp() {
                Some(t) => timestamp_column_into(out, &t),
                None => empty_module_column_into(out),
            }
        } else {
            push_str(out, COL_SEP);
        }
        let ghost b = out@;
        let message = self.message();
        format_message_into(out, message.as_str(), metrics.padding, metrics.max_message_width);
        let cells = self.cells();
        cells_block_into(out, cells.as_slice(), metrics);
        assert(out@ =~= old(out)@ + spec_logfmt_render(*self, *metrics));
    }

    /// Writes the rendering of the line and returns the length of the
    /// buffer.
    pub fn write(&self, buffer: &mut BytesMut, metrics: &LayoutMetrics) -> (n: usize)
        requires
            buffer_bytes(*old(buffer)).len() + spec_logfmt_render(*self, *metrics).len() <= isize::MAX,
        ensures
            buffer_bytes(*final(buffer)) == buffer_bytes(*old(buffer)) + spec_logfmt_render(*self, *metrics),
            n == buffer_bytes(*final(buffer)).len(),
    {
        let mut out: Vec<u8> = Vec::new();
        self.render(&mut out, metrics);
        assert(out@ =~= spec_logfmt_render(*self, *metrics));
        buffer_extend(buffer, out.as_slice());
        buffer_len(buffer)
    }
}

} // verus!

verus! {

/// With each key once, the value found under a key is that of the pair
/// with that key; a key that no pair has finds nothing.
proof fn lemma_lookup_pair(pairs: Seq<(String, LogValue)>, key: Seq<char>)
    requires
        pair_keys(pairs).no_duplicates(),
    ensures
        forall|k: int| 0 <= k < pairs.len() && #[trigger] pairs[k].0@ == key ==> lookup(pairs, key) == Some(pairs[k].1),
        (forall|k: int| 0 <= k < pairs.len() ==> #[trigger] pairs[k].0@ != key) ==> lookup(pairs, key) is None,
    decreases pairs.len(),
{
    if pairs.len() > 0 {
        let init = pairs.drop_last();
        assert(pair_keys(init) =~= pair_keys(pairs).drop_last());
        assert forall|a: int, b: int| 0 <= a < b < pair_keys(init).len() implies pair_keys(init)[a] != pair_keys(
            init,
        )[b] by {
            assert(pair_keys(init)[a] == pair_keys(pairs)[a]);
            assert(pair_keys(init)[b] == pair_keys(pairs)[b]);
        }
        lemma_lookup_pair(init, key);
        assert forall|k: int| 0 <= k < pairs.len() && #[trigger] pairs[k].0@ == key implies lookup(pairs, key) == Some(
            pairs[k].1,
        ) by {
            if k < pairs.len() - 1 {
                assert(pairs[k] == init[k]);
                if pairs.last().0@ == key {
                    assert(pair_keys(pairs)[k] == pair_keys(pairs)[pairs.len() - 1]);
                }
            }
        }
        if forall|k: int| 0 <= k < pairs.len() ==> #[trigger] pairs[k].0@ != key {
            assert(pairs[pairs.len() - 1].0@ != key);
            assert forall|k: int| 0 <= k < init.len() implies #[trigger] init[k].0@ != key by {
                assert(init[k] == pairs[k]);
            }
        }
    }
}

/// Whether some pair has key `key` and a text value.
pub open spec fn has_text_under(pairs: Seq<(String, LogValue)>, key: Seq<char>) -> bool {
    exists|k: int| 0 <= k < pairs.len() && #[trigger] pairs[k].0@ == key && pairs[k].1 is String
}

/// The level of a logfmt line, whose keys occur once each: the text of the
/// pair `level` when it has one; else the text of `lvl`; else the text of
/// `severity`; else `INFO`.
pub proof fn law_logfmt_level(pairs: Seq<(String, LogValue)>)
    requires
        pair_keys(pairs).no_duplicates(),
    ensures
        forall|k: int| 0 <= k < pairs.len() && #[trigger] pairs[k].0@ == "level"@ && pairs[k].1 is String
            ==> spec_logfmt_level(pairs) == pairs[k].1->String_0@,
        !has_text_under(pairs, "level"@) ==> forall|k: int| 0 <= k < pairs.len() && #[trigger] pairs[k].0@ == "lvl"@
            && pairs[k].1 is String ==> spec_logfmt_level(pairs) == pairs[k].1->String_0@,
        !has_text_under(pairs, "level"@) && !has_text_under(pairs, "lvl"@) ==> forall|k: int|
            0 <= k < pairs.len() && #[trigger] pairs[k].0@ == "severity"@ && pairs[k].1 is String
                ==> spec_logfmt_level(pairs) == pairs[k].1->String_0@,
        !has_text_under(pairs, "level"@) && !has_text_under(pairs, "lvl"@) && !has_text_under(pairs, "severity"@)
            ==> spec_logfmt_level(pairs) == "INFO"@,
{
    lemma_lookup_pair(pairs, "level"@);
    lemma_lookup_pair(pairs, "lvl"@);
    lemma_lookup_pair(pairs, "severity"@);
    lemma_lookup_found(pairs, "level"@);
    lemma_lookup_found(pairs, "lvl"@);
    lemma_lookup_found(pairs, "severity"@);
}

/// What a lookup finds is the value of some pair with that key.
proof fn lemma_lookup_found(pairs: Seq<(String, LogValue)>, key: Seq<char>)
    ensures
        lookup(pairs, key) matches Some(v) ==> exists|k: int| 0 <= k < pairs.len() && #[trigger] pairs[k].0@ == key
            && pairs[k].1 == v,
    decreases pairs.len(),
{
    if pairs.len() > 0 {
        let init = pairs.drop_last();
        lemma_lookup_found(init, key);
        if pairs.last().0@ == key {
            assert(pairs[pairs.len() - 1].0@ == key);
        } else if lookup(init, key) is Some {
            let k = choose|k: int| 0 <= k < init.len() && #[trigger] init[k].0@ == key && init[k].1 == lookup(
                init,
                key,
            )->0;
            assert(pairs[k] == init[k]);
        }
    }
}

} // verus!
