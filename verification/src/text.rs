//! Character and byte-buffer primitives shared by the parsers and the
//! renderers: conversions between `str`/`String` and character vectors, the
//! output byte buffer, and decimal rendering of integers.

use bytes::BytesMut;
use vstd::prelude::*;

verus! {

/// The output buffer type of the renderers.
#[verifier::external_type_specification]
#[verifier::external_body]
pub struct ExBytesMut(BytesMut);

/// The bytes that a `BytesMut` holds.
pub uninterp spec fn buffer_bytes(b: BytesMut) -> Seq<u8>;

/// `BytesMut::new`: an empty buffer.
#[verifier::external_body]
pub(crate) fn buffer_new() -> (b: BytesMut)
    ensures
        buffer_bytes(b) == Seq::<u8>::empty(),
{
    BytesMut::new()
}

/// `BytesMut::extend_from_slice`: appends the bytes at the end. It reserves
/// the allocation first, which panics past `isize::MAX` bytes, hence the
/// bound.
#[verifier::external_body]
pub(crate) fn buffer_extend(b: &mut BytesMut, data: &[u8])
    requires
        buffer_bytes(*old(b)).len() + data@.len() <= isize::MAX,
    ensures
        buffer_bytes(*final(b)) == buffer_bytes(*old(b)) + data@,
{
    b.extend_from_slice(data)
}

/// `BytesMut::len`: the number of bytes held.
#[verifier::external_body]
pub(crate) fn buffer_len(b: &BytesMut) -> (n: usize)
    ensures
        n == buffer_bytes(*b).len(),
{
    b.len()
}

/// The characters of `s`, in order (`str::chars` collected).
#[verifier::external_body]
pub(crate) fn chars_of(s: &str) -> (v: Vec<char>)
    ensures
        v@ == s@,
{
    s.chars().collect()
}

/// A `String` holding exactly the characters `v`, in order.
#[verifier::external_body]
pub(crate) fn string_of(v: &[char]) -> (s: String)
    ensures
        s@ == v@,
{
    v.iter().collect()
}

/// What `str::to_lowercase` returns for a string (Unicode lowercase mapping).
pub uninterp spec fn spec_to_lowercase(s: Seq<char>) -> Seq<char>;

/// `str::to_lowercase`.
#[verifier::external_body]
pub(crate) fn to_lowercase(s: &str) -> (r: String)
    ensures
        r@ == spec_to_lowercase(s@),
        utf8_len(r@) <= isize::MAX,
{
    s.to_lowercase()
}

/// The UTF-8 length in bytes of a character sequence.
pub open spec fn utf8_len(s: Seq<char>) -> nat {
    vstd::utf8::encode_utf8(s).len()
}

/// The decimal digits of `n`, most significant first, without sign.
pub open spec fn spec_decimal(n: nat) -> Seq<char>
    decreases n,
{
    if n < 10 {
        seq![digit_char(n)]
    } else {
        spec_decimal(n / 10).push(digit_char(n % 10))
    }
}

/// The ASCII digit for `d < 10`.
pub open spec fn digit_char(d: nat) -> char {
    if d == 0 { '0' } else if d == 1 { '1' } else if d == 2 { '2' } else if d == 3 { '3' }
    else if d == 4 { '4' } else if d == 5 { '5' } else if d == 6 { '6' } else if d == 7 { '7' }
    else if d == 8 { '8' } else { '9' }
}

fn digit_of(d: u64) -> (c: char)
    requires
        d < 10,
    ensures
        c == digit_char(d as nat),
{
    if d == 0 { '0' } else if d == 1 { '1' } else if d == 2 { '2' } else if d == 3 { '3' }
    else if d == 4 { '4' } else if d == 5 { '5' } else if d == 6 { '6' } else if d == 7 { '7' }
    else if d == 8 { '8' } else { '9' }
}

/// The decimal rendering of `n`, as `u64::to_string` writes it.
pub fn decimal_chars(n: u64) -> (v: Vec<char>)
    ensures
        v@ == spec_decimal(n as nat),
    decreases n,
{
    if n < 10 {
        let mut v: Vec<char> = Vec::new();
        v.push(digit_of(n));
        v
    } else {
        let mut v = decimal_chars(n / 10);
        v.push(digit_of(n % 10));
        v
    }
}

} // verus!

verus! {

/// Whether `c` is an ASCII decimal digit.
pub open spec fn is_digit(c: char) -> bool {
    '0' <= c && c <= '9'
}

/// The value of a digit character.
pub open spec fn digit_value(c: char) -> int {
    (c as int) - ('0' as int)
}

/// The value of a sequence of decimal digits, most significant first.
pub open spec fn spec_digits_value(d: Seq<char>) -> int
    decreases d.len(),
{
    if d.len() == 0 {
        0
    } else {
        spec_digits_value(d.drop_last()) * 10 + digit_value(d.last())
    }
}

pub open spec fn all_digits(d: Seq<char>) -> bool {
    forall|i: int| 0 <= i < d.len() ==> is_digit(#[trigger] d[i])
}

/// What `str::parse::<i64>` accepts and gives back: an optional `+` or `-`
/// sign, then one or more ASCII digits, with a value in range.
pub open spec fn spec_parse_i64(s: Seq<char>) -> Option<i64> {
    if s.len() == 0 {
        None
    } else {
        let neg = s[0] == '-';
        let digits = if s[0] == '-' || s[0] == '+' { s.skip(1) } else { s };
        let v = if neg { -spec_digits_value(digits) } else { spec_digits_value(digits) };
        if digits.len() == 0 || !all_digits(digits) || v < i64::MIN || v > i64::MAX {
            None
        } else {
            Some(v as i64)
        }
    }
}

proof fn lemma_digits_value_nonneg(d: Seq<char>)
    requires
        all_digits(d),
    ensures
        spec_digits_value(d) >= 0,
    decreases d.len(),
{
    if d.len() > 0 {
        assert(all_digits(d.drop_last()));
        lemma_digits_value_nonneg(d.drop_last());
        assert(is_digit(d[d.len() - 1]));
    }
}

proof fn lemma_digits_value_monotone(d: Seq<char>, k: int)
    requires
        all_digits(d),
        0 <= k <= d.len(),
    ensures
        spec_digits_value(d.take(k)) <= spec_digits_value(d),
    decreases d.len() - k,
{
    if k < d.len() {
        lemma_digits_value_monotone(d, k + 1);
        let t = d.take(k + 1);
        assert(t.drop_last() =~= d.take(k));
        assert(all_digits(d.take(k)));
        lemma_digits_value_nonneg(d.take(k));
        assert(is_digit(t.last()));
    } else {
        assert(d.take(k) =~= d);
    }
}

/// Whether every character of `c` from position `start` on is a digit.
fn all_digits_from(c: &Vec<char>, start: usize) -> (r: bool)
    requires
        start <= c.len(),
    ensures
        r == all_digits(c@.skip(start as int)),
{
    let mut j = start;
    while j < c.len()
        invariant
            start <= j <= c.len(),
            all_digits(c@.skip(start as int).take(j - start)),
        decreases c.len() - j,
    {
        if !('0' <= c[j] && c[j] <= '9') {
            assert(c@.skip(start as int)[(j - start) as int] == c@[j as int]);
            return false;
        }
        assert(all_digits(c@.skip(start as int).take(j - start + 1)));
        j = j + 1;
    }
    assert(c@.skip(start as int).take(j - start) =~= c@.skip(start as int));
    true
}

/// Parses a signed decimal integer as `str::parse::<i64>` does.
pub fn parse_i64(s: &str) -> (r: Option<i64>)
    ensures
        r == spec_parse_i64(s@),
{
    let c = chars_of(s);
    let n = c.len();
    if n == 0 {
        return None;
    }
    let neg = c[0] == '-';
    let start: usize = if c[0] == '-' || c[0] == '+' { 1 } else { 0 };
    let ghost digits = if c@[0] == '-' || c@[0] == '+' { c@.skip(1) } else { c@ };
    assert(digits =~= c@.skip(start as int));
    if start == n {
        return None;
    }
    // Accumulate towards the sign so that i64::MIN is reachable.
    let mut acc: i64 = 0;
    let mut i: usize = start;
    while i < n
        invariant
            start <= i <= n,
            n == c.len(),
            c@ == s@,
            n > 0,
            neg == (s@[0] == '-'),
            digits == (if s@[0] == '-' || s@[0] == '+' { s@.skip(1) } else { s@ }),
            digits =~= c@.skip(start as int),
            all_digits(digits.take(i - start)),
            acc == if neg { -spec_digits_value(digits.take(i - start)) } else { spec_digits_value(digits.take(i - start)) },
        decreases n - i,
    {
        let ch = c[i];
        if !('0' <= ch && ch <= '9') {
            proof {
                assert(digits[(i - start) as int] == ch);
            }
            return None;
        }
        let d: i64 = (ch as u32 - '0' as u32) as i64;
        let ghost prefix = digits.take(i - start);
        let ghost next = digits.take(i - start + 1);
        proof {
            assert(next.drop_last() =~= prefix);
            assert(next.last() == ch);
            assert(all_digits(next));
        }
        let step = if neg {
            match acc.checked_mul(10) {
                Some(m) => m.checked_sub(d),
                None => None,
            }
        } else {
            match acc.checked_mul(10) {
                Some(m) => m.checked_add(d),
                None => None,
            }
        };
        match step {
            Some(v) => {
                acc = v;
            }
            None => {
                proof {
                    lemma_digits_value_nonneg(prefix);
                    lemma_digits_value_nonneg(next);
                }
                // the remaining digits only make the value larger in size
                let rest_digits = all_digits_from(&c, start);
                proof {
                    if rest_digits {
                        assert(digits =~= c@.skip(start as int));
                        lemma_digits_value_monotone(digits, i - start + 1);
                    }
                }
                return None;
            }
        }
        i = i + 1;
    }
    proof {
        assert(digits.take(n - start) =~= digits);
    }
    Some(acc)
}

} // verus!

verus! {

/// The position of the first `c` in `s`, or -1.
pub open spec fn spec_index_of(s: Seq<char>, c: char) -> int
    decreases s.len(),
{
    if s.len() == 0 {
        -1
    } else if s[0] == c {
        0
    } else {
        let r = spec_index_of(s.skip(1), c);
        if r < 0 { -1 } else { r + 1 }
    }
}

/// The first `c` lies inside the sequence, when there is one.
pub proof fn lemma_index_of_bound(s: Seq<char>, c: char)
    ensures
        -1 <= spec_index_of(s, c) < s.len(),
        spec_index_of(s, c) >= 0 ==> s[spec_index_of(s, c)] == c,
    decreases s.len(),
{
    if s.len() > 0 && s[0] != c {
        lemma_index_of_bound(s.skip(1), c);
    }
}

/// A line without the carriage return that ends it, if one does.
pub open spec fn strip_cr(l: Seq<char>) -> Seq<char> {
    if l.len() > 0 && l.last() == '\r' { l.drop_last() } else { l }
}

/// The lines of a text as `str::lines` gives them: split at each `\n`, a
/// `\r` right before that `\n` dropped, and no empty line after a final
/// `\n`.
pub open spec fn spec_lines(s: Seq<char>) -> Seq<Seq<char>>
    decreases s.len(),
{
    if s.len() == 0 {
        Seq::empty()
    } else {
        let i = spec_index_of(s, '\n');
        if i < 0 {
            seq![s]
        } else {
            proof {
                lemma_index_of_bound(s, '\n');
            }
            seq![strip_cr(s.take(i))] + spec_lines(s.skip(i + 1))
        }
    }
}

/// When `s[0..i]` holds no `c` and `s[i]` is `c`, the first `c` is at `i`.
pub proof fn lemma_index_of_found(s: Seq<char>, c: char, i: int)
    requires
        0 <= i < s.len(),
        s[i] == c,
        forall|k: int| 0 <= k < i ==> s[k] != c,
    ensures
        spec_index_of(s, c) == i,
    decreases i,
{
    if i > 0 {
        lemma_index_of_found(s.skip(1), c, i - 1);
    }
}

/// When `s` holds no `c`, there is no first `c`.
pub proof fn lemma_index_of_absent(s: Seq<char>, c: char)
    requires
        forall|k: int| 0 <= k < s.len() ==> s[k] != c,
    ensures
        spec_index_of(s, c) == -1,
    decreases s.len(),
{
    if s.len() > 0 {
        lemma_index_of_absent(s.skip(1), c);
    }
}

/// The views of a list of character vectors.
pub open spec fn char_views(v: Seq<Vec<char>>) -> Seq<Seq<char>> {
    v.map_values(|x: Vec<char>| x@)
}

/// Splits a text into its lines, as `str::lines` does.
pub fn split_lines(s: &[char]) -> (lines: Vec<Vec<char>>)
    ensures
        char_views(lines@) == spec_lines(s@),
{
    let mut lines: Vec<Vec<char>> = Vec::new();
    let mut start: usize = 0;
    let mut i: usize = 0;
    assert(s@.skip(0) =~= s@);
    while i < s.len()
        invariant
            start <= i <= s.len(),
            spec_lines(s@) == char_views(lines@) + spec_lines(s@.skip(start as int)),
            forall|k: int| start <= k < i ==> s@[k] != '\n',
        decreases s.len() - i,
    {
        if s[i] == '\n' {
            let ghost rest = s@.skip(start as int);
            proof {
                lemma_index_of_found(rest, '\n', (i - start) as int);
                assert(rest.skip(i - start + 1) =~= s@.skip(i + 1));
                assert(rest.take(i - start) =~= s@.subrange(start as int, i as int));
            }
            let mut end = i;
            if end > start && s[end - 1] == '\r' {
                end = end - 1;
            }
            let mut line: Vec<char> = Vec::new();
            let mut k = start;
            while k < end
                invariant
                    start <= k <= end <= i < s.len(),
                    line@ == s@.subrange(start as int, k as int),
                decreases end - k,
            {
                line.push(s[k]);
                k = k + 1;
            }
            proof {
                assert(line@ =~= strip_cr(s@.subrange(start as int, i as int)));
                assert(char_views(lines@.push(line)) =~= char_views(lines@).push(line@));
            }
            lines.push(line);
            start = i + 1;
        }
        i = i + 1;
    }
    if start < s.len() {
        let ghost rest = s@.skip(start as int);
        proof {
            lemma_index_of_absent(rest, '\n');
        }
        let mut line: Vec<char> = Vec::new();
        let mut k = start;
        while k < s.len()
            invariant
                start <= k <= s.len(),
                line@ == s@.subrange(start as int, k as int),
            decreases s.len() - k,
        {
            line.push(s[k]);
            k = k + 1;
        }
        proof {
            assert(line@ =~= rest);
            assert(char_views(lines@.push(line)) =~= char_views(lines@).push(line@));
            assert(spec_lines(rest) == seq![rest]);
        }
        lines.push(line);
    } else {
        assert(s@.skip(start as int) =~= Seq::<char>::empty());
    }
    proof {
        assert(spec_lines(s@) =~= char_views(lines@));
    }
    lines
}

} // verus!

verus! {

/// `str::from_utf8`: the text that `bytes` encode, when they are valid UTF-8.
#[verifier::external_body]
pub(crate) fn utf8_text(bytes: &[u8]) -> (r: Option<String>)
    ensures
        r is Some <==> vstd::utf8::valid_utf8(bytes@),
        r matches Some(s) ==> s@ == vstd::utf8::decode_utf8(bytes@),
{
    std::str::from_utf8(bytes).ok().map(|s| s.to_owned())
}

/// The position of the last byte `b` in `s`, or -1.
pub open spec fn spec_last_index_of(s: Seq<u8>, b: u8) -> int
    decreases s.len(),
{
    if s.len() == 0 {
        -1
    } else if s.last() == b {
        s.len() - 1
    } else {
        spec_last_index_of(s.drop_last(), b)
    }
}

/// The last `b` lies inside the sequence, when there is one.
pub proof fn lemma_last_index_bound(s: Seq<u8>, b: u8)
    ensures
        -1 <= spec_last_index_of(s, b) < s.len(),
    decreases s.len(),
{
    if s.len() > 0 && s.last() != b {
        lemma_last_index_bound(s.drop_last(), b);
    }
}

/// Finds the position of the last byte `b` in `s`.
pub fn last_index_of(s: &[u8], b: u8) -> (r: Option<usize>)
    ensures
        match r {
            Some(i) => spec_last_index_of(s@, b) == i as int,
            None => spec_last_index_of(s@, b) == -1,
        },
        r matches Some(i) ==> i < s@.len() && s@[i as int] == b && forall|k: int| i < k < s@.len() ==> s@[k] != b,
        r is None ==> forall|k: int| 0 <= k < s@.len() ==> s@[k] != b,
        -1 <= spec_last_index_of(s@, b) < s@.len(),
{
    proof {
        lemma_last_index_bound(s@, b);
    }
    let mut i = s.len();
    assert(s@.take(i as int) =~= s@);
    while i > 0
        invariant
            i <= s.len(),
            spec_last_index_of(s@, b) == spec_last_index_of(s@.take(i as int), b),
            forall|k: int| i <= k < s@.len() ==> s@[k] != b,
        decreases i,
    {
        let ghost t = s@.take(i as int);
        if s[i - 1] == b {
            return Some(i - 1);
        }
        assert(t.drop_last() =~= s@.take(i - 1));
        i = i - 1;
    }
    proof {
        assert(s@.take(0) =~= Seq::<u8>::empty());
    }
    None
}

} // verus!

verus! {

/// UTF-8 encoding distributes over concatenation.
pub proof fn lemma_encode_concat(a: Seq<char>, b: Seq<char>)
    ensures
        vstd::utf8::encode_utf8(a + b) == vstd::utf8::encode_utf8(a) + vstd::utf8::encode_utf8(b),
    decreases a.len(),
{
    if a.len() == 0 {
        assert(a + b =~= b);
        assert(vstd::utf8::encode_utf8(a) =~= Seq::<u8>::empty());
        assert(vstd::utf8::encode_utf8(a + b) =~= vstd::utf8::encode_utf8(a) + vstd::utf8::encode_utf8(b));
    } else {
        lemma_encode_concat(a.drop_first(), b);
        assert((a + b).drop_first() =~= a.drop_first() + b);
        assert((a + b)[0] == a[0]);
        assert(vstd::utf8::encode_utf8(a + b) =~= vstd::utf8::encode_utf8(a) + vstd::utf8::encode_utf8(b));
    }
}

/// The Unicode `White_Space` property, which `char::is_whitespace` tests.
pub open spec fn is_white_space(c: char) -> bool {
    ||| ('\u{9}' <= c && c <= '\u{d}')
    ||| c == ' '
    ||| c == '\u{85}'
    ||| c == '\u{a0}'
    ||| c == '\u{1680}'
    ||| ('\u{2000}' <= c && c <= '\u{200a}')
    ||| c == '\u{2028}'
    ||| c == '\u{2029}'
    ||| c == '\u{202f}'
    ||| c == '\u{205f}'
    ||| c == '\u{3000}'
}

/// Whether `c` is Unicode white space.
pub fn is_whitespace_char(c: char) -> (r: bool)
    ensures
        r == is_white_space(c),
{
    ('\u{9}' <= c && c <= '\u{d}') || c == ' ' || c == '\u{85}' || c == '\u{a0}' || c == '\u{1680}'
        || ('\u{2000}' <= c && c <= '\u{200a}') || c == '\u{2028}' || c == '\u{2029}'
        || c == '\u{202f}' || c == '\u{205f}' || c == '\u{3000}'
}

/// `s` without its leading white space.
pub open spec fn trim_start(s: Seq<char>) -> Seq<char>
    decreases s.len(),
{
    if s.len() > 0 && is_white_space(s[0]) {
        trim_start(s.drop_first())
    } else {
        s
    }
}

/// `s` without its trailing white space.
pub open spec fn trim_end(s: Seq<char>) -> Seq<char>
    decreases s.len(),
{
    if s.len() > 0 && is_white_space(s.last()) {
        trim_end(s.drop_last())
    } else {
        s
    }
}

/// `s` without leading and trailing white space, as `str::trim` gives it.
pub open spec fn spec_trim(s: Seq<char>) -> Seq<char> {
    trim_end(trim_start(s))
}

/// Removes the leading and trailing white space of `s`.
pub fn trim_chars(s: &[char]) -> (r: Vec<char>)
    ensures
        r@ == spec_trim(s@),
{
    let mut i: usize = 0;
    assert(s@.skip(0) =~= s@);
    while i < s.len() && is_whitespace_char(s[i])
        invariant
            i <= s.len(),
            trim_start(s@) == trim_start(s@.skip(i as int)),
        decreases s.len() - i,
    {
        assert(s@.skip(i as int).drop_first() =~= s@.skip(i + 1));
        i = i + 1;
    }
    let ghost rest = s@.skip(i as int);
    assert(trim_start(rest) == rest) by {
        if rest.len() > 0 {
            assert(rest[0] == s@[i as int]);
        }
    }
    let mut j: usize = s.len();
    assert(rest =~= s@.subrange(i as int, j as int));
    while j > i && is_whitespace_char(s[j - 1])
        invariant
            i <= j <= s.len(),
            trim_end(rest) == trim_end(s@.subrange(i as int, j as int)),
        decreases j,
    {
        assert(s@.subrange(i as int, j as int).drop_last() =~= s@.subrange(i as int, j - 1));
        j = j - 1;
    }
    let mut r: Vec<char> = Vec::new();
    let mut k = i;
    while k < j
        invariant
            i <= k <= j <= s.len(),
            r@ == s@.subrange(i as int, k as int),
        decreases j - k,
    {
        r.push(s[k]);
        k = k + 1;
    }
    assert(trim_end(s@.subrange(i as int, j as int)) == s@.subrange(i as int, j as int)) by {
        let t = s@.subrange(i as int, j as int);
        if t.len() > 0 {
            assert(t.last() == s@[j - 1]);
        }
    }
    r
}

/// The pieces of `s` between the occurrences of `c`, as `str::split` gives
/// them for a character: always at least one piece, empty ones included.
pub open spec fn spec_split(s: Seq<char>, c: char) -> Seq<Seq<char>>
    decreases s.len(),
{
    let i = spec_index_of(s, c);
    if i < 0 {
        seq![s]
    } else {
        proof {
            lemma_index_of_bound(s, c);
        }
        seq![s.take(i)] + spec_split(s.skip(i + 1), c)
    }
}

/// Splits `s` at each `c`.
pub fn split_on(s: &[char], c: char) -> (parts: Vec<Vec<char>>)
    ensures
        char_views(parts@) == spec_split(s@, c),
{
    let mut parts: Vec<Vec<char>> = Vec::new();
    let mut start: usize = 0;
    let mut i: usize = 0;
    assert(s@.skip(0) =~= s@);
    while i < s.len()
        invariant
            start <= i <= s.len(),
            spec_split(s@, c) == char_views(parts@) + spec_split(s@.skip(start as int), c),
            forall|k: int| start <= k < i ==> s@[k] != c,
        decreases s.len() - i,
    {
        if s[i] == c {
            let ghost rest = s@.skip(start as int);
            proof {
                lemma_index_of_found(rest, c, (i - start) as int);
                assert(rest.skip(i - start + 1) =~= s@.skip(i + 1));
                assert(rest.take(i - start) =~= s@.subrange(start as int, i as int));
            }
            let mut piece: Vec<char> = Vec::new();
            let mut k = start;
            while k < i
                invariant
                    start <= k <= i < s.len(),
                    piece@ == s@.subrange(start as int, k as int),
                decreases i - k,
            {
                piece.push(s[k]);
                k = k + 1;
            }
            proof {
                assert(char_views(parts@.push(piece)) =~= char_views(parts@).push(piece@));
                assert(seq![piece@] + spec_split(s@.skip(i + 1), c) == spec_split(rest, c));
                assert(char_views(parts@.push(piece)) + spec_split(s@.skip(i + 1), c)
                    =~= char_views(parts@) + (seq![piece@] + spec_split(s@.skip(i + 1), c)));
            }
            parts.push(piece);
            start = i + 1;
        }
        i = i + 1;
    }
    let ghost rest = s@.skip(start as int);
    proof {
        lemma_index_of_absent(rest, c);
    }
    let mut piece: Vec<char> = Vec::new();
    let mut k = start;
    while k < s.len()
        invariant
            start <= k <= s.len(),
            piece@ == s@.subrange(start as int, k as int),
        decreases s.len() - k,
    {
        piece.push(s[k]);
        k = k + 1;
    }
    proof {
        assert(piece@ =~= rest);
        assert(char_views(parts@.push(piece)) =~= char_views(parts@).push(piece@));
        assert(spec_split(rest, c) == seq![rest]);
        assert(spec_split(s@, c) =~= char_views(parts@.push(piece)));
    }
    parts.push(piece);
    parts
}

/// What `str::to_uppercase` returns for a string (Unicode uppercase mapping).
pub uninterp spec fn spec_to_uppercase(s: Seq<char>) -> Seq<char>;

/// `str::to_uppercase`.
#[verifier::external_body]
pub(crate) fn to_uppercase(s: &str) -> (r: String)
    ensures
        r@ == spec_to_uppercase(s@),
{
    s.to_uppercase()
}

/// What `String::from_utf8_lossy` returns for a byte sequence. The standard
/// library documents that valid UTF-8 comes back decoded unchanged; what it
/// makes of invalid sequences (U+FFFD replacements) is not stated here.
pub uninterp spec fn spec_utf8_lossy(b: Seq<u8>) -> Seq<char>;

/// `String::from_utf8_lossy`, owned.
#[verifier::external_body]
pub(crate) fn utf8_lossy(b: &[u8]) -> (r: String)
    ensures
        r@ == spec_utf8_lossy(b@),
        vstd::utf8::valid_utf8(b@) ==> r@ == vstd::utf8::decode_utf8(b@),
{
    String::from_utf8_lossy(b).into_owned()
}

/// The bytes of `n` spaces.
pub open spec fn spaces(n: nat) -> Seq<u8> {
    Seq::new(n, |i: int| 32u8)
}

/// Appends the UTF-8 bytes of `s`.
pub fn push_str(out: &mut Vec<u8>, s: &str)
    ensures
        final(out)@ == old(out)@ + vstd::utf8::encode_utf8(s@),
{
    let b = s.as_bytes();
    let mut i: usize = 0;
    while i < b.len()
        invariant
            i <= b@.len(),
            b@ == vstd::utf8::encode_utf8(s@),
            out@ == old(out)@ + b@.take(i as int),
        decreases b.len() - i,
    {
        out.push(b[i]);
        i = i + 1;
        assert(out@ =~= old(out)@ + b@.take(i as int));
    }
    assert(b@.take(i as int) =~= b@);
}

/// Appends the bytes `b`.
pub fn push_bytes(out: &mut Vec<u8>, b: &[u8])
    ensures
        final(out)@ == old(out)@ + b@,
{
    let mut i: usize = 0;
    while i < b.len()
        invariant
            i <= b@.len(),
            out@ == old(out)@ + b@.take(i as int),
        decreases b.len() - i,
    {
        out.push(b[i]);
        i = i + 1;
        assert(out@ =~= old(out)@ + b@.take(i as int));
    }
    assert(b@.take(i as int) =~= b@);
}

/// Appends `n` spaces.
pub fn push_spaces(out: &mut Vec<u8>, n: usize)
    ensures
        final(out)@ == old(out)@ + spaces(n as nat),
{
    let mut i: usize = 0;
    while i < n
        invariant
            i <= n,
            out@ == old(out)@ + spaces(i as nat),
        decreases n - i,
    {
        out.push(32u8);
        i = i + 1;
        assert(out@ =~= old(out)@ + spaces(i as nat));
    }
}

} // verus!

verus! {

/// What `str::parse` gives for an unsigned integer type whose largest
/// value is `max`: an optional `+`, then one or more ASCII digits, with a
/// value of at most `max`.
pub open spec fn spec_parse_unsigned(s: Seq<char>, max: int) -> Option<int> {
    if s.len() == 0 {
        None
    } else {
        let digits = if s[0] == '+' { s.skip(1) } else { s };
        let v = spec_digits_value(digits);
        if digits.len() == 0 || !all_digits(digits) || v > max {
            None
        } else {
            Some(v)
        }
    }
}

/// Parses an unsigned decimal integer of at most `max`, as `str::parse`
/// does for the unsigned type whose largest value is `max`.
pub fn parse_unsigned(s: &str, max: u64) -> (r: Option<u64>)
    ensures
        r is Some <==> spec_parse_unsigned(s@, max as int) is Some,
        r matches Some(x) ==> spec_parse_unsigned(s@, max as int) == Some(x as int),
{
    let c = chars_of(s);
    let n = c.len();
    if n == 0 {
        return None;
    }
    let start: usize = if c[0] == '+' { 1 } else { 0 };
    let ghost digits = if c@[0] == '+' { c@.skip(1) } else { c@ };
    assert(digits =~= c@.skip(start as int));
    if start == n {
        return None;
    }
    let mut acc: u64 = 0;
    let mut i: usize = start;
    while i < n
        invariant
            start <= i <= n,
            n == c.len(),
            c@ == s@,
            n > 0,
            digits == (if s@[0] == '+' { s@.skip(1) } else { s@ }),
            digits =~= c@.skip(start as int),
            all_digits(digits.take(i - start)),
            acc == spec_digits_value(digits.take(i - start)),
            acc <= max,
        decreases n - i,
    {
        let ch = c[i];
        if !('0' <= ch && ch <= '9') {
            proof {
                assert(digits[(i - start) as int] == ch);
            }
            return None;
        }
        let d: u64 = (ch as u32 - '0' as u32) as u64;
        let ghost prefix = digits.take(i - start);
        let ghost next = digits.take(i - start + 1);
        proof {
            assert(next.drop_last() =~= prefix);
            assert(next.last() == ch);
            assert(all_digits(next));
        }
        let step = match acc.checked_mul(10) {
            Some(m) => m.checked_add(d),
            None => None,
        };
        match step {
            Some(v) if v <= max => {
                acc = v;
            },
            _ => {
                proof {
                    lemma_digits_value_nonneg(prefix);
                    lemma_digits_value_nonneg(next);
                }
                let rest_digits = all_digits_from(&c, start);
                proof {
                    if rest_digits {
                        lemma_digits_value_monotone(digits, i - start + 1);
                    }
                }
                return None;
            },
        }
        i = i + 1;
    }
    proof {
        assert(digits.take(n - start) =~= digits);
    }
    Some(acc)
}

/// The concatenation of all the pieces, in order.
pub open spec fn concat_all(parts: Seq<Seq<char>>) -> Seq<char>
    decreases parts.len(),
{
    if parts.len() == 0 {
        Seq::empty()
    } else {
        concat_all(parts.drop_last()) + parts.last()
    }
}

} // verus!
