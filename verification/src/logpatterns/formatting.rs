//! Formatting and colouring of log lines.
//!
//! ```text
//! CRITICAL module::thing::foobl │ message here with rest of width
//! LEVEL    MODULE or TIME       │ message wrapped if it has no line endings; as-is if \n present
//! 8 chars  20 chars             │ termwidth - 32 chars wide
//!                               │ key=value cells filling the width, aligned in columns
//! ```

use bytes::BytesMut;
use vstd::prelude::*;
use vstd::string::StringExecFns;
use vstd::utf8::encode_utf8;

use crate::text::{buffer_bytes, buffer_extend, buffer_len, char_views, spec_lines, spec_utf8_lossy,
    split_lines, utf8_lossy, chars_of, push_spaces, push_str, spaces,
    spec_split, spec_to_uppercase, spec_trim, split_on, string_of, to_uppercase, trim_chars};
use super::columns::{column_text, columns_defined, spec_columns, string_views, sum_of, widths_of};
use crate::defaults::chars_equal;

verus! {

/// Width of the level column.
pub const LEVEL_WIDTH: usize = 8;
/// Width of the module or time column.
pub const MODULE_WIDTH: usize = 20;
/// The separator in front of the message column.
pub const COL_SEP: &'static str = " │ ";

/// Level labels: bright blue, bold, right-aligned to `LEVEL_WIDTH`.
pub const LEVEL_TRACE: &'static str = "\x1b[94m\x1b[1m   TRACE\x1b[0m\x1b[39m";
pub const LEVEL_DEBUG: &'static str = "\x1b[94m\x1b[1m   DEBUG\x1b[0m\x1b[39m";
pub const LEVEL_INFO: &'static str = "\x1b[94m\x1b[1m    INFO\x1b[0m\x1b[39m";
pub const LEVEL_WARN: &'static str = "\x1b[94m\x1b[1m    WARN\x1b[0m\x1b[39m";
pub const LEVEL_ERROR: &'static str = "\x1b[94m\x1b[1m   ERROR\x1b[0m\x1b[39m";
pub const LEVEL_FATAL: &'static str = "\x1b[94m\x1b[1m   FATAL\x1b[0m\x1b[39m";
pub const LEVEL_CRITICAL: &'static str = "\x1b[94m\x1b[1mCRITICAL\x1b[0m\x1b[39m";
/// The label of lines that are JSON but no recognized log line.
pub const JSON_HEADER: &'static str = "\x1b[94m\x1b[1m    json\x1b[0m\x1b[39m";

/// Blue, around a timestamp.
pub const TIMESTAMP_START: &'static str = "\x1b[94m";
pub const TIMESTAMP_END: &'static str = "\x1b[39m";

/// Bright yellow and bold, around a request id.
pub const REQUEST_ID_START: &'static str = "\x1b[93m\x1b[1m";
pub const REQUEST_ID_END: &'static str = "\x1b[0m\x1b[39m";

/// The label for a level name, by its upper-case form; unknown levels are
/// shown as INFO.
pub open spec fn spec_level_label(upper: Seq<char>) -> Seq<char> {
    if upper == "TRACE"@ {
        LEVEL_TRACE@
    } else if upper == "DEBUG"@ {
        LEVEL_DEBUG@
    } else if upper == "INFO"@ {
        LEVEL_INFO@
    } else if upper == "WARN"@ || upper == "WARNING"@ {
        LEVEL_WARN@
    } else if upper == "ERROR"@ {
        LEVEL_ERROR@
    } else if upper == "FATAL"@ {
        LEVEL_FATAL@
    } else if upper == "CRITICAL"@ || upper == "CRIT"@ {
        LEVEL_CRITICAL@
    } else {
        LEVEL_INFO@
    }
}

/// The label bytes for a level, whatever its case.
pub open spec fn level_bytes(level: Seq<char>) -> Seq<u8> {
    encode_utf8(spec_level_label(spec_to_uppercase(level)))
}

fn level_label(level: &str) -> (r: &'static str)
    ensures
        r@ == spec_level_label(spec_to_uppercase(level@)),
{
    let upper = to_uppercase(level);
    let u = chars_of(upper.as_str());
    let u = u.as_slice();
    if chars_equal(u, "TRACE") {
        LEVEL_TRACE
    } else if chars_equal(u, "DEBUG") {
        LEVEL_DEBUG
    } else if chars_equal(u, "INFO") {
        LEVEL_INFO
    } else if chars_equal(u, "WARN") || chars_equal(u, "WARNING") {
        LEVEL_WARN
    } else if chars_equal(u, "ERROR") {
        LEVEL_ERROR
    } else if chars_equal(u, "FATAL") {
        LEVEL_FATAL
    } else if chars_equal(u, "CRITICAL") || chars_equal(u, "CRIT") {
        LEVEL_CRITICAL
    } else {
        LEVEL_INFO
    }
}

/// The coloured, right-aligned label bytes for a log level.
pub fn get_level_bytes(level: &str) -> (r: &'static [u8])
    ensures
        r@ == level_bytes(level@),
{
    level_label(level).as_bytes()
}

/// Appends `count` spaces to `buffer`.
pub fn pad_spaces(buffer: &mut BytesMut, count: usize)
    requires
        buffer_bytes(*old(buffer)).len() + count <= isize::MAX,
    ensures
        buffer_bytes(*final(buffer)) == buffer_bytes(*old(buffer)) + spaces(count as nat),
{
    let mut pad: Vec<u8> = Vec::new();
    push_spaces(&mut pad, count);
    assert(pad@ =~= Seq::<u8>::empty() + spaces(count as nat));
    buffer_extend(buffer, pad.as_slice());
}

/// Layout of a rendered line, from the terminal width and whether the
/// time column is shown.
#[derive(Clone, Copy, Debug)]
pub struct LayoutMetrics {
    /// Width left for the message after the level and module/time columns
    /// and their separators.
    pub max_message_width: usize,
    /// Leading spaces of continuation lines, so that they line up under the
    /// message column.
    pub padding: usize,
    /// Whether the time column is shown.
    pub show_time: bool,
}

/// The layout for a terminal `term_width` columns wide.
pub open spec fn spec_layout(term_width: usize, show_time: bool) -> LayoutMetrics {
    LayoutMetrics {
        max_message_width: if term_width >= LEVEL_WIDTH + MODULE_WIDTH + 4 {
            (term_width - (LEVEL_WIDTH + MODULE_WIDTH + 4)) as usize
        } else {
            0
        },
        padding: if show_time { (LEVEL_WIDTH + 1 + MODULE_WIDTH) as usize } else { LEVEL_WIDTH },
        show_time,
    }
}

/// `textwrap::termwidth`: the width of the terminal on standard output, or
/// 80 when it is not a terminal. It depends on the terminal, so nothing is
/// stated of it.
#[verifier::external_body]
fn terminal_width() -> usize {
    textwrap::termwidth()
}

impl LayoutMetrics {
    /// The layout for a terminal of the given width.
    pub fn for_width(term_width: usize, show_time: bool) -> (r: Self)
        ensures
            r == spec_layout(term_width, show_time),
    {
        let max_message_width = term_width.saturating_sub(LEVEL_WIDTH + MODULE_WIDTH + 4);
        let padding = if show_time { LEVEL_WIDTH + 1 + MODULE_WIDTH } else { LEVEL_WIDTH };
        LayoutMetrics { max_message_width, padding, show_time }
    }

    /// The layout for the terminal on standard output.
    pub fn current(show_time: bool) -> (r: Self)
        ensures
            exists|w: usize| r == spec_layout(w, show_time),
    {
        let w = terminal_width();
        Self::for_width(w, show_time)
    }
}

} // verus!

verus! {

/// `OwoColorize::red`, displayed: the text between the escape codes of
/// the red foreground and of the default foreground.
#[verifier::external_body]
fn paint_red(s: &str) -> (r: String)
    ensures
        r@ == "\x1b[31m"@ + s@ + "\x1b[39m"@,
{
    owo_colors::OwoColorize::red(&s).to_string()
}

/// `OwoColorize::green`, displayed.
#[verifier::external_body]
fn paint_green(s: &str) -> (r: String)
    ensures
        r@ == "\x1b[32m"@ + s@ + "\x1b[39m"@,
{
    owo_colors::OwoColorize::green(&s).to_string()
}

/// `OwoColorize::green` on a text, without quotes.
pub(crate) fn paint_green_text(s: &str) -> (r: String)
    ensures
        r@ == green(s@),
{
    paint_green(s)
}

/// `OwoColorize::blue`, displayed.
#[verifier::external_body]
pub(crate) fn paint_blue(s: &str) -> (r: String)
    ensures
        r@ == "\x1b[34m"@ + s@ + "\x1b[39m"@,
{
    owo_colors::OwoColorize::blue(&s).to_string()
}

/// `OwoColorize::cyan`, displayed.
#[verifier::external_body]
pub(crate) fn paint_cyan(s: &str) -> (r: String)
    ensures
        r@ == "\x1b[36m"@ + s@ + "\x1b[39m"@,
{
    owo_colors::OwoColorize::cyan(&s).to_string()
}

/// `OwoColorize::bright_yellow`, displayed.
#[verifier::external_body]
fn paint_bright_yellow(s: &str) -> (r: String)
    ensures
        r@ == "\x1b[93m"@ + s@ + "\x1b[39m"@,
{
    owo_colors::OwoColorize::bright_yellow(&s).to_string()
}

/// `OwoColorize::bright_magenta`, displayed.
#[verifier::external_body]
pub(crate) fn paint_bright_magenta(s: &str) -> (r: String)
    ensures
        r@ == "\x1b[95m"@ + s@ + "\x1b[39m"@,
{
    owo_colors::OwoColorize::bright_magenta(&s).to_string()
}

/// `OwoColorize::dimmed`, displayed: the text between the escape codes of
/// the dim style and of the reset of all styles.
#[verifier::external_body]
pub(crate) fn paint_dimmed(s: &str) -> (r: String)
    ensures
        r@ == "\x1b[2m"@ + s@ + "\x1b[0m"@,
{
    owo_colors::OwoColorize::dimmed(&s).to_string()
}

/// A JSON value, as the log lines carry it. Numbers are held as the text
/// that `serde_json` displays for them; objects keep their entries in order.
#[derive(Debug)]
pub enum JsonValue {
    Null,
    Bool(bool),
    Number(String),
    String(String),
    Array(Vec<JsonValue>),
    Object(Vec<(String, JsonValue)>),
}

pub open spec fn red(s: Seq<char>) -> Seq<char> {
    "\x1b[31m"@ + s + "\x1b[39m"@
}

pub open spec fn green(s: Seq<char>) -> Seq<char> {
    "\x1b[32m"@ + s + "\x1b[39m"@
}

pub open spec fn cyan(s: Seq<char>) -> Seq<char> {
    "\x1b[36m"@ + s + "\x1b[39m"@
}

pub open spec fn bright_yellow(s: Seq<char>) -> Seq<char> {
    "\x1b[93m"@ + s + "\x1b[39m"@
}

pub open spec fn dimmed(s: Seq<char>) -> Seq<char> {
    "\x1b[2m"@ + s + "\x1b[0m"@
}

/// A JSON value in colour: null red, booleans cyan, numbers bright yellow,
/// strings green and quoted, arrays their elements joined by ", ", objects
/// `{ k=v, … }`.
pub open spec fn spec_colorize(v: JsonValue) -> Seq<char>
    decreases v, 0int,
{
    match v {
        JsonValue::Null => red("null"@),
        JsonValue::Bool(b) => cyan(if b { "true"@ } else { "false"@ }),
        JsonValue::Number(t) => bright_yellow(t@),
        JsonValue::String(t) => green("\""@ + t@ + "\""@),
        JsonValue::Array(vs) => spec_colorize_list(vs@, vs@.len() as int),
        JsonValue::Object(es) => "{ "@ + spec_colorize_entries(es@, es@.len() as int) + " }"@,
    }
}

/// The first `k` values in colour, joined by ", ".
pub open spec fn spec_colorize_list(vs: Seq<JsonValue>, k: int) -> Seq<char>
    decreases vs, k,
{
    if k <= 0 || k > vs.len() {
        Seq::empty()
    } else if k == 1 {
        spec_colorize(vs[0])
    } else {
        spec_colorize_list(vs, k - 1) + ", "@ + spec_colorize(vs[k - 1])
    }
}

/// The first `k` entries as `key=value` pairs in colour, joined by ", ".
pub open spec fn spec_colorize_entries(es: Seq<(String, JsonValue)>, k: int) -> Seq<char>
    decreases es, k,
{
    if k <= 0 || k > es.len() {
        Seq::empty()
    } else if k == 1 {
        spec_map_entry(es[0].0@, es[0].1)
    } else {
        spec_colorize_entries(es, k - 1) + ", "@ + spec_map_entry(es[k - 1].0@, es[k - 1].1)
    }
}

/// A `key=value` pair in colour: the key dimmed, the value as
/// `spec_colorize` shows it; an array shows its elements alone, without the
/// key.
pub open spec fn spec_map_entry(key: Seq<char>, v: JsonValue) -> Seq<char>
    decreases v, 1int,
{
    match v {
        JsonValue::Array(vs) => spec_colorize_list(vs@, vs@.len() as int),
        _ => dimmed(key) + "="@ + spec_colorize(v),
    }
}

} // verus!

verus! {

/// A JSON value in colour, as `spec_colorize` describes it.
pub fn colorize_json_value(value: &JsonValue) -> (r: String)
    ensures
        r@ == spec_colorize(*value),
    decreases value, 0int,
{
    match value {
        JsonValue::Null => paint_red("null"),
        JsonValue::Bool(b) => paint_cyan(if *b { "true" } else { "false" }),
        JsonValue::Number(t) => paint_bright_yellow(t.as_str()),
        JsonValue::String(t) => {
            let mut quoted = String::from_str("\"");
            quoted.append(t.as_str());
            quoted.append("\"");
            paint_green(quoted.as_str())
        },
        JsonValue::Array(vs) => colorize_list(vs),
        JsonValue::Object(es) => {
            let mut r = String::from_str("{ ");
            let inner = colorize_entries(es);
            r.append(inner.as_str());
            r.append(" }");
            r
        },
    }
}

/// The values in colour, joined by ", ".
fn colorize_list(vs: &Vec<JsonValue>) -> (r: String)
    ensures
        r@ == spec_colorize_list(vs@, vs@.len() as int),
    decreases vs, 1int,
{
    let mut r = String::new();
    let mut i: usize = 0;
    while i < vs.len()
        invariant
            i <= vs.len(),
            r@ == spec_colorize_list(vs@, i as int),
        decreases vs.len() - i,
    {
        proof {
            assert(decreases_to!(vs => vs@[i as int]));
        }
        let c = colorize_json_value(&vs[i]);
        if i > 0 {
            r.append(", ");
        }
        r.append(c.as_str());
        i = i + 1;
    }
    r
}

/// The entries as `key=value` pairs in colour, joined by ", ".
fn colorize_entries(es: &Vec<(String, JsonValue)>) -> (r: String)
    ensures
        r@ == spec_colorize_entries(es@, es@.len() as int),
    decreases es, 1int,
{
    let mut r = String::new();
    let mut i: usize = 0;
    while i < es.len()
        invariant
            i <= es.len(),
            r@ == spec_colorize_entries(es@, i as int),
        decreases es.len() - i,
    {
        proof {
            assert(decreases_to!(es => es@[i as int].1));
        }
        let c = colorize_map_entry(es[i].0.as_str(), &es[i].1);
        if i > 0 {
            r.append(", ");
        }
        r.append(c.as_str());
        i = i + 1;
    }
    r
}

/// A `key=value` pair in colour, as `spec_map_entry` describes it.
pub fn colorize_map_entry(key: &str, value: &JsonValue) -> (r: String)
    ensures
        r@ == spec_map_entry(key@, *value),
    decreases value, 1int,
{
    if let JsonValue::Array(vs) = value {
        return colorize_list(vs);
    }
    let mut r = paint_dimmed(key);
    r.append("=");
    let v = colorize_json_value(value);
    r.append(v.as_str());
    r
}

} // verus!

verus! {

/// A continuation line: `padding` spaces, the column separator, the
/// content and a newline.
pub open spec fn continuation(content: Seq<char>, padding: nat) -> Seq<u8> {
    spaces(padding) + encode_utf8(COL_SEP@) + encode_utf8(content) + seq![10u8]
}

/// Continuation lines for each of `parts`, in order.
pub open spec fn continuations(parts: Seq<Seq<char>>, padding: nat) -> Seq<u8>
    decreases parts.len(),
{
    if parts.len() == 0 {
        Seq::empty()
    } else {
        continuations(parts.drop_last(), padding) + continuation(parts.last(), padding)
    }
}

/// Each piece without leading and trailing white space.
pub open spec fn trimmed(parts: Seq<Seq<char>>) -> Seq<Seq<char>> {
    parts.map_values(|p: Seq<char>| spec_trim(p))
}

/// What `textwrap::wrap` returns for a text and a line width: the text
/// broken into lines at word boundaries (its optimal-fit algorithm).
pub uninterp spec fn textwrap_wrap(text: Seq<char>, width: usize) -> Seq<Seq<char>>;

/// `textwrap::wrap`, its lines owned.
#[verifier::external_body]
fn wrap_text(text: &str, width: usize) -> (r: Vec<String>)
    ensures
        string_views(r@) == textwrap_wrap(text@, width),
{
    textwrap::wrap(text, width).into_iter().map(|c| c.into_owned()).collect()
}

/// A message in the message column. With line breaks in it (a stack trace,
/// say) its lines are kept as they are; otherwise it stays on one line
/// when it fits `width` bytes and is wrapped to `width` when it does not.
/// The first line continues the line already written; the others are
/// continuation lines.
pub open spec fn spec_format_message(m: Seq<char>, padding: nat, width: usize) -> Seq<u8> {
    if m.contains('\n') {
        let parts = spec_split(m, '\n');
        encode_utf8(parts[0]) + seq![10u8] + continuations(parts.drop_first(), padding)
    } else if encode_utf8(m).len() <= width {
        encode_utf8(m) + seq![10u8]
    } else {
        let chunks = trimmed(textwrap_wrap(m, width));
        if chunks.len() == 0 {
            Seq::empty()
        } else {
            encode_utf8(chunks[0]) + seq![10u8] + continuations(chunks.drop_first(), padding)
        }
    }
}

/// Appends the UTF-8 bytes of the characters `v`.
pub fn push_chars(out: &mut Vec<u8>, v: &[char])
    ensures
        final(out)@ == old(out)@ + encode_utf8(v@),
{
    let s = string_of(v);
    push_str(out, s.as_str());
}

/// Appends a continuation line holding `content`.
fn push_continuation(out: &mut Vec<u8>, content: &[char], padding: usize)
    ensures
        final(out)@ == old(out)@ + continuation(content@, padding as nat),
{
    push_spaces(out, padding);
    push_str(out, COL_SEP);
    push_chars(out, content);
    out.push(10u8);
    assert(out@ =~= old(out)@ + continuation(content@, padding as nat));
}

/// Appends the message as `spec_format_message` lays it out.
pub fn format_message_into(out: &mut Vec<u8>, message: &str, padding: usize, max_message_width: usize)
    ensures
        final(out)@ == old(out)@ + spec_format_message(message@, padding as nat, max_message_width),
{
    let chars = chars_of(message);
    let mut has_newline = false;
    let mut i: usize = 0;
    while i < chars.len()
        invariant
            i <= chars.len(),
            chars@ == message@,
            has_newline == exists|k: int| 0 <= k < i && chars@[k] == '\n',
        decreases chars.len() - i,
    {
        if chars[i] == '\n' {
            has_newline = true;
        }
        i = i + 1;
    }
    assert(has_newline == message@.contains('\n'));
    if has_newline {
        let parts = split_on(chars.as_slice(), '\n');
        let ghost pv = char_views(parts@);
        assert(pv.len() >= 1);
        push_chars(out, parts[0].as_slice());
        out.push(10u8);
        let ghost head = out@;
        let mut k: usize = 1;
        while k < parts.len()
            invariant
                1 <= k <= parts.len(),
                pv == char_views(parts@),
                pv.len() == parts.len(),
                out@ == head + continuations(pv.drop_first().take(k - 1), padding as nat),
            decreases parts.len() - k,
        {
            assert(pv.drop_first().take(k as int).drop_last() =~= pv.drop_first().take(k - 1));
            assert(pv.drop_first().take(k as int).last() == parts@[k as int]@);
            push_continuation(out, parts[k].as_slice(), padding);
            k = k + 1;
        }
        assert(pv.drop_first().take(k - 1) =~= pv.drop_first());
        assert(out@ =~= old(out)@ + spec_format_message(message@, padding as nat, max_message_width));
    } else if message.as_bytes().len() <= max_message_width {
        push_str(out, message);
        out.push(10u8);
        assert(!message@.contains('\n'));
        assert(encode_utf8(message@).len() <= max_message_width);
        assert(out@ =~= old(out)@ + spec_format_message(message@, padding as nat, max_message_width));
    } else {
        let chunks = wrap_text(message, max_message_width);
        let ghost cv = trimmed(string_views(chunks@));
        if chunks.len() == 0 {
            assert(out@ =~= old(out)@ + spec_format_message(message@, padding as nat, max_message_width));
            return;
        }
        let first = trim_chars(chars_of(chunks[0].as_str()).as_slice());
        push_chars(out, first.as_slice());
        out.push(10u8);
        let ghost head = out@;
        let mut k: usize = 1;
        while k < chunks.len()
            invariant
                1 <= k <= chunks.len(),
                cv == trimmed(string_views(chunks@)),
                cv.len() == chunks.len(),
                out@ == head + continuations(cv.drop_first().take(k - 1), padding as nat),
            decreases chunks.len() - k,
        {
            assert(cv.drop_first().take(k as int).drop_last() =~= cv.drop_first().take(k - 1));
            let piece = trim_chars(chars_of(chunks[k].as_str()).as_slice());
            assert(cv.drop_first().take(k as int).last() == piece@);
            push_continuation(out, piece.as_slice(), padding);
            k = k + 1;
        }
        assert(cv.drop_first().take(k - 1) =~= cv.drop_first());
        assert(out@ =~= old(out)@ + spec_format_message(message@, padding as nat, max_message_width));
    }
}

/// Writes a message into the message column, as `spec_format_message`
/// lays it out.
pub fn format_message(message: &str, buffer: &mut BytesMut, padding: usize, max_message_width: usize)
    requires
        buffer_bytes(*old(buffer)).len() + spec_format_message(message@, padding as nat, max_message_width).len()
            <= isize::MAX,
    ensures
        buffer_bytes(*final(buffer)) == buffer_bytes(*old(buffer)) + spec_format_message(
            message@,
            padding as nat,
            max_message_width,
        ),
{
    let mut out: Vec<u8> = Vec::new();
    format_message_into(&mut out, message, padding, max_message_width);
    assert(out@ =~= spec_format_message(message@, padding as nat, max_message_width));
    buffer_extend(buffer, out.as_slice());
}

} // verus!

verus! {

/// An instant, as nanoseconds since the Unix epoch, the way `jiff` orders
/// timestamps.
#[derive(PartialEq, Eq, Structural, Clone, Copy, Debug)]
pub struct Timestamp {
    pub nanosecond: i128,
}

/// What `jiff` writes for the timestamp with these nanoseconds under the
/// `strftime` format `%F-%T` (date, a hyphen, time of day, in UTC); `None`
/// where `Timestamp::from_nanosecond` refuses them as out of range.
pub uninterp spec fn jiff_date_time_text(nanosecond: i128) -> Option<Seq<char>>;

/// `jiff::Timestamp::from_nanosecond`, then `strftime("%F-%T")` displayed.
#[verifier::external_body]
fn date_time_text(ts: &Timestamp) -> (r: Option<String>)
    ensures
        match r {
            Some(s) => jiff_date_time_text(ts.nanosecond) == Some(s@),
            None => jiff_date_time_text(ts.nanosecond) is None,
        },
{
    jiff::Timestamp::from_nanosecond(ts.nanosecond).ok().map(|t| t.strftime("%F-%T").to_string())
}

/// The text of the time column (empty for an instant that `jiff` cannot
/// hold).
pub open spec fn timestamp_text(ts: Timestamp) -> Seq<char> {
    match jiff_date_time_text(ts.nanosecond) {
        Some(t) => t,
        None => Seq::empty(),
    }
}

/// `text` between `start` and `end`, padded with spaces to `MODULE_WIDTH`
/// bytes of text, then the column separator.
pub open spec fn padded_column(start: Seq<char>, text: Seq<char>, end: Seq<char>) -> Seq<u8> {
    let len = encode_utf8(text).len();
    encode_utf8(start) + encode_utf8(text) + encode_utf8(end) + spaces(
        if len < MODULE_WIDTH { (MODULE_WIDTH - len) as nat } else { 0 },
    ) + encode_utf8(COL_SEP@)
}

/// The time column: the timestamp in blue.
pub open spec fn spec_timestamp_column(ts: Timestamp) -> Seq<u8> {
    padded_column(TIMESTAMP_START@, timestamp_text(ts), TIMESTAMP_END@)
}

/// The request id column: the id in bright yellow and bold.
pub open spec fn spec_request_id_column(id: Seq<char>) -> Seq<u8> {
    padded_column(REQUEST_ID_START@, id, REQUEST_ID_END@)
}

/// An empty module column.
pub open spec fn spec_empty_module_column() -> Seq<u8> {
    spaces(MODULE_WIDTH as nat) + encode_utf8(COL_SEP@)
}

fn push_padded_column(out: &mut Vec<u8>, start: &str, text: &str, end: &str)
    ensures
        final(out)@ == old(out)@ + padded_column(start@, text@, end@),
{
    push_str(out, start);
    push_str(out, text);
    push_str(out, end);
    let len = text.as_bytes().len();
    push_spaces(out, MODULE_WIDTH.saturating_sub(len));
    push_str(out, COL_SEP);
    assert(out@ =~= old(out)@ + padded_column(start@, text@, end@));
}

/// Appends the time column for `timestamp`.
pub fn timestamp_column_into(out: &mut Vec<u8>, timestamp: &Timestamp)
    ensures
        final(out)@ == old(out)@ + spec_timestamp_column(*timestamp),
{
    let text = match date_time_text(timestamp) {
        Some(t) => t,
        None => String::new(),
    };
    push_padded_column(out, TIMESTAMP_START, text.as_str(), TIMESTAMP_END);
}

/// Appends the request id column.
pub fn request_id_column_into(out: &mut Vec<u8>, request_id: &str)
    ensures
        final(out)@ == old(out)@ + spec_request_id_column(request_id@),
{
    push_padded_column(out, REQUEST_ID_START, request_id, REQUEST_ID_END);
}

/// Appends an empty module column.
pub fn empty_module_column_into(out: &mut Vec<u8>)
    ensures
        final(out)@ == old(out)@ + spec_empty_module_column(),
{
    push_spaces(out, MODULE_WIDTH);
    push_str(out, COL_SEP);
}

/// Writes the time column for `timestamp`: the timestamp in blue, padding
/// to `MODULE_WIDTH` and the column separator.
pub fn write_timestamp_column(buffer: &mut BytesMut, timestamp: &Timestamp)
    requires
        buffer_bytes(*old(buffer)).len() + spec_timestamp_column(*timestamp).len() <= isize::MAX,
    ensures
        buffer_bytes(*final(buffer)) == buffer_bytes(*old(buffer)) + spec_timestamp_column(*timestamp),
{
    let mut out: Vec<u8> = Vec::new();
    timestamp_column_into(&mut out, timestamp);
    assert(out@ =~= spec_timestamp_column(*timestamp));
    buffer_extend(buffer, out.as_slice());
}

/// Writes the request id column: the id in bright yellow, padding to
/// `MODULE_WIDTH` and the column separator.
pub fn write_request_id_column(buffer: &mut BytesMut, request_id: &str)
    requires
        buffer_bytes(*old(buffer)).len() + spec_request_id_column(request_id@).len() <= isize::MAX,
    ensures
        buffer_bytes(*final(buffer)) == buffer_bytes(*old(buffer)) + spec_request_id_column(request_id@),
{
    let mut out: Vec<u8> = Vec::new();
    request_id_column_into(&mut out, request_id);
    assert(out@ =~= spec_request_id_column(request_id@));
    buffer_extend(buffer, out.as_slice());
}

/// Writes an empty module column: padding and the separator.
pub fn write_empty_module_column(buffer: &mut BytesMut)
    requires
        buffer_bytes(*old(buffer)).len() + spec_empty_module_column().len() <= isize::MAX,
    ensures
        buffer_bytes(*final(buffer)) == buffer_bytes(*old(buffer)) + spec_empty_module_column(),
{
    let mut out: Vec<u8> = Vec::new();
    empty_module_column_into(&mut out);
    assert(out@ =~= spec_empty_module_column());
    buffer_extend(buffer, out.as_slice());
}

} // verus!

verus! {

/// The padding between cell columns.
pub const CELL_PADDING: usize = 5;

/// Cell widths are never negative, so with a positive padding the column
/// count is always defined.
proof fn lemma_columns_defined(cells: Seq<Seq<char>>, width: int, padding: int)
    requires
        padding > 0,
    ensures
        columns_defined(widths_of(cells), width, padding),
{
    let w = widths_of(cells);
    lemma_sum_nonneg(w);
    if w.len() > 1 {
        assert(sum_of(w) / (w.len() as int) >= 0) by (nonlinear_arith)
            requires sum_of(w) >= 0, w.len() > 1;
    }
}

proof fn lemma_sum_nonneg(w: Seq<int>)
    requires
        forall|i: int| 0 <= i < w.len() ==> w[i] >= 0,
    ensures
        sum_of(w) >= 0,
    decreases w.len(),
{
    if w.len() > 0 {
        lemma_sum_nonneg(w.drop_last());
    }
}

/// The laid-out cells as text: the columns of `spec_columns`, decoded.
pub open spec fn column_lines(cells: Seq<Seq<char>>, width: usize) -> Seq<Seq<char>> {
    spec_lines(spec_utf8_lossy(spec_columns(cells, width as int, CELL_PADDING)))
}

/// A continuation line for each line that holds more than white space.
pub open spec fn padded_lines(lines: Seq<Seq<char>>, padding: nat) -> Seq<u8>
    decreases lines.len(),
{
    if lines.len() == 0 {
        Seq::empty()
    } else {
        padded_lines(lines.drop_last(), padding) + if spec_trim(lines.last()).len() == 0 {
            Seq::empty()
        } else {
            continuation(lines.last(), padding)
        }
    }
}

/// The cells laid out in columns under the message: each line of them a
/// continuation line.
pub open spec fn spec_cells_block(cells: Seq<Seq<char>>, metrics: LayoutMetrics) -> Seq<u8> {
    if cells.len() == 0 {
        Seq::empty()
    } else {
        padded_lines(column_lines(cells, metrics.max_message_width), metrics.padding as nat)
    }
}

/// The lines of the cells laid out in columns, as text.
fn column_line_chars(cells: &[String], width: usize) -> (lines: Vec<Vec<char>>)
    ensures
        char_views(lines@) == column_lines(string_views(cells@), width),
{
    proof {
        lemma_columns_defined(string_views(cells@), width as int, CELL_PADDING as int);
    }
    let bytes = column_text(cells, width, CELL_PADDING);
    let text = utf8_lossy(bytes.as_slice());
    let chars = chars_of(text.as_str());
    split_lines(chars.as_slice())
}

/// Appends the cells as `spec_cells_block` lays them out.
pub fn cells_block_into(out: &mut Vec<u8>, cells: &[String], metrics: &LayoutMetrics)
    ensures
        final(out)@ == old(out)@ + spec_cells_block(string_views(cells@), *metrics),
{
    if cells.len() == 0 {
        assert(out@ =~= old(out)@ + spec_cells_block(string_views(cells@), *metrics));
        return;
    }
    let lines = column_line_chars(cells, metrics.max_message_width);
    let ghost lv = char_views(lines@);
    let mut i: usize = 0;
    while i < lines.len()
        invariant
            i <= lines.len(),
            lv == char_views(lines@),
            lv.len() == lines.len(),
            out@ == old(out)@ + padded_lines(lv.take(i as int), metrics.padding as nat),
        decreases lines.len() - i,
    {
        assert(lv.take(i + 1).drop_last() =~= lv.take(i as int));
        assert(lv.take(i + 1).last() == lines@[i as int]@);
        let t = trim_chars(lines[i].as_slice());
        if t.len() > 0 {
            push_continuation(out, lines[i].as_slice(), metrics.padding);
        }
        i = i + 1;
        assert(out@ =~= old(out)@ + padded_lines(lv.take(i as int), metrics.padding as nat));
    }
    assert(lv.take(lines.len() as int) =~= lv);
}

/// Writes the cells in columns, each line of them a continuation line
/// under the message column; lines of white space only are left out.
pub fn write_cells_with_padding(buffer: &mut BytesMut, cells: &[String], metrics: &LayoutMetrics)
    requires
        buffer_bytes(*old(buffer)).len() + spec_cells_block(string_views(cells@), *metrics).len()
            <= isize::MAX,
    ensures
        buffer_bytes(*final(buffer)) == buffer_bytes(*old(buffer)) + spec_cells_block(
            string_views(cells@),
            *metrics,
        ),
{
    let mut out: Vec<u8> = Vec::new();
    cells_block_into(&mut out, cells, metrics);
    assert(out@ =~= spec_cells_block(string_views(cells@), *metrics));
    buffer_extend(buffer, out.as_slice());
}

/// The lines of the laid-out cells: the first continues the line already
/// written, the others are continuation lines; every one ends in a newline.
pub open spec fn rest_lines(lines: Seq<Seq<char>>, padding: nat) -> Seq<u8>
    decreases lines.len(),
{
    if lines.len() == 0 {
        Seq::empty()
    } else if lines.len() == 1 {
        encode_utf8(lines[0]) + seq![10u8]
    } else {
        rest_lines(lines.drop_last(), padding) + continuation(lines.last(), padding)
    }
}

/// The cells laid out in columns after a header already written.
pub open spec fn spec_rest(cells: Seq<Seq<char>>, max_message_width: usize, padding: nat) -> Seq<u8> {
    if cells.len() == 0 {
        Seq::empty()
    } else {
        rest_lines(column_lines(cells, max_message_width), padding)
    }
}

/// Appends the cells as `spec_rest` lays them out.
pub fn rest_into(out: &mut Vec<u8>, cells: &[String], max_message_width: usize, padding: usize)
    ensures
        final(out)@ == old(out)@ + spec_rest(string_views(cells@), max_message_width, padding as nat),
{
    if cells.len() == 0 {
        assert(out@ =~= old(out)@ + spec_rest(string_views(cells@), max_message_width, padding as nat));
        return;
    }
    let lines = column_line_chars(cells, max_message_width);
    let ghost lv = char_views(lines@);
    let mut i: usize = 0;
    while i < lines.len()
        invariant
            i <= lines.len(),
            lv == char_views(lines@),
            lv.len() == lines.len(),
            out@ == old(out)@ + rest_lines(lv.take(i as int), padding as nat),
        decreases lines.len() - i,
    {
        assert(lv.take(i + 1).drop_last() =~= lv.take(i as int));
        assert(lv.take(i + 1).last() == lines@[i as int]@);
        if i == 0 {
            push_chars(out, lines[i].as_slice());
            out.push(10u8);
        } else {
            push_continuation(out, lines[i].as_slice(), padding);
        }
        i = i + 1;
        assert(out@ =~= old(out)@ + rest_lines(lv.take(i as int), padding as nat));
    }
    assert(lv.take(lines.len() as int) =~= lv);
}

/// Writes the cells in columns after a header already written on the
/// current line, and returns the length of the buffer.
pub fn write_rest(cells: &[String], buffer: &mut BytesMut, max_message_width: usize, padding: usize) -> (n: usize)
    requires
        buffer_bytes(*old(buffer)).len() + spec_rest(string_views(cells@), max_message_width, padding as nat).len()
            <= isize::MAX,
    ensures
        buffer_bytes(*final(buffer)) == buffer_bytes(*old(buffer)) + spec_rest(
            string_views(cells@),
            max_message_width,
            padding as nat,
        ),
        n == buffer_bytes(*final(buffer)).len(),
{
    let mut out: Vec<u8> = Vec::new();
    rest_into(&mut out, cells, max_message_width, padding);
    assert(out@ =~= spec_rest(string_views(cells@), max_message_width, padding as nat));
    buffer_extend(buffer, out.as_slice());
    buffer_len(buffer)
}

} // verus!

verus! {

/// A level name right-aligned to eight columns, in bold bright blue.
pub open spec fn right_aligned_label(name: Seq<char>) -> Seq<char> {
    "\x1b[94m\x1b[1m"@ + Seq::new((8 - name.len()) as nat, |_i: int| ' ') + name + "\x1b[0m\x1b[39m"@
}

/// A recognised level, in any case, is labelled with its own name
/// right-aligned to eight columns (`WARNING` as `WARN`, `CRIT` as
/// `CRITICAL`); any other level is labelled `INFO`.
pub proof fn law_level_labels(level: Seq<char>)
    ensures
        ({
            let u = spec_to_uppercase(level);
            &&& u == "TRACE"@ ==> spec_level_label(u) == right_aligned_label("TRACE"@)
            &&& u == "DEBUG"@ ==> spec_level_label(u) == right_aligned_label("DEBUG"@)
            &&& u == "INFO"@ ==> spec_level_label(u) == right_aligned_label("INFO"@)
            &&& (u == "WARN"@ || u == "WARNING"@) ==> spec_level_label(u) == right_aligned_label("WARN"@)
            &&& u == "ERROR"@ ==> spec_level_label(u) == right_aligned_label("ERROR"@)
            &&& u == "FATAL"@ ==> spec_level_label(u) == right_aligned_label("FATAL"@)
            &&& (u == "CRITICAL"@ || u == "CRIT"@) ==> spec_level_label(u) == right_aligned_label("CRITICAL"@)
            &&& (u != "TRACE"@ && u != "DEBUG"@ && u != "INFO"@ && u != "WARN"@ && u != "WARNING"@ && u != "ERROR"@
                && u != "FATAL"@ && u != "CRITICAL"@ && u != "CRIT"@) ==> spec_level_label(u) == right_aligned_label(
                "INFO"@,
            )
        }),
{
    reveal_strlit("\x1b[94m\x1b[1m");
    reveal_strlit("\x1b[0m\x1b[39m");
    reveal_strlit("TRACE");
    reveal_strlit("DEBUG");
    reveal_strlit("INFO");
    reveal_strlit("WARN");
    reveal_strlit("WARNING");
    reveal_strlit("ERROR");
    reveal_strlit("FATAL");
    reveal_strlit("CRITICAL");
    reveal_strlit("CRIT");
    reveal_strlit("\x1b[94m\x1b[1m   TRACE\x1b[0m\x1b[39m");
    reveal_strlit("\x1b[94m\x1b[1m   DEBUG\x1b[0m\x1b[39m");
    reveal_strlit("\x1b[94m\x1b[1m    INFO\x1b[0m\x1b[39m");
    reveal_strlit("\x1b[94m\x1b[1m    WARN\x1b[0m\x1b[39m");
    reveal_strlit("\x1b[94m\x1b[1m   ERROR\x1b[0m\x1b[39m");
    reveal_strlit("\x1b[94m\x1b[1m   FATAL\x1b[0m\x1b[39m");
    reveal_strlit("\x1b[94m\x1b[1mCRITICAL\x1b[0m\x1b[39m");
    assert(LEVEL_TRACE@ =~= right_aligned_label("TRACE"@));
    assert(LEVEL_DEBUG@ =~= right_aligned_label("DEBUG"@));
    assert(LEVEL_INFO@ =~= right_aligned_label("INFO"@));
    assert(LEVEL_WARN@ =~= right_aligned_label("WARN"@));
    assert(LEVEL_ERROR@ =~= right_aligned_label("ERROR"@));
    assert(LEVEL_FATAL@ =~= right_aligned_label("FATAL"@));
    assert(LEVEL_CRITICAL@ =~= right_aligned_label("CRITICAL"@));
    assert("TRACE"@.len() == 5 && "TRACE"@[0] == 'T');
    assert("DEBUG"@.len() == 5 && "DEBUG"@[0] == 'D');
    assert("INFO"@.len() == 4 && "INFO"@[0] == 'I');
    assert("WARN"@.len() == 4 && "WARN"@[0] == 'W');
    assert("WARNING"@.len() == 7 && "WARNING"@[0] == 'W');
    assert("ERROR"@.len() == 5 && "ERROR"@[0] == 'E');
    assert("FATAL"@.len() == 5 && "FATAL"@[0] == 'F');
    assert("CRITICAL"@.len() == 8 && "CRITICAL"@[0] == 'C');
    assert("CRIT"@.len() == 4 && "CRIT"@[0] == 'C');
}

} // verus!
