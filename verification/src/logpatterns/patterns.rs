//! The log line patterns that are recognized, and how each is rendered:
//! a level column, a time (or request id) column, the message, and the
//! remaining fields as coloured `key=value` cells laid out in columns.

use bytes::BytesMut;
use vstd::prelude::*;
use vstd::string::StringExecFns;
use vstd::utf8::encode_utf8;

use crate::text::{buffer_bytes, buffer_extend, buffer_len, chars_of, concat_all, decimal_chars,
    parse_unsigned, push_spaces, push_str, spaces, spec_decimal, spec_parse_unsigned, string_of};
use crate::defaults::chars_equal;
use super::columns::string_views;
use super::formatting::{cells_block_into, colorize_json_value, colorize_map_entry, dimmed,
    empty_module_column_into, format_message_into, get_level_bytes, green, level_bytes, request_id_column_into,
    rest_into, spec_cells_block, spec_colorize, spec_empty_module_column, spec_format_message,
    spec_map_entry, spec_request_id_column, spec_rest, spec_timestamp_column, timestamp_column_into,
    JsonValue, LayoutMetrics, Timestamp, COL_SEP, JSON_HEADER, MODULE_WIDTH};

verus! {

/// A cell for a string value: the key dimmed, `=`, the value quoted in
/// green.
pub open spec fn string_entry(key: Seq<char>, value: Seq<char>) -> Seq<char> {
    dimmed(key) + "="@ + green("\""@ + value + "\""@)
}

/// The cell for a string value, as `colorize_map_entry` renders a JSON
/// string.
pub fn string_cell(key: &str, value: &str) -> (r: String)
    ensures
        r@ == string_entry(key@, value@),
{
    let v = JsonValue::String(String::from_str(value));
    colorize_map_entry(key, &v)
}

/// A cell for an optional string value: none when it is absent.
pub open spec fn opt_entry(key: Seq<char>, v: Option<String>) -> Seq<Seq<char>> {
    match v {
        Some(s) => seq![string_entry(key, s@)],
        None => Seq::empty(),
    }
}

fn push_cell(cells: &mut Vec<String>, cell: String)
    ensures
        string_views(final(cells)@) == string_views(old(cells)@) + seq![cell@],
{
    cells.push(cell);
    assert(string_views(cells@) =~= string_views(old(cells)@) + seq![cell@]);
}

fn push_opt_cell(cells: &mut Vec<String>, key: &str, v: &Option<String>)
    ensures
        string_views(final(cells)@) == string_views(old(cells)@) + opt_entry(key@, *v),
{
    match v {
        Some(s) => push_cell(cells, string_cell(key, s.as_str())),
        None => {
            assert(string_views(cells@) =~= string_views(old(cells)@) + opt_entry(key@, *v));
        },
    }
}

fn append_cells(cells: &mut Vec<String>, more: Vec<String>)
    ensures
        string_views(final(cells)@) == string_views(old(cells)@) + string_views(more@),
{
    let mut more = more;
    let ghost m = more@;
    cells.append(&mut more);
    assert(string_views(cells@) =~= string_views(old(cells)@) + string_views(m));
}

/// The cells for the fields caught by a catch-all: one `key=value` cell
/// per entry of an object; a value of any other kind gets the key `rest`.
pub open spec fn spec_rest_cells(rest: JsonValue) -> Seq<Seq<char>> {
    match rest {
        JsonValue::Object(es) => es@.map_values(|e: (String, JsonValue)| spec_map_entry(e.0@, e.1)),
        _ => seq![spec_map_entry("rest"@, rest)],
    }
}

/// The cells for the fields caught by a catch-all.
pub fn rest_to_cells(rest: &JsonValue) -> (r: Vec<String>)
    ensures
        string_views(r@) == spec_rest_cells(*rest),
{
    let mut r: Vec<String> = Vec::new();
    match rest {
        JsonValue::Object(es) => {
            let mut i: usize = 0;
            while i < es.len()
                invariant
                    i <= es.len(),
                    string_views(r@) == es@.map_values(|e: (String, JsonValue)| spec_map_entry(e.0@, e.1)).take(
                        i as int,
                    ),
                decreases es.len() - i,
            {
                let c = colorize_map_entry(es[i].0.as_str(), &es[i].1);
                push_cell(&mut r, c);
                i = i + 1;
                assert(string_views(r@) =~= es@.map_values(|e: (String, JsonValue)| spec_map_entry(e.0@, e.1)).take(
                    i as int,
                ));
            }
            assert(es@.map_values(|e: (String, JsonValue)| spec_map_entry(e.0@, e.1)).take(es.len() as int)
                =~= es@.map_values(|e: (String, JsonValue)| spec_map_entry(e.0@, e.1)));
        },
        _ => {
            let c = colorize_map_entry("rest", rest);
            push_cell(&mut r, c);
            assert(string_views(r@) =~= spec_rest_cells(*rest));
        },
    }
    r
}

/// The level label and the time column of a line that always carries a
/// timestamp: the column when the layout shows time, the bare separator
/// otherwise.
pub open spec fn header_with_timestamp(level: Seq<char>, ts: Timestamp, show_time: bool) -> Seq<u8> {
    level_bytes(level) + if show_time {
        seq![32u8] + spec_timestamp_column(ts)
    } else {
        encode_utf8(COL_SEP@)
    }
}

fn push_header_with_timestamp(out: &mut Vec<u8>, level: &str, ts: &Timestamp, show_time: bool)
    ensures
        final(out)@ == old(out)@ + header_with_timestamp(level@, *ts, show_time),
{
    let lb = get_level_bytes(level);
    let mut i: usize = 0;
    while i < lb.len()
        invariant
            i <= lb@.len(),
            out@ == old(out)@ + lb@.take(i as int),
        decreases lb.len() - i,
    {
        out.push(lb[i]);
        i = i + 1;
        assert(out@ =~= old(out)@ + lb@.take(i as int));
    }
    assert(lb@.take(lb.len() as int) =~= lb@);
    let ghost mid = out@;
    if show_time {
        out.push(32u8);
        timestamp_column_into(out, ts);
    } else {
        push_str(out, COL_SEP);
    }
    assert(out@ =~= old(out)@ + header_with_timestamp(level@, *ts, show_time));
}

fn push_level(out: &mut Vec<u8>, level: &str)
    ensures
        final(out)@ == old(out)@ + level_bytes(level@),
{
    let lb = get_level_bytes(level);
    let mut i: usize = 0;
    while i < lb.len()
        invariant
            i <= lb@.len(),
            out@ == old(out)@ + lb@.take(i as int),
        decreases lb.len() - i,
    {
        out.push(lb[i]);
        i = i + 1;
        assert(out@ =~= old(out)@ + lb@.take(i as int));
    }
    assert(lb@.take(lb.len() as int) =~= lb@);
}

/// JSON that is no recognized log line: printed as its fields.
#[derive(Debug)]
pub struct GenericJson {
    pub rest: JsonValue,
}

/// The rendering of JSON that is no log line: the `json` label, padding
/// past the time column when the layout shows one, the separator, and the
/// fields as cells continuing the line.
pub open spec fn spec_generic_render(g: GenericJson, metrics: LayoutMetrics) -> Seq<u8> {
    encode_utf8(JSON_HEADER@) + (if metrics.show_time { spaces(MODULE_WIDTH as nat) } else { Seq::empty() })
        + encode_utf8(COL_SEP@) + spec_rest(spec_rest_cells(g.rest), metrics.max_message_width, metrics.padding as nat)
}

impl GenericJson {
    /// The fields as cells.
    pub fn cells(&self) -> (r: Vec<String>)
        ensures
            string_views(r@) == spec_rest_cells(self.rest),
    {
        rest_to_cells(&self.rest)
    }

    /// Appends the rendering of the line.
    pub fn render(&self, out: &mut Vec<u8>, metrics: &LayoutMetrics)
        ensures
            final(out)@ == old(out)@ + spec_generic_render(*self, *metrics),
    {
        push_str(out, JSON_HEADER);
        if metrics.show_time {
            push_spaces(out, MODULE_WIDTH);
        }
        push_str(out, COL_SEP);
        let cells = self.cells();
        rest_into(out, cells.as_slice(), metrics.max_message_width, metrics.padding);
        assert(out@ =~= old(out)@ + spec_generic_render(*self, *metrics));
    }

    /// Writes the rendering of the line and returns the length of the
    /// buffer.
    pub fn write(&self, buffer: &mut BytesMut, metrics: &LayoutMetrics) -> (n: usize)
        requires
            buffer_bytes(*old(buffer)).len() + spec_generic_render(*self, *metrics).len() <= isize::MAX,
        ensures
            buffer_bytes(*final(buffer)) == buffer_bytes(*old(buffer)) + spec_generic_render(*self, *metrics),
            n == buffer_bytes(*final(buffer)).len(),
    {
        let mut out: Vec<u8> = Vec::new();
        self.render(&mut out, metrics);
        assert(out@ =~= spec_generic_render(*self, *metrics));
        buffer_extend(buffer, out.as_slice());
        buffer_len(buffer)
    }
}

/// A line of which only the timestamp was recognized.
#[derive(Debug)]
pub struct Timestamped {
    pub timestamp: Timestamp,
    pub rest: JsonValue,
}

/// The rendering of such a line: the `json` label, the time column when
/// the layout shows one (the separator alone otherwise), and the fields as
/// cells continuing the line.
pub open spec fn spec_timestamped_render(t: Timestamped, metrics: LayoutMetrics) -> Seq<u8> {
    encode_utf8(JSON_HEADER@) + (if metrics.show_time {
        seq![32u8] + spec_timestamp_column(t.timestamp)
    } else {
        encode_utf8(COL_SEP@)
    }) + spec_rest(spec_rest_cells(t.rest), metrics.max_message_width, metrics.padding as nat)
}

impl Timestamped {
    /// The fields as cells.
    pub fn cells(&self) -> (r: Vec<String>)
        ensures
            string_views(r@) == spec_rest_cells(self.rest),
    {
        rest_to_cells(&self.rest)
    }

    /// Appends the rendering of the line.
    pub fn render(&self, out: &mut Vec<u8>, metrics: &LayoutMetrics)
        ensures
            final(out)@ == old(out)@ + spec_timestamped_render(*self, *metrics),
    {
        push_str(out, JSON_HEADER);
        if metrics.show_time {
            out.push(32u8);
            timestamp_column_into(out, &self.timestamp);
        } else {
            push_str(out, COL_SEP);
        }
        let cells = self.cells();
        rest_into(out, cells.as_slice(), metrics.max_message_width, metrics.padding);
        assert(out@ =~= old(out)@ + spec_timestamped_render(*self, *metrics));
    }

    /// Writes the rendering of the line and returns the length of the
    /// buffer.
    pub fn write(&self, buffer: &mut BytesMut, metrics: &LayoutMetrics) -> (n: usize)
        requires
            buffer_bytes(*old(buffer)).len() + spec_timestamped_render(*self, *metrics).len() <= isize::MAX,
        ensures
            buffer_bytes(*final(buffer)) == buffer_bytes(*old(buffer)) + spec_timestamped_render(*self, *metrics),
            n == buffer_bytes(*final(buffer)).len(),
    {
        let mut out: Vec<u8> = Vec::new();
        self.render(&mut out, metrics);
        assert(out@ =~= spec_timestamped_render(*self, *metrics));
        buffer_extend(buffer, out.as_slice());
        buffer_len(buffer)
    }
}

} // verus!

verus! {

/// A log line with a message and a level, and any of the fields that
/// servers, web servers, tracing, Docker and Kubernetes commonly add.
#[derive(Debug)]
pub struct Message {
    pub timestamp: Option<Timestamp>,
    pub message: String,
    pub level: String,
    pub method: Option<String>,
    pub url: Option<String>,
    pub status: Option<String>,
    pub elapsed: Option<String>,
    pub size: Option<String>,
    pub request_id: Option<String>,
    pub thread: Option<String>,
    pub host: Option<String>,
    pub user_agent: Option<String>,
    pub module: Option<String>,
    pub file: Option<String>,
    pub line: Option<usize>,
    pub function: Option<String>,
    pub response_bytes: Option<String>,
    pub request_duration: Option<String>,
    pub upstream_time: Option<String>,
    pub upstream_header_time: Option<String>,
    pub upstream_server: Option<String>,
    pub upstream_status: Option<String>,
    pub path: Option<String>,
    pub query_args: Option<String>,
    pub request_size: Option<String>,
    pub trace_id: Option<String>,
    pub span_id: Option<String>,
    pub trace_flags: Option<String>,
    pub resource: Option<JsonValue>,
    pub log: Option<String>,
    pub stream: Option<String>,
    pub pod: Option<String>,
    pub namespace: Option<String>,
    pub container: Option<String>,
    pub node: Option<String>,
    /// Every other field.
    pub rest: JsonValue,
}

/// The pieces of the source location: the module, `::` and the function,
/// ` (` and the file, `:` and the line, and a closing `)` unless the last
/// piece is the ` (` itself.
pub open spec fn location_parts(
    module: Option<String>,
    function: Option<String>,
    file: Option<String>,
    line: Option<usize>,
) -> Seq<Seq<char>> {
    let p1: Seq<Seq<char>> = match module {
        Some(m) => seq![m@],
        None => Seq::empty(),
    };
    let p2: Seq<Seq<char>> = match function {
        Some(f) => (if p1.len() > 0 { p1.push("::"@) } else { p1 }).push(f@),
        None => p1,
    };
    match file {
        Some(fl) => {
            let q = (if p2.len() > 0 { p2.push(" ("@) } else { p2 }).push(fl@);
            let q2 = match line {
                Some(n) => q.push(":"@ + spec_decimal(n as nat)),
                None => q,
            };
            if q2.last() != " ("@ { q2.push(")"@) } else { q2 }
        },
        None => p2,
    }
}

/// The location cell, when there is anything to locate.
pub open spec fn location_cells(m: Message) -> Seq<Seq<char>> {
    let parts = location_parts(m.module, m.function, m.file, m.line);
    if parts.len() > 0 {
        seq![string_entry("location"@, concat_all(parts))]
    } else {
        Seq::empty()
    }
}

/// The HTTP status with its reason phrase, for the codes that have one
/// here.
pub open spec fn reason_phrase(code: int) -> Option<Seq<char>> {
    if code == 200 {
        Some("200 OK"@)
    } else if code == 201 {
        Some("201 Created"@)
    } else if code == 204 {
        Some("204 No Content"@)
    } else if code == 400 {
        Some("400 Bad Request"@)
    } else if code == 401 {
        Some("401 Unauthorized"@)
    } else if code == 403 {
        Some("403 Forbidden"@)
    } else if code == 404 {
        Some("404 Not Found"@)
    } else if code == 405 {
        Some("405 Method Not Allowed"@)
    } else if code == 500 {
        Some("500 Internal Server Error"@)
    } else if code == 502 {
        Some("502 Bad Gateway"@)
    } else if code == 503 {
        Some("503 Service Unavailable"@)
    } else {
        None
    }
}

/// The status as shown: a recognized code (as a `u16`) with its reason
/// phrase, any other value as it is, nothing when there is none.
pub open spec fn status_text(status: Option<String>) -> Seq<char> {
    match status {
        Some(v) => match spec_parse_unsigned(v@, 65535) {
            Some(code) => match reason_phrase(code) {
                Some(p) => p,
                None => v@,
            },
            None => v@,
        },
        None => Seq::empty(),
    }
}

/// The request line: `method url status` when both method and url are
/// there, `url` directly followed by the status with a url alone, the
/// status otherwise.
pub open spec fn request_line(method: Option<String>, url: Option<String>, status: Option<String>) -> Seq<char> {
    let st = status_text(status);
    match url {
        Some(u) => match method {
            Some(me) => me@ + " "@ + u@ + " "@ + st,
            None => u@ + st,
        },
        None => st,
    }
}

/// The cells of the request: the request line (with `&` and the query
/// arguments), the path (with the arguments when there is no request line)
/// or else the bare arguments, and the request size in bytes.
pub open spec fn request_cells(m: Message) -> Seq<Seq<char>> {
    let req = request_line(m.method, m.url, m.status);
    let has_req = req.len() > 0;
    let c1: Seq<Seq<char>> = if has_req {
        seq![string_entry("request"@, match m.query_args {
            Some(q) => req + "&"@ + q@,
            None => req,
        })]
    } else {
        Seq::empty()
    };
    let c2: Seq<Seq<char>> = match m.path {
        Some(p) => seq![string_entry("path"@, match m.query_args {
            Some(q) => if !has_req { p@ + "&"@ + q@ } else { p@ },
            None => p@,
        })],
        None => match m.query_args {
            Some(q) => if !has_req { seq![string_entry("args"@, q@)] } else { Seq::empty() },
            None => Seq::empty(),
        },
    };
    let c3: Seq<Seq<char>> = match m.request_size {
        Some(s) => seq![string_entry("request_size"@, s@ + " bytes"@)],
        None => Seq::empty(),
    };
    c1 + c2 + c3
}

/// Docker and Kubernetes cells.
pub open spec fn container_cells(m: Message) -> Seq<Seq<char>> {
    opt_entry("log"@, m.log) + opt_entry("stream"@, m.stream) + opt_entry("pod"@, m.pod)
        + opt_entry("namespace"@, m.namespace) + opt_entry("container"@, m.container) + opt_entry("node"@, m.node)
}

/// Web server performance cells; the upstream header time in ms.
pub open spec fn performance_cells(m: Message) -> Seq<Seq<char>> {
    opt_entry("response_bytes"@, m.response_bytes) + opt_entry("request_time"@, m.request_duration)
        + opt_entry("upstream_time"@, m.upstream_time) + opt_entry("upstream"@, m.upstream_server)
        + opt_entry("upstream_status"@, m.upstream_status) + match m.upstream_header_time {
        Some(t) => seq![string_entry("upstream_header_time"@, t@ + "ms"@)],
        None => Seq::empty(),
    }
}

/// Tracing cells; the resource as a bare JSON value.
pub open spec fn tracing_cells(m: Message) -> Seq<Seq<char>> {
    opt_entry("trace_id"@, m.trace_id) + opt_entry("span_id"@, m.span_id) + opt_entry(
        "trace_flags"@,
        m.trace_flags,
    ) + match m.resource {
        Some(r) => seq![spec_colorize(r)],
        None => Seq::empty(),
    }
}

/// Thread, host, user agent, elapsed time and size.
pub open spec fn other_cells(m: Message) -> Seq<Seq<char>> {
    opt_entry("thread"@, m.thread) + opt_entry("host"@, m.host) + opt_entry("user_agent"@, m.user_agent)
        + opt_entry("elapsed"@, m.elapsed) + opt_entry("size"@, m.size)
}

/// All the cells of a message line after the message, in order; the
/// request id is among them when the time column does not show it.
pub open spec fn spec_message_cells(m: Message, show_time: bool) -> Seq<Seq<char>> {
    location_cells(m) + (if !show_time { opt_entry("reqid"@, m.request_id) } else { Seq::empty() })
        + request_cells(m) + container_cells(m) + performance_cells(m) + tracing_cells(m) + other_cells(m)
        + spec_rest_cells(m.rest)
}

/// The time column of a message line: the timestamp, else the request id,
/// else an empty column, after a space; the bare separator when the layout
/// shows no time column.
pub open spec fn message_time_column(m: Message, show_time: bool) -> Seq<u8> {
    if show_time {
        seq![32u8] + match m.timestamp {
            Some(t) => spec_timestamp_column(t),
            None => match m.request_id {
                Some(r) => spec_request_id_column(r@),
                None => spec_empty_module_column(),
            },
        }
    } else {
        encode_utf8(COL_SEP@)
    }
}

/// The rendering of a message line: level, time column, the message, and
/// the cells in columns below it.
pub open spec fn spec_message_render(m: Message, metrics: LayoutMetrics) -> Seq<u8> {
    level_bytes(m.level@) + message_time_column(m, metrics.show_time) + spec_format_message(
        m.message@,
        metrics.padding as nat,
        metrics.max_message_width,
    ) + spec_cells_block(spec_message_cells(m, metrics.show_time), metrics)
}

} // verus!

verus! {

fn concat_strings(parts: &Vec<String>) -> (r: String)
    ensures
        r@ == concat_all(string_views(parts@)),
{
    let mut r = String::new();
    let mut i: usize = 0;
    while i < parts.len()
        invariant
            i <= parts.len(),
            r@ == concat_all(string_views(parts@).take(i as int)),
        decreases parts.len() - i,
    {
        assert(string_views(parts@).take(i + 1).drop_last() =~= string_views(parts@).take(i as int));
        r.append(parts[i].as_str());
        i = i + 1;
    }
    assert(string_views(parts@).take(parts.len() as int) =~= string_views(parts@));
    r
}

fn push_part(parts: &mut Vec<String>, s: String)
    ensures
        string_views(final(parts)@) == string_views(old(parts)@).push(s@),
{
    parts.push(s);
    assert(string_views(parts@) =~= string_views(old(parts)@).push(s@));
}

/// The pieces of the source location, as `location_parts` lists them.
fn location_pieces(
    module: &Option<String>,
    function: &Option<String>,
    file: &Option<String>,
    line: Option<usize>,
) -> (r: Vec<String>)
    ensures
        string_views(r@) == location_parts(*module, *function, *file, line),
{
    let mut parts: Vec<String> = Vec::new();
    if let Some(m) = module {
        push_part(&mut parts, m.clone());
    }
    let ghost p1 = string_views(parts@);
    if let Some(f) = function {
        if parts.len() > 0 {
            push_part(&mut parts, String::from_str("::"));
        }
        push_part(&mut parts, f.clone());
    }
    let ghost p2 = string_views(parts@);
    if let Some(fl) = file {
        if parts.len() > 0 {
            push_part(&mut parts, String::from_str(" ("));
        }
        push_part(&mut parts, fl.clone());
        if let Some(n) = line {
            let digits = decimal_chars(n as u64);
            let mut piece = String::from_str(":");
            let d = string_of(digits.as_slice());
            piece.append(d.as_str());
            push_part(&mut parts, piece);
        }
        let ghost q2 = string_views(parts@);
        assert(parts@.len() == q2.len());
        assert(q2.len() > 0);
        let last = chars_of(parts[parts.len() - 1].as_str());
        assert(last@ == q2.last());
        if !chars_equal(last.as_slice(), " (") {
            push_part(&mut parts, String::from_str(")"));
        }
    }
    assert(string_views(parts@) =~= location_parts(*module, *function, *file, line));
    parts
}

/// The status with its reason phrase, as `status_text` gives it.
fn status_string(status: &Option<String>) -> (r: String)
    ensures
        r@ == status_text(*status),
{
    match status {
        None => {
            let r = String::new();
            assert(r@ =~= status_text(*status));
            r
        },
        Some(v) => match parse_unsigned(v.as_str(), 65535) {
            Some(200) => String::from_str("200 OK"),
            Some(201) => String::from_str("201 Created"),
            Some(204) => String::from_str("204 No Content"),
            Some(400) => String::from_str("400 Bad Request"),
            Some(401) => String::from_str("401 Unauthorized"),
            Some(403) => String::from_str("403 Forbidden"),
            Some(404) => String::from_str("404 Not Found"),
            Some(405) => String::from_str("405 Method Not Allowed"),
            Some(500) => String::from_str("500 Internal Server Error"),
            Some(502) => String::from_str("502 Bad Gateway"),
            Some(503) => String::from_str("503 Service Unavailable"),
            _ => v.clone(),
        },
    }
}

impl Message {
    fn push_location_cells(&self, cells: &mut Vec<String>)
        ensures
            string_views(final(cells)@) == string_views(old(cells)@) + location_cells(*self),
    {
        let parts = location_pieces(&self.module, &self.function, &self.file, self.line);
        if parts.len() > 0 {
            let text = concat_strings(&parts);
            push_cell(cells, string_cell("location", text.as_str()));
        } else {
            assert(string_views(cells@) =~= string_views(old(cells)@) + location_cells(*self));
        }
    }

    fn push_request_cells(&self, cells: &mut Vec<String>)
        ensures
            string_views(final(cells)@) == string_views(old(cells)@) + request_cells(*self),
    {
        let status = status_string(&self.status);
        let mut req = match &self.url {
            Some(u) => match &self.method {
                Some(me) => {
                    let mut r = me.clone();
                    r.append(" ");
                    r.append(u.as_str());
                    r.append(" ");
                    r.append(status.as_str());
                    r
                },
                None => {
                    let mut r = u.clone();
                    r.append(status.as_str());
                    r
                },
            },
            None => status,
        };
        assert(req@ == request_line(self.method, self.url, self.status));
        let has_req = req.as_str().unicode_len() > 0;
        let ghost c0 = string_views(cells@);
        if has_req {
            if let Some(q) = &self.query_args {
                req.append("&");
                req.append(q.as_str());
            }
            push_cell(cells, string_cell("request", req.as_str()));
        }
        let ghost c1 = string_views(cells@);
        match &self.path {
            Some(p) => {
                let mut full = p.clone();
                if !has_req {
                    if let Some(q) = &self.query_args {
                        full.append("&");
                        full.append(q.as_str());
                    }
                }
                push_cell(cells, string_cell("path", full.as_str()));
            },
            None => {
                if !has_req {
                    if let Some(q) = &self.query_args {
                        push_cell(cells, string_cell("args", q.as_str()));
                    }
                }
            },
        }
        let ghost c2 = string_views(cells@);
        if let Some(s) = &self.request_size {
            let mut t = s.clone();
            t.append(" bytes");
            push_cell(cells, string_cell("request_size", t.as_str()));
        }
        assert(string_views(cells@) =~= string_views(old(cells)@) + request_cells(*self));
    }

    fn push_container_cells(&self, cells: &mut Vec<String>)
        ensures
            string_views(final(cells)@) == string_views(old(cells)@) + container_cells(*self),
    {
        push_opt_cell(cells, "log", &self.log);
        push_opt_cell(cells, "stream", &self.stream);
        push_opt_cell(cells, "pod", &self.pod);
        push_opt_cell(cells, "namespace", &self.namespace);
        push_opt_cell(cells, "container", &self.container);
        push_opt_cell(cells, "node", &self.node);
        assert(string_views(cells@) =~= string_views(old(cells)@) + container_cells(*self));
    }

    fn push_performance_cells(&self, cells: &mut Vec<String>)
        ensures
            string_views(final(cells)@) == string_views(old(cells)@) + performance_cells(*self),
    {
        push_opt_cell(cells, "response_bytes", &self.response_bytes);
        push_opt_cell(cells, "request_time", &self.request_duration);
        push_opt_cell(cells, "upstream_time", &self.upstream_time);
        push_opt_cell(cells, "upstream", &self.upstream_server);
        push_opt_cell(cells, "upstream_status", &self.upstream_status);
        let ghost before = string_views(cells@);
        if let Some(t) = &self.upstream_header_time {
            let mut v = t.clone();
            v.append("ms");
            push_cell(cells, string_cell("upstream_header_time", v.as_str()));
        }
        assert(string_views(cells@) =~= string_views(old(cells)@) + performance_cells(*self));
    }

    fn push_tracing_cells(&self, cells: &mut Vec<String>)
        ensures
            string_views(final(cells)@) == string_views(old(cells)@) + tracing_cells(*self),
    {
        push_opt_cell(cells, "trace_id", &self.trace_id);
        push_opt_cell(cells, "span_id", &self.span_id);
        push_opt_cell(cells, "trace_flags", &self.trace_flags);
        let ghost before = string_views(cells@);
        if let Some(r) = &self.resource {
            push_cell(cells, colorize_json_value(r));
        }
        assert(string_views(cells@) =~= string_views(old(cells)@) + tracing_cells(*self));
    }

    fn push_other_cells(&self, cells: &mut Vec<String>)
        ensures
            string_views(final(cells)@) == string_views(old(cells)@) + other_cells(*self),
    {
        push_opt_cell(cells, "thread", &self.thread);
        push_opt_cell(cells, "host", &self.host);
        push_opt_cell(cells, "user_agent", &self.user_agent);
        push_opt_cell(cells, "elapsed", &self.elapsed);
        push_opt_cell(cells, "size", &self.size);
        assert(string_views(cells@) =~= string_views(old(cells)@) + other_cells(*self));
    }

    /// All the cells that follow the message, as `spec_message_cells`
    /// lists them.
    pub fn message_cells(&self, show_time: bool) -> (r: Vec<String>)
        ensures
            string_views(r@) == spec_message_cells(*self, show_time),
    {
        let mut cells: Vec<String> = Vec::new();
        self.push_location_cells(&mut cells);
        let ghost a = string_views(cells@);
        if !show_time {
            push_opt_cell(&mut cells, "reqid", &self.request_id);
        }
        let ghost b = string_views(cells@);
        self.push_request_cells(&mut cells);
        self.push_container_cells(&mut cells);
        self.push_performance_cells(&mut cells);
        self.push_tracing_cells(&mut cells);
        self.push_other_cells(&mut cells);
        let rest = rest_to_cells(&self.rest);
        append_cells(&mut cells, rest);
        assert(string_views(cells@) =~= spec_message_cells(*self, show_time));
        cells
    }

    /// The fields caught by the catch-all, as cells.
    pub fn cells(&self) -> (r: Vec<String>)
        ensures
            string_views(r@) == spec_rest_cells(self.rest),
    {
        rest_to_cells(&self.rest)
    }

    /// Appends the rendering of the line, as `spec_message_render`
    /// describes it.
    pub fn render(&self, out: &mut Vec<u8>, metrics: &LayoutMetrics)
        ensures
            final(out)@ == old(out)@ + spec_message_render(*self, *metrics),
    {
        push_level(out, self.level.as_str());
        let ghost a = out@;
        if metrics.show_time {
            out.push(32u8);
            match &self.timestamp {
                Some(t) => timestamp_column_into(out, t),
                None => match &self.request_id {
                    Some(r) => request_id_column_into(out, r.as_str()),
                    None => empty_module_column_into(out),
                },
            }
        } else {
            push_str(out, COL_SEP);
        }
        assert(out@ =~= a + message_time_column(*self, metrics.show_time));
        let ghost b = out@;
        format_message_into(out, self.message.as_str(), metrics.padding, metrics.max_message_width);
        let ghost c = out@;
        let cells = self.message_cells(metrics.show_time);
        cells_block_into(out, cells.as_slice(), metrics);
        assert(out@ =~= old(out)@ + spec_message_render(*self, *metrics));
    }

    /// Writes the rendering of the line and returns the length of the
    /// buffer.
    pub fn write(&self, buffer: &mut BytesMut, metrics: &LayoutMetrics) -> (n: usize)
        requires
            buffer_bytes(*old(buffer)).len() + spec_message_render(*self, *metrics).len() <= isize::MAX,
        ensures
            buffer_bytes(*final(buffer)) == buffer_bytes(*old(buffer)) + spec_message_render(*self, *metrics),
            n == buffer_bytes(*final(buffer)).len(),
    {
        let mut out: Vec<u8> = Vec::new();
        self.render(&mut out, metrics);
        assert(out@ =~= spec_message_render(*self, *metrics));
        buffer_extend(buffer, out.as_slice());
        buffer_len(buffer)
    }
}

} // verus!

verus! {

/// A line as log4j or slf4j emit it.
#[derive(Debug)]
pub struct Java {
    pub timestamp: Timestamp,
    pub message: String,
    pub level: String,
    pub thread: String,
    pub request_id: String,
    pub class: String,
    pub method: String,
    pub source: String,
    pub stack_trace: String,
    pub rest: JsonValue,
}

/// The cells of a Java line: the request id and thread when not empty,
/// `class :: method`, the source, and the other fields.
pub open spec fn java_cells(j: Java) -> Seq<Seq<char>> {
    (if j.request_id@.len() > 0 { seq![string_entry("reqid"@, j.request_id@)] } else { Seq::empty() })
        + (if j.thread@.len() > 0 { seq![string_entry("thread"@, j.thread@)] } else { Seq::empty() })
        + seq![string_entry("class"@, j.class@ + " :: "@ + j.method@), string_entry("source"@, j.source@)]
        + spec_rest_cells(j.rest)
}

/// A stack trace in the message column, when there is one.
pub open spec fn stack_trace_block(st: Seq<char>, metrics: LayoutMetrics) -> Seq<u8> {
    if st.len() > 0 {
        spaces(metrics.padding as nat) + encode_utf8(COL_SEP@) + spec_format_message(
            st,
            metrics.padding as nat,
            metrics.max_message_width,
        )
    } else {
        Seq::empty()
    }
}

fn push_stack_trace(out: &mut Vec<u8>, st: &str, metrics: &LayoutMetrics)
    ensures
        final(out)@ == old(out)@ + stack_trace_block(st@, *metrics),
{
    if st.unicode_len() > 0 {
        push_spaces(out, metrics.padding);
        push_str(out, COL_SEP);
        format_message_into(out, st, metrics.padding, metrics.max_message_width);
    }
    assert(out@ =~= old(out)@ + stack_trace_block(st@, *metrics));
}

/// The rendering of a Java line: level and time columns, the message, the
/// cells, and the stack trace, when there is one, in the message column.
pub open spec fn spec_java_render(j: Java, metrics: LayoutMetrics) -> Seq<u8> {
    header_with_timestamp(j.level@, j.timestamp, metrics.show_time) + spec_format_message(
        j.message@,
        metrics.padding as nat,
        metrics.max_message_width,
    ) + spec_cells_block(java_cells(j), metrics) + stack_trace_block(j.stack_trace@, metrics)
}

impl Java {
    /// The cells that follow the message.
    pub fn java_cells(&self) -> (r: Vec<String>)
        ensures
            string_views(r@) == java_cells(*self),
    {
        let mut cells: Vec<String> = Vec::new();
        if self.request_id.as_str().unicode_len() > 0 {
            push_cell(&mut cells, string_cell("reqid", self.request_id.as_str()));
        }
        let ghost a = string_views(cells@);
        if self.thread.as_str().unicode_len() > 0 {
            push_cell(&mut cells, string_cell("thread", self.thread.as_str()));
        }
        let ghost b = string_views(cells@);
        let mut class = self.class.clone();
        class.append(" :: ");
        class.append(self.method.as_str());
        push_cell(&mut cells, string_cell("class", class.as_str()));
        push_cell(&mut cells, string_cell("source", self.source.as_str()));
        let rest = rest_to_cells(&self.rest);
        append_cells(&mut cells, rest);
        assert(string_views(cells@) =~= java_cells(*self));
        cells
    }

    /// The fields caught by the catch-all, as cells.
    pub fn cells(&self) -> (r: Vec<String>)
        ensures
            string_views(r@) == spec_rest_cells(self.rest),
    {
        rest_to_cells(&self.rest)
    }

    /// Appends the rendering of the line.
    pub fn render(&self, out: &mut Vec<u8>, metrics: &LayoutMetrics)
        ensures
            final(out)@ == old(out)@ + spec_java_render(*self, *metrics),
    {
        let ghost o = out@;
        let ghost h = header_with_timestamp(self.level@, self.timestamp, metrics.show_time);
        let ghost f = spec_format_message(self.message@, metrics.padding as nat, metrics.max_message_width);
        let ghost c = spec_cells_block(java_cells(*self), *metrics);
        let ghost t = stack_trace_block(self.stack_trace@, *metrics);
        assert(spec_java_render(*self, *metrics) == h + f + c + t);
        push_header_with_timestamp(out, self.level.as_str(), &self.timestamp, metrics.show_time);
        format_message_into(out, self.message.as_str(), metrics.padding, metrics.max_message_width);
        let cells = self.java_cells();
        cells_block_into(out, cells.as_slice(), metrics);
        push_stack_trace(out, self.stack_trace.as_str(), metrics);
        assert(out@ =~= o + h + f + c + t);
    }

    /// Writes the rendering of the line and returns the length of the
    /// buffer.
    pub fn write(&self, buffer: &mut BytesMut, metrics: &LayoutMetrics) -> (n: usize)
        requires
            buffer_bytes(*old(buffer)).len() + spec_java_render(*self, *metrics).len() <= isize::MAX,
        ensures
            buffer_bytes(*final(buffer)) == buffer_bytes(*old(buffer)) + spec_java_render(*self, *metrics),
            n == buffer_bytes(*final(buffer)).len(),
    {
        let mut out: Vec<u8> = Vec::new();
        self.render(&mut out, metrics);
        assert(out@ =~= spec_java_render(*self, *metrics));
        buffer_extend(buffer, out.as_slice());
        buffer_len(buffer)
    }
}

/// What `humansize::format_size` writes for a byte count with the `BINARY`
/// options (powers of 1024, `KiB`, `MiB`, …).
pub uninterp spec fn human_size_binary(n: usize) -> Seq<char>;

/// `humansize::format_size(n, BINARY)`.
#[verifier::external_body]
fn format_size_binary(n: usize) -> (r: String)
    ensures
        r@ == human_size_binary(n),
{
    humansize::format_size(n, humansize::BINARY)
}

/// A canonical log line: every field of a request present.
#[derive(Debug)]
pub struct Canonical {
    pub timestamp: Timestamp,
    pub level: String,
    pub message: String,
    pub method: String,
    pub url: String,
    pub status: usize,
    pub elapsed: String,
    pub size: usize,
    pub request_id: String,
    pub remote_host: String,
    pub user_agent: String,
    pub rest: JsonValue,
}

/// The cells of a canonical line: request id, method, url, the status as a
/// number, the size in binary units, elapsed time, remote host, user agent
/// and the other fields.
pub open spec fn canonical_cells(c: Canonical) -> Seq<Seq<char>> {
    seq![
        string_entry("reqid"@, c.request_id@),
        string_entry("method"@, c.method@),
        string_entry("url"@, c.url@),
        dimmed("status"@) + "="@ + super::formatting::bright_yellow(spec_decimal(c.status as nat)),
        string_entry("size"@, human_size_binary(c.size)),
        string_entry("elapsed"@, c.elapsed@),
        string_entry("remote_host"@, c.remote_host@),
        string_entry("user_agent"@, c.user_agent@),
    ] + spec_rest_cells(c.rest)
}

/// The rendering of a canonical line: level and time columns, the message
/// and the cells.
pub open spec fn spec_canonical_render(c: Canonical, metrics: LayoutMetrics) -> Seq<u8> {
    header_with_timestamp(c.level@, c.timestamp, metrics.show_time) + spec_format_message(
        c.message@,
        metrics.padding as nat,
        metrics.max_message_width,
    ) + spec_cells_block(canonical_cells(c), metrics)
}

impl Canonical {
    /// The cells that follow the message.
    pub fn canonical_cells(&self) -> (r: Vec<String>)
        ensures
            string_views(r@) == canonical_cells(*self),
    {
        let mut cells: Vec<String> = Vec::new();
        push_cell(&mut cells, string_cell("reqid", self.request_id.as_str()));
        push_cell(&mut cells, string_cell("method", self.method.as_str()));
        push_cell(&mut cells, string_cell("url", self.url.as_str()));
        let digits = decimal_chars(self.status as u64);
        let status = JsonValue::Number(string_of(digits.as_slice()));
        push_cell(&mut cells, colorize_map_entry("status", &status));
        let sized = format_size_binary(self.size);
        push_cell(&mut cells, string_cell("size", sized.as_str()));
        push_cell(&mut cells, string_cell("elapsed", self.elapsed.as_str()));
        push_cell(&mut cells, string_cell("remote_host", self.remote_host.as_str()));
        push_cell(&mut cells, string_cell("user_agent", self.user_agent.as_str()));
        let rest = rest_to_cells(&self.rest);
        append_cells(&mut cells, rest);
        assert(string_views(cells@) =~= canonical_cells(*self));
        cells
    }

    /// The fields caught by the catch-all, as cells.
    pub fn cells(&self) -> (r: Vec<String>)
        ensures
            string_views(r@) == spec_rest_cells(self.rest),
    {
        rest_to_cells(&self.rest)
    }

    /// Appends the rendering of the line.
    pub fn render(&self, out: &mut Vec<u8>, metrics: &LayoutMetrics)
        ensures
            final(out)@ == old(out)@ + spec_canonical_render(*self, *metrics),
    {
        let ghost o = out@;
        let ghost h = header_with_timestamp(self.level@, self.timestamp, metrics.show_time);
        let ghost f = spec_format_message(self.message@, metrics.padding as nat, metrics.max_message_width);
        let ghost c = spec_cells_block(canonical_cells(*self), *metrics);
        assert(spec_canonical_render(*self, *metrics) == h + f + c);
        push_header_with_timestamp(out, self.level.as_str(), &self.timestamp, metrics.show_time);
        format_message_into(out, self.message.as_str(), metrics.padding, metrics.max_message_width);
        let cells = self.canonical_cells();
        cells_block_into(out, cells.as_slice(), metrics);
        assert(out@ =~= o + h + f + c);
    }

    /// Writes the rendering of the line and returns the length of the
    /// buffer.
    pub fn write(&self, buffer: &mut BytesMut, metrics: &LayoutMetrics) -> (n: usize)
        requires
            buffer_bytes(*old(buffer)).len() + spec_canonical_render(*self, *metrics).len() <= isize::MAX,
        ensures
            buffer_bytes(*final(buffer)) == buffer_bytes(*old(buffer)) + spec_canonical_render(*self, *metrics),
            n == buffer_bytes(*final(buffer)).len(),
    {
        let mut out: Vec<u8> = Vec::new();
        self.render(&mut out, metrics);
        assert(out@ =~= spec_canonical_render(*self, *metrics));
        buffer_extend(buffer, out.as_slice());
        buffer_len(buffer)
    }
}

} // verus!
