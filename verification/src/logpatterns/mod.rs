//! Log line patterns and their pretty-printed rendering. A line is one of
//! the recognized patterns, from the most specific to the least, or plain
//! text; everything outside this module only sees a printable line.

pub mod columns;
pub mod formatting;
pub mod logfmt;
pub mod patterns;
pub mod sourced;

use bytes::BytesMut;
use vstd::prelude::*;
use vstd::utf8::encode_utf8;

use crate::text::{buffer_bytes, buffer_extend, buffer_len, buffer_new, push_str, spec_utf8_lossy, utf8_lossy};
use columns::string_views;
use formatting::{LayoutMetrics, Timestamp};
use logfmt::{spec_logfmt_cells, spec_logfmt_render, spec_logfmt_timestamp, LogfmtLine};
use patterns::{spec_canonical_render, spec_generic_render, spec_java_render, spec_message_render,
    spec_rest_cells, spec_timestamped_render, Canonical, GenericJson, Java, Message, Timestamped};

verus! {

/// A log line: one of the recognized patterns, most specific first, or
/// plain text.
#[derive(Debug)]
pub enum Printable {
    Canonical(Box<Canonical>),
    Java(Box<Java>),
    Message(Box<Message>),
    TimeOnly(Timestamped),
    Json(GenericJson),
    Logfmt(LogfmtLine),
    Text(String),
}

/// The rendering of a line; plain text as it is.
pub open spec fn spec_printable_render(p: Printable, metrics: LayoutMetrics) -> Seq<u8> {
    match p {
        Printable::Canonical(c) => spec_canonical_render(*c, metrics),
        Printable::Java(j) => spec_java_render(*j, metrics),
        Printable::Message(m) => spec_message_render(*m, metrics),
        Printable::TimeOnly(t) => spec_timestamped_render(t, metrics),
        Printable::Json(g) => spec_generic_render(g, metrics),
        Printable::Logfmt(l) => spec_logfmt_render(l, metrics),
        Printable::Text(t) => encode_utf8(t@),
    }
}

/// The cells of a line beyond its primary fields; none for plain text.
pub open spec fn spec_printable_cells(p: Printable) -> Seq<Seq<char>> {
    match p {
        Printable::Canonical(c) => spec_rest_cells(c.rest),
        Printable::Java(j) => spec_rest_cells(j.rest),
        Printable::Message(m) => spec_rest_cells(m.rest),
        Printable::TimeOnly(t) => spec_rest_cells(t.rest),
        Printable::Json(g) => spec_rest_cells(g.rest),
        Printable::Logfmt(l) => spec_logfmt_cells(l),
        Printable::Text(_) => Seq::empty(),
    }
}

/// The timestamp that a line carries, if any.
pub open spec fn spec_printable_timestamp(p: Printable) -> Option<Timestamp> {
    match p {
        Printable::Canonical(c) => Some(c.timestamp),
        Printable::Java(j) => Some(j.timestamp),
        Printable::Message(m) => m.timestamp,
        Printable::TimeOnly(t) => Some(t.timestamp),
        Printable::Json(_) => None,
        Printable::Logfmt(l) => spec_logfmt_timestamp(l.pairs@),
        Printable::Text(_) => None,
    }
}

impl Printable {
    /// Appends the rendering of the line.
    pub fn render(&self, out: &mut Vec<u8>, metrics: &LayoutMetrics)
        ensures
            final(out)@ == old(out)@ + spec_printable_render(*self, *metrics),
    {
        match self {
            Printable::Canonical(c) => c.render(out, metrics),
            Printable::Java(j) => j.render(out, metrics),
            Printable::Message(m) => m.render(out, metrics),
            Printable::TimeOnly(t) => t.render(out, metrics),
            Printable::Json(g) => g.render(out, metrics),
            Printable::Logfmt(l) => l.render(out, metrics),
            Printable::Text(t) => push_str(out, t.as_str()),
        }
    }

    /// Writes the rendering of the line into `buffer` and returns the length
    /// of the buffer.
    pub fn write(&self, buffer: &mut BytesMut, metrics: &LayoutMetrics) -> (n: usize)
        requires
            buffer_bytes(*old(buffer)).len() + spec_printable_render(*self, *metrics).len() <= isize::MAX,
        ensures
            buffer_bytes(*final(buffer)) == buffer_bytes(*old(buffer)) + spec_printable_render(*self, *metrics),
            n == buffer_bytes(*final(buffer)).len(),
    {
        let mut out: Vec<u8> = Vec::new();
        self.render(&mut out, metrics);
        assert(out@ =~= spec_printable_render(*self, *metrics));
        buffer_extend(buffer, out.as_slice());
        buffer_len(buffer)
    }

    /// Writes the rendering of the line into `buffer` when the buffer can
    /// take it (a `BytesMut` holds at most `isize::MAX` bytes), and returns
    /// the length of the buffer; `None`, with the buffer unchanged, when it
    /// cannot.
    pub fn write_checked(&self, buffer: &mut BytesMut, metrics: &LayoutMetrics) -> (r: Option<usize>)
        ensures
            r is Some <==> buffer_bytes(*old(buffer)).len() + spec_printable_render(*self, *metrics).len()
                <= isize::MAX,
            r matches Some(n) ==> buffer_bytes(*final(buffer)) == buffer_bytes(*old(buffer)) + spec_printable_render(
                *self,
                *metrics,
            ) && n == buffer_bytes(*final(buffer)).len(),
            r is None ==> buffer_bytes(*final(buffer)) == buffer_bytes(*old(buffer)),
    {
        let mut out: Vec<u8> = Vec::new();
        self.render(&mut out, metrics);
        assert(out@ =~= spec_printable_render(*self, *metrics));
        let held = buffer_len(buffer);
        if held > isize::MAX as usize || out.len() > isize::MAX as usize - held {
            return None;
        }
        Some(self.write(buffer, metrics))
    }

    /// A new buffer holding the rendering of the line; `None` when the
    /// rendering is longer than a `BytesMut` can hold.
    pub fn to_buffer(&self, metrics: &LayoutMetrics) -> (r: Option<BytesMut>)
        ensures
            r is Some <==> spec_printable_render(*self, *metrics).len() <= isize::MAX,
            r matches Some(b) ==> buffer_bytes(b) == spec_printable_render(*self, *metrics),
    {
        let mut b = buffer_new();
        match self.write_checked(&mut b, metrics) {
            Some(_) => {
                assert(buffer_bytes(b) =~= spec_printable_render(*self, *metrics));
                Some(b)
            },
            None => None,
        }
    }

    /// The cells beyond the primary fields.
    pub fn cells(&self) -> (r: Vec<String>)
        ensures
            string_views(r@) == spec_printable_cells(*self),
    {
        match self {
            Printable::Canonical(c) => c.cells(),
            Printable::Java(j) => j.cells(),
            Printable::Message(m) => m.cells(),
            Printable::TimeOnly(t) => t.cells(),
            Printable::Json(g) => g.cells(),
            Printable::Logfmt(l) => l.cells(),
            Printable::Text(_) => {
                let r: Vec<String> = Vec::new();
                assert(string_views(r@) =~= Seq::<Seq<char>>::empty());
                r
            },
        }
    }

    /// The timestamp that the line carries, if any.
    pub fn timestamp(&self) -> (r: Option<Timestamp>)
        ensures
            r == spec_printable_timestamp(*self),
    {
        match self {
            Printable::Canonical(c) => Some(c.timestamp),
            Printable::Java(j) => Some(j.timestamp),
            Printable::Message(m) => m.timestamp,
            Printable::TimeOnly(t) => Some(t.timestamp),
            Printable::Json(_) => None,
            Printable::Logfmt(l) => l.timestamp(),
            Printable::Text(_) => None,
        }
    }

    /// The rendering of the line as text (what displaying it shows).
    pub fn to_display_string(&self, metrics: &LayoutMetrics) -> (r: String)
        ensures
            r@ == spec_utf8_lossy(spec_printable_render(*self, *metrics)),
    {
        let mut out: Vec<u8> = Vec::new();
        self.render(&mut out, metrics);
        assert(out@ =~= spec_printable_render(*self, *metrics));
        utf8_lossy(out.as_slice())
    }
}

} // verus!

verus! {

/// What is printed for an input line: the rendering of what it parsed as,
/// or the line itself when it did not parse; then a newline.
pub open spec fn spec_input_line_output(parsed: Option<Printable>, line: Seq<char>, metrics: LayoutMetrics) -> Seq<u8> {
    let body = match parsed {
        Some(p) => spec_printable_render(p, metrics),
        None => encode_utf8(line),
    };
    body + seq![10u8]
}

/// The bytes printed for an input line, as `spec_input_line_output` gives
/// them.
pub fn render_input_line(parsed: &Option<Printable>, line: &str, metrics: &LayoutMetrics) -> (r: Vec<u8>)
    ensures
        r@ == spec_input_line_output(*parsed, line@, *metrics),
{
    let mut out: Vec<u8> = Vec::new();
    match parsed {
        Some(p) => p.render(&mut out, metrics),
        None => push_str(&mut out, line),
    }
    out.push(10u8);
    assert(out@ =~= spec_input_line_output(*parsed, line@, *metrics));
    out
}

} // verus!

verus! {

/// A line that is no JSON log line is printed intact, followed by a
/// newline; so is plain text that was recognized as such.
pub proof fn law_unparsed_lines_printed_intact(line: Seq<char>, text: String, metrics: LayoutMetrics)
    ensures
        spec_input_line_output(None, line, metrics) == encode_utf8(line) + seq![10u8],
        spec_input_line_output(Some(Printable::Text(text)), line, metrics) == encode_utf8(text@) + seq![10u8],
{
}

} // verus!
