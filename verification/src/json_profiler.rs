//! Counting which pattern each input line was recognized as, to see how
//! the parsing time is spent.

use vstd::prelude::*;

use crate::logpatterns::Printable;

verus! {

/// A counter that goes one up, wrapping round at the top as atomic
/// counters do.
pub open spec fn bump(n: usize) -> usize {
    if n == usize::MAX { 0 } else { (n + 1) as usize }
}

/// Counters of the patterns that lines were recognized as, and of the
/// lines that could not be parsed at all.
#[derive(Debug, Clone, Copy, PartialEq, Eq, Structural)]
pub struct VariantCounters {
    pub canonical: usize,
    pub java: usize,
    pub message: usize,
    pub time_only: usize,
    pub json: usize,
    pub logfmt: usize,
    pub text: usize,
    pub parse_errors: usize,
}

/// A snapshot of the counters.
#[derive(Debug, Clone, Copy, PartialEq, Eq, Structural)]
pub struct VariantCounts {
    pub canonical: usize,
    pub java: usize,
    pub message: usize,
    pub time_only: usize,
    pub json: usize,
    pub logfmt: usize,
    pub text: usize,
    pub parse_errors: usize,
}

/// All counters at zero.
pub open spec fn zero_counters() -> VariantCounters {
    VariantCounters {
        canonical: 0,
        java: 0,
        message: 0,
        time_only: 0,
        json: 0,
        logfmt: 0,
        text: 0,
        parse_errors: 0,
    }
}

/// The counters after one more line of the pattern of `p`.
pub open spec fn spec_record(c: VariantCounters, p: Printable) -> VariantCounters {
    match p {
        Printable::Canonical(_) => VariantCounters { canonical: bump(c.canonical), ..c },
        Printable::Java(_) => VariantCounters { java: bump(c.java), ..c },
        Printable::Message(_) => VariantCounters { message: bump(c.message), ..c },
        Printable::TimeOnly(_) => VariantCounters { time_only: bump(c.time_only), ..c },
        Printable::Json(_) => VariantCounters { json: bump(c.json), ..c },
        Printable::Logfmt(_) => VariantCounters { logfmt: bump(c.logfmt), ..c },
        Printable::Text(_) => VariantCounters { text: bump(c.text), ..c },
    }
}

/// The snapshot of the counters.
pub open spec fn spec_counts(c: VariantCounters) -> VariantCounts {
    VariantCounts {
        canonical: c.canonical,
        java: c.java,
        message: c.message,
        time_only: c.time_only,
        json: c.json,
        logfmt: c.logfmt,
        text: c.text,
        parse_errors: c.parse_errors,
    }
}

impl Default for VariantCounters {
    fn default() -> (r: Self)
        ensures
            r == zero_counters(),
    {
        VariantCounters {
            canonical: 0,
            java: 0,
            message: 0,
            time_only: 0,
            json: 0,
            logfmt: 0,
            text: 0,
            parse_errors: 0,
        }
    }
}

impl VariantCounters {
    /// All counters at zero.
    pub fn new() -> (r: Self)
        ensures
            r == zero_counters(),
    {
        Self::default()
    }

    /// Counts one more line of the pattern of `variant`.
    pub fn record_variant(&mut self, variant: &Printable)
        ensures
            *final(self) == spec_record(*old(self), *variant),
    {
        match variant {
            Printable::Canonical(_) => self.canonical = self.canonical.wrapping_add(1),
            Printable::Java(_) => self.java = self.java.wrapping_add(1),
            Printable::Message(_) => self.message = self.message.wrapping_add(1),
            Printable::TimeOnly(_) => self.time_only = self.time_only.wrapping_add(1),
            Printable::Json(_) => self.json = self.json.wrapping_add(1),
            Printable::Logfmt(_) => self.logfmt = self.logfmt.wrapping_add(1),
            Printable::Text(_) => self.text = self.text.wrapping_add(1),
        }
    }

    /// Counts one more line that could not be parsed at all.
    pub fn record_parse_error(&mut self)
        ensures
            *final(self) == (VariantCounters { parse_errors: bump(old(self).parse_errors), ..*old(self) }),
    {
        self.parse_errors = self.parse_errors.wrapping_add(1);
    }

    /// The current counts.
    pub fn get_counts(&self) -> (r: VariantCounts)
        ensures
            r == spec_counts(*self),
    {
        VariantCounts {
            canonical: self.canonical,
            java: self.java,
            message: self.message,
            time_only: self.time_only,
            json: self.json,
            logfmt: self.logfmt,
            text: self.text,
            parse_errors: self.parse_errors,
        }
    }

    /// Sets every counter back to zero.
    pub fn reset(&mut self)
        ensures
            *final(self) == zero_counters(),
    {
        *self = Self::new();
    }
}

/// The number of lines of any pattern, plain text included, parse errors
/// not.
pub open spec fn spec_total(c: VariantCounts) -> int {
    c.canonical + c.java + c.message + c.time_only + c.json + c.logfmt + c.text
}

/// The number of lines recognized as JSON.
pub open spec fn spec_json_parses(c: VariantCounts) -> int {
    c.canonical + c.java + c.message + c.time_only + c.json
}

impl VariantCounts {
    /// The number of lines of any pattern, plain text included.
    pub fn total(&self) -> (r: usize)
        requires
            spec_total(*self) <= usize::MAX,
        ensures
            r == spec_total(*self),
    {
        self.canonical + self.java + self.message + self.time_only + self.json + self.logfmt + self.text
    }

    /// The number of lines recognized as some pattern (plain text is not).
    pub fn successful_parses(&self) -> (r: usize)
        requires
            spec_total(*self) <= usize::MAX,
        ensures
            r == spec_total(*self) - self.text,
    {
        self.total() - self.text
    }

    /// The number of lines recognized as JSON.
    pub fn json_parses(&self) -> (r: usize)
        requires
            spec_json_parses(*self) <= usize::MAX,
        ensures
            r == spec_json_parses(*self),
    {
        self.canonical + self.java + self.message + self.time_only + self.json
    }
}

/// Counts one more line of the pattern of `variant`.
pub fn record_variant(counters: &mut VariantCounters, variant: &Printable)
    ensures
        *final(counters) == spec_record(*old(counters), *variant),
{
    counters.record_variant(variant);
}

/// Counts one more line that could not be parsed at all.
pub fn record_parse_error(counters: &mut VariantCounters)
    ensures
        *final(counters) == (VariantCounters { parse_errors: bump(old(counters).parse_errors), ..*old(counters) }),
{
    counters.record_parse_error();
}

/// The current counts.
pub fn get_counts(counters: &VariantCounters) -> (r: VariantCounts)
    ensures
        r == spec_counts(*counters),
{
    counters.get_counts()
}

/// Sets every counter back to zero.
pub fn reset_counters(counters: &mut VariantCounters)
    ensures
        *final(counters) == zero_counters(),
{
    counters.reset();
}

/// Recording a line raises the counter of its pattern by one and leaves
/// every other counter as it was (short of wrapping round at the top).
pub proof fn law_record_counts_one(c: VariantCounters, p: Printable)
    requires
        spec_total(spec_counts(c)) < usize::MAX,
    ensures
        spec_total(spec_counts(spec_record(c, p))) == spec_total(spec_counts(c)) + 1,
        spec_record(c, p).parse_errors == c.parse_errors,
{
}

} // verus!
