//! Events and the positional record parser.

use vstd::prelude::*;
use crate::clock::local_now;
use crate::extract::{extract_quoted_string, quoted_field};

verus! {

/// A point in time: seconds since the Unix epoch, and the same instant as
/// local civil time in the form `YYYY-MM-DD HH:MM:SS`.
pub struct Stamp {
    pub secs: i64,
    pub text: String,
}

impl Stamp {
    pub fn new(secs: i64, text: String) -> (r: Stamp)
        ensures
            r.secs == secs,
            r.text == text,
    {
        Stamp { secs, text }
    }

    pub fn copy(&self) -> (r: Stamp)
        ensures
            r == *self,
    {
        Stamp { secs: self.secs, text: self.text.clone() }
    }
}

/// One captured notification. Every field is always present: a field that a
/// record does not hold carries a fixed placeholder.
pub struct Event {
    pub timestamp: Stamp,
    pub app_name: String,
    pub summary: String,
    pub body: String,
}

impl Event {
    pub fn copy(&self) -> (r: Event)
        ensures
            r == *self,
    {
        Event {
            timestamp: self.timestamp.copy(),
            app_name: self.app_name.clone(),
            summary: self.summary.clone(),
            body: self.body.clone(),
        }
    }
}

pub open spec fn unknown_app() -> Seq<char> {
    seq!['u', 'n', 'k', 'n', 'o', 'w', 'n']
}

pub open spec fn untitled() -> Seq<char> {
    seq!['u', 'n', 't', 'i', 't', 'l', 'e', 'd']
}

pub open spec fn empty_body() -> Seq<char> {
    seq!['e', 'm', 'p', 't', 'y']
}

/// The character sequences of a list of lines.
pub open spec fn line_views(lines: Seq<String>) -> Seq<Seq<char>> {
    lines.map_values(|l: String| l@)
}

/// The quoted field of line `k` of a record, or `fallback` where the record
/// has no line `k`.
pub open spec fn record_field(lines: Seq<Seq<char>>, k: int, fallback: Seq<char>) -> Seq<char> {
    if 0 <= k < lines.len() {
        quoted_field(lines[k])
    } else {
        fallback
    }
}

pub open spec fn app_name_of(lines: Seq<Seq<char>>) -> Seq<char> {
    record_field(lines, 1, unknown_app())
}

pub open spec fn summary_of(lines: Seq<Seq<char>>) -> Seq<char> {
    record_field(lines, 4, untitled())
}

pub open spec fn body_of(lines: Seq<Seq<char>>) -> Seq<char> {
    record_field(lines, 5, empty_body())
}

/// The event that a record yields, apart from its time stamp.
pub open spec fn parsed_fields(lines: Seq<Seq<char>>, e: Event) -> bool {
    &&& e.app_name@ == app_name_of(lines)
    &&& e.summary@ == summary_of(lines)
    &&& e.body@ == body_of(lines)
}

fn field_or(lines: &Vec<String>, k: usize, fallback: &str) -> (r: String)
    ensures
        r@ == record_field(line_views(lines@), k as int, fallback@),
{
    if k < lines.len() {
        extract_quoted_string(lines[k].as_str())
    } else {
        String::from_str(fallback)
    }
}

/// Builds the event of one record, given as its lines, stamped with `stamp`:
/// the application name from line 1, the summary from line 4 and the body from
/// line 5, each the text between the line's first two quotes.
pub fn parse_record(lines: &Vec<String>, stamp: Stamp) -> (r: Event)
    ensures
        parsed_fields(line_views(lines@), r),
        r.timestamp == stamp,
{
    proof {
        reveal_strlit("unknown");
        reveal_strlit("untitled");
        reveal_strlit("empty");
        assert("unknown"@ =~= unknown_app());
        assert("untitled"@ =~= untitled());
        assert("empty"@ =~= empty_body());
    }
    let app_name = field_or(lines, 1, "unknown");
    let summary = field_or(lines, 4, "untitled");
    let body = field_or(lines, 5, "empty");
    Event { timestamp: stamp, app_name, summary, body }
}

/// Builds the event of one record, stamped with the present local time.
pub fn parse_notification(lines: &Vec<String>) -> (r: Event)
    ensures
        parsed_fields(line_views(lines@), r),
{
    parse_record(lines, local_now())
}

/// Short records fall back to placeholders: under two lines no application
/// name, under five no summary, under six no body. A record of six lines or
/// more yields the quoted fields of its lines 1, 4 and 5.
pub proof fn lemma_record_fields(lines: Seq<Seq<char>>)
    ensures
        lines.len() < 2 ==> app_name_of(lines) == unknown_app(),
        lines.len() < 5 ==> summary_of(lines) == untitled(),
        lines.len() < 6 ==> body_of(lines) == empty_body(),
        lines.len() >= 6 ==> app_name_of(lines) == quoted_field(lines[1]) && summary_of(lines)
            == quoted_field(lines[4]) && body_of(lines) == quoted_field(lines[5]),
{
}

} // verus!
