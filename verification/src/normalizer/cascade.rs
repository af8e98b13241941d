//! The parser cascade.
//!
//! A line is read as a JSON object if it is one, else as a key/value line if
//! it is one, else as free text. Each reading gives a record; the last one
//! takes every line, so normalisation never fails.
//!
//! In a structured line the keys `ts`, `timestamp`, `time`, `t` and
//! `@timestamp` give the time, `level`, `severity`, `lvl` and `log.level`
//! the level, `message` and `msg` the message. Keys are compared in lower
//! case, and only values that are strings are promoted. A time is taken over
//! only if it reads as RFC 3339 and lies after the first second of 1970.

use crate::normalizer::heuristics::{
    find_level, find_request_id, first_candidate, level_word, read_date_time, read_yearless,
    request_id, second_candidate, strip_brackets, third_candidate,
};
use crate::normalizer::json::{json_members, lossy_decode, lossy_text, parse_json_object};
use crate::normalizer::logfmt::{logfmt_pairs, pairs_view, parse_logfmt};
use crate::text::{
    chars_are, chars_of, command_split, is_whitespace, lower, string_of, string_of_range, to_lower,
    trim, trim_bounds, trim_start,
};
use crate::time::{parse_rfc3339, rfc3339_of, utc_year, utc_year_of};
use crate::types::{
    fields_view, level_named, EntryView, FeedKind, FieldValue, FieldView, LogEntry, LogLevel,
    Timestamp,
};
use vstd::prelude::*;

verus! {

/// The largest number of characters of a line that are kept.
pub const MAX_LINE: usize = 65_536;

/// What a feed knows of a line before it is read: the kind of feed, the
/// producer, and the time of arrival.
#[derive(Debug, Clone)]
pub struct FeedDefaults {
    pub source: FeedKind,
    pub producer: String,
    pub ts: Timestamp,
}

/// The mathematical content of [`FeedDefaults`].
pub struct DefaultsView {
    pub source: FeedKind,
    pub producer: Seq<char>,
    pub ts: Timestamp,
}

impl View for FeedDefaults {
    type V = DefaultsView;

    open spec fn view(&self) -> DefaultsView {
        DefaultsView { source: self.source, producer: self.producer@, ts: self.ts }
    }
}

impl DefaultsView {
    /// The producer of the record: the one given, or, where none is given,
    /// `stdin` for standard input and `unknown` for every other feed.
    pub open spec fn producer_name(self) -> Seq<char> {
        if self.producer.len() > 0 {
            self.producer
        } else if self.source == FeedKind::Stdin {
            "stdin"@
        } else {
            "unknown"@
        }
    }
}

// ---------------------------------------------------------------------------
// Promoted keys
// ---------------------------------------------------------------------------

/// What a key of a structured line is promoted to.
#[derive(Debug, Clone, Copy, PartialEq, Eq, Structural)]
pub enum KeyClass {
    Time,
    Level,
    Message,
}

/// The key, in lower case, belongs to the class.
pub open spec fn in_class(class: KeyClass, k: Seq<char>) -> bool {
    match class {
        KeyClass::Time => k == "ts"@ || k == "timestamp"@ || k == "time"@ || k == "t"@ || k
            == "@timestamp"@,
        KeyClass::Level => k == "level"@ || k == "severity"@ || k == "lvl"@ || k == "log.level"@,
        KeyClass::Message => k == "message"@ || k == "msg"@,
    }
}

/// Tells whether a key in lower case belongs to a class.
pub fn key_in_class(class: KeyClass, k: &Vec<char>) -> (r: bool)
    ensures
        r == in_class(class, k@),
{
    match class {
        KeyClass::Time => chars_are(k, "ts") || chars_are(k, "timestamp") || chars_are(k, "time")
            || chars_are(k, "t") || chars_are(k, "@timestamp"),
        KeyClass::Level => chars_are(k, "level") || chars_are(k, "severity") || chars_are(k, "lvl")
            || chars_are(k, "log.level"),
        KeyClass::Message => chars_are(k, "message") || chars_are(k, "msg"),
    }
}

/// The text of the first member whose key, in lower case, belongs to the
/// class and whose value is a string.
pub open spec fn first_text(members: Seq<(Seq<char>, FieldView)>, class: KeyClass) -> Option<
    Seq<char>,
>
    decreases members.len(),
{
    if members.len() == 0 {
        None
    } else {
        match members.first().1 {
            FieldView::Text(t) => if in_class(class, lower(members.first().0)) {
                Some(t)
            } else {
                first_text(members.drop_first(), class)
            },
            _ => first_text(members.drop_first(), class),
        }
    }
}

/// Finds the text of the first member of a class.
pub fn find_text(members: &Vec<(String, FieldValue)>, class: KeyClass) -> (r: Option<String>)
    ensures
        crate::types::opt_view(r) == first_text(fields_view(members@), class),
{
    let ghost all = fields_view(members@);
    let mut i: usize = 0;
    assert(all.skip(0) =~= all);
    while i < members.len()
        invariant
            i <= members.len(),
            all == fields_view(members@),
            first_text(all, class) == first_text(all.skip(i as int), class),
        decreases members.len() - i,
    {
        assert(all.skip(i as int).first() == all[i as int]);
        assert(all.skip(i as int).drop_first() =~= all.skip(i + 1));
        match &members[i].1 {
            FieldValue::Text(t) => {
                let k = to_lower(&chars_of(members[i].0.as_str()));
                if key_in_class(class, &k) {
                    return Some(t.clone());
                }
            },
            _ => {},
        }
        i += 1;
    }
    None
}

/// The members with their keys in lower case.
pub open spec fn lowered_keys(members: Seq<(Seq<char>, FieldView)>) -> Seq<(Seq<char>, FieldView)> {
    Seq::new(members.len(), |i: int| (lower(members[i].0), members[i].1))
}

/// Lower-cases the keys of a list of members.
pub fn lower_keys(members: &Vec<(String, FieldValue)>) -> (r: Vec<(String, FieldValue)>)
    ensures
        fields_view(r@) == lowered_keys(fields_view(members@)),
{
    let mut r: Vec<(String, FieldValue)> = Vec::new();
    let mut i: usize = 0;
    while i < members.len()
        invariant
            i <= members.len(),
            r@.len() == i,
            forall|k: int|
                0 <= k < i ==> (#[trigger] r@[k]).0@ == lower(members@[k].0@) && r@[k].1@
                    == members@[k].1@,
        decreases members.len() - i,
    {
        let key = string_of(&to_lower(&chars_of(members[i].0.as_str())));
        r.push((key, members[i].1.duplicate()));
        i += 1;
    }
    assert(fields_view(r@) =~= lowered_keys(fields_view(members@)));
    r
}

// ---------------------------------------------------------------------------
// Times
// ---------------------------------------------------------------------------

/// The instant that a text denotes, if it reads as RFC 3339 and lies after
/// the first second of 1970.
pub open spec fn parsed_instant(text: Seq<char>) -> Option<Timestamp> {
    match rfc3339_of(text) {
        Some(ms) => if ms >= 1000 {
            Some(Timestamp { millis: ms })
        } else {
            None
        },
        None => None,
    }
}

/// Reads the instant that a text denotes.
pub fn read_instant(text: &str) -> (r: Option<Timestamp>)
    ensures
        r == parsed_instant(text@),
{
    match parse_rfc3339(text) {
        Some(ms) => if ms >= 1000 {
            Some(Timestamp { millis: ms })
        } else {
            None
        },
        None => None,
    }
}

/// The instant at the start of a line of free text that arrived at
/// `arrival`: that of its first token without brackets, else that of a date
/// and time of day in the form `2024-01-15 10:00:00`, else that of a date
/// without a year in the form `Jan 15 10:00:00`, which is given the year of
/// arrival. Dates without a zone are taken as UTC.
pub open spec fn line_instant(raw: Seq<char>, arrival: Timestamp) -> Option<Timestamp> {
    match parsed_instant(first_candidate(raw)) {
        Some(t) => Some(t),
        None => match second_candidate(raw) {
            Some(c) => parsed_instant(c),
            None => match third_candidate(raw, utc_year_of(arrival.millis)) {
                Some(c) => parsed_instant(c),
                None => None,
            },
        },
    }
}

/// Reads the instant at the start of a line of free text.
pub fn read_line_instant(v: &Vec<char>, arrival: Timestamp) -> (r: Option<Timestamp>)
    ensures
        r == line_instant(v@, arrival),
{
    let parts = command_split(v);
    let first = strip_brackets(v, parts.word_lo, parts.word_hi);
    match read_instant(string_of(&first).as_str()) {
        Some(t) => {
            return Some(t);
        },
        None => {},
    }
    let mut from: usize = 0;
    assert(v@.skip(0) =~= v@);
    while from < v.len() && is_whitespace(v[from])
        invariant
            from <= v.len(),
            trim_start(v@) == trim_start(v@.skip(from as int)),
        decreases v.len() - from,
    {
        assert(v@.skip(from as int).drop_first() =~= v@.skip(from + 1));
        from += 1;
    }
    match read_date_time(v, from) {
        Some(c) => {
            return read_instant(string_of(&c).as_str());
        },
        None => {},
    }
    match read_yearless(v, from, utc_year(arrival.millis)) {
        Some(c) => read_instant(string_of(&c).as_str()),
        None => None,
    }
}

// ---------------------------------------------------------------------------
// The three readings
// ---------------------------------------------------------------------------

/// The record of a structured line.
///
/// All members become fields, their keys in lower case. The time, the level
/// and the message are those of the first member of their class; without
/// such a member, or with a time that does not read, the time is that of
/// arrival, the level is unknown and the message is the raw line.
pub open spec fn structured(
    members: Seq<(Seq<char>, FieldView)>,
    raw: Seq<char>,
    d: DefaultsView,
) -> EntryView {
    EntryView {
        seq: 0,
        raw,
        ts: match first_text(members, KeyClass::Time) {
            Some(t) => match parsed_instant(t) {
                Some(at) => at,
                None => d.ts,
            },
            None => d.ts,
        },
        level: match first_text(members, KeyClass::Level) {
            Some(t) => level_named(lower(t)),
            None => None,
        },
        source: d.source,
        producer: d.producer_name(),
        fields: lowered_keys(members),
        message: Some(
            match first_text(members, KeyClass::Message) {
                Some(m) => m,
                None => raw,
            },
        ),
    }
}

/// The record of a line of free text: the time at its start, if it starts
/// with one, the level of its first level word, a field `request_id` if a
/// token is shaped like one, and the raw line as message.
pub open spec fn unstructured(raw: Seq<char>, d: DefaultsView) -> EntryView {
    EntryView {
        seq: 0,
        raw,
        ts: match line_instant(raw, d.ts) {
            Some(at) => at,
            None => d.ts,
        },
        level: level_word(raw),
        source: d.source,
        producer: d.producer_name(),
        fields: match request_id(raw) {
            Some(id) => seq![("request_id"@, FieldView::Text(id))],
            None => Seq::empty(),
        },
        message: Some(raw),
    }
}

/// The pairs of a key/value line as members whose values are strings.
pub open spec fn as_members(pairs: Seq<(Seq<char>, Seq<char>)>) -> Seq<(Seq<char>, FieldView)> {
    Seq::new(pairs.len(), |i: int| (pairs[i].0, FieldView::Text(pairs[i].1)))
}

/// The part of a line that is kept: its first 65,536 characters.
pub open spec fn kept(text: Seq<char>) -> Seq<char> {
    if text.len() > MAX_LINE {
        text.take(MAX_LINE as int)
    } else {
        text
    }
}

/// The record that a line normalises to.
pub open spec fn normalized(text: Seq<char>, d: DefaultsView) -> EntryView {
    let raw = kept(text);
    match json_members(trim(raw)) {
        Some(members) => structured(members, raw, d),
        None => match logfmt_pairs(raw) {
            Some(pairs) => structured(as_members(pairs), raw, d),
            None => unstructured(raw, d),
        },
    }
}

/// The name of the producer of a record.
pub fn producer_of(d: &FeedDefaults) -> (r: String)
    ensures
        r@ == d@.producer_name(),
{
    if d.producer.as_str().unicode_len() > 0 {
        d.producer.clone()
    } else {
        match d.source {
            FeedKind::Stdin => "stdin".to_owned(),
            _ => "unknown".to_owned(),
        }
    }
}

/// Builds the record of a structured line.
pub fn structured_entry(members: &Vec<(String, FieldValue)>, raw: String, d: &FeedDefaults) -> (r:
    LogEntry)
    ensures
        r@ == structured(fields_view(members@), raw@, d@),
{
    let ts = match find_text(members, KeyClass::Time) {
        Some(t) => match read_instant(t.as_str()) {
            Some(at) => at,
            None => d.ts,
        },
        None => d.ts,
    };
    let level = match find_text(members, KeyClass::Level) {
        Some(t) => LogLevel::from_name(&to_lower(&chars_of(t.as_str()))),
        None => None,
    };
    let message = match find_text(members, KeyClass::Message) {
        Some(m) => m,
        None => raw.clone(),
    };
    LogEntry {
        seq: 0,
        raw,
        ts,
        level,
        source: d.source,
        producer: producer_of(d),
        fields: lower_keys(members),
        message: Some(message),
    }
}

/// Builds the record of a line of free text.
pub fn unstructured_entry(v: &Vec<char>, raw: String, d: &FeedDefaults) -> (r: LogEntry)
    requires
        raw@ == v@,
    ensures
        r@ == unstructured(v@, d@),
{
    let ts = match read_line_instant(v, d.ts) {
        Some(at) => at,
        None => d.ts,
    };
    let mut fields: Vec<(String, FieldValue)> = Vec::new();
    match find_request_id(v) {
        Some(id) => {
            fields.push(("request_id".to_owned(), FieldValue::Text(string_of(&id))));
            assert(fields_view(fields@) =~= seq![("request_id"@, FieldView::Text(id@))]);
        },
        None => {
            assert(fields_view(fields@) =~= Seq::<(Seq<char>, FieldView)>::empty());
        },
    }
    let message = raw.clone();
    LogEntry {
        seq: 0,
        raw,
        ts,
        level: find_level(v),
        source: d.source,
        producer: producer_of(d),
        fields,
        message: Some(message),
    }
}

/// Normalises a line that is text already.
pub fn normalize_text(text: &str, d: &FeedDefaults) -> (r: LogEntry)
    ensures
        r@ == normalized(text@, d@),
{
    let all = chars_of(text);
    let mut v: Vec<char> = Vec::new();
    let mut i: usize = 0;
    while i < all.len() && i < MAX_LINE
        invariant
            i <= all.len(),
            i <= MAX_LINE,
            v@ == all@.take(i as int),
        decreases all.len() - i,
    {
        v.push(all[i]);
        assert(v@ =~= all@.take(i + 1));
        i += 1;
    }
    assert(v@ =~= kept(text@));
    let raw = string_of(&v);
    assert(v@.subrange(0, v@.len() as int) =~= v@);
    let (lo, hi) = trim_bounds(&v, 0, v.len());
    let trimmed = string_of_range(&v, lo, hi);
    match parse_json_object(trimmed.as_str()) {
        Some(members) => structured_entry(&members, raw, d),
        None => match parse_logfmt(&v) {
            Some(pairs) => {
                let mut members: Vec<(String, FieldValue)> = Vec::new();
                let mut k: usize = 0;
                while k < pairs.len()
                    invariant
                        k <= pairs.len(),
                        members@.len() == k,
                        forall|j: int|
                            0 <= j < k ==> (#[trigger] members@[j]).0@ == pairs@[j].0@
                                && members@[j].1@ == FieldView::Text(pairs@[j].1@),
                    decreases pairs.len() - k,
                {
                    members.push(
                        (string_of(&pairs[k].0), FieldValue::Text(string_of(&pairs[k].1))),
                    );
                    k += 1;
                }
                assert(fields_view(members@) =~= as_members(pairs_view(pairs@)));
                structured_entry(&members, raw, d)
            },
            None => unstructured_entry(&v, raw, d),
        },
    }
}

/// Normalises a raw line: decodes it, with what is malformed replaced, and
/// reads it as JSON, as a key/value line or as free text.
pub fn normalize(raw: &[u8], d: &FeedDefaults) -> (r: LogEntry)
    ensures
        r@ == normalized(lossy_decode(raw@), d@),
{
    let text = lossy_text(raw);
    normalize_text(text.as_str(), d)
}

// ---------------------------------------------------------------------------
// Laws
// ---------------------------------------------------------------------------

/// Normalisation totality: whatever the line, the record has a producer
/// that is not empty, a kind of feed, and, given a time of arrival after
/// the first second of 1970, a time after it.
pub proof fn law_normalization_total(text: Seq<char>, d: DefaultsView)
    requires
        d.ts.is_set(),
    ensures
        normalized(text, d).producer.len() > 0,
        normalized(text, d).ts.is_set(),
        normalized(text, d).source == d.source,
        normalized(text, d).message is Some,
        normalized(text, d).raw == kept(text),
{
    reveal_strlit("stdin");
    reveal_strlit("unknown");
}

} // verus!
