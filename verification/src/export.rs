//! Export: a chosen scope of the store, written in a chosen format.
//!
//! The library picks the entries and builds the lines; writing them to a
//! sink is left to the program. Lines carry no line terminator.
//!
//! | Format | Lines |
//! |--------|-------|
//! | `raw` | the raw text of each entry |
//! | `jsonl` | one JSON object for each entry, the fields in a member `fields` |
//! | `csv` | a header, then one row for each entry; no line at all for no entry |
//!
//! The fixed columns are `seq`, `ts`, `source`, `producer`, `level`,
//! `message` and `raw`; without metadata `ts`, `source` and `producer` are
//! left out.

use crate::layout::strings_view;
use crate::search::engine::{filter_parsed, matching};
use crate::search::ontology::{Ontology, MAX_GREED};
use crate::search::query::{ParsedQuery, QueryView};
use crate::store::{keep, select, Criterion, Filter};
use crate::text::{chars_are, chars_of, decimal_text, push_decimal, push_str, string_of};
use crate::time::{format_rfc3339, rfc3339_text_of};
use crate::types::{entries_view, opt_view, EntryView, FieldValue, FieldView, LogEntry, LogLevel};
use vstd::prelude::*;

verus! {

// ---------------------------------------------------------------------------
// Formats and scopes
// ---------------------------------------------------------------------------

/// The format of an export.
#[derive(Debug, Clone, Copy, PartialEq, Eq, Structural)]
pub enum Format {
    Raw,
    Jsonl,
    Csv,
}

/// The format that a name denotes.
pub open spec fn format_named(name: Seq<char>) -> Option<Format> {
    if name == "raw"@ {
        Some(Format::Raw)
    } else if name == "jsonl"@ {
        Some(Format::Jsonl)
    } else if name == "csv"@ {
        Some(Format::Csv)
    } else {
        None
    }
}

impl Format {
    /// Reads the name of a format: `raw`, `jsonl` or `csv`.
    pub fn from_name(name: &str) -> (r: Option<Format>)
        ensures
            r == format_named(name@),
    {
        let v = chars_of(name);
        if chars_are(&v, "raw") {
            Some(Format::Raw)
        } else if chars_are(&v, "jsonl") {
            Some(Format::Jsonl)
        } else if chars_are(&v, "csv") {
            Some(Format::Csv)
        } else {
            None
        }
    }
}

/// The part of the store that an export covers.
#[derive(Debug, Clone, PartialEq, Eq)]
pub enum Scope {
    /// Every entry.
    Store,
    /// The entries that meet the active query.
    ActiveFilter,
    /// The entries of one producer.
    Producer(String),
    /// The entries of one producer that meet the active query.
    ProducerAndFilter(String),
}

/// The mathematical content of a [`Scope`].
pub enum ScopeView {
    Store,
    ActiveFilter,
    Producer(Seq<char>),
    ProducerAndFilter(Seq<char>),
}

impl View for Scope {
    type V = ScopeView;

    open spec fn view(&self) -> ScopeView {
        match self {
            Scope::Store => ScopeView::Store,
            Scope::ActiveFilter => ScopeView::ActiveFilter,
            Scope::Producer(p) => ScopeView::Producer(p@),
            Scope::ProducerAndFilter(p) => ScopeView::ProducerAndFilter(p@),
        }
    }
}

/// The entries of a scope, in the order of the store.
pub open spec fn in_scope(
    o: &Ontology,
    q: QueryView,
    greed: int,
    scope: ScopeView,
    es: Seq<EntryView>,
) -> Seq<EntryView> {
    match scope {
        ScopeView::Store => es,
        ScopeView::ActiveFilter => matching(o, q, es, greed),
        ScopeView::Producer(p) => keep(es, Criterion::Producer(p)),
        ScopeView::ProducerAndFilter(p) => matching(o, q, keep(es, Criterion::Producer(p)), greed),
    }
}

/// Keeping every entry keeps the list as it is.
pub proof fn lemma_keep_all(es: Seq<EntryView>)
    ensures
        keep(es, Criterion::All) == es,
    decreases es.len(),
{
    if es.len() > 0 {
        lemma_keep_all(es.drop_last());
        assert(es.drop_last().push(es.last()) =~= es);
    } else {
        assert(keep(es, Criterion::All) =~= es);
    }
}

/// Copies the entries of a scope, in the order of the store.
pub fn scoped(o: &Ontology, q: &ParsedQuery, greed: u8, scope: &Scope, entries: &Vec<LogEntry>) -> (r:
    Vec<LogEntry>)
    requires
        o.wf(),
        greed <= MAX_GREED,
    ensures
        entries_view(r@) == in_scope(o, q@, greed as int, scope@, entries_view(entries@)),
{
    match scope {
        Scope::Store => {
            proof {
                lemma_keep_all(entries_view(entries@));
            }
            select(entries, &Filter::All)
        },
        Scope::ActiveFilter => filter_parsed(o, q, entries, greed),
        Scope::Producer(p) => select(entries, &Filter::Producer(p.clone())),
        Scope::ProducerAndFilter(p) => {
            let own = select(entries, &Filter::Producer(p.clone()));
            filter_parsed(o, q, &own, greed)
        },
    }
}

// ---------------------------------------------------------------------------
// Cells
// ---------------------------------------------------------------------------

/// The text of an optional text: empty where there is none.
pub open spec fn text_or_empty(s: Option<Seq<char>>) -> Seq<char> {
    match s {
        Some(t) => t,
        None => Seq::empty(),
    }
}

/// The name of a level, if there is one.
pub open spec fn level_text(level: Option<LogLevel>) -> Option<Seq<char>> {
    match level {
        Some(l) => Some(l.label_text()),
        None => None,
    }
}

/// The text of the field `key` of an entry: empty where it has none.
pub open spec fn field_text(e: EntryView, key: Seq<char>) -> Seq<char> {
    match e.field(key) {
        Some(v) => v.text(),
        None => Seq::empty(),
    }
}

/// The names of the fixed columns.
pub open spec fn fixed_names(metadata: bool) -> Seq<Seq<char>> {
    if metadata {
        seq!["seq"@, "ts"@, "source"@, "producer"@, "level"@, "message"@, "raw"@]
    } else {
        seq!["seq"@, "level"@, "message"@, "raw"@]
    }
}

/// The cells of an entry in the fixed columns. A time that the calendar
/// does not have, a level that is not known and a message that is missing
/// leave their cell empty.
pub open spec fn fixed_cells(e: EntryView, metadata: bool) -> Seq<Seq<char>> {
    if metadata {
        seq![
            decimal_text(e.seq as nat),
            text_or_empty(rfc3339_text_of(e.ts.millis)),
            e.source.label_text(),
            e.producer,
            text_or_empty(level_text(e.level)),
            text_or_empty(e.message),
            e.raw,
        ]
    } else {
        seq![
            decimal_text(e.seq as nat),
            text_or_empty(level_text(e.level)),
            text_or_empty(e.message),
            e.raw,
        ]
    }
}

/// The cells of an entry: the fixed columns, then its text in each of the
/// field columns `keys`.
pub open spec fn cells(e: EntryView, keys: Seq<Seq<char>>, metadata: bool) -> Seq<Seq<char>> {
    fixed_cells(e, metadata) + Seq::new(keys.len(), |i: int| field_text(e, keys[i]))
}

/// The contents of a list of character buffers.
pub open spec fn buffers(v: Seq<Vec<char>>) -> Seq<Seq<char>> {
    Seq::new(v.len(), |i: int| v[i]@)
}

/// The characters of an optional string, none for a missing one.
fn chars_or_empty(s: &Option<String>) -> (r: Vec<char>)
    ensures
        r@ == text_or_empty(opt_view(*s)),
{
    match s {
        Some(t) => chars_of(t.as_str()),
        None => Vec::new(),
    }
}

/// The name of a level, if there is one.
fn level_label(level: Option<LogLevel>) -> (r: Option<String>)
    ensures
        opt_view(r) == level_text(level),
{
    match level {
        Some(l) => Some(l.label()),
        None => None,
    }
}

/// Builds the names of the fixed columns.
fn fixed_header(metadata: bool) -> (r: Vec<Vec<char>>)
    ensures
        buffers(r@) == fixed_names(metadata),
{
    let mut r: Vec<Vec<char>> = Vec::new();
    r.push(chars_of("seq"));
    if metadata {
        r.push(chars_of("ts"));
        r.push(chars_of("source"));
        r.push(chars_of("producer"));
    }
    r.push(chars_of("level"));
    r.push(chars_of("message"));
    r.push(chars_of("raw"));
    assert(buffers(r@) =~= fixed_names(metadata));
    r
}

/// Builds the cells of an entry in the fixed columns.
fn fixed_row(e: &LogEntry, metadata: bool) -> (r: Vec<Vec<char>>)
    ensures
        buffers(r@) == fixed_cells(e@, metadata),
{
    let mut r: Vec<Vec<char>> = Vec::new();
    let mut number: Vec<char> = Vec::new();
    push_decimal(&mut number, e.seq);
    assert(number@ =~= decimal_text(e.seq as nat));
    r.push(number);
    if metadata {
        r.push(chars_or_empty(&format_rfc3339(e.ts.millis)));
        r.push(chars_of(e.source.label().as_str()));
        r.push(chars_of(e.producer.as_str()));
    }
    r.push(chars_or_empty(&level_label(e.level)));
    r.push(chars_or_empty(&e.message));
    r.push(chars_of(e.raw.as_str()));
    assert(buffers(r@) =~= fixed_cells(e@, metadata));
    r
}

/// Builds the cells of an entry.
fn row_cells(e: &LogEntry, keys: &Vec<String>, metadata: bool) -> (r: Vec<Vec<char>>)
    ensures
        buffers(r@) == cells(e@, strings_view(keys@), metadata),
{
    let mut r = fixed_row(e, metadata);
    let ghost fixed = fixed_cells(e@, metadata);
    let mut i: usize = 0;
    while i < keys.len()
        invariant
            i <= keys.len(),
            r@.len() == fixed.len() + i,
            fixed == fixed_cells(e@, metadata),
            forall|k: int| 0 <= k < fixed.len() ==> (#[trigger] r@[k])@ == fixed[k],
            forall|k: int|
                0 <= k < i ==> (#[trigger] r@[fixed.len() + k])@ == field_text(e@, keys@[k]@),
        decreases keys.len() - i,
    {
        let cell = match e.field(keys[i].as_str()) {
            Some(v) => chars_of(v.to_text().as_str()),
            None => Vec::new(),
        };
        assert(cell@ == field_text(e@, keys@[i as int]@));
        r.push(cell);
        i += 1;
    }
    proof {
        let want = cells(e@, strings_view(keys@), metadata);
        assert(buffers(r@).len() == want.len());
        assert forall|k: int| 0 <= k < want.len() implies buffers(r@)[k] == want[k] by {
            if k >= fixed.len() {
                assert(r@[fixed.len() + (k - fixed.len())]@ == field_text(
                    e@,
                    keys@[k - fixed.len()]@,
                ));
            }
        }
        assert(buffers(r@) =~= want);
    }
    r
}

// ---------------------------------------------------------------------------
// Field columns
// ---------------------------------------------------------------------------

/// `acc` with the keys of `fields` that it does not hold yet, in their
/// order.
pub open spec fn with_keys(acc: Seq<Seq<char>>, fields: Seq<(Seq<char>, FieldView)>) -> Seq<
    Seq<char>,
>
    decreases fields.len(),
{
    if fields.len() == 0 {
        acc
    } else {
        let before = with_keys(acc, fields.drop_last());
        if before.contains(fields.last().0) {
            before
        } else {
            before.push(fields.last().0)
        }
    }
}

/// The keys of the fields of a list of entries, each once, in the order in
/// which they first occur.
pub open spec fn field_keys(es: Seq<EntryView>) -> Seq<Seq<char>>
    decreases es.len(),
{
    if es.len() == 0 {
        Seq::empty()
    } else {
        with_keys(field_keys(es.drop_last()), es.last().fields)
    }
}

/// Tells whether a list of keys holds a key.
fn has_key(keys: &Vec<String>, key: &String) -> (r: bool)
    ensures
        r == strings_view(keys@).contains(key@),
{
    let mut i: usize = 0;
    while i < keys.len()
        invariant
            i <= keys.len(),
            forall|k: int| 0 <= k < i ==> keys@[k]@ != key@,
        decreases keys.len() - i,
    {
        if keys[i] == *key {
            assert(strings_view(keys@)[i as int] == key@);
            return true;
        }
        i += 1;
    }
    false
}

/// Collects the keys of the fields of the entries, each once, in order of
/// first occurrence.
pub fn collect_keys(entries: &Vec<LogEntry>) -> (keys: Vec<String>)
    ensures
        strings_view(keys@) == field_keys(entries_view(entries@)),
{
    let ghost es = entries_view(entries@);
    let mut keys: Vec<String> = Vec::new();
    let mut i: usize = 0;
    assert(es.take(0) =~= Seq::<EntryView>::empty());
    assert(strings_view(keys@) =~= Seq::<Seq<char>>::empty());
    while i < entries.len()
        invariant
            i <= entries.len(),
            es == entries_view(entries@),
            strings_view(keys@) == field_keys(es.take(i as int)),
        decreases entries.len() - i,
    {
        let fields = &entries[i].fields;
        let ghost fs = es[i as int].fields;
        let ghost base = strings_view(keys@);
        let mut j: usize = 0;
        assert(fs.take(0) =~= Seq::<(Seq<char>, FieldView)>::empty());
        while j < fields.len()
            invariant
                j <= fields.len(),
                fs == crate::types::fields_view(fields@),
                strings_view(keys@) == with_keys(base, fs.take(j as int)),
            decreases fields.len() - j,
        {
            let ghost before = strings_view(keys@);
            assert(fs.take(j + 1).drop_last() =~= fs.take(j as int));
            assert(fs.take(j + 1).last().0 == fields@[j as int].0@);
            if !has_key(&keys, &fields[j].0) {
                keys.push(fields[j].0.clone());
                assert(strings_view(keys@) =~= before.push(fields@[j as int].0@));
            }
            j += 1;
        }
        assert(fs.take(fields.len() as int) =~= fs);
        assert(es.take(i + 1).drop_last() =~= es.take(i as int));
        assert(es.take(i + 1).last() == es[i as int]);
        i += 1;
    }
    assert(es.take(entries.len() as int) =~= es);
    keys
}

// ---------------------------------------------------------------------------
// CSV
// ---------------------------------------------------------------------------

/// A character that forces a cell into quotes: the comma, the quote and
/// the two line ends.
pub open spec fn is_special(c: char) -> bool {
    c == ',' || c == '"' || c == '\n' || c == '\r'
}

/// The text holds a character that forces it into quotes.
pub open spec fn needs_quotes(s: Seq<char>) -> bool {
    exists|i: int| 0 <= i < s.len() && is_special(#[trigger] s[i])
}

/// The text with each quote doubled.
pub open spec fn doubled(s: Seq<char>) -> Seq<char>
    decreases s.len(),
{
    if s.len() == 0 {
        Seq::empty()
    } else if s.last() == '"' {
        doubled(s.drop_last()) + seq!['"', '"']
    } else {
        doubled(s.drop_last()).push(s.last())
    }
}

/// A text as a cell: as it stands, or, where it holds a special character,
/// in quotes with each quote doubled.
pub open spec fn csv_cell(s: Seq<char>) -> Seq<char> {
    if needs_quotes(s) {
        seq!['"'] + doubled(s) + seq!['"']
    } else {
        s
    }
}

/// The cells of a row with a comma between each two.
pub open spec fn csv_joined(row: Seq<Seq<char>>) -> Seq<char>
    decreases row.len(),
{
    if row.len() == 0 {
        Seq::empty()
    } else if row.len() == 1 {
        csv_cell(row[0])
    } else {
        csv_joined(row.drop_last()) + seq![','] + csv_cell(row.last())
    }
}

/// Tells whether a text must stand in quotes.
fn must_quote(s: &Vec<char>) -> (r: bool)
    ensures
        r == needs_quotes(s@),
{
    let mut i: usize = 0;
    while i < s.len()
        invariant
            i <= s.len(),
            forall|k: int| 0 <= k < i ==> !is_special(#[trigger] s@[k]),
        decreases s.len() - i,
    {
        let c = s[i];
        if c == ',' || c == '"' || c == '\n' || c == '\r' {
            assert(is_special(s@[i as int]));
            return true;
        }
        i += 1;
    }
    false
}

/// Writes a text as a cell.
fn push_cell(out: &mut Vec<char>, s: &Vec<char>)
    ensures
        final(out)@ == old(out)@ + csv_cell(s@),
{
    let ghost start = out@;
    if must_quote(s) {
        out.push('"');
        let mut i: usize = 0;
        assert(s@.take(0) =~= Seq::<char>::empty());
        assert(out@ =~= start + seq!['"'] + doubled(s@.take(0)));
        while i < s.len()
            invariant
                i <= s.len(),
                out@ == start + seq!['"'] + doubled(s@.take(i as int)),
            decreases s.len() - i,
        {
            assert(s@.take(i + 1).drop_last() =~= s@.take(i as int));
            assert(s@.take(i + 1).last() == s@[i as int]);
            let ghost before = out@;
            if s[i] == '"' {
                out.push('"');
                out.push('"');
                assert(out@ =~= before + seq!['"', '"']);
            } else {
                out.push(s[i]);
            }
            assert(out@ =~= start + seq!['"'] + doubled(s@.take(i + 1)));
            i += 1;
        }
        assert(s@.take(s.len() as int) =~= s@);
        out.push('"');
        assert(out@ =~= start + csv_cell(s@));
    } else {
        let mut i: usize = 0;
        while i < s.len()
            invariant
                i <= s.len(),
                out@ == start + s@.take(i as int),
            decreases s.len() - i,
        {
            out.push(s[i]);
            assert(out@ =~= start + s@.take(i + 1));
            i += 1;
        }
        assert(s@.take(s.len() as int) =~= s@);
    }
}

/// Writes a row: its cells with a comma between each two.
pub fn csv_line(row: &Vec<Vec<char>>) -> (r: String)
    ensures
        r@ == csv_joined(buffers(row@)),
{
    let ghost all = buffers(row@);
    let mut out: Vec<char> = Vec::new();
    let mut i: usize = 0;
    assert(all.take(0) =~= Seq::<Seq<char>>::empty());
    while i < row.len()
        invariant
            i <= row.len(),
            all == buffers(row@),
            out@ == csv_joined(all.take(i as int)),
        decreases row.len() - i,
    {
        assert(all.take(i + 1).drop_last() =~= all.take(i as int));
        assert(all.take(i + 1).last() == row@[i as int]@);
        if i > 0 {
            out.push(',');
        } else {
            assert(all.take(1)[0] == row@[0]@);
            assert(out@ =~= Seq::<char>::empty());
        }
        push_cell(&mut out, &row[i]);
        assert(out@ =~= csv_joined(all.take(i + 1)));
        i += 1;
    }
    assert(all.take(row.len() as int) =~= all);
    string_of(&out)
}

/// The header of a table with the field columns `keys`.
pub open spec fn csv_header(keys: Seq<Seq<char>>, metadata: bool) -> Seq<char> {
    csv_joined(fixed_names(metadata) + keys)
}

/// The row of an entry in a table with the field columns `keys`.
pub open spec fn csv_row(e: EntryView, keys: Seq<Seq<char>>, metadata: bool) -> Seq<char> {
    csv_joined(cells(e, keys, metadata))
}

/// The lines of a table of the entries: nothing for no entry; else the
/// header, with a column for each key of a field that occurs, and a row for
/// each entry.
pub open spec fn csv_table(es: Seq<EntryView>, metadata: bool) -> Seq<Seq<char>> {
    if es.len() == 0 {
        Seq::empty()
    } else {
        seq![csv_header(field_keys(es), metadata)] + Seq::new(
            es.len(),
            |i: int| csv_row(es[i], field_keys(es), metadata),
        )
    }
}

/// Builds the lines of the table of the entries.
pub fn csv_lines(entries: &Vec<LogEntry>, metadata: bool) -> (r: Vec<String>)
    ensures
        strings_view(r@) == csv_table(entries_view(entries@), metadata),
{
    let mut r: Vec<String> = Vec::new();
    if entries.len() == 0 {
        assert(strings_view(r@) =~= csv_table(entries_view(entries@), metadata));
        return r;
    }
    let ghost es = entries_view(entries@);
    let keys = collect_keys(entries);
    let mut head = fixed_header(metadata);
    let mut k: usize = 0;
    let ghost names = fixed_names(metadata);
    while k < keys.len()
        invariant
            k <= keys.len(),
            buffers(head@) == names + strings_view(keys@).take(k as int),
        decreases keys.len() - k,
    {
        let ghost before = buffers(head@);
        head.push(chars_of(keys[k].as_str()));
        assert(buffers(head@) =~= before.push(keys@[k as int]@));
        assert(buffers(head@) =~= names + strings_view(keys@).take(k + 1));
        k += 1;
    }
    assert(strings_view(keys@).take(keys.len() as int) =~= strings_view(keys@));
    r.push(csv_line(&head));
    let mut i: usize = 0;
    while i < entries.len()
        invariant
            i <= entries.len(),
            es == entries_view(entries@),
            strings_view(keys@) == field_keys(es),
            r@.len() == i + 1,
            r@[0]@ == csv_header(field_keys(es), metadata),
            forall|j: int|
                0 <= j < i ==> (#[trigger] r@[j + 1])@ == csv_row(es[j], field_keys(es), metadata),
        decreases entries.len() - i,
    {
        let row = row_cells(&entries[i], &keys, metadata);
        r.push(csv_line(&row));
        i += 1;
    }
    proof {
        let want = csv_table(es, metadata);
        assert(strings_view(r@).len() == want.len());
        assert forall|j: int| 0 <= j < want.len() implies strings_view(r@)[j] == want[j] by {
            if j > 0 {
                assert(r@[(j - 1) + 1]@ == csv_row(es[j - 1], field_keys(es), metadata));
            }
        }
        assert(strings_view(r@) =~= want);
    }
    r
}

// ---------------------------------------------------------------------------
// JSON lines
// ---------------------------------------------------------------------------

/// A text as a JSON string, in quotes and escaped, as `serde_json` writes
/// it; `None` where `serde_json` refuses.
pub uninterp spec fn json_quoted(text: Seq<char>) -> Option<Seq<char>>;

/// Writes a text as a JSON string.
///
/// Trusted: calls `serde_json::to_string` on the text, which puts it in
/// quotes and escapes the quote, the backslash and the control characters.
/// An error gives `None`. The result depends on the text alone.
#[verifier::external_body]
pub(crate) fn quote_json(text: &str) -> (r: Option<String>)
    ensures
        opt_view(r) == json_quoted(text@),
{
    match serde_json::to_string(text) {
        Ok(s) => Some(s),
        Err(_) => None,
    }
}

/// A text as a JSON value: the JSON string of it, or `null` where that
/// cannot be written.
pub open spec fn json_text(s: Seq<char>) -> Seq<char> {
    match json_quoted(s) {
        Some(t) => t,
        None => "null"@,
    }
}

/// An optional text as a JSON value: `null` for a missing one.
pub open spec fn json_opt_text(s: Option<Seq<char>>) -> Seq<char> {
    match s {
        Some(t) => json_text(t),
        None => "null"@,
    }
}

/// The value of a field as a JSON value. A number and a nested value are
/// held as JSON text and written as they stand.
pub open spec fn json_value(v: FieldView) -> Seq<char> {
    match v {
        FieldView::Null => "null"@,
        FieldView::Bool(b) => if b {
            "true"@
        } else {
            "false"@
        },
        FieldView::Number(t) => t,
        FieldView::Text(t) => json_text(t),
        FieldView::Nested(t) => t,
    }
}

/// The members of the object of the fields: `key:value`, with a comma
/// between each two.
pub open spec fn json_pairs(fields: Seq<(Seq<char>, FieldView)>) -> Seq<char>
    decreases fields.len(),
{
    if fields.len() == 0 {
        Seq::empty()
    } else if fields.len() == 1 {
        json_text(fields[0].0) + seq![':'] + json_value(fields[0].1)
    } else {
        json_pairs(fields.drop_last()) + seq![','] + json_text(fields.last().0) + seq![':']
            + json_value(fields.last().1)
    }
}

/// The members that say where and when an entry came in.
pub open spec fn json_metadata(e: EntryView) -> Seq<char> {
    ",\"ts\":"@ + json_opt_text(rfc3339_text_of(e.ts.millis)) + ",\"source\":"@ + json_text(
        e.source.label_text(),
    ) + ",\"producer\":"@ + json_text(e.producer)
}

/// The members that say what an entry holds.
pub open spec fn json_content(e: EntryView) -> Seq<char> {
    ",\"level\":"@ + json_opt_text(level_text(e.level)) + ",\"message\":"@ + json_opt_text(
        e.message,
    ) + ",\"raw\":"@ + json_text(e.raw) + ",\"fields\":{"@ + json_pairs(e.fields) + "}"@
}

/// The JSON object of an entry: its sequence number, with metadata its
/// time, kind of feed and producer, then its level, message and raw text,
/// and its fields in an object of their own.
pub open spec fn json_line(e: EntryView, metadata: bool) -> Seq<char> {
    "{\"seq\":"@ + decimal_text(e.seq as nat) + (if metadata {
        json_metadata(e)
    } else {
        Seq::empty()
    }) + json_content(e) + "}"@
}

/// Writes a text as a JSON value.
fn push_json_text(out: &mut Vec<char>, s: &str)
    ensures
        final(out)@ == old(out)@ + json_text(s@),
{
    match quote_json(s) {
        Some(t) => push_str(out, t.as_str()),
        None => push_str(out, "null"),
    }
}

/// Writes an optional text as a JSON value.
fn push_json_opt(out: &mut Vec<char>, s: &Option<String>)
    ensures
        final(out)@ == old(out)@ + json_opt_text(opt_view(*s)),
{
    match s {
        Some(t) => push_json_text(out, t.as_str()),
        None => push_str(out, "null"),
    }
}

/// Writes the value of a field as a JSON value.
fn push_json_value(out: &mut Vec<char>, v: &FieldValue)
    ensures
        final(out)@ == old(out)@ + json_value(v@),
{
    match v {
        FieldValue::Null => push_str(out, "null"),
        FieldValue::Bool(b) => if *b {
            push_str(out, "true")
        } else {
            push_str(out, "false")
        },
        FieldValue::Number(t) => push_str(out, t.as_str()),
        FieldValue::Text(t) => push_json_text(out, t.as_str()),
        FieldValue::Nested(t) => push_str(out, t.as_str()),
    }
}

/// Writes the members of the object of the fields.
fn push_json_pairs(out: &mut Vec<char>, fields: &Vec<(String, FieldValue)>)
    ensures
        final(out)@ == old(out)@ + json_pairs(crate::types::fields_view(fields@)),
{
    let ghost start = out@;
    let ghost fs = crate::types::fields_view(fields@);
    let mut i: usize = 0;
    assert(fs.take(0) =~= Seq::<(Seq<char>, FieldView)>::empty());
    assert(out@ =~= start + json_pairs(fs.take(0)));
    while i < fields.len()
        invariant
            i <= fields.len(),
            fs == crate::types::fields_view(fields@),
            out@ == start + json_pairs(fs.take(i as int)),
        decreases fields.len() - i,
    {
        assert(fs.take(i + 1).drop_last() =~= fs.take(i as int));
        assert(fs.take(i + 1).last() == fs[i as int]);
        assert(fs.take(i + 1)[0] == fs[0]);
        if i > 0 {
            out.push(',');
        }
        push_json_text(out, fields[i].0.as_str());
        out.push(':');
        push_json_value(out, &fields[i].1);
        assert(out@ =~= start + json_pairs(fs.take(i + 1)));
        i += 1;
    }
    assert(fs.take(fields.len() as int) =~= fs);
}

/// Builds the members that say where and when an entry came in.
fn metadata_members(e: &LogEntry) -> (r: Vec<char>)
    ensures
        r@ == json_metadata(e@),
{
    let mut out: Vec<char> = Vec::new();
    push_str(&mut out, ",\"ts\":");
    assert(out@ =~= ",\"ts\":"@);
    push_json_opt(&mut out, &format_rfc3339(e.ts.millis));
    push_str(&mut out, ",\"source\":");
    push_json_text(&mut out, e.source.label().as_str());
    push_str(&mut out, ",\"producer\":");
    push_json_text(&mut out, e.producer.as_str());
    out
}

/// Builds the members that say what an entry holds.
fn content_members(e: &LogEntry) -> (r: Vec<char>)
    ensures
        r@ == json_content(e@),
{
    let mut out: Vec<char> = Vec::new();
    push_str(&mut out, ",\"level\":");
    assert(out@ =~= ",\"level\":"@);
    push_json_opt(&mut out, &level_label(e.level));
    push_str(&mut out, ",\"message\":");
    push_json_opt(&mut out, &e.message);
    push_str(&mut out, ",\"raw\":");
    push_json_text(&mut out, e.raw.as_str());
    push_str(&mut out, ",\"fields\":{");
    push_json_pairs(&mut out, &e.fields);
    push_str(&mut out, "}");
    out
}

/// Writes the JSON object of an entry.
pub fn json_object(e: &LogEntry, metadata: bool) -> (r: String)
    ensures
        r@ == json_line(e@, metadata),
{
    let mut out: Vec<char> = Vec::new();
    push_str(&mut out, "{\"seq\":");
    assert(out@ =~= "{\"seq\":"@);
    push_decimal(&mut out, e.seq);
    let mut where_from: Vec<char> = if metadata {
        metadata_members(e)
    } else {
        Vec::new()
    };
    out.append(&mut where_from);
    let mut content = content_members(e);
    out.append(&mut content);
    push_str(&mut out, "}");
    string_of(&out)
}

// ---------------------------------------------------------------------------
// Export
// ---------------------------------------------------------------------------

/// The lines of an export of the entries.
pub open spec fn exported(es: Seq<EntryView>, format: Format, metadata: bool) -> Seq<Seq<char>> {
    match format {
        Format::Raw => Seq::new(es.len(), |i: int| es[i].raw),
        Format::Jsonl => Seq::new(es.len(), |i: int| json_line(es[i], metadata)),
        Format::Csv => csv_table(es, metadata),
    }
}

/// Builds the lines of an export of the entries, in their order.
pub fn export_lines(entries: &Vec<LogEntry>, format: Format, metadata: bool) -> (r: Vec<String>)
    ensures
        strings_view(r@) == exported(entries_view(entries@), format, metadata),
{
    if let Format::Csv = format {
        return csv_lines(entries, metadata);
    }
    let ghost es = entries_view(entries@);
    let mut r: Vec<String> = Vec::new();
    let mut i: usize = 0;
    while i < entries.len()
        invariant
            i <= entries.len(),
            format != Format::Csv,
            es == entries_view(entries@),
            r@.len() == i,
            forall|j: int| 0 <= j < i ==> (#[trigger] r@[j])@ == exported(es, format, metadata)[j],
        decreases entries.len() - i,
    {
        let line = match format {
            Format::Raw => entries[i].raw.clone(),
            _ => json_object(&entries[i], metadata),
        };
        r.push(line);
        i += 1;
    }
    assert(strings_view(r@) =~= exported(es, format, metadata));
    r
}

/// Builds the lines of an export of a scope of the entries.
pub fn export_scope(
    o: &Ontology,
    q: &ParsedQuery,
    greed: u8,
    scope: &Scope,
    entries: &Vec<LogEntry>,
    format: Format,
    metadata: bool,
) -> (r: Vec<String>)
    requires
        o.wf(),
        greed <= MAX_GREED,
    ensures
        strings_view(r@) == exported(
            in_scope(o, q@, greed as int, scope@, entries_view(entries@)),
            format,
            metadata,
        ),
{
    let chosen = scoped(o, q, greed, scope, entries);
    export_lines(&chosen, format, metadata)
}

/// An export of no entry has no line, whatever the format.
pub proof fn law_empty_scope_exports_nothing(format: Format, metadata: bool)
    ensures
        exported(Seq::empty(), format, metadata) == Seq::<Seq<char>>::empty(),
{
    assert(exported(Seq::empty(), format, metadata) =~= Seq::<Seq<char>>::empty());
}

} // verus!
