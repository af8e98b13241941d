//! Shared record types: severity, feed kind, field values and the normalised
//! log entry that every layer exchanges.

use vstd::prelude::*;

verus! {

// ---------------------------------------------------------------------------
// Severity
// ---------------------------------------------------------------------------

/// Log severity, ordered from least to most severe.
#[derive(Debug, Clone, Copy, PartialEq, Eq, Structural, PartialOrd, Ord, Hash)]
pub enum LogLevel {
    Trace,
    Debug,
    Info,
    Warn,
    Error,
    Fatal,
}

impl LogLevel {
    /// Position of the level in the severity order, `Trace` being 0.
    pub open spec fn rank(self) -> nat {
        match self {
            LogLevel::Trace => 0,
            LogLevel::Debug => 1,
            LogLevel::Info => 2,
            LogLevel::Warn => 3,
            LogLevel::Error => 4,
            LogLevel::Fatal => 5,
        }
    }

    /// The upper-case name under which the level is displayed.
    pub open spec fn label_text(self) -> Seq<char> {
        match self {
            LogLevel::Trace => "TRACE"@,
            LogLevel::Debug => "DEBUG"@,
            LogLevel::Info => "INFO"@,
            LogLevel::Warn => "WARN"@,
            LogLevel::Error => "ERROR"@,
            LogLevel::Fatal => "FATAL"@,
        }
    }

    /// Executable counterpart of [`LogLevel::rank`].
    pub fn severity(self) -> (r: u8)
        ensures
            r as nat == self.rank(),
            r <= 5,
    {
        match self {
            LogLevel::Trace => 0,
            LogLevel::Debug => 1,
            LogLevel::Info => 2,
            LogLevel::Warn => 3,
            LogLevel::Error => 4,
            LogLevel::Fatal => 5,
        }
    }

    /// Tells whether this level is at least as severe as `floor`.
    pub fn at_least(self, floor: LogLevel) -> (r: bool)
        ensures
            r == (self.rank() >= floor.rank()),
    {
        self.severity() >= floor.severity()
    }

    /// The displayed name of the level.
    pub fn label(self) -> (r: String)
        ensures
            r@ == self.label_text(),
    {
        match self {
            LogLevel::Trace => "TRACE".to_owned(),
            LogLevel::Debug => "DEBUG".to_owned(),
            LogLevel::Info => "INFO".to_owned(),
            LogLevel::Warn => "WARN".to_owned(),
            LogLevel::Error => "ERROR".to_owned(),
            LogLevel::Fatal => "FATAL".to_owned(),
        }
    }
}

// ---------------------------------------------------------------------------
// Feed kind
// ---------------------------------------------------------------------------

/// Which kind of feed produced a log entry.
#[derive(Debug, Clone, Copy, PartialEq, Eq, Structural, Hash)]
pub enum FeedKind {
    Kubernetes,
    Docker,
    File,
    Stdin,
}

impl FeedKind {
    /// The lower-case name under which the feed kind is displayed.
    pub open spec fn label_text(self) -> Seq<char> {
        match self {
            FeedKind::Kubernetes => "kubernetes"@,
            FeedKind::Docker => "docker"@,
            FeedKind::File => "file"@,
            FeedKind::Stdin => "stdin"@,
        }
    }

    /// The displayed name of the feed kind.
    pub fn label(self) -> (r: String)
        ensures
            r@ == self.label_text(),
    {
        match self {
            FeedKind::Kubernetes => "kubernetes".to_owned(),
            FeedKind::Docker => "docker".to_owned(),
            FeedKind::File => "file".to_owned(),
            FeedKind::Stdin => "stdin".to_owned(),
        }
    }
}

// ---------------------------------------------------------------------------
// Timestamps
// ---------------------------------------------------------------------------

/// A UTC instant, held as milliseconds since the Unix epoch.
#[derive(Debug, Clone, Copy, PartialEq, Eq, Structural, Hash)]
pub struct Timestamp {
    pub millis: i64,
}

impl Timestamp {
    /// Whole seconds since the epoch, rounded towards negative infinity.
    pub open spec fn seconds(self) -> int {
        self.millis as int / 1000
    }

    /// The instant is later than the first second after the epoch, which is
    /// how a timestamp that was really set is told from a zero default.
    pub open spec fn is_set(self) -> bool {
        self.seconds() > 0
    }

    /// Builds a timestamp from milliseconds since the epoch.
    pub fn from_millis(millis: i64) -> (r: Timestamp)
        ensures
            r.millis == millis,
    {
        Timestamp { millis }
    }

    /// Whole seconds since the epoch.
    pub fn timestamp(self) -> (r: i64)
        ensures
            r as int == self.seconds(),
    {
        if self.millis >= 0 {
            let m: u64 = self.millis as u64;
            (m / 1000) as i64
        } else {
            let below: u64 = (-(self.millis + 1)) as u64;
            let q: u64 = below / 1000;
            -(q as i64) - 1
        }
    }

    /// Tells whether the timestamp was set, that is, lies after the epoch second.
    pub fn after_epoch(self) -> (r: bool)
        ensures
            r == self.is_set(),
    {
        self.millis >= 1000
    }
}

// ---------------------------------------------------------------------------
// Field values
// ---------------------------------------------------------------------------

/// A structured value held under a field key.
///
/// Numbers keep the decimal text they were written with; arrays and objects
/// keep their compact JSON text, so nothing of a nested value is lost.
#[derive(Debug, Clone, PartialEq, Eq)]
pub enum FieldValue {
    Null,
    Bool(bool),
    Number(String),
    Text(String),
    Nested(String),
}

/// The mathematical content of a [`FieldValue`].
pub enum FieldView {
    Null,
    Bool(bool),
    Number(Seq<char>),
    Text(Seq<char>),
    Nested(Seq<char>),
}

impl View for FieldValue {
    type V = FieldView;

    open spec fn view(&self) -> FieldView {
        match self {
            FieldValue::Null => FieldView::Null,
            FieldValue::Bool(b) => FieldView::Bool(*b),
            FieldValue::Number(s) => FieldView::Number(s@),
            FieldValue::Text(s) => FieldView::Text(s@),
            FieldValue::Nested(s) => FieldView::Nested(s@),
        }
    }
}

impl FieldView {
    /// The text under which the value takes part in matching: the string
    /// itself, a number's or nested value's text, `true` or `false`, and
    /// `null`.
    pub open spec fn text(self) -> Seq<char> {
        match self {
            FieldView::Null => "null"@,
            FieldView::Bool(b) => if b {
                "true"@
            } else {
                "false"@
            },
            FieldView::Number(s) => s,
            FieldView::Text(s) => s,
            FieldView::Nested(s) => s,
        }
    }
}

impl FieldValue {
    /// A copy with the same content.
    pub fn duplicate(&self) -> (r: FieldValue)
        ensures
            r@ == self@,
    {
        match self {
            FieldValue::Null => FieldValue::Null,
            FieldValue::Bool(b) => FieldValue::Bool(*b),
            FieldValue::Number(s) => FieldValue::Number(s.clone()),
            FieldValue::Text(s) => FieldValue::Text(s.clone()),
            FieldValue::Nested(s) => FieldValue::Nested(s.clone()),
        }
    }

    /// The text under which the value takes part in matching.
    pub fn to_text(&self) -> (r: String)
        ensures
            r@ == self@.text(),
    {
        match self {
            FieldValue::Null => "null".to_owned(),
            FieldValue::Bool(b) => if *b {
                "true".to_owned()
            } else {
                "false".to_owned()
            },
            FieldValue::Number(s) => s.clone(),
            FieldValue::Text(s) => s.clone(),
            FieldValue::Nested(s) => s.clone(),
        }
    }
}

// ---------------------------------------------------------------------------
// Log entries
// ---------------------------------------------------------------------------

/// A normalised log entry.
///
/// `seq` is assigned by the store on insertion. `fields` keeps its keys in
/// the order in which normalisation found them.
#[derive(Debug, Clone, PartialEq)]
pub struct LogEntry {
    /// Sequence number assigned by the store on insertion.
    pub seq: u64,
    /// The line as received, lossily converted to text.
    pub raw: String,
    /// Ingest time, or the time recognised inside the line.
    pub ts: Timestamp,
    /// Severity, where one could be recognised.
    pub level: Option<LogLevel>,
    /// Kind of feed that produced the entry.
    pub source: FeedKind,
    /// Name of the producer: pod, container, file path.
    pub producer: String,
    /// Structured fields found by normalisation, keyed in lower case.
    pub fields: Vec<(String, FieldValue)>,
    /// Human-readable message, where one could be identified.
    pub message: Option<String>,
}

/// The mathematical content of a [`LogEntry`].
pub struct EntryView {
    pub seq: u64,
    pub raw: Seq<char>,
    pub ts: Timestamp,
    pub level: Option<LogLevel>,
    pub source: FeedKind,
    pub producer: Seq<char>,
    pub fields: Seq<(Seq<char>, FieldView)>,
    pub message: Option<Seq<char>>,
}

/// The content of a list of fields.
pub open spec fn fields_view(fields: Seq<(String, FieldValue)>) -> Seq<(Seq<char>, FieldView)> {
    Seq::new(fields.len(), |i: int| (fields[i].0@, fields[i].1@))
}

/// The content of an optional string.
pub open spec fn opt_view(s: Option<String>) -> Option<Seq<char>> {
    match s {
        Some(t) => Some(t@),
        None => None,
    }
}

impl View for LogEntry {
    type V = EntryView;

    open spec fn view(&self) -> EntryView {
        EntryView {
            seq: self.seq,
            raw: self.raw@,
            ts: self.ts,
            level: self.level,
            source: self.source,
            producer: self.producer@,
            fields: fields_view(self.fields@),
            message: opt_view(self.message),
        }
    }
}

impl EntryView {
    /// The value held under `key`, taken from the first field with that key.
    pub open spec fn field(self, key: Seq<char>) -> Option<FieldView> {
        lookup(self.fields, key)
    }

    /// The entry with another sequence number and everything else unchanged.
    pub open spec fn with_seq(self, seq: u64) -> EntryView {
        EntryView { seq, ..self }
    }

    /// The level is known and at least `floor`.
    pub open spec fn level_at_least(self, floor: LogLevel) -> bool {
        match self.level {
            Some(l) => l.rank() >= floor.rank(),
            None => false,
        }
    }
}

/// The value of the first pair of `fields` whose key is `key`.
pub open spec fn lookup(fields: Seq<(Seq<char>, FieldView)>, key: Seq<char>) -> Option<FieldView>
    decreases fields.len(),
{
    if fields.len() == 0 {
        None
    } else if fields[0].0 == key {
        Some(fields[0].1)
    } else {
        lookup(fields.drop_first(), key)
    }
}

/// Copies an optional string.
pub fn duplicate_opt(s: &Option<String>) -> (r: Option<String>)
    ensures
        opt_view(r) == opt_view(*s),
{
    match s {
        Some(t) => Some(t.clone()),
        None => None,
    }
}

/// Copies a list of fields.
pub fn duplicate_fields(fields: &Vec<(String, FieldValue)>) -> (r: Vec<(String, FieldValue)>)
    ensures
        fields_view(r@) == fields_view(fields@),
{
    let mut r: Vec<(String, FieldValue)> = Vec::new();
    let mut i: usize = 0;
    while i < fields.len()
        invariant
            i <= fields.len(),
            r@.len() == i,
            forall|j: int| 0 <= j < i ==> r@[j].0@ == fields@[j].0@ && r@[j].1@ == fields@[j].1@,
        decreases fields.len() - i,
    {
        let pair = &fields[i];
        r.push((pair.0.clone(), pair.1.duplicate()));
        i += 1;
    }
    assert(fields_view(r@) =~= fields_view(fields@));
    r
}

impl LogEntry {
    /// A copy with the same content.
    pub fn duplicate(&self) -> (r: LogEntry)
        ensures
            r@ == self@,
    {
        LogEntry {
            seq: self.seq,
            raw: self.raw.clone(),
            ts: self.ts,
            level: self.level,
            source: self.source,
            producer: self.producer.clone(),
            fields: duplicate_fields(&self.fields),
            message: duplicate_opt(&self.message),
        }
    }

    /// The value held under `key`, if the entry has such a field.
    pub fn field(&self, key: &str) -> (r: Option<FieldValue>)
        ensures
            match r {
                Some(v) => self@.field(key@) == Some(v@),
                None => self@.field(key@) is None,
            },
    {
        let wanted = key.to_owned();
        let mut i: usize = 0;
        assert(fields_view(self.fields@).skip(0) =~= fields_view(self.fields@));
        while i < self.fields.len()
            invariant
                i <= self.fields.len(),
                wanted@ == key@,
                lookup(fields_view(self.fields@), key@) == lookup(
                    fields_view(self.fields@).skip(i as int),
                    key@,
                ),
            decreases self.fields.len() - i,
        {
            let ghost rest = fields_view(self.fields@).skip(i as int);
            assert(rest[0] == fields_view(self.fields@)[i as int]);
            assert(rest.drop_first() =~= fields_view(self.fields@).skip(i + 1));
            if self.fields[i].0 == wanted {
                return Some(self.fields[i].1.duplicate());
            }
            i += 1;
        }
        None
    }
}

/// The level that a name in lower case denotes: the six level names, and
/// `warning` for `Warn`, `critical` and `panic` for `Fatal`.
pub open spec fn level_named(name: Seq<char>) -> Option<LogLevel> {
    if name == "trace"@ {
        Some(LogLevel::Trace)
    } else if name == "debug"@ {
        Some(LogLevel::Debug)
    } else if name == "info"@ {
        Some(LogLevel::Info)
    } else if name == "warn"@ || name == "warning"@ {
        Some(LogLevel::Warn)
    } else if name == "error"@ {
        Some(LogLevel::Error)
    } else if name == "fatal"@ || name == "critical"@ || name == "panic"@ {
        Some(LogLevel::Fatal)
    } else {
        None
    }
}

/// The kind of feed that a name in lower case denotes.
pub open spec fn source_named(name: Seq<char>) -> Option<FeedKind> {
    if name == "kubernetes"@ || name == "orchestrator"@ || name == "k8s"@ {
        Some(FeedKind::Kubernetes)
    } else if name == "docker"@ || name == "runtime"@ {
        Some(FeedKind::Docker)
    } else if name == "file"@ {
        Some(FeedKind::File)
    } else if name == "stdin"@ {
        Some(FeedKind::Stdin)
    } else {
        None
    }
}

impl LogLevel {
    /// The level that a name in lower case denotes, if any.
    pub fn from_name(name: &Vec<char>) -> (r: Option<LogLevel>)
        ensures
            r == level_named(name@),
    {
        if crate::text::chars_are(name, "trace") {
            Some(LogLevel::Trace)
        } else if crate::text::chars_are(name, "debug") {
            Some(LogLevel::Debug)
        } else if crate::text::chars_are(name, "info") {
            Some(LogLevel::Info)
        } else if crate::text::chars_are(name, "warn") || crate::text::chars_are(name, "warning") {
            Some(LogLevel::Warn)
        } else if crate::text::chars_are(name, "error") {
            Some(LogLevel::Error)
        } else if crate::text::chars_are(name, "fatal") || crate::text::chars_are(
            name,
            "critical",
        ) || crate::text::chars_are(name, "panic") {
            Some(LogLevel::Fatal)
        } else {
            None
        }
    }
}

impl FeedKind {
    /// The kind of feed that a name in lower case denotes, if any.
    pub fn from_name(name: &Vec<char>) -> (r: Option<FeedKind>)
        ensures
            r == source_named(name@),
    {
        if crate::text::chars_are(name, "kubernetes") || crate::text::chars_are(
            name,
            "orchestrator",
        ) || crate::text::chars_are(name, "k8s") {
            Some(FeedKind::Kubernetes)
        } else if crate::text::chars_are(name, "docker") || crate::text::chars_are(
            name,
            "runtime",
        ) {
            Some(FeedKind::Docker)
        } else if crate::text::chars_are(name, "file") {
            Some(FeedKind::File)
        } else if crate::text::chars_are(name, "stdin") {
            Some(FeedKind::Stdin)
        } else {
            None
        }
    }
}

/// The views of a list of entries, in order.
pub open spec fn entries_view(entries: Seq<LogEntry>) -> Seq<EntryView> {
    Seq::new(entries.len(), |i: int| entries[i]@)
}

} // verus!
