//! What the feed adapters decide: how producers are named, how the frames
//! of a container runtime are taken apart, how long to wait before a
//! reconnect, which lines of a resumed session are new, and what to do when
//! a tailed file is rotated or truncated.
//!
//! Reading from sockets, processes and files is left to the program around
//! the library, which hands the bytes and observations in and acts on what
//! comes back.

use crate::normalizer::cascade::{normalize, normalized, DefaultsView, FeedDefaults};
use crate::normalizer::json::lossy_decode;
use crate::text::{chars_of, push_str, string_of};
use crate::types::{EntryView, FieldValue, FieldView, LogEntry};
use vstd::prelude::*;

verus! {

/// Implemented by each feed adapter.
pub trait FeedHandle: Send + Sync {

}

// ---------------------------------------------------------------------------
// Producer names
// ---------------------------------------------------------------------------

/// The producer name of a container of a pod: the pod for a pod with one
/// container, `pod/container` for a pod with several.
pub open spec fn pod_producer_spec(pod: Seq<char>, container: Seq<char>, containers: nat) -> Seq<
    char,
> {
    if containers > 1 {
        pod + seq!['/'] + container
    } else {
        pod
    }
}

/// Names the producer of a container of a pod.
pub fn pod_producer(pod: &str, container: &str, containers: usize) -> (r: String)
    ensures
        r@ == pod_producer_spec(pod@, container@, containers as nat),
{
    let mut out: Vec<char> = Vec::new();
    push_str(&mut out, pod);
    if containers > 1 {
        out.push('/');
        push_str(&mut out, container);
    }
    assert(out@ =~= pod_producer_spec(pod@, container@, containers as nat));
    string_of(&out)
}

/// The name of a container without the slash that the runtime puts in
/// front of it.
pub open spec fn primary_name(name: Seq<char>) -> Seq<char> {
    if name.len() > 0 && name.first() == '/' {
        name.drop_first()
    } else {
        name
    }
}

/// The producer name of a container: `project/service` where it carries
/// both compose labels, else its primary name.
pub open spec fn container_producer_spec(
    name: Seq<char>,
    project: Option<Seq<char>>,
    service: Option<Seq<char>>,
) -> Seq<char> {
    match (project, service) {
        (Some(p), Some(s)) => p + seq!['/'] + s,
        _ => primary_name(name),
    }
}

/// Names the producer of a container.
pub fn container_producer(name: &str, project: Option<&str>, service: Option<&str>) -> (r: String)
    ensures
        r@ == container_producer_spec(
            name@,
            match project {
                Some(p) => Some(p@),
                None => None,
            },
            match service {
                Some(s) => Some(s@),
                None => None,
            },
        ),
{
    let mut out: Vec<char> = Vec::new();
    match (project, service) {
        (Some(p), Some(s)) => {
            push_str(&mut out, p);
            out.push('/');
            push_str(&mut out, s);
            assert(out@ =~= p@ + seq!['/'] + s@);
        },
        _ => {
            let v = chars_of(name);
            let from: usize = if v.len() > 0 && v[0] == '/' {
                1
            } else {
                0
            };
            let mut i: usize = from;
            while i < v.len()
                invariant
                    from <= i <= v.len(),
                    out@ == v@.subrange(from as int, i as int),
                decreases v.len() - i,
            {
                out.push(v[i]);
                assert(out@ =~= v@.subrange(from as int, i + 1));
                i += 1;
            }
            assert(out@ =~= primary_name(name@));
        },
    }
    string_of(&out)
}

// ---------------------------------------------------------------------------
// Container runtime frames
// ---------------------------------------------------------------------------

/// The length of a frame header.
pub const HEADER_LEN: usize = 8;

/// The stream that a frame belongs to.
#[derive(Debug, Clone, Copy, PartialEq, Eq, Structural)]
pub enum StreamKind {
    Stdout,
    Stderr,
}

impl StreamKind {
    /// The name of the stream, which the `stream` field of a record holds.
    pub open spec fn name(self) -> Seq<char> {
        match self {
            StreamKind::Stdout => "stdout"@,
            StreamKind::Stderr => "stderr"@,
        }
    }

    /// The name of the stream.
    pub fn label(self) -> (r: String)
        ensures
            r@ == self.name(),
    {
        match self {
            StreamKind::Stdout => "stdout".to_owned(),
            StreamKind::Stderr => "stderr".to_owned(),
        }
    }
}

/// One frame: its stream and its payload.
#[derive(Debug, Clone, PartialEq, Eq)]
pub struct Frame {
    pub stream: StreamKind,
    pub payload: Vec<u8>,
}

/// The mathematical content of a [`Frame`].
pub struct FrameView {
    pub stream: StreamKind,
    pub payload: Seq<u8>,
}

impl View for Frame {
    type V = FrameView;

    open spec fn view(&self) -> FrameView {
        FrameView { stream: self.stream, payload: self.payload@ }
    }
}

/// Why a frame was refused.
#[derive(Debug, Clone, Copy, PartialEq, Eq, Structural)]
pub enum FrameError {
    /// The first byte of the header is neither 1 nor 2.
    UnknownStream(u8),
    /// One of the three bytes after the first is not 0.
    BadPadding,
}

/// What the start of a buffer holds.
pub enum Decoded {
    /// Not yet a whole frame: more bytes are needed.
    Incomplete,
    /// A whole frame, and the number of bytes it takes.
    Whole(FrameView, nat),
    /// A header that is no header.
    Refused(FrameError),
}

/// The number that four bytes denote, the first byte being the highest.
pub open spec fn be32(a: u8, b: u8, c: u8, d: u8) -> nat {
    (a as nat) * 16777216 + (b as nat) * 65536 + (c as nat) * 256 + (d as nat)
}

/// What the start of a buffer holds: a header of eight bytes, the stream
/// first (1 for standard output, 2 for standard error), three zero bytes,
/// and the length of the payload in four bytes, highest first; then the
/// payload.
pub open spec fn decode_spec(buf: Seq<u8>) -> Decoded {
    if buf.len() < HEADER_LEN {
        Decoded::Incomplete
    } else if buf[0] != 1 && buf[0] != 2 {
        Decoded::Refused(FrameError::UnknownStream(buf[0]))
    } else if buf[1] != 0 || buf[2] != 0 || buf[3] != 0 {
        Decoded::Refused(FrameError::BadPadding)
    } else {
        let size = be32(buf[4], buf[5], buf[6], buf[7]);
        if buf.len() < HEADER_LEN + size {
            Decoded::Incomplete
        } else {
            Decoded::Whole(
                FrameView {
                    stream: if buf[0] == 1 {
                        StreamKind::Stdout
                    } else {
                        StreamKind::Stderr
                    },
                    payload: buf.subrange(HEADER_LEN as int, HEADER_LEN + size),
                },
                HEADER_LEN as nat + size,
            )
        }
    }
}

/// Takes the first frame off a buffer.
///
/// Gives `Ok(None)` while the buffer does not yet hold a whole frame,
/// `Ok(Some((frame, used)))` for a whole frame that takes `used` bytes, and
/// an error for a header that is no header.
pub fn decode_frame(buf: &Vec<u8>) -> (r: Result<Option<(Frame, usize)>, FrameError>)
    ensures
        match r {
            Ok(None) => decode_spec(buf@) is Incomplete,
            Ok(Some((frame, used))) => decode_spec(buf@) == Decoded::Whole(frame@, used as nat),
            Err(e) => decode_spec(buf@) == Decoded::Refused(e),
        },
{
    if buf.len() < HEADER_LEN {
        return Ok(None);
    }
    let kind: u8 = buf[0];
    if kind != 1 && kind != 2 {
        return Err(FrameError::UnknownStream(kind));
    }
    if buf[1] != 0 || buf[2] != 0 || buf[3] != 0 {
        return Err(FrameError::BadPadding);
    }
    let size: u64 = (buf[4] as u64) * 16777216 + (buf[5] as u64) * 65536 + (buf[6] as u64) * 256 + (
    buf[7] as u64);
    let rest: u64 = (buf.len() - HEADER_LEN) as u64;
    if rest < size {
        return Ok(None);
    }
    let end: usize = HEADER_LEN + size as usize;
    let mut payload: Vec<u8> = Vec::new();
    let mut i: usize = HEADER_LEN;
    while i < end
        invariant
            HEADER_LEN <= i <= end <= buf.len(),
            payload@ == buf@.subrange(HEADER_LEN as int, i as int),
        decreases end - i,
    {
        payload.push(buf[i]);
        assert(payload@ =~= buf@.subrange(HEADER_LEN as int, i + 1));
        i += 1;
    }
    let stream = if kind == 1 {
        StreamKind::Stdout
    } else {
        StreamKind::Stderr
    };
    Ok(Some((Frame { stream, payload }, end)))
}

/// The record of a frame: its payload normalised, with a field `stream`
/// that names the stream put in front of the other fields.
pub open spec fn frame_record(frame: FrameView, d: DefaultsView) -> EntryView {
    let base = normalized(lossy_decode(frame.payload), d);
    EntryView { fields: seq![("stream"@, FieldView::Text(frame.stream.name()))] + base.fields, ..base }
}

/// Normalises the payload of a frame and tags the record with its stream.
pub fn frame_entry(frame: &Frame, d: &FeedDefaults) -> (r: LogEntry)
    ensures
        r@ == frame_record(frame@, d@),
{
    let base = normalize(frame.payload.as_slice(), d);
    let mut fields: Vec<(String, FieldValue)> = Vec::new();
    fields.push(("stream".to_owned(), FieldValue::Text(frame.stream.label())));
    let mut i: usize = 0;
    while i < base.fields.len()
        invariant
            i <= base.fields.len(),
            fields@.len() == i + 1,
            fields@[0].0@ == "stream"@,
            fields@[0].1@ == FieldView::Text(frame.stream.name()),
            forall|k: int|
                0 <= k < i ==> (#[trigger] fields@[k + 1]).0@ == base.fields@[k].0@ && fields@[k
                    + 1].1@ == base.fields@[k].1@,
        decreases base.fields.len() - i,
    {
        fields.push((base.fields[i].0.clone(), base.fields[i].1.duplicate()));
        i += 1;
    }
    proof {
        let want = seq![("stream"@, FieldView::Text(frame.stream.name()))] + base@.fields;
        assert forall|k: int| 0 <= k < fields@.len() implies crate::types::fields_view(fields@)[k]
            == want[k] by {
            if k > 0 {
                assert(fields@[(k - 1) + 1].0@ == base.fields@[k - 1].0@);
            }
        }
        assert(crate::types::fields_view(fields@) =~= want);
    }
    LogEntry {
        seq: base.seq,
        raw: base.raw,
        ts: base.ts,
        level: base.level,
        source: base.source,
        producer: base.producer,
        fields,
        message: base.message,
    }
}

// ---------------------------------------------------------------------------
// Reconnect delays
// ---------------------------------------------------------------------------

/// The first delay before a reconnect, in milliseconds.
pub const BACKOFF_START_MS: u64 = 100;

/// The longest delay before a reconnect, in milliseconds.
pub const BACKOFF_CAP_MS: u64 = 30_000;

/// The delay before the reconnect that follows `failures` failures in a
/// row: 100 ms doubled for each failure, held to 30 s.
pub open spec fn delay_after(failures: nat) -> nat
    decreases failures,
{
    if failures == 0 {
        BACKOFF_START_MS as nat
    } else if delay_after((failures - 1) as nat) * 2 >= BACKOFF_CAP_MS {
        BACKOFF_CAP_MS as nat
    } else {
        delay_after((failures - 1) as nat) * 2
    }
}

/// The delays between reconnects of one source.
#[derive(Debug, Clone, Copy, PartialEq, Eq, Structural)]
pub struct Backoff {
    /// The delay before the next reconnect, in milliseconds.
    pub next_ms: u64,
}

impl Backoff {
    /// The delay is one that a run of failures leads to.
    pub open spec fn wf(self) -> bool {
        exists|k: nat| self.next_ms == #[trigger] delay_after(k)
    }

    /// The delays of a source that has not failed yet.
    pub fn new() -> (r: Backoff)
        ensures
            r.wf(),
            r.next_ms == delay_after(0),
    {
        Backoff { next_ms: BACKOFF_START_MS }
    }

    /// The delay to wait now. The delay after it is twice as long, held to
    /// the cap.
    pub fn next_delay(&mut self) -> (r: u64)
        requires
            old(self).wf(),
        ensures
            final(self).wf(),
            r == old(self).next_ms,
            forall|k: nat|
                old(self).next_ms == #[trigger] delay_after(k) ==> final(self).next_ms
                    == delay_after(k + 1),
            old(self).next_ms <= final(self).next_ms <= BACKOFF_CAP_MS,
    {
        proof {
            let k = choose|k: nat| self.next_ms == #[trigger] delay_after(k);
            lemma_delay_bounds(k);
            assert(delay_after(k + 1) == if delay_after(k) * 2 >= BACKOFF_CAP_MS {
                BACKOFF_CAP_MS as nat
            } else {
                delay_after(k) * 2
            });
        }
        let r: u64 = self.next_ms;
        let doubled: u64 = r * 2;
        self.next_ms = if doubled >= BACKOFF_CAP_MS {
            BACKOFF_CAP_MS
        } else {
            doubled
        };
        proof {
            let k = choose|k: nat| r == #[trigger] delay_after(k);
            assert(self.next_ms == delay_after(k + 1));
            assert forall|j: nat| r == #[trigger] delay_after(j) implies self.next_ms
                == delay_after(j + 1) by {
                assert(delay_after(j + 1) == if delay_after(j) * 2 >= BACKOFF_CAP_MS {
                    BACKOFF_CAP_MS as nat
                } else {
                    delay_after(j) * 2
                });
            }
        }
        r
    }

    /// Starts over after a reconnect that succeeded.
    pub fn reset(&mut self)
        ensures
            final(self).wf(),
            final(self).next_ms == delay_after(0),
    {
        self.next_ms = BACKOFF_START_MS;
    }
}

/// Every delay lies between the first delay and the cap.
pub proof fn lemma_delay_bounds(k: nat)
    ensures
        BACKOFF_START_MS <= delay_after(k) <= BACKOFF_CAP_MS,
    decreases k,
{
    if k > 0 {
        lemma_delay_bounds((k - 1) as nat);
    }
}

/// The delays never shrink from one failure to the next.
pub proof fn law_backoff_grows(k: nat)
    ensures
        delay_after(k) <= delay_after(k + 1),
{
    lemma_delay_bounds(k);
    assert(delay_after(k + 1) == if delay_after(k) * 2 >= BACKOFF_CAP_MS {
        BACKOFF_CAP_MS as nat
    } else {
        delay_after(k) * 2
    });
}

// ---------------------------------------------------------------------------
// Resuming a session
// ---------------------------------------------------------------------------

/// What a session remembers across reconnects: the stamp of the last line
/// that it delivered. A source stamps its lines in strictly growing order.
#[derive(Debug, Clone, Copy, PartialEq, Eq, Structural)]
pub struct Resume {
    pub watermark: Option<u64>,
}

/// The watermark after a line with the stamp was offered.
pub open spec fn raised(w: Option<u64>, stamp: u64) -> Option<u64> {
    match w {
        Some(at) => if stamp > at {
            Some(stamp)
        } else {
            w
        },
        None => Some(stamp),
    }
}

/// The line with the stamp is new: it lies behind the watermark.
pub open spec fn is_new(w: Option<u64>, stamp: u64) -> bool {
    match w {
        Some(at) => stamp > at,
        None => true,
    }
}

/// The lines, of those offered in this order, that are delivered.
pub open spec fn delivered(w: Option<u64>, offered: Seq<u64>) -> Seq<u64>
    decreases offered.len(),
{
    if offered.len() == 0 {
        Seq::empty()
    } else if is_new(w, offered.first()) {
        seq![offered.first()] + delivered(raised(w, offered.first()), offered.drop_first())
    } else {
        delivered(w, offered.drop_first())
    }
}

/// The watermark after the lines were offered in this order.
pub open spec fn watermark_after(w: Option<u64>, offered: Seq<u64>) -> Option<u64>
    decreases offered.len(),
{
    if offered.len() == 0 {
        w
    } else {
        watermark_after(raised(w, offered.first()), offered.drop_first())
    }
}

impl Resume {
    /// A session that has delivered nothing yet.
    pub fn new() -> (r: Resume)
        ensures
            r.watermark is None,
    {
        Resume { watermark: None }
    }

    /// Offers a line. Tells whether it is new, and so to be delivered; a
    /// line at or before the watermark is dropped.
    pub fn offer(&mut self, stamp: u64) -> (r: bool)
        ensures
            r == is_new(old(self).watermark, stamp),
            final(self).watermark == raised(old(self).watermark, stamp),
    {
        let fresh: bool = match self.watermark {
            Some(at) => stamp > at,
            None => true,
        };
        if fresh {
            self.watermark = Some(stamp);
        }
        fresh
    }
}

/// The stamps grow strictly.
pub open spec fn strictly_growing(s: Seq<u64>) -> bool {
    forall|i: int, j: int| 0 <= i < j < s.len() ==> s[i] < s[j]
}

/// Lines in growing order that all lie behind the watermark are all
/// delivered, and the watermark ends at the last of them.
pub proof fn lemma_fresh_lines(w: Option<u64>, s: Seq<u64>)
    requires
        strictly_growing(s),
        s.len() > 0 ==> is_new(w, s.first()),
    ensures
        delivered(w, s) == s,
        watermark_after(w, s) == if s.len() > 0 {
            Some(s.last())
        } else {
            w
        },
    decreases s.len(),
{
    if s.len() > 0 {
        let rest = s.drop_first();
        assert forall|i: int, j: int| 0 <= i < j < rest.len() implies rest[i] < rest[j] by {
            assert(s[i + 1] < s[j + 1]);
        }
        if rest.len() > 0 {
            assert(s[0] < s[1]);
        }
        lemma_fresh_lines(raised(w, s.first()), rest);
        assert(seq![s.first()] + rest =~= s);
    }
}

/// Lines at or before the watermark are all dropped and leave it as it is.
pub proof fn lemma_stale_lines(w: Option<u64>, s: Seq<u64>)
    requires
        forall|i: int| 0 <= i < s.len() ==> !is_new(w, #[trigger] s[i]),
    ensures
        delivered(w, s) == Seq::<u64>::empty(),
        watermark_after(w, s) == w,
    decreases s.len(),
{
    if s.len() > 0 {
        assert(!is_new(w, s[0]));
        assert forall|i: int| 0 <= i < s.drop_first().len() implies !is_new(
            w,
            #[trigger] s.drop_first()[i],
        ) by {
            assert(!is_new(w, s[i + 1]));
        }
        lemma_stale_lines(w, s.drop_first());
    }
}

/// What is delivered of two batches in a row.
pub proof fn lemma_delivered_concat(w: Option<u64>, a: Seq<u64>, b: Seq<u64>)
    ensures
        delivered(w, a + b) == delivered(w, a) + delivered(watermark_after(w, a), b),
        watermark_after(w, a + b) == watermark_after(watermark_after(w, a), b),
    decreases a.len(),
{
    if a.len() == 0 {
        assert(a + b =~= b);
        assert(Seq::<u64>::empty() + delivered(w, b) =~= delivered(w, b));
    } else {
        assert((a + b).first() == a.first());
        assert((a + b).drop_first() =~= a.drop_first() + b);
        lemma_delivered_concat(raised(w, a.first()), a.drop_first(), b);
        lemma_delivered_concat(w, a.drop_first(), b);
        if is_new(w, a.first()) {
            assert(seq![a.first()] + (delivered(raised(w, a.first()), a.drop_first())
                + delivered(watermark_after(raised(w, a.first()), a.drop_first()), b)) =~= (seq![
                a.first(),
            ] + delivered(raised(w, a.first()), a.drop_first())) + delivered(
                watermark_after(w, a),
                b,
            ));
        }
    }
}

/// Reconnect conservation: a source stamps its lines in strictly growing
/// order. A session delivers the first `k` lines and is cut off. The new
/// session starts again at some line `j` at or before the cut. Then the
/// two sessions together deliver every line of the source once, in order:
/// none twice, none lost.
pub proof fn law_reconnect_conserves(source: Seq<u64>, k: int, j: int)
    requires
        strictly_growing(source),
        0 <= j <= k <= source.len(),
    ensures
        delivered(None, source.take(k) + source.skip(j)) == source,
{
    let first = source.take(k);
    let replay = source.subrange(j, k);
    let fresh = source.skip(k);
    assert(source.skip(j) =~= replay + fresh);
    assert(first + source.skip(j) =~= first + (replay + fresh));
    assert forall|a: int, b: int| 0 <= a < b < first.len() implies first[a] < first[b] by {
        assert(source[a] < source[b]);
    }
    lemma_fresh_lines(None, first);
    let w = watermark_after(None, first);
    lemma_delivered_concat(None, first, replay + fresh);
    lemma_delivered_concat(w, replay, fresh);
    if k > 0 {
        assert(w == Some(source[k - 1]));
        assert forall|i: int| 0 <= i < replay.len() implies !is_new(w, #[trigger] replay[i]) by {
            if j + i < k - 1 {
                assert(source[j + i] < source[k - 1]);
            }
        }
    } else {
        assert(replay.len() == 0);
    }
    lemma_stale_lines(w, replay);
    assert forall|a: int, b: int| 0 <= a < b < fresh.len() implies fresh[a] < fresh[b] by {
        assert(source[k + a] < source[k + b]);
    }
    if fresh.len() > 0 && k > 0 {
        assert(source[k - 1] < source[k]);
    }
    lemma_fresh_lines(w, fresh);
    assert(first + (Seq::<u64>::empty() + fresh) =~= source);
}

// ---------------------------------------------------------------------------
// Tailing files
// ---------------------------------------------------------------------------

/// What tells one file from another at the same path.
#[derive(Debug, Clone, Copy, PartialEq, Eq, Structural)]
pub struct FileId {
    pub device: u64,
    pub inode: u64,
}

/// The state of the tail of one path: the file that is open and how far it
/// was read.
#[derive(Debug, Clone, Copy, PartialEq, Eq, Structural)]
pub struct FileTail {
    pub id: FileId,
    pub offset: u64,
}

/// What to do with a tailed path.
#[derive(Debug, Clone, Copy, PartialEq, Eq, Structural)]
pub enum TailAction {
    /// Read on from the offset.
    Continue(u64),
    /// The path now names another file: read the old file to its end from
    /// the offset, then open the new file and read it from its start.
    DrainThenReopen(u64),
    /// The file is shorter than what was read: read it again from its start.
    Rewind,
}

/// What to do when the path is seen to name the file `id` of `size` bytes.
pub open spec fn tail_action(tail: FileTail, id: FileId, size: u64) -> TailAction {
    if id != tail.id {
        TailAction::DrainThenReopen(tail.offset)
    } else if tail.offset > size {
        TailAction::Rewind
    } else {
        TailAction::Continue(tail.offset)
    }
}

/// The tail after the action was taken, before any new byte was read.
pub open spec fn tail_after(tail: FileTail, id: FileId, size: u64) -> FileTail {
    match tail_action(tail, id, size) {
        TailAction::Continue(_) => tail,
        TailAction::DrainThenReopen(_) => FileTail { id, offset: 0 },
        TailAction::Rewind => FileTail { id, offset: 0 },
    }
}

impl FileTail {
    /// The tail of a file that was just opened.
    pub fn open(id: FileId) -> (r: FileTail)
        ensures
            r == (FileTail { id, offset: 0 }),
    {
        FileTail { id, offset: 0 }
    }

    /// Decides what to do when the path is seen to name the file `id` of
    /// `size` bytes, and moves to the file and offset from which reading
    /// goes on.
    pub fn observe(&mut self, id: FileId, size: u64) -> (r: TailAction)
        ensures
            r == tail_action(*old(self), id, size),
            *final(self) == tail_after(*old(self), id, size),
    {
        if id.device != self.id.device || id.inode != self.id.inode {
            let from: u64 = self.offset;
            self.id = id;
            self.offset = 0;
            TailAction::DrainThenReopen(from)
        } else if self.offset > size {
            self.offset = 0;
            TailAction::Rewind
        } else {
            TailAction::Continue(self.offset)
        }
    }

    /// Notes that `n` more bytes were read.
    pub fn advance(&mut self, n: u64)
        ensures
            final(self).id == old(self).id,
            final(self).offset as int == if old(self).offset + n <= u64::MAX {
                old(self).offset + n
            } else {
                u64::MAX as int
            },
    {
        self.offset = self.offset.saturating_add(n);
    }
}

/// What is read when an action is taken: `open` is what the file that was
/// open holds, `found` what the file now under the path holds.
pub open spec fn read_by<T>(action: TailAction, open: Seq<T>, found: Seq<T>) -> Seq<T> {
    match action {
        TailAction::Continue(from) => found.skip(from as int),
        TailAction::DrainThenReopen(from) => open.skip(from as int) + found,
        TailAction::Rewind => found,
    }
}

/// What a tail has handed on after it saw a rotation: it had read the old
/// file up to its offset, and then takes the action that the new file
/// under its path asks for.
pub open spec fn observed_across_rotation<T>(
    tail: FileTail,
    old_file: Seq<T>,
    new_id: FileId,
    new_file: Seq<T>,
) -> Seq<T> {
    old_file.take(tail.offset as int) + read_by(
        tail_action(tail, new_id, new_file.len() as u64),
        old_file,
        new_file,
    )
}

/// Rotation conservation: a tail has read some part of a file when another
/// file takes its place under the path. Then what the tail hands on, before
/// and after, is what was written, to the old file and then to the new one,
/// each item once and in order; and the tail goes on behind the new file's
/// last item.
pub proof fn law_rotation_conserves<T>(
    tail: FileTail,
    old_file: Seq<T>,
    new_id: FileId,
    new_file: Seq<T>,
)
    requires
        tail.offset <= old_file.len(),
        new_id != tail.id,
        new_file.len() <= u64::MAX,
    ensures
        observed_across_rotation(tail, old_file, new_id, new_file) == old_file + new_file,
        observed_across_rotation(tail, old_file, new_id, new_file).to_multiset() == (old_file
            + new_file).to_multiset(),
        tail_after(tail, new_id, new_file.len() as u64) == (FileTail { id: new_id, offset: 0 }),
{
    let read = tail.offset as int;
    assert(old_file.take(read) + (old_file.skip(read) + new_file) =~= old_file + new_file);
}

/// A file that was cut short is read again from its start, whole.
pub proof fn law_truncation_rereads<T>(tail: FileTail, found: Seq<T>)
    requires
        found.len() < tail.offset,
    ensures
        read_by(tail_action(tail, tail.id, found.len() as u64), found, found) == found,
        tail_after(tail, tail.id, found.len() as u64) == (FileTail { id: tail.id, offset: 0 }),
{
}

/// A file that grew is read on from where the tail stands: what was read
/// before and what is read now is the file.
pub proof fn law_append_reads_on<T>(tail: FileTail, found: Seq<T>)
    requires
        tail.offset <= found.len() <= u64::MAX,
    ensures
        found.take(tail.offset as int) + read_by(
            tail_action(tail, tail.id, found.len() as u64),
            found,
            found,
        ) == found,
{
    assert(found.take(tail.offset as int) + found.skip(tail.offset as int) =~= found);
}

// ---------------------------------------------------------------------------
// File name patterns
// ---------------------------------------------------------------------------

/// A file name matches a pattern: `*` stands for any run of characters,
/// the empty one too, `?` for any one character, and every other character
/// for itself.
pub open spec fn wild_match(p: Seq<char>, s: Seq<char>) -> bool
    decreases p.len(), s.len(),
{
    if p.len() == 0 {
        s.len() == 0
    } else if p[0] == '*' {
        wild_match(p.drop_first(), s) || (s.len() > 0 && wild_match(p, s.drop_first()))
    } else {
        s.len() > 0 && (p[0] == '?' || p[0] == s[0]) && wild_match(p.drop_first(), s.drop_first())
    }
}

/// Tells whether a pattern holds a wildcard.
pub open spec fn has_wildcard(p: Seq<char>) -> bool {
    exists|i: int| 0 <= i < p.len() && (#[trigger] p[i] == '*' || p[i] == '?')
}

/// Tells whether a pattern holds a wildcard.
pub fn is_pattern(pattern: &str) -> (r: bool)
    ensures
        r == has_wildcard(pattern@),
{
    let p = chars_of(pattern);
    let mut i: usize = 0;
    while i < p.len()
        invariant
            i <= p.len(),
            p@ == pattern@,
            forall|k: int| 0 <= k < i ==> !(#[trigger] p@[k] == '*' || p@[k] == '?'),
        decreases p.len() - i,
    {
        if p[i] == '*' || p[i] == '?' {
            return true;
        }
        i += 1;
    }
    false
}

/// Tells whether a file name matches a pattern.
pub fn glob_matches(pattern: &str, name: &str) -> (r: bool)
    ensures
        r == wild_match(pattern@, name@),
{
    let p = chars_of(pattern);
    let s = chars_of(name);
    let m: usize = p.len();
    let n: usize = s.len();
    // `row[j]` tells whether the rest of the pattern matches `s[j..]`.
    let mut row: Vec<bool> = Vec::new();
    let mut j: usize = 0;
    while j < n
        invariant
            j <= n,
            n == s@.len(),
            m == p@.len(),
            row@.len() == j,
            forall|k: int| 0 <= k < j ==> row@[k] == wild_match(p@.skip(m as int), s@.skip(k)),
        decreases n - j,
    {
        assert(p@.skip(m as int).len() == 0);
        assert(s@.skip(j as int).len() > 0);
        row.push(false);
        j += 1;
    }
    assert(p@.skip(m as int).len() == 0 && s@.skip(n as int).len() == 0);
    row.push(true);
    let mut i: usize = m;
    while i > 0
        invariant
            i <= m,
            n == s@.len(),
            m == p@.len(),
            row@.len() == n + 1,
            forall|k: int| 0 <= k <= n ==> row@[k] == wild_match(p@.skip(i as int), s@.skip(k)),
        decreases i,
    {
        i -= 1;
        let c = p[i];
        let ghost above = row@;
        let ghost rest = p@.skip(i as int);
        assert(rest.len() > 0 && rest[0] == c);
        assert(rest.drop_first() =~= p@.skip(i + 1));
        assert(s@.skip(n as int).len() == 0);
        if c == '*' {
            // From the end: a star takes nothing, or one character more.
            let mut j: usize = n;
            while j > 0
                invariant
                    j <= n,
                    n == s@.len(),
                    c == '*',
                    rest.len() > 0 && rest[0] == c,
                    rest.drop_first() == p@.skip(i + 1),
                    row@.len() == n + 1,
                    above.len() == n + 1,
                    forall|k: int|
                        0 <= k <= n ==> above[k] == wild_match(p@.skip(i + 1), s@.skip(k)),
                    forall|k: int| 0 <= k < j ==> row@[k] == above[k],
                    forall|k: int| j <= k <= n ==> row@[k] == wild_match(rest, s@.skip(k)),
                decreases j,
            {
                j -= 1;
                let ghost tail = s@.skip(j as int);
                assert(tail.len() > 0);
                assert(tail.drop_first() =~= s@.skip(j + 1));
                let hit: bool = row[j] || row[j + 1];
                assert(above[j as int] == wild_match(p@.skip(i + 1), tail));
                assert(hit == wild_match(rest, tail));
                row.set(j, hit);
            }
        } else {
            // From the start: the character takes one character.
            let mut j: usize = 0;
            while j < n
                invariant
                    j <= n,
                    n == s@.len(),
                    c != '*',
                    rest.len() > 0 && rest[0] == c,
                    rest.drop_first() == p@.skip(i + 1),
                    row@.len() == n + 1,
                    above.len() == n + 1,
                    forall|k: int|
                        0 <= k <= n ==> above[k] == wild_match(p@.skip(i + 1), s@.skip(k)),
                    forall|k: int| j <= k <= n ==> row@[k] == above[k],
                    forall|k: int| 0 <= k < j ==> row@[k] == wild_match(rest, s@.skip(k)),
                decreases n - j,
            {
                let ghost tail = s@.skip(j as int);
                assert(tail.len() > 0 && tail[0] == s@[j as int]);
                assert(tail.drop_first() =~= s@.skip(j + 1));
                let hit: bool = (c == '?' || c == s[j]) && row[j + 1];
                assert(above[j + 1] == wild_match(p@.skip(i + 1), s@.skip(j + 1)));
                assert(hit == wild_match(rest, tail));
                row.set(j, hit);
                j += 1;
            }
            row.set(n, false);
        }
    }
    assert(p@.skip(0) =~= p@ && s@.skip(0) =~= s@);
    row[0]
}

} // verus!
