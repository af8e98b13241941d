//! The store: a bounded ring of log entries, numbered in order of arrival.
//!
//! Every entry that is appended gets the next sequence number; numbers start
//! at 1 and are never used twice. When the ring is full, the oldest entry
//! makes room for the new one. Reads hand out copies, oldest first, so a
//! reader never sees an entry change.
//!
//! The store itself is a plain value. A program that appends and reads from
//! several threads keeps it behind a readers-writer lock and takes a
//! [`Snapshot`] under the read lock.

use crate::types::{entries_view, EntryView, FeedKind, LogEntry, LogLevel};
use std::collections::VecDeque;
use vstd::prelude::*;

verus! {

/// The capacity of a store that is made without saying one.
pub const DEFAULT_CAPACITY: usize = 100_000;

// ---------------------------------------------------------------------------
// Model
// ---------------------------------------------------------------------------

/// The mathematical content of a store.
pub struct StoreModel {
    /// The entries held, oldest first.
    pub entries: Seq<EntryView>,
    /// The largest number of entries held at a time.
    pub capacity: nat,
    /// The sequence number that the next entry gets.
    pub next_seq: nat,
}

impl StoreModel {
    /// The empty store of a capacity. Sequence numbers start at 1.
    pub open spec fn empty(capacity: nat) -> StoreModel {
        StoreModel { entries: Seq::empty(), capacity, next_seq: 1 }
    }

    /// The store holds no more than its capacity, sequence numbers grow
    /// strictly from older to newer entries, and all of them lie below the
    /// next one to be given.
    pub open spec fn wf(self) -> bool {
        &&& self.entries.len() <= self.capacity
        &&& self.next_seq >= 1
        &&& forall|i: int| 0 <= i < self.entries.len() ==> 1 <= (#[trigger] self.entries[i]).seq
        &&& forall|i: int|
            0 <= i < self.entries.len() ==> (#[trigger] self.entries[i]).seq < self.next_seq
        &&& forall|i: int, j: int|
            0 <= i < j < self.entries.len() ==> (#[trigger] self.entries[i]).seq < (
            #[trigger] self.entries[j]).seq
    }

    /// The store after `e` was appended: `e` stands last with the next
    /// sequence number, and the oldest entries beyond the capacity are gone.
    pub open spec fn pushed(self, e: EntryView) -> StoreModel {
        let all = self.entries.push(e.with_seq(self.next_seq as u64));
        StoreModel {
            entries: if all.len() > self.capacity {
                all.skip(all.len() - self.capacity)
            } else {
                all
            },
            next_seq: self.next_seq + 1,
            ..self
        }
    }

    /// The store after the entries of `es` were appended, first to last.
    pub open spec fn pushed_all(self, es: Seq<EntryView>) -> StoreModel
        decreases es.len(),
    {
        if es.len() == 0 {
            self
        } else {
            self.pushed_all(es.drop_last()).pushed(es.last())
        }
    }

    /// The newest `n` entries, oldest first; all of them if there are fewer.
    pub open spec fn latest(self, n: nat) -> Seq<EntryView> {
        if n >= self.entries.len() {
            self.entries
        } else {
            self.entries.skip(self.entries.len() - n)
        }
    }
}

// ---------------------------------------------------------------------------
// Filters
// ---------------------------------------------------------------------------

/// A condition on entries.
#[derive(Debug, Clone, PartialEq, Eq)]
pub enum Filter {
    /// Every entry.
    All,
    /// The entries of one producer.
    Producer(String),
    /// The entries whose level is known and at least this severe.
    LevelAtLeast(LogLevel),
    /// The entries of one kind of feed.
    Source(FeedKind),
    /// The entries with `lo <= seq < hi`.
    SeqRange(u64, u64),
    /// The entries that have the field, with a value whose text is this.
    Field(String, String),
}

/// The mathematical content of a [`Filter`].
pub enum Criterion {
    All,
    Producer(Seq<char>),
    LevelAtLeast(LogLevel),
    Source(FeedKind),
    SeqRange(u64, u64),
    Field(Seq<char>, Seq<char>),
}

impl View for Filter {
    type V = Criterion;

    open spec fn view(&self) -> Criterion {
        match self {
            Filter::All => Criterion::All,
            Filter::Producer(p) => Criterion::Producer(p@),
            Filter::LevelAtLeast(l) => Criterion::LevelAtLeast(*l),
            Filter::Source(s) => Criterion::Source(*s),
            Filter::SeqRange(lo, hi) => Criterion::SeqRange(*lo, *hi),
            Filter::Field(k, v) => Criterion::Field(k@, v@),
        }
    }
}

impl Criterion {
    /// The entry meets the condition.
    pub open spec fn accepts(self, e: EntryView) -> bool {
        match self {
            Criterion::All => true,
            Criterion::Producer(p) => e.producer == p,
            Criterion::LevelAtLeast(l) => e.level_at_least(l),
            Criterion::Source(s) => e.source == s,
            Criterion::SeqRange(lo, hi) => lo <= e.seq < hi,
            Criterion::Field(k, v) => match e.field(k) {
                Some(value) => value.text() == v,
                None => false,
            },
        }
    }
}

/// The entries of `s` that meet the condition, in the order of `s`.
pub open spec fn keep(s: Seq<EntryView>, c: Criterion) -> Seq<EntryView>
    decreases s.len(),
{
    if s.len() == 0 {
        Seq::empty()
    } else if c.accepts(s.last()) {
        keep(s.drop_last(), c).push(s.last())
    } else {
        keep(s.drop_last(), c)
    }
}

impl Filter {
    /// Tells whether an entry meets the condition.
    pub fn matches(&self, e: &LogEntry) -> (r: bool)
        ensures
            r == self@.accepts(e@),
    {
        match self {
            Filter::All => true,
            Filter::Producer(p) => e.producer == *p,
            Filter::LevelAtLeast(l) => match e.level {
                Some(level) => level.at_least(*l),
                None => false,
            },
            Filter::Source(s) => e.source == *s,
            Filter::SeqRange(lo, hi) => *lo <= e.seq && e.seq < *hi,
            Filter::Field(k, v) => match e.field(k.as_str()) {
                Some(value) => value.to_text() == *v,
                None => false,
            },
        }
    }
}

/// Copies the entries of a list that meet a condition, in order.
pub fn select(entries: &Vec<LogEntry>, filter: &Filter) -> (r: Vec<LogEntry>)
    ensures
        entries_view(r@) == keep(entries_view(entries@), filter@),
{
    let mut r: Vec<LogEntry> = Vec::new();
    let ghost all = entries_view(entries@);
    let mut i: usize = 0;
    assert(all.take(0) =~= Seq::<EntryView>::empty());
    assert(entries_view(r@) =~= Seq::<EntryView>::empty());
    while i < entries.len()
        invariant
            i <= entries.len(),
            all == entries_view(entries@),
            entries_view(r@) == keep(all.take(i as int), filter@),
        decreases entries.len() - i,
    {
        assert(all.take(i + 1).drop_last() =~= all.take(i as int));
        assert(all.take(i + 1).last() == entries@[i as int]@);
        if filter.matches(&entries[i]) {
            let ghost before = entries_view(r@);
            r.push(entries[i].duplicate());
            assert(entries_view(r@) =~= before.push(entries@[i as int]@));
        }
        i += 1;
    }
    assert(all.take(all.len() as int) =~= all);
    r
}

// ---------------------------------------------------------------------------
// Store
// ---------------------------------------------------------------------------

/// A bounded, sequence-numbered ring of log entries.
pub struct Store {
    ring: VecDeque<LogEntry>,
    capacity: usize,
    next_seq: u64,
}

impl View for Store {
    type V = StoreModel;

    closed spec fn view(&self) -> StoreModel {
        StoreModel {
            entries: entries_view(self.ring@),
            capacity: self.capacity as nat,
            next_seq: self.next_seq as nat,
        }
    }
}

impl Store {
    /// An empty store that holds up to `capacity` entries.
    pub fn new(capacity: usize) -> (r: Store)
        ensures
            r@ == StoreModel::empty(capacity as nat),
            r@.wf(),
    {
        let r = Store { ring: VecDeque::new(), capacity, next_seq: 1 };
        assert(entries_view(r.ring@) =~= Seq::<EntryView>::empty());
        r
    }

    /// An empty store of the default capacity, 100,000 entries.
    pub fn with_default_capacity() -> (r: Store)
        ensures
            r@ == StoreModel::empty(DEFAULT_CAPACITY as nat),
            r@.wf(),
    {
        Store::new(DEFAULT_CAPACITY)
    }

    /// Appends an entry and returns the sequence number it was given.
    ///
    /// The entry's own `seq` is overwritten. When the store is full, the
    /// oldest entry is dropped.
    pub fn append(&mut self, entry: LogEntry) -> (seq: u64)
        requires
            old(self)@.wf(),
            old(self)@.next_seq < u64::MAX,
        ensures
            final(self)@ == old(self)@.pushed(entry@),
            final(self)@.wf(),
            seq == old(self)@.next_seq,
    {
        let seq: u64 = self.next_seq;
        let ghost before = entries_view(self.ring@);
        let mut stamped = entry;
        stamped.seq = seq;
        assert(stamped@ == entry@.with_seq(seq));
        self.next_seq = seq + 1;
        if self.capacity == 0 {
            assert(before.push(stamped@).skip(1) =~= before);
            return seq;
        }
        if self.ring.len() == self.capacity {
            let _ = self.ring.pop_front();
            assert(entries_view(self.ring@) =~= before.skip(1));
        }
        let ghost mid = entries_view(self.ring@);
        self.ring.push_back(stamped);
        assert(entries_view(self.ring@) =~= mid.push(stamped@));
        proof {
            let all = before.push(stamped@);
            if before.len() == self.capacity {
                assert(mid.push(stamped@) =~= all.skip(1));
            }
        }
        seq
    }

    /// The number of entries held.
    pub fn len(&self) -> (r: usize)
        ensures
            r == self@.entries.len(),
    {
        self.ring.len()
    }

    /// Tells whether the store holds no entry.
    pub fn is_empty(&self) -> (r: bool)
        ensures
            r == (self@.entries.len() == 0),
    {
        self.ring.len() == 0
    }

    /// The largest number of entries that the store holds at a time.
    pub fn capacity(&self) -> (r: usize)
        ensures
            r == self@.capacity,
    {
        self.capacity
    }

    /// The sequence number that the next entry will get.
    pub fn next_seq(&self) -> (r: u64)
        ensures
            r == self@.next_seq,
    {
        self.next_seq
    }

    /// Copies the entries from position `from` on, oldest first.
    fn copy_from(&self, from: usize) -> (r: Vec<LogEntry>)
        requires
            from <= self@.entries.len(),
        ensures
            entries_view(r@) == self@.entries.skip(from as int),
    {
        let mut r: Vec<LogEntry> = Vec::new();
        let mut i: usize = from;
        let ghost all = entries_view(self.ring@);
        assert(entries_view(r@) =~= all.subrange(from as int, from as int));
        while i < self.ring.len()
            invariant
                from <= i <= self.ring@.len(),
                all == entries_view(self.ring@),
                entries_view(r@) == all.subrange(from as int, i as int),
            decreases self.ring.len() - i,
        {
            let ghost before = entries_view(r@);
            r.push(self.ring[i].duplicate());
            assert(entries_view(r@) =~= before.push(all[i as int]));
            assert(all.subrange(from as int, i as int).push(all[i as int]) =~= all.subrange(
                from as int,
                i + 1,
            ));
            i += 1;
        }
        assert(all.subrange(from as int, all.len() as int) =~= all.skip(from as int));
        r
    }

    /// Copies of all entries, oldest first.
    pub fn entries(&self) -> (r: Vec<LogEntry>)
        ensures
            entries_view(r@) == self@.entries,
    {
        let r = self.copy_from(0);
        assert(self@.entries.skip(0) =~= self@.entries);
        r
    }

    /// A stable read view of the store as it is now.
    pub fn snapshot(&self) -> (r: Snapshot)
        ensures
            r@ == self@.entries,
    {
        Snapshot { entries: self.entries() }
    }

    /// The newest `min(n, len)` entries, oldest first.
    pub fn latest(&self, n: usize) -> (r: Vec<LogEntry>)
        ensures
            entries_view(r@) == self@.latest(n as nat),
    {
        let len: usize = self.ring.len();
        if n >= len {
            self.entries()
        } else {
            self.copy_from(len - n)
        }
    }

    /// Copies the entries that meet a condition, oldest first.
    pub fn filtered(&self, filter: &Filter) -> (r: Vec<LogEntry>)
        ensures
            entries_view(r@) == keep(self@.entries, filter@),
    {
        let mut r: Vec<LogEntry> = Vec::new();
        let ghost all = entries_view(self.ring@);
        let mut i: usize = 0;
        assert(all.take(0) =~= Seq::<EntryView>::empty());
        assert(entries_view(r@) =~= Seq::<EntryView>::empty());
        while i < self.ring.len()
            invariant
                i <= self.ring@.len(),
                all == entries_view(self.ring@),
                entries_view(r@) == keep(all.take(i as int), filter@),
            decreases self.ring.len() - i,
        {
            assert(all.take(i + 1).drop_last() =~= all.take(i as int));
            assert(all.take(i + 1).last() == self.ring@[i as int]@);
            if filter.matches(&self.ring[i]) {
                let ghost before = entries_view(r@);
                r.push(self.ring[i].duplicate());
                assert(entries_view(r@) =~= before.push(self.ring@[i as int]@));
            }
            i += 1;
        }
        assert(all.take(all.len() as int) =~= all);
        r
    }

    /// The entries with `seq_lo <= seq < seq_hi` that are still held, oldest
    /// first. Sequence numbers of entries that were dropped are passed over.
    pub fn range(&self, seq_lo: u64, seq_hi: u64) -> (r: Vec<LogEntry>)
        ensures
            entries_view(r@) == keep(self@.entries, Criterion::SeqRange(seq_lo, seq_hi)),
    {
        self.filtered(&Filter::SeqRange(seq_lo, seq_hi))
    }

    /// The entries of one producer, in sequence order.
    pub fn by_producer(&self, name: &str) -> (r: Vec<LogEntry>)
        ensures
            entries_view(r@) == keep(self@.entries, Criterion::Producer(name@)),
    {
        self.filtered(&Filter::Producer(name.to_owned()))
    }

    /// The entries whose level is known and at least `floor`, in sequence
    /// order.
    pub fn by_level_at_least(&self, floor: LogLevel) -> (r: Vec<LogEntry>)
        ensures
            entries_view(r@) == keep(self@.entries, Criterion::LevelAtLeast(floor)),
    {
        self.filtered(&Filter::LevelAtLeast(floor))
    }
}

// ---------------------------------------------------------------------------
// Snapshots
// ---------------------------------------------------------------------------

/// A read view of a store at one moment: copies of its entries, oldest
/// first, which later appends do not touch.
pub struct Snapshot {
    pub entries: Vec<LogEntry>,
}

impl View for Snapshot {
    type V = Seq<EntryView>;

    open spec fn view(&self) -> Seq<EntryView> {
        entries_view(self.entries@)
    }
}

impl Snapshot {
    /// The number of entries in the snapshot.
    pub fn len(&self) -> (r: usize)
        ensures
            r == self@.len(),
    {
        self.entries.len()
    }

    /// Copies the entries that meet a condition, oldest first.
    pub fn filtered(&self, filter: &Filter) -> (r: Vec<LogEntry>)
        ensures
            entries_view(r@) == keep(self@, filter@),
    {
        select(&self.entries, filter)
    }
}

// ---------------------------------------------------------------------------
// Laws
// ---------------------------------------------------------------------------

/// Appending to a well-formed store gives a well-formed store.
pub proof fn lemma_pushed_wf(m: StoreModel, e: EntryView)
    requires
        m.wf(),
        m.next_seq < u64::MAX,
    ensures
        m.pushed(e).wf(),
{
    let all = m.entries.push(e.with_seq(m.next_seq as u64));
    assert forall|i: int| 0 <= i < all.len() implies 1 <= (#[trigger] all[i]).seq && all[i].seq
        < m.next_seq + 1 by {
        if i < m.entries.len() {
            assert(all[i] == m.entries[i]);
        }
    }
    assert forall|i: int, j: int| 0 <= i < j < all.len() implies (#[trigger] all[i]).seq < (
    #[trigger] all[j]).seq by {
        assert(all[i] == m.entries[i]);
        if j < m.entries.len() {
            assert(all[j] == m.entries[j]);
        }
    }
    let out = m.pushed(e).entries;
    if all.len() > m.capacity {
        let d = all.len() - m.capacity;
        assert forall|i: int| 0 <= i < out.len() implies #[trigger] out[i] == all[i + d] by {}
    }
}

/// Store length: after `n` entries were appended to an empty store of
/// capacity `c`, the store holds `min(n, c)` entries.
pub proof fn law_store_length(capacity: nat, es: Seq<EntryView>)
    ensures
        StoreModel::empty(capacity).pushed_all(es).entries.len() == if es.len() <= capacity {
            es.len()
        } else {
            capacity
        },
        StoreModel::empty(capacity).pushed_all(es).next_seq == es.len() + 1,
        StoreModel::empty(capacity).pushed_all(es).capacity == capacity,
    decreases es.len(),
{
    if es.len() > 0 {
        law_store_length(capacity, es.drop_last());
    }
}

/// The sequence number that the entry appended as number `k` (from 0) of
/// `es` is given by a store that starts empty.
pub open spec fn assigned_seq(k: int) -> nat {
    (k + 1) as nat
}

/// Sequence uniqueness: the entries appended to an empty store get the
/// sequence numbers 1, 2, 3 and so on in the order of their arrival, so the
/// numbers are pairwise distinct and grow strictly; and whatever the store
/// still holds, it holds in that order.
pub proof fn law_sequence_numbers(capacity: nat, es: Seq<EntryView>)
    requires
        es.len() < u64::MAX,
    ensures
        forall|k: int|
            0 <= k < es.len() ==> #[trigger] StoreModel::empty(capacity).pushed_all(
                es.take(k),
            ).next_seq == assigned_seq(k),
        forall|j: int, k: int| 0 <= j < k < es.len() ==> assigned_seq(j) < assigned_seq(k),
        StoreModel::empty(capacity).pushed_all(es).wf(),
    decreases es.len(),
{
    assert forall|k: int| 0 <= k < es.len() implies #[trigger] StoreModel::empty(
        capacity,
    ).pushed_all(es.take(k)).next_seq == assigned_seq(k) by {
        law_store_length(capacity, es.take(k));
    }
    if es.len() > 0 {
        law_sequence_numbers(capacity, es.drop_last());
        law_store_length(capacity, es.drop_last());
        lemma_pushed_wf(StoreModel::empty(capacity).pushed_all(es.drop_last()), es.last());
    }
}

/// What a filter keeps is part of what it was given, it meets the
/// condition, and nothing that meets the condition is left out.
pub proof fn lemma_keep(s: Seq<EntryView>, c: Criterion)
    ensures
        forall|i: int|
            0 <= i < keep(s, c).len() ==> c.accepts(#[trigger] keep(s, c)[i]) && s.contains(
                keep(s, c)[i],
            ),
        forall|i: int| 0 <= i < s.len() && c.accepts(s[i]) ==> keep(s, c).contains(#[trigger] s[i]),
        keep(s, c).len() <= s.len(),
    decreases s.len(),
{
    if s.len() > 0 {
        let init = s.drop_last();
        lemma_keep(init, c);
        assert forall|i: int| 0 <= i < keep(s, c).len() implies c.accepts(
            #[trigger] keep(s, c)[i],
        ) && s.contains(keep(s, c)[i]) by {
            if i < keep(init, c).len() {
                let e = keep(init, c)[i];
                assert(init.contains(e));
                let w = choose|w: int| 0 <= w < init.len() && init[w] == e;
                assert(s[w] == e);
            } else {
                assert(keep(s, c)[i] == s[s.len() - 1]);
            }
        }
        assert forall|i: int| 0 <= i < s.len() && c.accepts(s[i]) implies keep(s, c).contains(
            #[trigger] s[i],
        ) by {
            if i < init.len() {
                assert(init[i] == s[i]);
                assert(keep(init, c).contains(init[i]));
                let w = choose|w: int| 0 <= w < keep(init, c).len() && keep(init, c)[w] == s[i];
                assert(keep(s, c)[w] == s[i]);
            } else {
                assert(keep(s, c)[keep(s, c).len() - 1] == s[i]);
            }
        }
    }
}

/// Producer filter subset: every entry that the filter for a producer gives
/// is an entry of the store, and its producer is the one asked for.
pub proof fn law_producer_filter_subset(m: StoreModel, p: Seq<char>)
    ensures
        forall|i: int|
            0 <= i < keep(m.entries, Criterion::Producer(p)).len() ==> {
                &&& m.entries.contains(#[trigger] keep(m.entries, Criterion::Producer(p))[i])
                &&& keep(m.entries, Criterion::Producer(p))[i].producer == p
            },
{
    lemma_keep(m.entries, Criterion::Producer(p));
}

} // verus!
