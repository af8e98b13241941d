//! Tests of the store: eviction, sequence numbers and the read operations.

use fml::store::{Filter, Store, DEFAULT_CAPACITY};
use fml::types::{FeedKind, FieldValue, LogEntry, LogLevel, Timestamp};

fn entry(raw: &str, producer: &str, level: Option<LogLevel>) -> LogEntry {
    LogEntry {
        seq: 0,
        raw: raw.to_string(),
        ts: Timestamp::from_millis(1_705_312_800_000),
        level,
        source: FeedKind::Stdin,
        producer: producer.to_string(),
        fields: Vec::new(),
        message: Some(raw.to_string()),
    }
}

fn raws(entries: &[LogEntry]) -> Vec<String> {
    entries.iter().map(|e| e.raw.clone()).collect()
}

fn seqs(entries: &[LogEntry]) -> Vec<u64> {
    entries.iter().map(|e| e.seq).collect()
}

#[test]
fn ring_of_three_keeps_the_last_three_of_four() {
    let mut store = Store::new(3);
    for raw in ["A", "B", "C", "D"] {
        store.append(entry(raw, "p", None));
    }
    assert_eq!(store.len(), 3);
    assert_eq!(raws(&store.entries()), vec!["B", "C", "D"]);
    assert_eq!(seqs(&store.entries()), vec![2, 3, 4]);
}

#[test]
fn ring_evicts_oldest_on_overflow() {
    let capacity = 8;
    let mut store = Store::new(capacity);
    for i in 0..capacity + 1 {
        store.append(entry(&format!("line {i}"), "p", None));
    }
    assert_eq!(store.len(), capacity);
    assert_eq!(store.entries()[0].raw, "line 1");
}

#[test]
fn evicted_entries_are_oldest() {
    let mut store = Store::new(5);
    for i in 0..12 {
        store.append(entry(&format!("line {i}"), "p", None));
    }
    let expected: Vec<String> = (7..12).map(|i| format!("line {i}")).collect();
    assert_eq!(raws(&store.entries()), expected);
}

#[test]
fn sequence_numbers_are_monotonic() {
    let mut store = Store::new(1000);
    let mut last = 0;
    for i in 0..100 {
        let seq = store.append(entry(&format!("line {i}"), "p", None));
        assert!(seq > last);
        last = seq;
    }
    let held = seqs(&store.entries());
    assert!(held.windows(2).all(|w| w[0] < w[1]));
}

#[test]
fn sequence_numbers_are_unique() {
    let mut store = Store::new(16);
    let mut seen = std::collections::HashSet::new();
    for i in 0..1000 {
        seen.insert(store.append(entry(&format!("line {i}"), "p", None)));
    }
    assert_eq!(seen.len(), 1000);
    assert_eq!(store.next_seq(), 1001);
}

#[test]
fn append_overwrites_the_sequence_number_of_the_entry() {
    let mut store = Store::new(4);
    let mut e = entry("x", "p", None);
    e.seq = 99;
    assert_eq!(store.append(e), 1);
    assert_eq!(store.entries()[0].seq, 1);
}

#[test]
fn producer_filter_returns_correct_entries() {
    let mut store = Store::new(100);
    for i in 0..30 {
        store.append(entry(&format!("line {i}"), &format!("producer-{}", i % 3), None));
    }
    let got = store.by_producer("producer-1");
    assert_eq!(got.len(), 10);
    assert!(got.iter().all(|e| e.producer == "producer-1"));
    assert!(store.by_producer("nobody").is_empty());
}

#[test]
fn producer_filter_preserves_order() {
    let mut store = Store::new(100);
    for i in 0..20 {
        store.append(entry(&format!("line {i}"), if i % 2 == 0 { "even" } else { "odd" }, None));
    }
    let got = store.by_producer("odd");
    assert_eq!(seqs(&got), vec![2, 4, 6, 8, 10, 12, 14, 16, 18, 20]);
}

#[test]
fn level_filter_excludes_lower_levels() {
    let mut store = Store::new(100);
    let levels = [
        Some(LogLevel::Trace),
        Some(LogLevel::Debug),
        Some(LogLevel::Info),
        Some(LogLevel::Warn),
        Some(LogLevel::Error),
        Some(LogLevel::Fatal),
        None,
    ];
    for (i, level) in levels.iter().enumerate() {
        store.append(entry(&format!("line {i}"), "p", *level));
    }
    let got = store.by_level_at_least(LogLevel::Error);
    let got_levels: Vec<_> = got.iter().map(|e| e.level).collect();
    assert_eq!(got_levels, vec![Some(LogLevel::Error), Some(LogLevel::Fatal)]);
    assert_eq!(store.by_level_at_least(LogLevel::Trace).len(), 6);
}

#[test]
fn prop_len_equals_min_n_capacity() {
    for capacity in [0usize, 1, 2, 3, 7, 50] {
        for n in [0usize, 1, 2, 3, 6, 7, 8, 49, 50, 51, 120] {
            let mut store = Store::new(capacity);
            for i in 0..n {
                store.append(entry(&format!("line {i}"), "p", None));
            }
            assert_eq!(store.len(), n.min(capacity), "n = {n}, capacity = {capacity}");
            assert_eq!(store.capacity(), capacity);
        }
    }
}

#[test]
fn prop_producer_filter_subset_of_all() {
    let mut store = Store::new(40);
    for i in 0..100 {
        store.append(entry(&format!("line {i}"), &format!("producer-{}", (i * 7) % 5), None));
    }
    let all = store.entries();
    for p in 0..5 {
        let name = format!("producer-{p}");
        for e in store.by_producer(&name) {
            assert_eq!(e.producer, name);
            assert!(all.contains(&e));
        }
    }
}

#[test]
fn latest_gives_the_newest_oldest_first() {
    let mut store = Store::new(10);
    for i in 0..6 {
        store.append(entry(&format!("line {i}"), "p", None));
    }
    assert_eq!(raws(&store.latest(2)), vec!["line 4", "line 5"]);
    assert_eq!(store.latest(6).len(), 6);
    assert_eq!(store.latest(60).len(), 6);
    assert!(store.latest(0).is_empty());
}

#[test]
fn range_passes_over_what_was_dropped() {
    let mut store = Store::new(4);
    for i in 0..10 {
        store.append(entry(&format!("line {i}"), "p", None));
    }
    assert_eq!(seqs(&store.range(1, 9)), vec![7, 8]);
    assert_eq!(seqs(&store.range(8, 11)), vec![8, 9, 10]);
    assert!(store.range(3, 3).is_empty());
    assert!(store.range(1, 7).is_empty());
}

#[test]
fn snapshot_is_not_touched_by_later_appends() {
    let mut store = Store::new(3);
    store.append(entry("a", "p", None));
    store.append(entry("b", "p", None));
    let snap = store.snapshot();
    store.append(entry("c", "p", None));
    store.append(entry("d", "p", None));
    assert_eq!(snap.len(), 2);
    assert_eq!(raws(&snap.entries), vec!["a", "b"]);
    assert_eq!(raws(&snap.filtered(&Filter::SeqRange(2, 3))), vec!["b"]);
}

#[test]
fn fresh_store_is_empty_with_the_default_capacity() {
    let store = Store::with_default_capacity();
    assert!(store.is_empty());
    assert_eq!(store.capacity(), DEFAULT_CAPACITY);
    assert_eq!(DEFAULT_CAPACITY, 100_000);
    assert_eq!(store.next_seq(), 1);
}

#[test]
fn field_filter_compares_the_text_of_the_value() {
    let mut store = Store::new(10);
    let mut e = entry("x", "p", None);
    e.fields.push(("status".to_string(), FieldValue::Number("200".to_string())));
    e.fields.push(("ok".to_string(), FieldValue::Bool(true)));
    store.append(e);
    store.append(entry("y", "p", None));
    let by_status = store.filtered(&Filter::Field("status".to_string(), "200".to_string()));
    assert_eq!(raws(&by_status), vec!["x"]);
    let by_flag = store.filtered(&Filter::Field("ok".to_string(), "true".to_string()));
    assert_eq!(raws(&by_flag), vec!["x"]);
    assert!(store.filtered(&Filter::Field("status".to_string(), "404".to_string())).is_empty());
    assert_eq!(store.filtered(&Filter::All).len(), 2);
    assert_eq!(store.filtered(&Filter::Source(FeedKind::Stdin)).len(), 2);
    assert!(store.filtered(&Filter::Source(FeedKind::File)).is_empty());
}
