//! Demonstration data: a made-up hour of logs from three producers, used
//! until real feeds are connected.
//!
//! Of every hundred entries, 85 are routine, 9 are warnings, 5 are errors
//! and 1 is fatal. The entries are spread evenly over the hour before the
//! given instant, and every 25th carries a request number so that lines
//! are not all alike.

use crate::text::{decimal_text, push_decimal, push_str, string_of};
use crate::types::{EntryView, FeedKind, FieldView, LogEntry, LogLevel, Timestamp};
use vstd::prelude::*;

verus! {

/// The number of entries.
pub const MOCK_TOTAL: u64 = 1200;

/// The time between two entries, in milliseconds.
pub const MOCK_INTERVAL_MS: i64 = 3000;

/// The number of templates: 25 routine ones, 6 warnings, 4 errors, 1 fatal.
pub const TEMPLATES: usize = 36;

/// The template at a position: producer, level and text.
pub open spec fn template(k: int) -> (Seq<char>, LogLevel, Seq<char>) {
    if k == 0 {
        ("api-7f9b4d"@, LogLevel::Debug, "GET /healthz 200 OK (1ms)"@)
    } else if k == 1 {
        ("api-7f9b4d"@, LogLevel::Info, "GET /api/v1/users 200 OK (12ms)"@)
    } else if k == 2 {
        ("api-7f9b4d"@, LogLevel::Info, "POST /api/v1/orders 201 Created (38ms)"@)
    } else if k == 3 {
        ("api-7f9b4d"@, LogLevel::Info, "GET /api/v1/products 200 OK (8ms)"@)
    } else if k == 4 {
        ("api-7f9b4d"@, LogLevel::Info, "PUT /api/v1/users/42 200 OK (22ms)"@)
    } else if k == 5 {
        ("api-7f9b4d"@, LogLevel::Info, "DELETE /api/v1/sessions/99 204 No Content (4ms)"@)
    } else if k == 6 {
        ("api-7f9b4d"@, LogLevel::Debug, "Database connection acquired from pool (pool=18/20)"@)
    } else if k == 7 {
        ("api-7f9b4d"@, LogLevel::Debug, "Cache hit ratio: 94.2%"@)
    } else if k == 8 {
        ("api-7f9b4d"@, LogLevel::Debug, "trace: dial tcp 10.0.0.5:5432 established"@)
    } else if k == 9 {
        ("api-7f9b4d"@, LogLevel::Trace, "Middleware chain completed in 0.4ms"@)
    } else if k == 10 {
        ("worker-4c2a"@, LogLevel::Debug, "Polling queue \u{2014} 0 messages"@)
    } else if k == 11 {
        ("worker-4c2a"@, LogLevel::Debug, "Queue depth: 14 pending"@)
    } else if k == 12 {
        ("worker-4c2a"@, LogLevel::Info, "Dequeued job type=email"@)
    } else if k == 13 {
        ("worker-4c2a"@, LogLevel::Info, "Job completed in 2100ms"@)
    } else if k == 14 {
        ("worker-4c2a"@, LogLevel::Info, "Dequeued job type=report_generate"@)
    } else if k == 15 {
        ("worker-4c2a"@, LogLevel::Info, "Job completed in 8400ms"@)
    } else if k == 16 {
        ("worker-4c2a"@, LogLevel::Info, "Dequeued job type=thumbnail_resize"@)
    } else if k == 17 {
        ("worker-4c2a"@, LogLevel::Info, "Job completed in 340ms"@)
    } else if k == 18 {
        ("worker-4c2a"@, LogLevel::Debug, "Heartbeat sent to coordinator"@)
    } else if k == 19 {
        ("worker-9e1b"@, LogLevel::Debug, "Polling queue \u{2014} 0 messages"@)
    } else if k == 20 {
        ("worker-9e1b"@, LogLevel::Info, "Dequeued job type=data_export"@)
    } else if k == 21 {
        ("worker-9e1b"@, LogLevel::Info, "Job completed in 12300ms"@)
    } else if k == 22 {
        ("worker-9e1b"@, LogLevel::Debug, "Heartbeat sent to coordinator"@)
    } else if k == 23 {
        ("worker-9e1b"@, LogLevel::Info, "Dequeued job type=notification"@)
    } else if k == 24 {
        ("worker-9e1b"@, LogLevel::Info, "Job completed in 190ms"@)
    } else if k == 25 {
        ("api-7f9b4d"@, LogLevel::Warn, "Slow query: SELECT * FROM orders WHERE \u{2026} (1240ms, threshold 500ms)"@)
    } else if k == 26 {
        ("api-7f9b4d"@, LogLevel::Warn, "Connection pool near capacity (18/20)"@)
    } else if k == 27 {
        ("api-7f9b4d"@, LogLevel::Warn, "Response time p99 exceeded SLO: 2.4s > 2.0s"@)
    } else if k == 28 {
        ("worker-4c2a"@, LogLevel::Warn, "Memory pressure: heap 78% (threshold 75%)"@)
    } else if k == 29 {
        ("worker-4c2a"@, LogLevel::Warn, "Job queue backlog growing: 47 pending"@)
    } else if k == 30 {
        ("worker-9e1b"@, LogLevel::Warn, "Disk I/O wait elevated: 340ms avg"@)
    } else if k == 31 {
        ("api-7f9b4d"@, LogLevel::Error, "Request timeout: GET /api/v1/search after 30s"@)
    } else if k == 32 {
        ("api-7f9b4d"@, LogLevel::Error, "Upstream error: POST http://payments:8080 503 Service Unavailable"@)
    } else if k == 33 {
        ("worker-9e1b"@, LogLevel::Error, "Connection refused: redis:6379 \u{2014} retrying in 5s"@)
    } else if k == 34 {
        ("worker-9e1b"@, LogLevel::Error, "Job failed after 3 attempts: type=data_export"@)
    } else {
        ("worker-9e1b"@, LogLevel::Fatal, "panic: runtime error: index out of range [3] with length 3"@)
    }
}

/// The template at a position.
pub fn pick_template(k: usize) -> (r: (&'static str, LogLevel, &'static str))
    ensures
        r.0@ == template(k as int).0,
        r.1 == template(k as int).1,
        r.2@ == template(k as int).2,
{
    if k == 0 {
        ("api-7f9b4d", LogLevel::Debug, "GET /healthz 200 OK (1ms)")
    } else if k == 1 {
        ("api-7f9b4d", LogLevel::Info, "GET /api/v1/users 200 OK (12ms)")
    } else if k == 2 {
        ("api-7f9b4d", LogLevel::Info, "POST /api/v1/orders 201 Created (38ms)")
    } else if k == 3 {
        ("api-7f9b4d", LogLevel::Info, "GET /api/v1/products 200 OK (8ms)")
    } else if k == 4 {
        ("api-7f9b4d", LogLevel::Info, "PUT /api/v1/users/42 200 OK (22ms)")
    } else if k == 5 {
        ("api-7f9b4d", LogLevel::Info, "DELETE /api/v1/sessions/99 204 No Content (4ms)")
    } else if k == 6 {
        ("api-7f9b4d", LogLevel::Debug, "Database connection acquired from pool (pool=18/20)")
    } else if k == 7 {
        ("api-7f9b4d", LogLevel::Debug, "Cache hit ratio: 94.2%")
    } else if k == 8 {
        ("api-7f9b4d", LogLevel::Debug, "trace: dial tcp 10.0.0.5:5432 established")
    } else if k == 9 {
        ("api-7f9b4d", LogLevel::Trace, "Middleware chain completed in 0.4ms")
    } else if k == 10 {
        ("worker-4c2a", LogLevel::Debug, "Polling queue \u{2014} 0 messages")
    } else if k == 11 {
        ("worker-4c2a", LogLevel::Debug, "Queue depth: 14 pending")
    } else if k == 12 {
        ("worker-4c2a", LogLevel::Info, "Dequeued job type=email")
    } else if k == 13 {
        ("worker-4c2a", LogLevel::Info, "Job completed in 2100ms")
    } else if k == 14 {
        ("worker-4c2a", LogLevel::Info, "Dequeued job type=report_generate")
    } else if k == 15 {
        ("worker-4c2a", LogLevel::Info, "Job completed in 8400ms")
    } else if k == 16 {
        ("worker-4c2a", LogLevel::Info, "Dequeued job type=thumbnail_resize")
    } else if k == 17 {
        ("worker-4c2a", LogLevel::Info, "Job completed in 340ms")
    } else if k == 18 {
        ("worker-4c2a", LogLevel::Debug, "Heartbeat sent to coordinator")
    } else if k == 19 {
        ("worker-9e1b", LogLevel::Debug, "Polling queue \u{2014} 0 messages")
    } else if k == 20 {
        ("worker-9e1b", LogLevel::Info, "Dequeued job type=data_export")
    } else if k == 21 {
        ("worker-9e1b", LogLevel::Info, "Job completed in 12300ms")
    } else if k == 22 {
        ("worker-9e1b", LogLevel::Debug, "Heartbeat sent to coordinator")
    } else if k == 23 {
        ("worker-9e1b", LogLevel::Info, "Dequeued job type=notification")
    } else if k == 24 {
        ("worker-9e1b", LogLevel::Info, "Job completed in 190ms")
    } else if k == 25 {
        ("api-7f9b4d", LogLevel::Warn, "Slow query: SELECT * FROM orders WHERE \u{2026} (1240ms, threshold 500ms)")
    } else if k == 26 {
        ("api-7f9b4d", LogLevel::Warn, "Connection pool near capacity (18/20)")
    } else if k == 27 {
        ("api-7f9b4d", LogLevel::Warn, "Response time p99 exceeded SLO: 2.4s > 2.0s")
    } else if k == 28 {
        ("worker-4c2a", LogLevel::Warn, "Memory pressure: heap 78% (threshold 75%)")
    } else if k == 29 {
        ("worker-4c2a", LogLevel::Warn, "Job queue backlog growing: 47 pending")
    } else if k == 30 {
        ("worker-9e1b", LogLevel::Warn, "Disk I/O wait elevated: 340ms avg")
    } else if k == 31 {
        ("api-7f9b4d", LogLevel::Error, "Request timeout: GET /api/v1/search after 30s")
    } else if k == 32 {
        ("api-7f9b4d", LogLevel::Error, "Upstream error: POST http://payments:8080 503 Service Unavailable")
    } else if k == 33 {
        ("worker-9e1b", LogLevel::Error, "Connection refused: redis:6379 \u{2014} retrying in 5s")
    } else if k == 34 {
        ("worker-9e1b", LogLevel::Error, "Job failed after 3 attempts: type=data_export")
    } else {
        ("worker-9e1b", LogLevel::Fatal, "panic: runtime error: index out of range [3] with length 3")
    }
}

/// The position of the template of entry `i`: of each hundred entries the
/// first 85 take the routine templates in turn, the next 9 the warnings,
/// the next 5 the errors, and the last one is fatal.
pub open spec fn template_index(i: int) -> int {
    let slot = i % 100;
    if slot < 85 {
        i % 25
    } else if slot < 94 {
        25 + i % 6
    } else if slot < 99 {
        31 + i % 4
    } else {
        35
    }
}

/// The text of entry `i`: that of its template, with a request number
/// behind it for every 25th entry.
pub open spec fn mock_text(i: int) -> Seq<char> {
    let base = template(template_index(i)).2;
    if i % 25 == 0 {
        base + " [req="@ + decimal_text((i * 7919 % 99991) as nat) + "]"@
    } else {
        base
    }
}

/// Entry `i` of the demonstration data for the hour before `now`.
pub open spec fn mock_entry(now: Timestamp, i: int) -> EntryView {
    EntryView {
        seq: (i + 1) as u64,
        raw: mock_text(i),
        ts: Timestamp { millis: (now.millis - (MOCK_TOTAL - i) * MOCK_INTERVAL_MS) as i64 },
        level: Some(template(template_index(i)).1),
        source: FeedKind::Docker,
        producer: template(template_index(i)).0,
        fields: Seq::empty(),
        message: Some(mock_text(i)),
    }
}

/// The demonstration data for the hour before `now`: 1200 entries, oldest
/// first, numbered from 1.
pub fn mock_entries(now: Timestamp) -> (r: Vec<LogEntry>)
    requires
        now.millis - MOCK_TOTAL * MOCK_INTERVAL_MS >= i64::MIN,
    ensures
        r@.len() == MOCK_TOTAL,
        forall|i: int| 0 <= i < MOCK_TOTAL ==> (#[trigger] r@[i])@ == mock_entry(now, i),
{
    let mut r: Vec<LogEntry> = Vec::new();
    let mut i: u64 = 0;
    while i < MOCK_TOTAL
        invariant
            i <= MOCK_TOTAL,
            r@.len() == i,
            now.millis - MOCK_TOTAL * MOCK_INTERVAL_MS >= i64::MIN,
            forall|k: int| 0 <= k < i ==> (#[trigger] r@[k])@ == mock_entry(now, k),
        decreases MOCK_TOTAL - i,
    {
        let slot: u64 = i % 100;
        let k: usize = if slot < 85 {
            (i % 25) as usize
        } else if slot < 94 {
            (25 + i % 6) as usize
        } else if slot < 99 {
            (31 + i % 4) as usize
        } else {
            35
        };
        let (producer, level, base) = pick_template(k);
        let back: i64 = ((MOCK_TOTAL - i) as i64) * MOCK_INTERVAL_MS;
        let ts = Timestamp { millis: now.millis - back };
        let mut out: Vec<char> = Vec::new();
        push_str(&mut out, base);
        if i % 25 == 0 {
            push_str(&mut out, " [req=");
            push_decimal(&mut out, i * 7919 % 99991);
            push_str(&mut out, "]");
        }
        assert(out@ =~= mock_text(i as int));
        let message = string_of(&out);
        let entry = LogEntry {
            seq: i + 1,
            raw: message.clone(),
            ts,
            level: Some(level),
            source: FeedKind::Docker,
            producer: producer.to_owned(),
            fields: Vec::new(),
            message: Some(message),
        };
        assert(entry@.fields =~= Seq::<(Seq<char>, FieldView)>::empty());
        r.push(entry);
        i += 1;
    }
    r
}

} // verus!
