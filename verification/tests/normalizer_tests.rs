//! Tests of the normaliser: JSON lines, key/value lines, free text and the
//! edge cases.

use fml::normalizer::cascade::{normalize, normalize_text, FeedDefaults, MAX_LINE};
use fml::normalizer::logfmt::parse_logfmt;
use fml::types::{FeedKind, FieldValue, LogEntry, LogLevel, Timestamp};

const INGEST_MS: i64 = 1_700_000_000_000;

fn defaults() -> FeedDefaults {
    FeedDefaults {
        source: FeedKind::Kubernetes,
        producer: "api-7f9b4d".to_string(),
        ts: Timestamp::from_millis(INGEST_MS),
    }
}

fn norm(line: &str) -> LogEntry {
    normalize(line.as_bytes(), &defaults())
}

const CORPUS_JSON: &[&str] = &[
    r#"{"ts":"2024-01-15T10:00:00Z","level":"INFO","message":"Server started","port":8080}"#,
    r#"{"timestamp":"2024-01-15T10:00:01Z","severity":"ERROR","msg":"Connection refused","host":"db.internal","port":5432,"err":"dial tcp: connect: connection refused"}"#,
    r#"{"time":"2024-01-15T10:00:02.123Z","level":"WARN","message":"Slow query","duration_ms":4200,"query":"SELECT * FROM users WHERE id=$1"}"#,
    r#"{"@timestamp":"2024-01-15T10:00:03Z","log.level":"debug","message":"Cache miss","key":"user:42","ttl":300}"#,
    r#"{"t":"2024-01-15T10:00:04Z","lvl":"fatal","msg":"Out of memory","rss_mb":16384,"limit_mb":16384}"#,
    r#"{"timestamp":"2024-01-15T10:00:05Z","level":"INFO","request_id":"req-abc123","method":"POST","path":"/api/v1/payments","status":200,"latency_ms":47}"#,
    r#"{"ts":"2024-01-15T10:00:06Z","level":"ERROR","request_id":"req-abc123","error":"payment gateway timeout","gateway":"stripe","attempt":3}"#,
    r#"{"ts":"2024-01-15T10:00:07Z","level":"INFO","message":"Token validated","user_id":"usr-999","token_type":"bearer","expires_in":3600}"#,
];

const CORPUS_LOGFMT: &[&str] = &[
    "ts=2024-01-15T10:00:00Z level=info msg=\"Server started\" port=8080",
    "ts=2024-01-15T10:00:01Z level=error msg=\"Connection refused\" host=db.internal err=\"dial tcp: connect: connection refused\"",
    "ts=2024-01-15T10:00:02Z level=warn msg=\"Slow query\" duration_ms=4200",
    "ts=2024-01-15T10:00:03Z level=debug msg=\"Cache miss\" key=user:42 ttl=300",
    "ts=2024-01-15T10:00:04Z level=info method=GET path=/healthz status=200 latency_ms=1",
    "ts=2024-01-15T10:00:05Z level=error msg=\"Auth failed\" user=alice reason=invalid_token",
];

const CORPUS_UNSTRUCTURED: &[&str] = &[
    "2024-01-15 10:00:00 INFO  Starting application version 2.4.1",
    "2024-01-15 10:00:01 ERROR Failed to connect to database after 3 retries",
    "Jan 15 10:00:02 myhost sshd[12345]: Failed password for invalid user admin from 10.0.0.1 port 54321 ssh2",
    "[2024-01-15T10:00:03Z] WARN: Disk usage at 92% on /dev/sda1",
    "ERROR: NullPointerException at com.example.App.handle(App.java:42)",
    "10:00:05.123 [main] DEBUG o.s.w.s.DispatcherServlet - Initializing Servlet 'dispatcherServlet'",
    "time=2024-01-15T10:00:06Z severity=CRITICAL message=\"Panic: index out of bounds\"",
    "GET /api/v1/users 200 47ms",
];

const CORPUS_MIXED: &[&str] = &[
    r#"{"ts":"2024-01-15T10:00:00Z","level":"INFO","message":"api-gateway started"}"#,
    "ts=2024-01-15T10:00:01Z level=info msg=\"auth-service ready\" port=9090",
    "2024-01-15 10:00:02 ERROR worker-1: task queue overflow",
    r#"{"ts":"2024-01-15T10:00:03Z","level":"ERROR","request_id":"req-xyz","message":"upstream timeout"}"#,
    "ts=2024-01-15T10:00:04Z level=warn msg=\"retry\" attempt=2 max=3",
    "2024-01-15 10:00:05 INFO  Graceful shutdown complete",
];

fn assert_synthetic_fields(entry: &LogEntry) {
    assert!(!entry.producer.is_empty(), "empty producer: {:?}", entry.raw);
    assert!(entry.ts.timestamp() > 0, "ts at the epoch: {:?}", entry.raw);
    assert!(entry.ts.after_epoch());
    assert_eq!(entry.source, FeedKind::Kubernetes);
}

#[test]
fn synthetic_fields_always_present() {
    for corpus in [CORPUS_JSON, CORPUS_LOGFMT, CORPUS_UNSTRUCTURED, CORPUS_MIXED] {
        for line in corpus {
            assert_synthetic_fields(&norm(line));
        }
    }
}

#[test]
fn login_line_as_json() {
    let e = norm(r#"{"ts":"2024-01-15T10:00:00Z","level":"INFO","msg":"login ok"}"#);
    assert_eq!(e.ts, Timestamp::from_millis(1_705_312_800_000));
    assert_eq!(e.level, Some(LogLevel::Info));
    assert_eq!(e.message.as_deref(), Some("login ok"));
    assert_eq!(e.producer, "api-7f9b4d");
    assert_eq!(e.seq, 0);
}

#[test]
fn auth_retry_line_as_key_value() {
    let e = norm(r#"ts=2024-01-15T10:00:01Z level=warn msg="auth retry""#);
    assert_eq!(e.ts, Timestamp::from_millis(1_705_312_801_000));
    assert_eq!(e.level, Some(LogLevel::Warn));
    assert_eq!(e.message.as_deref(), Some("auth retry"));
    assert_eq!(
        e.fields,
        vec![
            ("ts".to_string(), FieldValue::Text("2024-01-15T10:00:01Z".to_string())),
            ("level".to_string(), FieldValue::Text("warn".to_string())),
            ("msg".to_string(), FieldValue::Text("auth retry".to_string())),
        ]
    );
}

#[test]
fn token_rejected_line_as_free_text() {
    let line = "2024-01-15 10:00:02 ERROR token rejected";
    let e = norm(line);
    assert_eq!(e.ts, Timestamp::from_millis(1_705_312_802_000));
    assert_eq!(e.level, Some(LogLevel::Error));
    assert_eq!(e.message.as_deref(), Some(line));
    assert_eq!(e.raw, line);
    assert!(e.fields.is_empty());
}

#[test]
fn json_top_level_keys_promoted_to_fields() {
    let e = norm(CORPUS_JSON[0]);
    let mut keys: Vec<&str> = e.fields.iter().map(|(k, _)| k.as_str()).collect();
    keys.sort();
    assert_eq!(keys, vec!["level", "message", "port", "ts"]);
    assert_eq!(e.field("port"), Some(FieldValue::Number("8080".to_string())));
    assert_eq!(e.field("level"), Some(FieldValue::Text("INFO".to_string())));
    assert_eq!(e.field("nothing"), None);
    let e = norm(r#"{"Level":"warn","MSG":"shout","Flag":true,"gone":null}"#);
    assert_eq!(e.level, Some(LogLevel::Warn));
    assert_eq!(e.message.as_deref(), Some("shout"));
    assert_eq!(e.field("flag"), Some(FieldValue::Bool(true)));
    assert_eq!(e.field("gone"), Some(FieldValue::Null));
}

#[test]
fn json_level_field_normalised() {
    let expected = [
        LogLevel::Info,
        LogLevel::Error,
        LogLevel::Warn,
        LogLevel::Debug,
        LogLevel::Fatal,
        LogLevel::Info,
        LogLevel::Error,
        LogLevel::Info,
    ];
    for (line, level) in CORPUS_JSON.iter().zip(expected) {
        assert_eq!(norm(line).level, Some(level), "{line}");
    }
    assert_eq!(norm(r#"{"level":"loud","msg":"x"}"#).level, None);
    assert_eq!(norm(r#"{"level":3,"msg":"x"}"#).level, None);
    assert_eq!(norm(r#"{"severity":"CRITICAL"}"#).level, Some(LogLevel::Fatal));
    assert_eq!(norm(r#"{"lvl":"Warning"}"#).level, Some(LogLevel::Warn));
    assert_eq!(norm(r#"{"lvl":"trace"}"#).level, Some(LogLevel::Trace));
}

#[test]
fn json_message_field_extracted() {
    assert_eq!(norm(CORPUS_JSON[1]).message.as_deref(), Some("Connection refused"));
    assert_eq!(norm(CORPUS_JSON[0]).message.as_deref(), Some("Server started"));
    // Without a message key the raw line is the message.
    assert_eq!(norm(CORPUS_JSON[5]).message.as_deref(), Some(CORPUS_JSON[5]));
}

#[test]
fn json_timestamp_overrides_ingest_time() {
    let millis = [
        1_705_312_800_000i64,
        1_705_312_801_000,
        1_705_312_802_123,
        1_705_312_803_000,
        1_705_312_804_000,
    ];
    for (line, ms) in CORPUS_JSON.iter().zip(millis) {
        assert_eq!(norm(line).ts, Timestamp::from_millis(ms), "{line}");
    }
    // A time that does not read, or that lies at the epoch, is not taken.
    assert_eq!(norm(r#"{"ts":"yesterday"}"#).ts, Timestamp::from_millis(INGEST_MS));
    assert_eq!(norm(r#"{"ts":"1970-01-01T00:00:00Z"}"#).ts, Timestamp::from_millis(INGEST_MS));
    assert_eq!(norm(r#"{"ts":1705312800}"#).ts, Timestamp::from_millis(INGEST_MS));
    assert_eq!(
        norm(r#"{"ts":"2024-01-15T12:00:00+02:00"}"#).ts,
        Timestamp::from_millis(1_705_312_800_000)
    );
}

#[test]
fn json_nested_values_stored_as_value() {
    let e = norm(r#"{"msg":"x","ctx":{"a":[1,2,{"b":null}],"c":"d"},"list":[true,"s"]}"#);
    assert_eq!(
        e.field("ctx"),
        Some(FieldValue::Nested(r#"{"a":[1,2,{"b":null}],"c":"d"}"#.to_string()))
    );
    assert_eq!(e.field("list"), Some(FieldValue::Nested(r#"[true,"s"]"#.to_string())));
}

#[test]
fn json_that_is_no_object_falls_through() {
    for line in ["[1,2,3]", "\"just a string\"", "42", "{\"unclosed\":", "{} trailing"] {
        let e = norm(line);
        assert_eq!(e.message.as_deref(), Some(line));
        assert!(e.fields.is_empty(), "{line}");
    }
    let e = norm("   {\"msg\":\"padded\"}  ");
    assert_eq!(e.message.as_deref(), Some("padded"));
    assert_eq!(e.raw, "   {\"msg\":\"padded\"}  ");
}

#[test]
fn logfmt_pairs_extracted() {
    let e = norm(CORPUS_LOGFMT[0]);
    assert_eq!(
        e.fields,
        vec![
            ("ts".to_string(), FieldValue::Text("2024-01-15T10:00:00Z".to_string())),
            ("level".to_string(), FieldValue::Text("info".to_string())),
            ("msg".to_string(), FieldValue::Text("Server started".to_string())),
            ("port".to_string(), FieldValue::Text("8080".to_string())),
        ]
    );
    assert_eq!(e.level, Some(LogLevel::Info));
    assert_eq!(e.ts, Timestamp::from_millis(1_705_312_800_000));
    let e = norm(CORPUS_UNSTRUCTURED[6]);
    assert_eq!(e.level, Some(LogLevel::Fatal));
    assert_eq!(e.message.as_deref(), Some("Panic: index out of bounds"));
    assert_eq!(e.ts, Timestamp::from_millis(1_705_312_806_000));
}

#[test]
fn logfmt_quoted_values_unquoted() {
    let e = norm(r#"msg="hello world" note="say \"hi\"\n" path="C:\\tmp" empty="" k=v"#);
    assert_eq!(e.field("msg"), Some(FieldValue::Text("hello world".to_string())));
    assert_eq!(e.field("note"), Some(FieldValue::Text("say \"hi\"\n".to_string())));
    assert_eq!(e.field("path"), Some(FieldValue::Text("C:\\tmp".to_string())));
    assert_eq!(e.field("empty"), Some(FieldValue::Text(String::new())));
    assert_eq!(e.field("k"), Some(FieldValue::Text("v".to_string())));
}

#[test]
fn logfmt_scanner_refuses_what_is_no_pair() {
    let scan = |line: &str| parse_logfmt(&line.chars().collect());
    assert!(scan("a=1 b=2").is_some());
    assert!(scan("  a=  ").is_some());
    assert_eq!(scan("a= b=2").unwrap().len(), 2);
    assert!(scan("").is_none());
    assert!(scan("   ").is_none());
    assert!(scan("a=1 plain").is_none());
    assert!(scan("=1").is_none());
    assert!(scan("a=\"open").is_none());
    assert!(scan("a=\"x\"y").is_none());
    assert!(scan("a=\"x\\").is_none());
    assert!(scan("a b=1").is_none());
    assert!(scan("k$=1").is_none());
    let pairs = scan("Key.one=a=b @t=\"q r\"").unwrap();
    let text: Vec<(String, String)> =
        pairs.iter().map(|(k, v)| (k.iter().collect(), v.iter().collect())).collect();
    assert_eq!(
        text,
        vec![("Key.one".to_string(), "a=b".to_string()), ("@t".to_string(), "q r".to_string())]
    );
}

#[test]
fn unstructured_error_level_detected() {
    assert_eq!(norm("ERROR: something failed").level, Some(LogLevel::Error));
    assert_eq!(norm(CORPUS_UNSTRUCTURED[4]).level, Some(LogLevel::Error));
    assert_eq!(norm(CORPUS_UNSTRUCTURED[3]).level, Some(LogLevel::Warn));
    assert_eq!(norm(CORPUS_UNSTRUCTURED[5]).level, Some(LogLevel::Debug));
    assert_eq!(norm("kernel panic - not syncing").level, Some(LogLevel::Fatal));
    assert_eq!(norm("a warning and then an error").level, Some(LogLevel::Warn));
    assert_eq!(norm(CORPUS_UNSTRUCTURED[7]).level, None);
    assert_eq!(norm("informational errors").level, None);
}

#[test]
fn unstructured_timestamp_detected() {
    assert_eq!(norm(CORPUS_UNSTRUCTURED[0]).ts, Timestamp::from_millis(1_705_312_800_000));
    assert_eq!(norm(CORPUS_UNSTRUCTURED[3]).ts, Timestamp::from_millis(1_705_312_803_000));
    assert_eq!(
        norm("2024-01-15T10:00:02.500Z something happened").ts,
        Timestamp::from_millis(1_705_312_802_500)
    );
    assert_eq!(
        norm("   2024-01-15 10:00:02 indented").ts,
        Timestamp::from_millis(1_705_312_802_000)
    );
    // A date without a year is given the year of arrival.
    assert_eq!(norm(CORPUS_UNSTRUCTURED[2]).ts, Timestamp::from_millis(1_673_776_802_000));
    assert_eq!(norm("Feb  5 01:02:03 host up").ts, Timestamp::from_millis(1_675_558_923_000));
    assert_eq!(norm("feb 5 01:02:03 host up").ts, Timestamp::from_millis(1_675_558_923_000));
    assert_eq!(norm("FEB 05 01:02:03").ts, Timestamp::from_millis(1_675_558_923_000));
    assert_eq!(norm("Feb 30 01:02:03 no such day").ts, Timestamp::from_millis(INGEST_MS));
    assert_eq!(norm("Foo 15 10:00:02 no such month").ts, Timestamp::from_millis(INGEST_MS));
    assert_eq!(norm("Jan 15 10:00 too short").ts, Timestamp::from_millis(INGEST_MS));
    assert_eq!(norm("Jan 155 10:00:02 no day").ts, Timestamp::from_millis(INGEST_MS));
    // No timestamp at the start: the time of arrival stays.
    assert_eq!(norm(CORPUS_UNSTRUCTURED[7]).ts, Timestamp::from_millis(INGEST_MS));
    assert_eq!(norm("at 2024-01-15 10:00:02 late").ts, Timestamp::from_millis(INGEST_MS));
    assert_eq!(norm("2024-13-45 10:00:02 no such day").ts, Timestamp::from_millis(INGEST_MS));
}

#[test]
fn unstructured_request_id_detected() {
    let id = |line: &str| norm(line).field("request_id");
    assert_eq!(id("handled req-abc123 in 3ms"), Some(FieldValue::Text("req-abc123".to_string())));
    assert_eq!(id("handled rid=42af now"), Some(FieldValue::Text("42af".to_string())));
    assert_eq!(
        id("trace 123e4567-e89b-12d3-a456-426614174000 done"),
        Some(FieldValue::Text("123e4567-e89b-12d3-a456-426614174000".to_string()))
    );
    assert_eq!(id("first req-1 then req-2"), Some(FieldValue::Text("req-1".to_string())));
    assert_eq!(id("nothing to see"), None);
    assert_eq!(id("bare req- and rid= here"), None);
    assert_eq!(id("123e4567-e89b-12d3-a456-42661417400z"), None);
}

#[test]
fn fallback_stores_raw_as_message() {
    let line = "GET /api/v1/users 200 47ms";
    let e = norm(line);
    assert_eq!(e.message.as_deref(), Some(line));
    assert_eq!(e.raw, line);
    assert_eq!(e.level, None);
    assert_eq!(e.ts, Timestamp::from_millis(INGEST_MS));
}

#[test]
fn empty_line_does_not_panic() {
    let e = norm("");
    assert_eq!(e.message.as_deref(), Some(""));
    assert_eq!(e.raw, "");
    assert_synthetic_fields(&e);
}

#[test]
fn null_bytes_handled() {
    let e = normalize(b"before\x00after ERROR", &defaults());
    assert_eq!(e.raw, "before\u{0}after ERROR");
    assert_eq!(e.level, Some(LogLevel::Error));
    assert_synthetic_fields(&e);
}

#[test]
fn non_utf8_bytes_lossily_converted() {
    let e = normalize(b"caf\xff\xfe latte", &defaults());
    assert_eq!(e.raw, "caf\u{FFFD}\u{FFFD} latte");
    assert_synthetic_fields(&e);
    let e = normalize("gr\u{fc}n".as_bytes(), &defaults());
    assert_eq!(e.raw, "gr\u{fc}n");
}

#[test]
fn very_long_line_handled() {
    let line = "x".repeat(100 * 1024);
    let e = norm(&line);
    assert_eq!(e.raw.len(), MAX_LINE);
    assert_eq!(MAX_LINE, 65_536);
    assert_eq!(e.message.as_deref(), Some(e.raw.as_str()));
    assert_synthetic_fields(&e);
}

#[test]
fn producer_falls_back_to_a_sentinel() {
    let mut d = defaults();
    d.producer = String::new();
    assert_eq!(normalize_text("x", &d).producer, "unknown");
    d.source = FeedKind::Stdin;
    assert_eq!(normalize_text("x", &d).producer, "stdin");
    assert_eq!(normalize_text("x", &d).source, FeedKind::Stdin);
}

#[test]
fn level_and_source_names() {
    assert_eq!(LogLevel::Warn.label(), "WARN");
    assert_eq!(LogLevel::Trace.label(), "TRACE");
    assert_eq!(FeedKind::Kubernetes.label(), "kubernetes");
    assert_eq!(FeedKind::Stdin.label(), "stdin");
    assert!(LogLevel::Fatal > LogLevel::Error);
    assert!(LogLevel::Error.at_least(LogLevel::Warn));
    assert!(!LogLevel::Info.at_least(LogLevel::Warn));
    assert_eq!(LogLevel::Debug.severity(), 1);
    assert_eq!(Timestamp::from_millis(-1).timestamp(), -1);
    assert_eq!(Timestamp::from_millis(-1000).timestamp(), -1);
    assert_eq!(Timestamp::from_millis(-1001).timestamp(), -2);
    assert_eq!(Timestamp::from_millis(1999).timestamp(), 1);
    assert!(!Timestamp::from_millis(999).after_epoch());
}
