//! Tests of the headless output and of the reading of durations.

use fml::export::Format;
use fml::headless::{parse_duration, render, take_newest, Request, MAX_COUNT};
use fml::normalizer::cascade::{normalize, FeedDefaults};
use fml::search::ontology::Ontology;
use fml::search::query::QueryError;
use fml::store::Store;
use fml::types::{FeedKind, LogEntry, Timestamp};

fn ingest(lines: &[&str]) -> Vec<LogEntry> {
    let d = FeedDefaults {
        source: FeedKind::Stdin,
        producer: String::new(),
        ts: Timestamp::from_millis(1_700_000_000_000),
    };
    let mut store = Store::new(1000);
    for line in lines {
        store.append(normalize(line.as_bytes(), &d));
    }
    store.entries()
}

fn corpus() -> Vec<LogEntry> {
    ingest(&[
        r#"{"ts":"2024-01-15T10:00:00Z","level":"INFO","msg":"login ok"}"#,
        r#"ts=2024-01-15T10:00:01Z level=warn msg="auth retry""#,
        "2024-01-15 10:00:02 ERROR token rejected",
        "plain line",
    ])
}

fn request(query: &str, greed: u8, tail: Option<usize>, format: Format, metadata: bool) -> Request {
    Request { query: query.to_string(), greed, tail, format, metadata }
}

fn run(req: &Request) -> Vec<String> {
    render(&Ontology::builtin(), req, &corpus()).unwrap()
}

#[test]
fn durations() {
    assert_eq!(parse_duration("100ms"), Some(100));
    assert_eq!(parse_duration("5s"), Some(5_000));
    assert_eq!(parse_duration("2m"), Some(120_000));
    assert_eq!(parse_duration("1h"), Some(3_600_000));
    assert_eq!(parse_duration("0s"), Some(0));
    assert_eq!(parse_duration("007s"), Some(7_000));
    assert_eq!(parse_duration("1000000000000h"), Some(3_600_000_000_000_000_000));
    assert_eq!(MAX_COUNT, 1_000_000_000_000);
    for bad in ["", "5", "s", "ms", "5 s", " 5s", "5s ", "-5s", "+5s", "5sec", "5.5s", "5S", "1000000000001ms", "99999999999999999999999s"] {
        assert_eq!(parse_duration(bad), None, "{bad:?}");
    }
}

#[test]
fn headless_format_raw_is_plain_text() {
    let lines = run(&request("", 0, None, Format::Raw, true));
    assert_eq!(lines.len(), 4);
    assert_eq!(lines[3], "plain line");
    assert_eq!(lines[2], "2024-01-15 10:00:02 ERROR token rejected");
    assert!(lines.iter().all(|l| !l.contains('\u{1b}')));
}

#[test]
fn headless_query_filters_output() {
    let lines = run(&request("level:warn", 0, None, Format::Raw, true));
    assert_eq!(lines.len(), 2);
    assert!(lines[0].contains("auth retry"));
    assert!(lines[1].contains("token rejected"));
    assert!(run(&request("nothing-like-this", 0, None, Format::Raw, true)).is_empty());
}

#[test]
fn headless_greed_flag_enables_expansion() {
    assert_eq!(run(&request("auth", 0, None, Format::Raw, true)).len(), 1);
    assert_eq!(run(&request("auth", 3, None, Format::Raw, true)).len(), 3);
}

#[test]
fn headless_tail_n_lines() {
    let lines = run(&request("", 0, Some(2), Format::Raw, true));
    assert_eq!(lines, vec!["2024-01-15 10:00:02 ERROR token rejected", "plain line"]);
    // The newest of those that meet the query.
    let lines = run(&request("auth", 3, Some(2), Format::Raw, true));
    assert_eq!(lines.len(), 2);
    assert!(lines[0].contains("auth retry"));
    assert!(lines[1].contains("token rejected"));
    assert!(run(&request("", 0, Some(0), Format::Raw, true)).is_empty());
}

#[test]
fn headless_tail_larger_than_store_prints_all() {
    assert_eq!(run(&request("", 0, Some(100), Format::Raw, true)).len(), 4);
    assert_eq!(run(&request("", 0, Some(4), Format::Raw, true)).len(), 4);
}

#[test]
fn headless_tail_n_prints_exactly_n_lines() {
    let many: Vec<String> = (0..100).map(|i| format!("line {i}")).collect();
    let refs: Vec<&str> = many.iter().map(|s| s.as_str()).collect();
    let entries = ingest(&refs);
    let newest = take_newest(&entries, 10);
    assert_eq!(newest.len(), 10);
    assert_eq!(newest[0].raw, "line 90");
    assert_eq!(newest[9].raw, "line 99");
    assert_eq!(newest[0].seq, 91);
    assert_eq!(take_newest(&entries, 100), entries);
    assert_eq!(take_newest(&entries, usize::MAX), entries);
    assert!(take_newest(&entries, 0).is_empty());
}

#[test]
fn headless_format_jsonl_is_valid() {
    let lines = run(&request("", 0, None, Format::Jsonl, true));
    assert_eq!(lines.len(), 4);
    for (i, line) in lines.iter().enumerate() {
        let v: serde_json::Value = serde_json::from_str(line).unwrap();
        assert_eq!(v["seq"].as_u64(), Some(i as u64 + 1));
        assert_eq!(v["source"].as_str(), Some("stdin"));
        assert_eq!(v["producer"].as_str(), Some("stdin"));
    }
}

#[test]
fn headless_format_csv_has_header() {
    let lines = run(&request("", 0, Some(1), Format::Csv, true));
    assert_eq!(
        lines,
        vec![
            "seq,ts,source,producer,level,message,raw",
            "4,2023-11-14T22:13:20.000Z,stdin,stdin,,plain line,plain line",
        ]
    );
}

#[test]
fn headless_no_metadata_suppresses_synthetic_fields() {
    let lines = run(&request("", 0, Some(1), Format::Csv, false));
    assert_eq!(lines, vec!["seq,level,message,raw", "4,,plain line,plain line"]);
    let lines = run(&request("", 0, Some(1), Format::Jsonl, false));
    assert_eq!(
        lines,
        vec![r#"{"seq":4,"level":null,"message":"plain line","raw":"plain line","fields":{}}"#]
    );
}

#[test]
fn a_bad_query_prints_nothing() {
    let o = Ontology::builtin();
    let r = render(&o, &request("level:loud", 0, None, Format::Raw, true), &corpus());
    assert_eq!(r, Err(QueryError::UnknownLevel("loud".to_string())));
    let r = render(&o, &request("/(/", 0, None, Format::Raw, true), &corpus());
    assert!(matches!(r, Err(QueryError::BadRegex(_))));
}

#[test]
fn empty_stdin_produces_empty_store() {
    let entries = ingest(&[]);
    assert!(entries.is_empty());
    let r = render(&Ontology::builtin(), &request("", 0, None, Format::Csv, true), &entries);
    assert_eq!(r, Ok(Vec::new()));
}

#[test]
fn stdin_producer_field_is_set() {
    let entries = ingest(&["one", "two"]);
    assert!(entries.iter().all(|e| e.producer == "stdin" && e.source == FeedKind::Stdin));
    assert_eq!(entries.iter().map(|e| e.seq).collect::<Vec<u64>>(), vec![1, 2]);
}
