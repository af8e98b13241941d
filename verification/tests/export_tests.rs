//! Tests of the export: scopes, formats and the suppression of metadata.

use fml::export::{collect_keys, csv_line, export_lines, export_scope, json_object, scoped, Format, Scope};
use fml::normalizer::cascade::{normalize, FeedDefaults};
use fml::search::ontology::Ontology;
use fml::search::query::{parse_query, ParsedQuery};
use fml::types::{FeedKind, FieldValue, LogEntry, LogLevel, Timestamp};

fn entry(seq: u64, producer: &str, line: &str) -> LogEntry {
    let d = FeedDefaults {
        source: FeedKind::Kubernetes,
        producer: producer.to_string(),
        ts: Timestamp::from_millis(1_700_000_000_000),
    };
    let mut e = normalize(line.as_bytes(), &d);
    e.seq = seq;
    e
}

fn store() -> Vec<LogEntry> {
    vec![
        entry(1, "api-7f9b4d", r#"{"ts":"2024-01-15T10:00:00Z","level":"INFO","msg":"login ok"}"#),
        entry(2, "worker-1", r#"ts=2024-01-15T10:00:01Z level=warn msg="auth retry""#),
        entry(3, "api-7f9b4d", "2024-01-15 10:00:02 ERROR token rejected"),
        entry(4, "api-7f9b4d", "plain, with \"quotes\""),
    ]
}

fn query(text: &str) -> ParsedQuery {
    parse_query(text).unwrap()
}

fn export(scope: Scope, q: &str, greed: u8, format: Format, metadata: bool) -> Vec<String> {
    export_scope(&Ontology::builtin(), &query(q), greed, &scope, &store(), format, metadata)
}

#[test]
fn format_names() {
    assert_eq!(Format::from_name("raw"), Some(Format::Raw));
    assert_eq!(Format::from_name("jsonl"), Some(Format::Jsonl));
    assert_eq!(Format::from_name("csv"), Some(Format::Csv));
    assert_eq!(Format::from_name("CSV"), None);
    assert_eq!(Format::from_name("json"), None);
    assert_eq!(Format::from_name(""), None);
}

#[test]
fn raw_entire_store() {
    let lines = export(Scope::Store, "", 0, Format::Raw, true);
    let raw: Vec<String> = store().into_iter().map(|e| e.raw).collect();
    assert_eq!(lines, raw);
    assert_eq!(lines.len(), 4);
    // Metadata has no place in raw lines.
    assert_eq!(export(Scope::Store, "", 0, Format::Raw, false), raw);
}

#[test]
fn raw_active_filter() {
    let lines = export(Scope::ActiveFilter, "level:error", 0, Format::Raw, true);
    assert_eq!(lines, vec!["2024-01-15 10:00:02 ERROR token rejected"]);
    let lines = export(Scope::ActiveFilter, "auth", 3, Format::Raw, true);
    // In the order of the store, not by rank.
    assert_eq!(lines.len(), 3);
    assert!(lines[0].contains("login ok"));
    assert!(lines[1].contains("auth retry"));
    assert!(lines[2].contains("token rejected"));
}

#[test]
fn raw_selected_producer() {
    let lines = export(Scope::Producer("api-7f9b4d".to_string()), "auth", 0, Format::Raw, true);
    assert_eq!(lines.len(), 3);
    assert!(lines.iter().all(|l| !l.contains("auth retry")));
    assert!(export(Scope::Producer("nobody".to_string()), "", 0, Format::Raw, true).is_empty());
}

#[test]
fn raw_selected_producer_with_filter() {
    let scope = Scope::ProducerAndFilter("api-7f9b4d".to_string());
    let lines = export(scope.clone(), "auth", 3, Format::Raw, true);
    assert_eq!(lines.len(), 2);
    assert!(lines[0].contains("login ok"));
    assert!(lines[1].contains("token rejected"));
    assert!(export(scope, "auth", 0, Format::Raw, true).is_empty());
}

#[test]
fn scopes_copy_whole_entries() {
    let o = Ontology::builtin();
    let all = store();
    assert_eq!(scoped(&o, &query(""), 0, &Scope::Store, &all), all);
    let own = scoped(&o, &query(""), 0, &Scope::Producer("worker-1".to_string()), &all);
    assert_eq!(own, vec![all[1].clone()]);
}

#[test]
fn jsonl_entire_store() {
    let lines = export(Scope::Store, "", 0, Format::Jsonl, true);
    assert_eq!(lines.len(), 4);
    assert_eq!(
        lines[0],
        concat_all(&[
            r#"{"seq":1,"ts":"2024-01-15T10:00:00.000Z","source":"kubernetes","producer":"api-7f9b4d","#,
            r#""level":"INFO","message":"login ok","#,
            r#""raw":"{\"ts\":\"2024-01-15T10:00:00Z\",\"level\":\"INFO\",\"msg\":\"login ok\"}","#,
            // The members of a JSON line come in the order of their keys.
            r#""fields":{"level":"INFO","msg":"login ok","ts":"2024-01-15T10:00:00Z"}}"#,
        ])
    );
    assert_eq!(
        lines[3],
        concat_all(&[
            r#"{"seq":4,"ts":"2023-11-14T22:13:20.000Z","source":"kubernetes","producer":"api-7f9b4d","#,
            r#""level":null,"message":"plain, with \"quotes\"","raw":"plain, with \"quotes\"","fields":{}}"#,
        ])
    );
    for line in &lines {
        let v: serde_json::Value = serde_json::from_str(line).unwrap();
        let o = v.as_object().unwrap();
        for key in ["seq", "ts", "source", "producer", "level", "message", "raw", "fields"] {
            assert!(o.contains_key(key), "{key} is missing in {line}");
        }
    }
}

fn concat_all(parts: &[&str]) -> String {
    parts.iter().map(|p| p.to_string()).collect()
}

#[test]
fn jsonl_active_filter() {
    let lines = export(Scope::ActiveFilter, "level:warn", 0, Format::Jsonl, true);
    assert_eq!(lines.len(), 2);
    let v: serde_json::Value = serde_json::from_str(&lines[0]).unwrap();
    assert_eq!(v["seq"].as_u64(), Some(2));
    assert_eq!(v["level"].as_str(), Some("WARN"));
    assert_eq!(v["fields"]["msg"].as_str(), Some("auth retry"));
    assert_eq!(v["ts"].as_str(), Some("2024-01-15T10:00:01.000Z"));
}

#[test]
fn jsonl_selected_producer() {
    let lines = export(Scope::Producer("worker-1".to_string()), "", 0, Format::Jsonl, false);
    assert_eq!(
        lines,
        vec![concat_all(&[
            r#"{"seq":2,"level":"WARN","message":"auth retry","#,
            r#""raw":"ts=2024-01-15T10:00:01Z level=warn msg=\"auth retry\"","#,
            r#""fields":{"ts":"2024-01-15T10:00:01Z","level":"warn","msg":"auth retry"}}"#,
        ])]
    );
}

#[test]
fn jsonl_selected_producer_with_filter() {
    let scope = Scope::ProducerAndFilter("api-7f9b4d".to_string());
    let lines = export(scope, "rejected", 0, Format::Jsonl, false);
    assert_eq!(lines.len(), 1);
    let v: serde_json::Value = serde_json::from_str(&lines[0]).unwrap();
    assert_eq!(v["seq"].as_u64(), Some(3));
    assert!(v.get("producer").is_none());
    assert!(v.get("ts").is_none());
    assert!(v.get("source").is_none());
}

#[test]
fn json_values_keep_their_kind() {
    let mut e = entry(9, "p", "x");
    e.fields = vec![
        ("n".to_string(), FieldValue::Number("-1.5e3".to_string())),
        ("b".to_string(), FieldValue::Bool(false)),
        ("t".to_string(), FieldValue::Bool(true)),
        ("z".to_string(), FieldValue::Null),
        ("o".to_string(), FieldValue::Nested(r#"{"a":[1,2]}"#.to_string())),
        ("s \"q\"".to_string(), FieldValue::Text("tab\there\u{1}\\".to_string())),
    ];
    e.message = None;
    e.level = Some(LogLevel::Fatal);
    e.ts = Timestamp::from_millis(i64::MAX);
    let line = json_object(&e, true);
    assert_eq!(
        line,
        concat_all(&[
            r#"{"seq":9,"ts":null,"source":"kubernetes","producer":"p","level":"FATAL","message":null,"raw":"x","#,
            r#""fields":{"n":-1.5e3,"b":false,"t":true,"z":null,"o":{"a":[1,2]},"s \"q\"":"tab\there\u0001\\"}}"#,
        ])
    );
    let v: serde_json::Value = serde_json::from_str(&line).unwrap();
    assert_eq!(v["fields"]["s \"q\""].as_str(), Some("tab\there\u{1}\\"));
}

#[test]
fn csv_entire_store() {
    let lines = export(Scope::Store, "", 0, Format::Csv, true);
    assert_eq!(
        lines,
        vec![
            "seq,ts,source,producer,level,message,raw,level,msg,ts".to_string(),
            concat_all(&[
                "1,2024-01-15T10:00:00.000Z,kubernetes,api-7f9b4d,INFO,login ok,",
                r#""{""ts"":""2024-01-15T10:00:00Z"",""level"":""INFO"",""msg"":""login ok""}","#,
                "INFO,login ok,2024-01-15T10:00:00Z",
            ]),
            concat_all(&[
                "2,2024-01-15T10:00:01.000Z,kubernetes,worker-1,WARN,auth retry,",
                r#""ts=2024-01-15T10:00:01Z level=warn msg=""auth retry""","#,
                "warn,auth retry,2024-01-15T10:00:01Z",
            ]),
            concat_all(&[
                "3,2024-01-15T10:00:02.000Z,kubernetes,api-7f9b4d,ERROR,",
                "2024-01-15 10:00:02 ERROR token rejected,2024-01-15 10:00:02 ERROR token rejected,,,",
            ]),
            concat_all(&[
                "4,2023-11-14T22:13:20.000Z,kubernetes,api-7f9b4d,,",
                r#""plain, with ""quotes""","plain, with ""quotes""",,,"#,
            ]),
        ]
    );
}

#[test]
fn csv_active_filter() {
    let lines = export(Scope::ActiveFilter, "level:error", 0, Format::Csv, false);
    assert_eq!(
        lines,
        vec![
            "seq,level,message,raw".to_string(),
            "3,ERROR,2024-01-15 10:00:02 ERROR token rejected,2024-01-15 10:00:02 ERROR token rejected"
                .to_string(),
        ]
    );
}

#[test]
fn csv_selected_producer() {
    let lines = export(Scope::Producer("worker-1".to_string()), "", 0, Format::Csv, false);
    assert_eq!(lines.len(), 2);
    assert_eq!(lines[0], "seq,level,message,raw,ts,level,msg");
    assert!(lines[1].starts_with("2,WARN,auth retry,"));
    assert!(lines[1].ends_with(",2024-01-15T10:00:01Z,warn,auth retry"));
}

#[test]
fn csv_selected_producer_with_filter() {
    let scope = Scope::ProducerAndFilter("api-7f9b4d".to_string());
    let lines = export(scope, "login", 0, Format::Csv, false);
    assert_eq!(lines.len(), 2);
    assert_eq!(lines[0], "seq,level,message,raw,level,msg,ts");
    assert!(lines[1].starts_with("1,INFO,login ok,"));
}

#[test]
fn csv_cells_are_quoted_where_needed() {
    let row = |cells: &[&str]| {
        csv_line(&cells.iter().map(|c| c.chars().collect::<Vec<char>>()).collect())
    };
    assert_eq!(row(&[]), "");
    assert_eq!(row(&[""]), "");
    assert_eq!(row(&["", ""]), ",");
    assert_eq!(row(&["a", "b c", "d"]), "a,b c,d");
    assert_eq!(row(&["a,b"]), "\"a,b\"");
    assert_eq!(row(&["say \"hi\""]), "\"say \"\"hi\"\"\"");
    assert_eq!(row(&["two\nlines", "cr\r"]), "\"two\nlines\",\"cr\r\"");
    assert_eq!(row(&["\""]), "\"\"\"\"");
}

#[test]
fn field_columns_come_in_order_of_first_occurrence() {
    let mut a = entry(1, "p", "x");
    a.fields = vec![
        ("b".to_string(), FieldValue::Null),
        ("a".to_string(), FieldValue::Null),
        ("b".to_string(), FieldValue::Bool(true)),
    ];
    let mut b = entry(2, "p", "y");
    b.fields = vec![
        ("c".to_string(), FieldValue::Number("7".to_string())),
        ("a".to_string(), FieldValue::Text("t".to_string())),
    ];
    let list = vec![a, b];
    assert_eq!(collect_keys(&list), vec!["b", "a", "c"]);
    let lines = export_lines(&list, Format::Csv, false);
    assert_eq!(lines, vec!["seq,level,message,raw,b,a,c", "1,,x,x,null,null,", "2,,y,y,,t,7"]);
    assert!(collect_keys(&Vec::new()).is_empty());
}

#[test]
fn empty_store_produces_empty_file() {
    for format in [Format::Raw, Format::Jsonl, Format::Csv] {
        assert!(export_lines(&Vec::new(), format, true).is_empty());
        assert!(export_lines(&Vec::new(), format, false).is_empty());
    }
}

#[test]
fn empty_filter_result_produces_empty_file() {
    for format in [Format::Raw, Format::Jsonl, Format::Csv] {
        assert!(export(Scope::ActiveFilter, "nosuchword", 0, format, true).is_empty());
    }
}
