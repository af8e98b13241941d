//! Tests of the search engine: exact mode, greedy expansion over the
//! built-in ontology, filters, ranking and query errors.

use fml::normalizer::cascade::{normalize_text, FeedDefaults};
use fml::search::engine::{search, search_capped, SearchEngine, DEFAULT_CAP};
use fml::search::expand::expand;
use fml::search::ontology::{pick_link, Edge, Family, Ontology, LINK_COUNT};
use fml::search::query::{parse_query, QueryError};
use fml::store::{Filter, Store};
use fml::types::{FeedKind, LogEntry, LogLevel, Timestamp};

fn defaults() -> FeedDefaults {
    FeedDefaults {
        source: FeedKind::Stdin,
        producer: "test-producer".to_string(),
        ts: Timestamp::from_millis(1_705_000_000_000),
    }
}

/// Normalises the lines and puts them into a store, so that they carry
/// sequence numbers from 1 on.
fn corpus(lines: &[&str]) -> Vec<LogEntry> {
    let mut store = Store::new(100_000);
    for line in lines {
        store.append(normalize_text(line, &defaults()));
    }
    store.entries()
}

fn raws(entries: &[LogEntry]) -> Vec<String> {
    entries.iter().map(|e| e.raw.clone()).collect()
}

fn found(entries: &[LogEntry], query: &str, greed: u8) -> Vec<LogEntry> {
    SearchEngine::new().search_all(&entries.to_vec(), query, greed).unwrap()
}

fn is_superset(big: &[LogEntry], small: &[LogEntry]) -> bool {
    small.iter().all(|e| big.contains(e))
}

const THREE_LINES: [&str; 3] = [
    r#"{"ts":"2024-01-15T10:00:00Z","level":"INFO","msg":"login ok"}"#,
    r#"ts=2024-01-15T10:00:01Z level=warn msg="auth retry""#,
    "2024-01-15 10:00:02 ERROR token rejected",
];

#[test]
fn auth_at_greed_zero_finds_the_literal_line_only() {
    let entries = corpus(&THREE_LINES);
    let got = found(&entries, "auth", 0);
    assert_eq!(raws(&got), vec![THREE_LINES[1].to_string()]);
}

#[test]
fn auth_at_greed_three_finds_all_three_lines() {
    let entries = corpus(&THREE_LINES);
    let got = found(&entries, "auth", 3);
    assert_eq!(got.len(), 3);
    // The literal hit ranks first, then the expansions, newest first.
    assert_eq!(
        raws(&got),
        vec![THREE_LINES[1].to_string(), THREE_LINES[2].to_string(), THREE_LINES[0].to_string()]
    );
}

#[test]
fn level_filter_with_expanded_term_finds_timeout_and_latency() {
    let mut lines: Vec<String> = Vec::new();
    for i in 0..1000 {
        let line = match i % 20 {
            0 => format!("2024-01-15 10:00:00 ERROR upstream timeout after {i}ms"),
            1 => format!("2024-01-15 10:00:00 ERROR latency budget blown on call {i}"),
            2 => format!("2024-01-15 10:00:00 INFO timeout configured as {i}s"),
            3 => format!("2024-01-15 10:00:00 WARN latency rising, sample {i}"),
            4 => format!("2024-01-15 10:00:00 ERROR disk full on volume {i}"),
            _ => format!("2024-01-15 10:00:00 INFO request {i} served"),
        };
        lines.push(line);
    }
    let refs: Vec<&str> = lines.iter().map(|s| s.as_str()).collect();
    let entries = corpus(&refs);
    let got = found(&entries, "level:error timeout", 3);
    assert!(got.len() >= 100);
    assert_eq!(got.len(), 100);
    assert!(got.iter().all(|e| e.level == Some(LogLevel::Error)));
    assert!(got.iter().any(|e| e.raw.contains("latency")));
    assert!(got.iter().any(|e| e.raw.contains("timeout")));
    // Literal hits rank before expansions.
    assert!(got[..50].iter().all(|e| e.raw.contains("timeout")));
    assert!(got[50..].iter().all(|e| e.raw.contains("latency")));
}

#[test]
fn unauth_at_high_greed_surfaces_denial_terms() {
    let lines = [
        "access forbidden for user bob",
        "request rejected by policy",
        "permission denied: /etc/shadow",
        "401 Unauthorized",
        "all quiet on the western front",
    ];
    let entries = corpus(&lines);
    let got = found(&entries, "unauth", 7);
    let got_raws = raws(&got);
    for line in &lines[..4] {
        assert!(got_raws.contains(&line.to_string()), "missing: {line}");
    }
    assert!(!got_raws.contains(&lines[4].to_string()));
}

#[test]
fn exact_mode_literal_substring() {
    let entries = corpus(&["request timeout after 30s", "connection reset", "timeouts everywhere"]);
    let got = found(&entries, "timeout", 0);
    assert_eq!(raws(&got), vec!["timeouts everywhere", "request timeout after 30s"]);
}

#[test]
fn exact_mode_regex_match() {
    let entries = corpus(&["request timeout", "timed_out waiting", "time is out", "nothing here"]);
    let got = found(&entries, "/time.*out/", 0);
    assert_eq!(raws(&got), vec!["time is out", "timed_out waiting", "request timeout"]);
}

#[test]
fn exact_mode_does_not_expand() {
    let entries = corpus(&["high latency on shard 3", "latency p99 = 4s"]);
    assert!(found(&entries, "timeout", 0).is_empty());
    assert_eq!(found(&entries, "timeout", 3).len(), 2);
}

#[test]
fn matching_ignores_letter_case() {
    let entries = corpus(&["Login OK", "AUTH failure"]);
    assert_eq!(found(&entries, "Auth", 0).len(), 1);
    assert_eq!(found(&entries, "login", 0).len(), 1);
}

fn auth_corpus() -> Vec<LogEntry> {
    corpus(&[
        "auth ok",
        "login accepted",
        "bad credential",
        "session opened",
        "token expired",
        "permission check",
        "principal resolved",
        "password changed",
        "oauth handshake",
        "sso redirect",
        "exception in thread main",
        "disk full",
    ])
}

#[test]
fn greed_3_superset_of_greed_1_auth() {
    let entries = auth_corpus();
    assert!(is_superset(&found(&entries, "auth", 3), &found(&entries, "auth", 1)));
}

#[test]
fn greed_7_superset_of_greed_3_error() {
    let entries = corpus(&["error 1", "exception", "fatal", "abort", "denied", "forbidden", "ok"]);
    assert!(is_superset(&found(&entries, "error", 7), &found(&entries, "error", 3)));
}

#[test]
fn greed_10_superset_of_greed_7_timeout() {
    let entries = corpus(&["timeout", "tls alert", "dns lookup", "query plan", "slow call", "oom"]);
    assert!(is_superset(&found(&entries, "timeout", 10), &found(&entries, "timeout", 7)));
}

#[test]
fn greed_monotonicity_all_levels_auth() {
    let entries = auth_corpus();
    for g in 0..10 {
        let lower = found(&entries, "auth", g);
        let higher = found(&entries, "auth", g + 1);
        assert!(is_superset(&higher, &lower), "greed {g} is not within greed {}", g + 1);
    }
}

fn surfaces(term: &str, greed: u8, words: &[&str]) {
    let entries = corpus(words);
    let got = raws(&found(&entries, term, greed));
    for w in words {
        assert!(got.contains(&w.to_string()), "{term} at greed {greed} misses {w}");
    }
}

#[test]
fn auth_domain_surfaces_synonyms_at_greed_3() {
    surfaces("auth", 3, &["login", "credential", "session"]);
}

#[test]
fn auth_domain_surfaces_peers_at_greed_7() {
    surfaces("auth", 7, &["token", "permission", "principal"]);
    let entries = corpus(&["permission", "principal"]);
    assert!(found(&entries, "auth", 6).is_empty());
}

#[test]
fn error_domain_surfaces_synonyms_at_greed_3() {
    surfaces("error", 3, &["exception", "failure", "panic"]);
}

#[test]
fn network_domain_surfaces_synonyms_at_greed_3() {
    surfaces("timeout", 3, &["connection", "retry", "refused"]);
}

#[test]
fn database_domain_surfaces_synonyms() {
    surfaces("query", 3, &["deadlock", "transaction", "rollback"]);
}

#[test]
fn performance_domain_surfaces_synonyms() {
    surfaces("slow", 3, &["latency", "elapsed", "duration"]);
}

#[test]
fn lifecycle_domain_surfaces_synonyms() {
    surfaces("startup", 3, &["init", "ready", "healthy"]);
}

#[test]
fn resource_domain_surfaces_synonyms() {
    surfaces("oom", 3, &["memory", "limit", "exhausted"]);
}

#[test]
fn fail_prefix_biases_toward_error_cluster() {
    surfaces("fail", 3, &["failure", "failed", "exception"]);
    let entries = corpus(&["exception"]);
    assert!(found(&entries, "fail", 2).is_empty());
}

#[test]
fn invalid_prefix_biases_toward_auth_errors() {
    surfaces("invalid", 3, &["invalid_token", "exception"]);
}

#[test]
fn prefix_scan_needs_greed_two() {
    let entries = corpus(&["unauthorized"]);
    assert!(found(&entries, "unauthx", 0).is_empty());
    assert!(found(&entries, "unauthx", 1).is_empty());
    assert_eq!(found(&entries, "unauthx", 2).len(), 1);
}

#[test]
fn kv_filter_level_restricts_results() {
    let entries = corpus(&[
        "2024-01-15 10:00:00 INFO a",
        "2024-01-15 10:00:00 ERROR b",
        "2024-01-15 10:00:00 FATAL c",
        "2024-01-15 10:00:00 WARN d",
        "no level here",
    ]);
    let got = found(&entries, "level:error", 0);
    let levels: Vec<_> = got.iter().map(|e| e.level.unwrap()).collect();
    assert_eq!(levels, vec![LogLevel::Fatal, LogLevel::Error]);
}

#[test]
fn kv_filter_combined_with_term_expansion() {
    let entries = corpus(&[
        "2024-01-15 10:00:00 ERROR timeout",
        "2024-01-15 10:00:00 ERROR retry scheduled",
        "2024-01-15 10:00:00 INFO retry scheduled",
        "2024-01-15 10:00:00 ERROR disk full",
    ]);
    let got = found(&entries, "level:error timeout", 3);
    assert_eq!(
        raws(&got),
        vec!["2024-01-15 10:00:00 ERROR timeout", "2024-01-15 10:00:00 ERROR retry scheduled"]
    );
}

#[test]
fn producer_source_and_field_filters() {
    let mut store = Store::new(10);
    let mut a = normalize_text(r#"{"msg":"hello","status":200}"#, &defaults());
    a.producer = "api".to_string();
    let mut b = normalize_text("hello again", &defaults());
    b.producer = "worker".to_string();
    b.source = FeedKind::File;
    store.append(a);
    store.append(b);
    let entries = store.entries();
    assert_eq!(found(&entries, "producer:api", 0).len(), 1);
    assert_eq!(found(&entries, "source:file hello", 0)[0].producer, "worker");
    assert_eq!(found(&entries, "status:200", 0)[0].producer, "api");
    assert_eq!(found(&entries, "STATUS:200", 0).len(), 1);
    assert!(found(&entries, "status:404", 0).is_empty());
    assert_eq!(found(&entries, "", 0).len(), 2);
}

#[test]
fn all_tokens_must_be_met() {
    let entries = corpus(&["login timeout", "login ok", "timeout only"]);
    assert_eq!(raws(&found(&entries, "login timeout", 0)), vec!["login timeout"]);
    assert_eq!(raws(&found(&entries, "login /ok$/", 0)), vec!["login ok"]);
}

#[test]
fn query_errors_are_reported() {
    let o = Ontology::builtin();
    let entries = corpus(&["x"]);
    assert_eq!(
        search(&o, &entries, "/(/", 0),
        Err(QueryError::BadRegex("(".to_string()))
    );
    assert_eq!(
        search(&o, &entries, "level:loud", 0),
        Err(QueryError::UnknownLevel("loud".to_string()))
    );
    assert_eq!(
        search(&o, &entries, "source:pigeon", 0),
        Err(QueryError::UnknownSource("pigeon".to_string()))
    );
    assert_eq!(
        search(&o, &entries, "a:b :c", 0),
        Err(QueryError::UnknownKey("".to_string()))
    );
    assert_eq!(
        search(&o, &entries, "k$y:v level:nope", 0),
        Err(QueryError::UnknownKey("k$y".to_string()))
    );
    assert_eq!(QueryError::BadRegex("(".to_string()).message(), "malformed regex: (");
    assert_eq!(QueryError::UnknownKey("k$y".to_string()).message(), "unknown key: k$y");
    assert_eq!(QueryError::UnknownLevel("loud".to_string()).message(), "unknown level: loud");
    assert_eq!(QueryError::UnknownSource("x".to_string()).message(), "unknown source: x");
}

#[test]
fn parse_query_sorts_tokens_by_kind() {
    let q = parse_query("  Timeout level:WARN /a+b/ producer:api  retry k.x:1 ").ok().unwrap();
    let terms: Vec<String> = q.terms.iter().map(|t| t.iter().collect()).collect();
    assert_eq!(terms, vec!["timeout", "retry"]);
    assert_eq!(
        q.filters,
        vec![
            Filter::LevelAtLeast(LogLevel::Warn),
            Filter::Producer("api".to_string()),
            Filter::Field("k.x".to_string(), "1".to_string()),
        ]
    );
    assert_eq!(q.regexes.len(), 1);
    assert_eq!(q.regexes[0].text(), "a+b");
    let q = parse_query("level:critical source:K8s").ok().unwrap();
    assert_eq!(
        q.filters,
        vec![Filter::LevelAtLeast(LogLevel::Fatal), Filter::Source(FeedKind::Kubernetes)]
    );
}

#[test]
fn prop_results_subset_of_store() {
    let entries = auth_corpus();
    for query in ["auth", "error", "level:info", "/o.+n/", "unauth", "", "token session"] {
        for greed in 0..=10 {
            for e in found(&entries, query, greed) {
                assert!(entries.contains(&e));
            }
        }
    }
}

#[test]
fn prop_greed_monotonicity() {
    let o = Ontology::builtin();
    let words: Vec<String> = o.terms.iter().map(|t| t.iter().collect()).collect();
    let mut lines: Vec<String> = Vec::new();
    let mut state: u64 = 0x2545F4914F6CDD1D;
    for _ in 0..200 {
        let mut line = String::new();
        for _ in 0..3 {
            state ^= state << 13;
            state ^= state >> 7;
            state ^= state << 17;
            line.push_str(&words[(state % words.len() as u64) as usize]);
            line.push(' ');
        }
        lines.push(line);
    }
    let refs: Vec<&str> = lines.iter().map(|s| s.as_str()).collect();
    let entries = corpus(&refs);
    for term in ["auth", "timeout", "oom", "unauth", "failover", "query slow", "nothing"] {
        for g in 0..10 {
            let lower = found(&entries, term, g);
            let higher = found(&entries, term, g + 1);
            assert!(is_superset(&higher, &lower), "{term}: greed {g} not within {}", g + 1);
        }
    }
}

#[test]
fn prop_backwards_resolution() {
    let o = Ontology::builtin();
    let n = o.len();
    let reach: Vec<Vec<Vec<bool>>> =
        (0..=10u8).map(|g| (0..n).map(|a| o.reach(a, g)).collect()).collect();
    for g in 0..=10usize {
        for a in 0..n {
            for b in 0..n {
                if reach[g][a][b] {
                    assert!(
                        (g..=10).any(|h| reach[h][b][a]),
                        "{b} is reached from {a} at {g} but never reaches back"
                    );
                }
            }
        }
    }
}

#[test]
fn expansion_resolves_backwards_for_every_built_in_term() {
    let o = Ontology::builtin();
    let n = o.len();
    let within: Vec<Vec<Vec<u8>>> =
        (0..=10u8).map(|g| (0..n).map(|a| expand(&o, &o.terms[a], g)).collect()).collect();
    for g in 0..=10usize {
        for a in 0..n {
            for b in 0..n {
                if within[g][a][b] > 0 {
                    assert!(
                        (g..=10).any(|h| within[h][b][a] > 0),
                        "{b} is in the expansion of {a} at {g} but {a} is never in that of {b}"
                    );
                }
            }
        }
    }
}

#[test]
fn built_in_ontology_links_both_ways_within_one_to_ten() {
    let o = Ontology::builtin();
    assert!(o.len() >= 70);
    assert_eq!(o.families.len(), o.terms.len());
    for family in [
        Family::Auth,
        Family::Error,
        Family::Network,
        Family::Database,
        Family::Performance,
        Family::Lifecycle,
        Family::Resource,
    ] {
        assert!(o.families.contains(&family));
    }
    for e in &o.edges {
        assert!((1..=10).contains(&e.weight));
        assert!(o.edges.iter().any(|r| r.from == e.to && r.to == e.from));
    }
    // At the highest greed every term reaches every other.
    assert!(o.reach(0, 10).iter().all(|&seen| seen));
}

#[test]
fn expansion_distances() {
    let o = Ontology::builtin();
    let at = |name: &str| o.index_of(&name.chars().collect()).unwrap();
    let auth: Vec<char> = "auth".chars().collect();
    let d0 = expand(&o, &auth, 0);
    assert!(d0.iter().all(|&d| d == 0));
    let d3 = expand(&o, &auth, 3);
    assert_eq!(d3[at("login")], 3);
    assert_eq!(d3[at("token")], 3);
    assert_eq!(d3[at("password")], 0);
    assert_eq!(d3[at("auth")], 1);
    let d7 = expand(&o, &auth, 7);
    assert_eq!(d7[at("password")], 4);
    assert_eq!(d7[at("permission")], 7);
    assert_eq!(d7[at("login")], 3);
    // A term found by its prefix is at distance min(greed, 3).
    let unauth: Vec<char> = "unauth".chars().collect();
    assert_eq!(expand(&o, &unauth, 2)[at("unauthorized")], 2);
    assert_eq!(expand(&o, &unauth, 3)[at("unauthorized")], 3);
    // A negative term is also searched from `error` at 3 and `denied` at 5.
    assert_eq!(expand(&o, &unauth, 3)[at("error")], 3);
    assert_eq!(expand(&o, &unauth, 4)[at("denied")], 0);
    assert_eq!(expand(&o, &unauth, 5)[at("denied")], 5);
    assert_eq!(expand(&o, &unauth, 5)[at("forbidden")], 5);
}

#[test]
fn cap_keeps_the_best_results() {
    let entries = corpus(&["auth 1", "login 2", "auth 3", "token 4"]);
    let o = Ontology::builtin();
    let all = search(&o, &entries, "auth", 3).unwrap();
    assert_eq!(raws(&all), vec!["auth 3", "auth 1", "token 4", "login 2"]);
    let top = search_capped(&o, &entries, "auth", 3, 3).unwrap();
    assert_eq!(raws(&top), vec!["auth 3", "auth 1", "token 4"]);
    assert_eq!(search_capped(&o, &entries, "auth", 3, 10).unwrap().len(), 4);
    assert_eq!(SearchEngine::with_cap(1).search(&entries.to_vec(), "auth", 3).unwrap().len(), 1);
    assert_eq!(DEFAULT_CAP, 10_000);
}

#[test]
fn greed_above_ten_counts_as_ten() {
    let entries = auth_corpus();
    let engine = SearchEngine::new();
    assert_eq!(
        engine.search_all(&entries, "auth", 200).unwrap(),
        engine.search_all(&entries, "auth", 10).unwrap()
    );
}

#[test]
fn built_in_links_are_entered_in_order() {
    let o = Ontology::builtin();
    assert_eq!(LINK_COUNT, 85);
    assert_eq!(o.edges.len(), 2 * LINK_COUNT);
    assert_eq!(o.terms.len(), o.families.len());
    let first = pick_link(0);
    assert_eq!((first.a, first.b, first.forth, first.back), ("auth", "login", 3, 3));
    assert_eq!(o.terms[0].iter().collect::<String>(), "auth");
    assert_eq!(o.terms[1].iter().collect::<String>(), "login");
    assert_eq!(o.edges[0], Edge { from: 0, to: 1, weight: 3 });
    assert_eq!(o.edges[1], Edge { from: 1, to: 0, weight: 3 });
    let at = |t: &str| o.index_of(&t.chars().collect()).unwrap();
    for k in 0..LINK_COUNT {
        let l = pick_link(k);
        assert_eq!(o.edges[2 * k], Edge { from: at(l.a), to: at(l.b), weight: l.forth });
        assert_eq!(o.edges[2 * k + 1], Edge { from: at(l.b), to: at(l.a), weight: l.back });
        assert_eq!(o.families[at(l.a)], l.family_a);
    }
    let last = pick_link(LINK_COUNT - 1);
    assert_eq!((last.a, last.b), ("oom", "crash"));
    assert_eq!(pick_link(1000).a, "oom");
}

#[test]
fn a_term_is_added_once() {
    let mut o = Ontology::empty();
    assert_eq!(o.add_term("a", Family::Auth), 0);
    assert_eq!(o.add_term("b", Family::Error), 1);
    assert_eq!(o.add_term("a", Family::Network), 0);
    assert_eq!(o.families, vec![Family::Auth, Family::Error]);
    o.connect("b", Family::Error, "c", Family::Resource, 2, 9);
    assert_eq!(o.len(), 3);
    assert_eq!(
        o.edges,
        vec![Edge { from: 1, to: 2, weight: 2 }, Edge { from: 2, to: 1, weight: 9 }]
    );
    assert_eq!(o.reach(1, 2), vec![false, true, true]);
    assert_eq!(o.reach(2, 2), vec![false, false, true]);
    assert_eq!(o.reach(2, 9), vec![false, true, true]);
    assert_eq!(o.reach(0, 10), vec![true, false, false]);
}
