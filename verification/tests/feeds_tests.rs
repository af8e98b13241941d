//! Tests of the feed logic: producer names, container frames, reconnect
//! delays, resumed sessions and tailed files.

use fml::feeds::{
    container_producer, decode_frame, frame_entry, glob_matches, is_pattern, pod_producer, Backoff,
    FileId, FileTail,
    Frame, FrameError, Resume, StreamKind, TailAction, BACKOFF_CAP_MS, BACKOFF_START_MS,
};
use fml::normalizer::cascade::FeedDefaults;
use fml::types::{FeedKind, FieldValue, LogLevel, Timestamp};

fn docker_defaults() -> FeedDefaults {
    FeedDefaults {
        source: FeedKind::Docker,
        producer: "shop/web".to_string(),
        ts: Timestamp::from_millis(1_700_000_000_000),
    }
}

#[test]
fn multi_container_pod_producer_name_includes_container() {
    assert_eq!(pod_producer("api-7f9b4d", "app", 1), "api-7f9b4d");
    assert_eq!(pod_producer("api-7f9b4d", "app", 0), "api-7f9b4d");
    assert_eq!(pod_producer("api-7f9b4d", "sidecar", 2), "api-7f9b4d/sidecar");
}

#[test]
fn compose_container_producer_includes_project_and_service() {
    assert_eq!(container_producer("/shop_web_1", Some("shop"), Some("web")), "shop/web");
    assert_eq!(container_producer("/redis", None, None), "redis");
    assert_eq!(container_producer("redis", None, None), "redis");
    assert_eq!(container_producer("/redis", Some("shop"), None), "redis");
    assert_eq!(container_producer("/redis", None, Some("cache")), "redis");
    assert_eq!(container_producer("", None, None), "");
    assert_eq!(container_producer("//x", None, None), "/x");
}

#[test]
fn multiplexed_frames_are_decoded() {
    let mut buf: Vec<u8> = vec![1, 0, 0, 0, 0, 0, 0, 5];
    buf.extend_from_slice(b"hello");
    buf.extend_from_slice(&[2, 0, 0, 0, 0, 0, 0, 5]);
    buf.extend_from_slice(b"uh-oh");

    let (first, used) = decode_frame(&buf).unwrap().unwrap();
    assert_eq!(used, 13);
    assert_eq!(first, Frame { stream: StreamKind::Stdout, payload: b"hello".to_vec() });
    let rest = buf[used..].to_vec();
    let (second, used) = decode_frame(&rest).unwrap().unwrap();
    assert_eq!(used, 13);
    assert_eq!(second, Frame { stream: StreamKind::Stderr, payload: b"uh-oh".to_vec() });

    let d = docker_defaults();
    let a = frame_entry(&first, &d);
    assert_eq!(a.raw, "hello");
    assert_eq!(a.field("stream"), Some(FieldValue::Text("stdout".to_string())));
    assert_eq!(a.source, FeedKind::Docker);
    assert_eq!(a.producer, "shop/web");
    let b = frame_entry(&second, &d);
    assert_eq!(b.raw, "uh-oh");
    assert_eq!(b.field("stream"), Some(FieldValue::Text("stderr".to_string())));
}

#[test]
fn frame_entry_keeps_the_fields_of_the_line() {
    let frame = Frame {
        stream: StreamKind::Stderr,
        payload: br#"{"level":"error","msg":"boom","code":7}"#.to_vec(),
    };
    let e = frame_entry(&frame, &docker_defaults());
    assert_eq!(e.level, Some(LogLevel::Error));
    assert_eq!(e.message.as_deref(), Some("boom"));
    assert_eq!(e.fields.len(), 4);
    assert_eq!(e.fields[0], ("stream".to_string(), FieldValue::Text("stderr".to_string())));
    assert_eq!(e.field("code"), Some(FieldValue::Number("7".to_string())));
}

#[test]
fn incomplete_and_refused_frames() {
    assert_eq!(decode_frame(&vec![]), Ok(None));
    assert_eq!(decode_frame(&vec![1, 0, 0, 0, 0, 0, 0]), Ok(None));
    assert_eq!(decode_frame(&vec![1, 0, 0, 0, 0, 0, 0, 2, b'a']), Ok(None));
    assert_eq!(
        decode_frame(&vec![1, 0, 0, 0, 0, 0, 0, 0]),
        Ok(Some((Frame { stream: StreamKind::Stdout, payload: vec![] }, 8)))
    );
    assert_eq!(decode_frame(&vec![0, 0, 0, 0, 0, 0, 0, 0]), Err(FrameError::UnknownStream(0)));
    assert_eq!(decode_frame(&vec![3, 0, 0, 0, 0, 0, 0, 0]), Err(FrameError::UnknownStream(3)));
    assert_eq!(decode_frame(&vec![2, 0, 1, 0, 0, 0, 0, 0]), Err(FrameError::BadPadding));
    // The size is big-endian.
    let mut buf: Vec<u8> = vec![2, 0, 0, 0, 0, 0, 1, 2];
    buf.extend(std::iter::repeat(b'z').take(300));
    let (frame, used) = decode_frame(&buf).unwrap().unwrap();
    assert_eq!(frame.payload.len(), 258);
    assert_eq!(used, 266);
    assert_eq!(StreamKind::Stdout.label(), "stdout");
}

#[test]
fn reconnect_uses_exponential_backoff() {
    let mut b = Backoff::new();
    let delays: Vec<u64> = (0..12).map(|_| b.next_delay()).collect();
    assert_eq!(
        delays,
        vec![100, 200, 400, 800, 1600, 3200, 6400, 12800, 25600, 30000, 30000, 30000]
    );
    assert_eq!(BACKOFF_START_MS, 100);
    assert_eq!(BACKOFF_CAP_MS, 30_000);
    b.reset();
    assert_eq!(b.next_delay(), 100);
    assert_eq!(b.next_delay(), 200);
}

#[test]
fn prop_no_duplicate_lines_on_retry() {
    // Lines are stamped 1..=20. The first session ends after line 12; the
    // second starts again at line 8.
    let mut session = Resume::new();
    let mut delivered: Vec<u64> = Vec::new();
    for stamp in 1..=12u64 {
        if session.offer(stamp) {
            delivered.push(stamp);
        }
    }
    for stamp in 8..=20u64 {
        if session.offer(stamp) {
            delivered.push(stamp);
        }
    }
    assert_eq!(delivered, (1..=20u64).collect::<Vec<u64>>());
    assert_eq!(session.watermark, Some(20));
    assert!(!session.offer(20));
    assert!(!session.offer(0));
    assert!(session.offer(21));
}

#[test]
fn first_line_of_a_session_is_new() {
    let mut session = Resume::new();
    assert_eq!(session.watermark, None);
    assert!(session.offer(0));
    assert!(!session.offer(0));
}

#[test]
fn old_file_is_drained_before_rotation() {
    let old_id = FileId { device: 1, inode: 10 };
    let new_id = FileId { device: 1, inode: 11 };
    let old_file: Vec<u32> = (0..60).collect();
    let new_file: Vec<u32> = (60..100).collect();

    let mut tail = FileTail::open(old_id);
    let mut seen: Vec<u32> = Vec::new();
    // 45 lines of the old file were read before the rotation.
    assert_eq!(tail.observe(old_id, 45), TailAction::Continue(0));
    seen.extend_from_slice(&old_file[..45]);
    tail.advance(45);
    match tail.observe(new_id, 40) {
        TailAction::DrainThenReopen(from) => {
            assert_eq!(from, 45);
            seen.extend_from_slice(&old_file[from as usize..]);
        }
        other => panic!("rotation not seen: {other:?}"),
    }
    assert_eq!(tail, FileTail { id: new_id, offset: 0 });
    assert_eq!(tail.observe(new_id, 40), TailAction::Continue(0));
    seen.extend_from_slice(&new_file);
    tail.advance(40);
    assert_eq!(seen, (0..100).collect::<Vec<u32>>());
    assert_eq!(tail.observe(new_id, 40), TailAction::Continue(40));
}

#[test]
fn truncated_file_is_re_read_from_start() {
    let id = FileId { device: 2, inode: 5 };
    let mut tail = FileTail::open(id);
    tail.advance(500);
    assert_eq!(tail.observe(id, 500), TailAction::Continue(500));
    assert_eq!(tail.observe(id, 120), TailAction::Rewind);
    assert_eq!(tail.offset, 0);
    assert_eq!(tail.observe(id, 120), TailAction::Continue(0));
    tail.advance(u64::MAX);
    tail.advance(5);
    assert_eq!(tail.offset, u64::MAX);
    let other = FileId { device: 3, inode: 5 };
    assert_eq!(tail.observe(other, 0), TailAction::DrainThenReopen(u64::MAX));
}

#[test]
fn glob_matches_multiple_files() {
    let names = ["app.log", "app.log.1", "db.log", "notes.txt", ".log", "log"];
    let hits = |pattern: &str| -> Vec<&str> {
        names.iter().copied().filter(|n| glob_matches(pattern, n)).collect()
    };
    assert_eq!(hits("*.log"), vec!["app.log", "db.log", ".log"]);
    assert_eq!(hits("app*"), vec!["app.log", "app.log.1"]);
    assert_eq!(hits("*"), names.to_vec());
    assert_eq!(hits("??.log"), vec!["db.log"]);
    assert_eq!(hits("*.log*"), vec!["app.log", "app.log.1", "db.log", ".log"]);
    assert_eq!(hits("a*.l*g"), vec!["app.log"]);
    assert_eq!(hits("app.log"), vec!["app.log"]);
    assert_eq!(hits(""), Vec::<&str>::new());
    assert_eq!(hits("*a*b*"), Vec::<&str>::new());
}

#[test]
fn wildcards_in_patterns() {
    assert!(glob_matches("", ""));
    assert!(glob_matches("*", ""));
    assert!(glob_matches("**", ""));
    assert!(!glob_matches("?", ""));
    assert!(!glob_matches("a", ""));
    assert!(glob_matches("a*b*c", "aXXbYYc"));
    assert!(glob_matches("a*b*c", "abc"));
    assert!(!glob_matches("a*b*c", "acb"));
    assert!(glob_matches("*b", "abab"));
    assert!(!glob_matches("*b", "aba"));
    assert!(glob_matches("é?ü", "éxü"));
    assert!(!glob_matches("A", "a"));
    assert!(is_pattern("logs/*.log"));
    assert!(is_pattern("app-?.log"));
    assert!(!is_pattern("/var/log/app.log"));
    assert!(!is_pattern(""));
}
