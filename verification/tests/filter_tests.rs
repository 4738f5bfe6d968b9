use twitter_stream::filter::{filter_messages, line_is_heartbeat};

#[test]
fn whitespace_only_lines_are_heartbeats() {
    assert!(line_is_heartbeat(b""));
    assert!(line_is_heartbeat(b"\r"));
    assert!(line_is_heartbeat(b"   \t"));
    assert!(line_is_heartbeat(b"\n\r \t"));
    assert!(!line_is_heartbeat(b"{}"));
    assert!(!line_is_heartbeat(b" x "));
}

#[test]
fn heartbeats_never_reach_the_caller() {
    let lines = vec![
        b"".to_vec(),
        b"{\"a\":1}".to_vec(),
        b"\r".to_vec(),
        b"   \t".to_vec(),
        b"{\"b\":2}".to_vec(),
    ];
    let (messages, failed) = filter_messages(&lines);
    assert!(!failed);
    assert_eq!(messages, vec!["{\"a\":1}".to_string(), "{\"b\":2}".to_string()]);
}

#[test]
fn json_line_passes_through_unmodified() {
    let lines = vec![b"{\"a\":1}".to_vec()];
    let (messages, failed) = filter_messages(&lines);
    assert!(!failed);
    assert_eq!(messages, vec!["{\"a\":1}".to_string()]);
}

#[test]
fn invalid_utf8_fails_the_stream_after_earlier_messages() {
    let lines = vec![
        b"{\"ok\":true}".to_vec(),
        vec![0xff, 0xfe, 0x41],
        b"{\"never\":0}".to_vec(),
    ];
    let (messages, failed) = filter_messages(&lines);
    assert!(failed);
    assert_eq!(messages, vec!["{\"ok\":true}".to_string()]);
}

#[test]
fn non_ascii_utf8_is_accepted() {
    let lines = vec!["{\"text\":\"héllo → ☂\"}".as_bytes().to_vec()];
    let (messages, failed) = filter_messages(&lines);
    assert!(!failed);
    assert_eq!(messages, vec!["{\"text\":\"héllo → ☂\"}".to_string()]);
}
