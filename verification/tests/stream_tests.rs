use std::io::Write;

use twitter_stream::{Error, StreamState, TwitterStream};

fn gzip_compress(data: &[u8]) -> Vec<u8> {
    let mut encoder = flate2::write::GzEncoder::new(Vec::new(), flate2::Compression::default());
    encoder.write_all(data).unwrap();
    encoder.finish().unwrap()
}

#[test]
fn gzip_response_yields_messages_in_order() {
    let mut stream = TwitterStream::new(Some(90_000), 0);
    stream.on_response(1, 200, true).unwrap();
    let compressed = gzip_compress(b"{\"id\":1}\n\n{\"id\":2}\n");
    let (messages, error) = stream.on_chunk(2, &compressed);
    assert!(error.is_none());
    assert_eq!(messages, vec!["{\"id\":1}".to_string(), "{\"id\":2}".to_string()]);
    assert_eq!(stream.current_state(), StreamState::Streaming);
}

#[test]
fn gzip_response_split_into_tiny_chunks() {
    let mut stream = TwitterStream::new(Some(90_000), 0);
    stream.on_response(1, 200, true).unwrap();
    let compressed = gzip_compress(b"{\"id\":1}\n\n{\"id\":2}\n");
    let mut messages = Vec::new();
    let mut now = 2;
    for piece in compressed.chunks(3) {
        let (more, error) = stream.on_chunk(now, piece);
        assert!(error.is_none());
        messages.extend(more);
        now += 1;
    }
    assert_eq!(messages, vec!["{\"id\":1}".to_string(), "{\"id\":2}".to_string()]);
}

#[test]
fn plain_response_yields_messages() {
    let mut stream = TwitterStream::new(Some(90_000), 0);
    stream.on_response(1, 200, false).unwrap();
    let (messages, error) = stream.on_chunk(2, b"{\"id\":1}\r\n\r\n{\"id\":2}\n{\"part");
    assert!(error.is_none());
    assert_eq!(messages, vec!["{\"id\":1}".to_string(), "{\"id\":2}".to_string()]);
    let (more, error) = stream.on_chunk(3, b"ial\":3}\n");
    assert!(error.is_none());
    assert_eq!(more, vec!["{\"partial\":3}".to_string()]);
}

#[test]
fn status_503_terminates_with_http_error_and_no_messages() {
    let mut stream = TwitterStream::new(Some(90_000), 0);
    let result = stream.on_response(1, 503, false);
    match result {
        Err(Error::Http(code)) => assert_eq!(code, 503),
        other => panic!("expected an HTTP status error, got {:?}", other.is_ok()),
    }
    assert_eq!(stream.current_state(), StreamState::Terminated);
}

#[test]
fn silence_past_the_timeout_terminates_with_timed_out() {
    let mut stream = TwitterStream::new(Some(90_000), 0);
    stream.on_response(1000, 200, false).unwrap();
    assert!(stream.on_timer(50_000).is_none());
    let error = stream.on_timer(91_000);
    assert!(matches!(error, Some(Error::TimedOut)));
    assert_eq!(stream.current_state(), StreamState::Terminated);
    // Terminal: the clock changes nothing further.
    assert!(stream.on_timer(200_000).is_none());
}

#[test]
fn chunks_rearm_the_timeout() {
    let mut stream = TwitterStream::new(Some(90_000), 0);
    stream.on_response(1000, 200, false).unwrap();
    let (_, error) = stream.on_chunk(80_000, b"\n");
    assert!(error.is_none());
    // The deadline moved to 170_000, so 100_000 is not an expiry.
    assert!(stream.on_timer(100_000).is_none());
    assert!(matches!(stream.on_timer(170_000), Some(Error::TimedOut)));
}

#[test]
fn connect_phase_can_time_out() {
    let mut stream = TwitterStream::new(Some(90_000), 0);
    assert!(matches!(stream.on_timer(90_000), Some(Error::TimedOut)));
    assert_eq!(stream.current_state(), StreamState::Terminated);
}

#[test]
fn disabled_timeout_never_expires() {
    let mut stream = TwitterStream::new(None, 0);
    stream.on_response(1, 200, false).unwrap();
    assert!(stream.on_timer(u64::MAX).is_none());
    assert_eq!(stream.current_state(), StreamState::Streaming);
}

#[test]
fn invalid_utf8_line_terminates_the_stream() {
    let mut stream = TwitterStream::new(Some(90_000), 0);
    stream.on_response(1, 200, false).unwrap();
    let (messages, error) = stream.on_chunk(2, b"{\"ok\":1}\n\xff\xfe\n");
    assert_eq!(messages, vec!["{\"ok\":1}".to_string()]);
    assert!(matches!(error, Some(Error::Utf8)));
    assert_eq!(stream.current_state(), StreamState::Terminated);
}

#[test]
fn corrupt_gzip_terminates_with_upstream_error() {
    let mut stream = TwitterStream::new(Some(90_000), 0);
    stream.on_response(1, 200, true).unwrap();
    let (messages, error) = stream.on_chunk(2, b"this is not gzip at all");
    assert!(messages.is_empty());
    assert!(matches!(error, Some(Error::Custom(_))));
    assert_eq!(stream.current_state(), StreamState::Terminated);
}

#[test]
fn end_of_body_discards_the_partial_line() {
    let mut stream = TwitterStream::new(Some(90_000), 0);
    stream.on_response(1, 200, false).unwrap();
    let (messages, error) = stream.on_chunk(2, b"{\"id\":1}\n{\"unterminated\":");
    assert!(error.is_none());
    assert_eq!(messages, vec!["{\"id\":1}".to_string()]);
    stream.on_end();
    assert_eq!(stream.current_state(), StreamState::Terminated);
}

#[test]
fn error_messages_describe_the_failure() {
    assert_eq!(Error::TimedOut.message(), "timed out");
    assert_eq!(Error::Utf8.message(), "invalid UTF-8");
    assert_eq!(Error::Http(503).message(), "HTTP status error");
    assert_eq!(Error::custom("boom".to_string()).message(), "boom");
    assert_eq!(Error::Connect("refused".to_string()).message(), "refused");
}

#[test]
fn gzip_header_with_optional_fields_is_skipped() {
    // A gzip member whose header carries a file name exercises the
    // optional-field scanning of the header parser.
    let mut encoder = flate2::GzBuilder::new()
        .filename("feed.json")
        .comment("stream")
        .write(Vec::new(), flate2::Compression::default());
    encoder.write_all(b"{\"id\":7}\n").unwrap();
    let compressed = encoder.finish().unwrap();

    let mut stream = TwitterStream::new(Some(90_000), 0);
    stream.on_response(1, 200, true).unwrap();
    let mut messages = Vec::new();
    for piece in compressed.chunks(2) {
        let (more, error) = stream.on_chunk(2, piece);
        assert!(error.is_none());
        messages.extend(more);
    }
    assert_eq!(messages, vec!["{\"id\":7}".to_string()]);
}
