use twitter_stream::head::{find_head_end, head_declares_gzip, line_declares_gzip, parse_status_line};
use twitter_stream::LineFramer;

#[test]
fn head_end_is_found_after_the_blank_line() {
    assert_eq!(find_head_end(b"HTTP/1.1 200 OK\r\n\r\nbody"), Some(19));
    assert_eq!(find_head_end(b"HTTP/1.1 200 OK\r\n"), None);
    assert_eq!(find_head_end(b""), None);
    assert_eq!(find_head_end(b"\r\n\r\n"), Some(4));
}

#[test]
fn status_line_parsing() {
    assert_eq!(parse_status_line(b"HTTP/1.1 200 OK"), Some(200));
    assert_eq!(parse_status_line(b"HTTP/1.1 503 Service Unavailable"), Some(503));
    assert_eq!(parse_status_line(b"HTTP/1.1 200"), Some(200));
    assert_eq!(parse_status_line(b"HTTP/1.1 20"), None);
    assert_eq!(parse_status_line(b"HTTP/1.1 2000 x"), None);
    assert_eq!(parse_status_line(b"garbage"), None);
}

#[test]
fn content_encoding_gzip_is_recognised() {
    assert!(line_declares_gzip(b"Content-Encoding: gzip"));
    assert!(line_declares_gzip(b"content-encoding:gzip"));
    assert!(line_declares_gzip(b"CONTENT-ENCODING:  gzip  "));
    assert!(!line_declares_gzip(b"Content-Encoding: identity"));
    assert!(!line_declares_gzip(b"Content-Type: gzip"));
    assert!(!line_declares_gzip(b"Content-Encoding gzip"));
}

#[test]
fn whole_head_scan() {
    let head = b"HTTP/1.1 200 OK\r\nServer: x\r\nContent-Encoding: gzip\r\n\r\n";
    let end = find_head_end(head).unwrap();
    let mut framer = LineFramer::new();
    let lines = framer.feed(&head[..end]);
    assert_eq!(parse_status_line(&lines[0]), Some(200));
    assert!(head_declares_gzip(&lines));

    let plain = b"HTTP/1.1 200 OK\r\nServer: x\r\n\r\n";
    let mut framer = LineFramer::new();
    let lines = framer.feed(&plain[..find_head_end(plain).unwrap()]);
    assert!(!head_declares_gzip(&lines));
}
