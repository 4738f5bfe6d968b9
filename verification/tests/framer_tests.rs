use twitter_stream::LineFramer;

fn feed_all(chunks: &[&[u8]]) -> (Vec<Vec<u8>>, Vec<u8>) {
    let mut framer = LineFramer::new();
    let mut lines = Vec::new();
    for chunk in chunks {
        lines.extend(framer.feed(chunk));
    }
    (lines, framer.into_carry())
}

#[test]
fn whole_buffer_framing() {
    let (lines, carry) = feed_all(&[b"a\nbb\n\nccc"]);
    assert_eq!(lines, vec![b"a".to_vec(), b"bb".to_vec(), b"".to_vec()]);
    assert_eq!(carry, b"ccc".to_vec());
}

#[test]
fn any_chunking_reconstructs_the_same_lines() {
    let data: &[u8] = b"a\nbb\n\nccc";
    let (expected_lines, expected_carry) = feed_all(&[data]);
    for split_a in 0..=data.len() {
        for split_b in split_a..=data.len() {
            let chunks: Vec<&[u8]> =
                vec![&data[..split_a], &data[split_a..split_b], &data[split_b..]];
            let (lines, carry) = feed_all(&chunks);
            assert_eq!(lines, expected_lines, "chunking at {} {}", split_a, split_b);
            assert_eq!(carry, expected_carry);
        }
    }
    let bytes: Vec<&[u8]> = data.chunks(1).collect();
    let (lines, carry) = feed_all(&bytes);
    assert_eq!(lines, expected_lines);
    assert_eq!(carry, expected_carry);
}

#[test]
fn newline_in_its_own_chunk() {
    let (lines, carry) = feed_all(&[b"hello", b"\n", b"wor", b"ld"]);
    assert_eq!(lines, vec![b"hello".to_vec()]);
    assert_eq!(carry, b"world".to_vec());
}

#[test]
fn trailing_carriage_return_is_stripped() {
    let (lines, _) = feed_all(&[b"one\r\ntwo\n\r\n"]);
    assert_eq!(lines, vec![b"one".to_vec(), b"two".to_vec(), b"".to_vec()]);
}

#[test]
fn carriage_return_split_from_newline() {
    let (lines, _) = feed_all(&[b"one\r", b"\ntwo\n"]);
    assert_eq!(lines, vec![b"one".to_vec(), b"two".to_vec()]);
}

#[test]
fn interior_carriage_returns_are_kept() {
    let (lines, _) = feed_all(&[b"a\rb\n"]);
    assert_eq!(lines, vec![b"a\rb".to_vec()]);
}

#[test]
fn empty_chunks_change_nothing() {
    let (lines, carry) = feed_all(&[b"", b"a\nb", b"", b"b\n"]);
    assert_eq!(lines, vec![b"a".to_vec(), b"bb".to_vec()]);
    assert_eq!(carry, b"".to_vec());
}
