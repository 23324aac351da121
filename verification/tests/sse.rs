use dsh_pet::json::{frame_payload, JsonValue};
use dsh_pet::sse::{
    decode_events, drain_events, drain_frames, feed_chunk, feed_events, find_separator, find_subslice,
    MAX_BUF_BYTES,
};

#[test]
fn find_subslice_finds_first_occurrence() {
    assert_eq!(find_subslice(b"abcabc", b"bc"), Some(1));
    assert_eq!(find_subslice(b"abc", b""), Some(0));
    assert_eq!(find_subslice(b"abc", b"abcd"), None);
    assert_eq!(find_subslice(b"aaa", b"x"), None);
}

#[test]
fn find_separator_prefers_crlf() {
    assert_eq!(find_separator(b"a\n\nb\r\n\r\n"), Some((4, 4)));
    assert_eq!(find_separator(b"a\n\nb"), Some((1, 2)));
    assert_eq!(find_separator(b"a\nb\n"), None);
}

#[test]
fn drain_frames_reads_data_lines() {
    let mut buf = b"event: x\ndata: {\"a\":1}\n\ndata: 2\r\n\r\ndata: partial".to_vec();
    let out = drain_frames(&mut buf);
    assert_eq!(out, vec!["{\"a\":1}", "2"]);
    assert_eq!(buf, b"data: partial".to_vec());
}

#[test]
fn drain_frames_skips_invalid_utf8_blocks() {
    let mut buf = vec![b'd', b'a', b't', b'a', b':', b' ', 0xff, b'\n', b'\n'];
    buf.extend_from_slice(b"data: ok\n\n");
    let out = drain_frames(&mut buf);
    assert_eq!(out, vec!["ok"]);
    assert!(buf.is_empty());
}

#[test]
fn drain_frames_keeps_multiple_data_lines_of_a_block() {
    let mut buf = b"data: 1\ndata: 2\r\r\n: comment\ndata:3\n\n".to_vec();
    let out = drain_frames(&mut buf);
    assert_eq!(out, vec!["1", "2"]);
}

#[test]
fn feed_chunk_joins_chunks() {
    let mut buf = Vec::new();
    assert!(feed_chunk(&mut buf, b"data: he").is_empty());
    let out = feed_chunk(&mut buf, b"llo\n\n");
    assert_eq!(out, vec!["hello"]);
    assert!(buf.is_empty());
}

#[test]
fn feed_chunk_drops_oversized_buffer() {
    let mut buf = vec![b'x'; MAX_BUF_BYTES];
    let out = feed_chunk(&mut buf, b"\n\ndata: 1\n\n");
    assert!(out.is_empty());
    assert!(buf.is_empty());
}

fn obj(members: Vec<(&str, JsonValue)>) -> JsonValue {
    JsonValue::Object(members.into_iter().map(|(k, v)| (k.to_string(), v)).collect())
}

fn s(t: &str) -> JsonValue {
    JsonValue::Str(t.to_string())
}

fn same(a: &JsonValue, b: &JsonValue) -> bool {
    match (a, b) {
        (JsonValue::Null, JsonValue::Null) => true,
        (JsonValue::Bool(x), JsonValue::Bool(y)) => x == y,
        (JsonValue::Number(x), JsonValue::Number(y)) => x == y,
        (JsonValue::Str(x), JsonValue::Str(y)) => x == y,
        (JsonValue::Array(x), JsonValue::Array(y)) => {
            x.len() == y.len() && x.iter().zip(y).all(|(p, q)| same(p, q))
        }
        (JsonValue::Object(x), JsonValue::Object(y)) => {
            x.len() == y.len() && x.iter().zip(y).all(|(p, q)| p.0 == q.0 && same(&p.1, &q.1))
        }
        _ => false,
    }
}

#[test]
fn frame_payload_prefers_payload() {
    let inner = obj(vec![("type", s("x"))]);
    let frame = obj(vec![("payload", obj(vec![("type", s("x"))]))]);
    assert!(same(&frame_payload(frame), &inner));
    let frame = obj(vec![("k", JsonValue::Number("1".to_string())), ("payload", JsonValue::Null)]);
    let copy = obj(vec![("k", JsonValue::Number("1".to_string())), ("payload", JsonValue::Null)]);
    assert!(same(&frame_payload(frame), &copy));
    assert!(same(&frame_payload(s("plain")), &s("plain")));
}

#[test]
fn drain_events_hands_on_payloads() {
    let mut buf = b"data: {\"payload\":{\"type\":\"x\"}}\n\n: ping\n\ndata: {\"payload\":null,\"k\":1}\n\ndata: oops\n\ndata: {\"b\"".to_vec();
    let events = drain_events(&mut buf);
    assert_eq!(events.len(), 2);
    assert!(same(&events[0], &obj(vec![("type", s("x"))])));
    assert!(same(
        &events[1],
        &obj(vec![("k", JsonValue::Number("1".to_string())), ("payload", JsonValue::Null)])
    ));
    assert_eq!(buf, b"data: {\"b\"".to_vec());
}

#[test]
fn decode_events_skips_lines_that_are_not_json() {
    let events = decode_events(vec!["1".to_string(), "nope".to_string(), "[true]".to_string()]);
    assert_eq!(events.len(), 2);
    assert!(same(&events[0], &JsonValue::Number("1".to_string())));
    assert!(same(&events[1], &JsonValue::Array(vec![JsonValue::Bool(true)])));
    let mut buf = Vec::new();
    assert!(feed_events(&mut buf, b"data: {\"a\":").is_empty());
    let events = feed_events(&mut buf, b"\"b\"}\n\n");
    assert!(same(&events[0], &obj(vec![("a", s("b"))])));
}

fn feed_all(chunks: &[&[u8]]) -> (Vec<String>, Vec<u8>) {
    let mut buf = Vec::new();
    let mut out = Vec::new();
    for c in chunks {
        out.extend(feed_chunk(&mut buf, c));
    }
    (out, buf)
}

#[test]
fn chunking_does_not_change_frames() {
    let whole: &[u8] = b"data: 1\n\ndata: 2\r\n\r\n\n\ndata: 3\r\n\r\ndata: 4";
    let expected = feed_all(&[whole]);
    assert_eq!(expected.0, vec!["1", "2", "3"]);
    assert_eq!(expected.1, b"data: 4".to_vec());
    for k in 0..=whole.len() {
        assert_eq!(feed_all(&[&whole[..k], &whole[k..]]), expected, "split at {k}");
    }
}

#[test]
fn chunking_matters_only_for_invalid_utf8() {
    // One chunk: the `\r\n\r\n` block takes in the invalid byte and is skipped whole.
    let (out, _) = feed_all(&[b"data: 1\n\n\xff\r\n\r\n"]);
    assert!(out.is_empty());
    // Two chunks: the first block is complete before the invalid byte arrives.
    let (out, _) = feed_all(&[b"data: 1\n\n", b"\xff\r\n\r\n"]);
    assert_eq!(out, vec!["1"]);
}

#[test]
fn buffer_stays_within_limit() {
    let mut buf = vec![b'x'; MAX_BUF_BYTES - 1];
    let out = feed_chunk(&mut buf, b"y");
    assert!(out.is_empty());
    assert_eq!(buf.len(), MAX_BUF_BYTES);
}
