use spawningpool::sse::{data_payload_of, SseReader};

#[test]
fn data_lines_yield_their_trimmed_payloads() {
    let mut reader = SseReader::new();
    let out = reader.feed(b"event: ping\ndata: {\"a\":1}\r\n\ndata:[DONE]\n");
    assert_eq!(out, vec!["{\"a\":1}".to_string(), "[DONE]".to_string()]);
    assert!(reader.buf.is_empty());
}

#[test]
fn a_line_split_across_chunks_is_completed_by_the_next() {
    let mut reader = SseReader::new();
    assert!(reader.feed(b"data: hel").is_empty());
    assert_eq!(reader.buf, b"data: hel".to_vec());
    let out = reader.feed(b"lo\ndata: wor");
    assert_eq!(out, vec!["hello".to_string()]);
    assert_eq!(reader.buf, b"data: wor".to_vec());
    let out = reader.feed(b"ld\n");
    assert_eq!(out, vec!["world".to_string()]);
}

#[test]
fn invalid_utf8_is_replaced_not_dropped() {
    let mut reader = SseReader::new();
    let out = reader.feed(b"data: a\xffb\n");
    assert_eq!(out, vec!["a\u{fffd}b".to_string()]);
}

#[test]
fn only_data_fields_carry_payloads() {
    assert_eq!(data_payload_of("data:  x  \r\n"), Some("x".to_string()));
    assert_eq!(data_payload_of("data:"), Some(String::new()));
    assert_eq!(data_payload_of(": comment"), None);
    assert_eq!(data_payload_of(" data: x"), None);
    assert_eq!(data_payload_of("dat"), None);
}

#[test]
fn chunking_does_not_change_what_is_read() {
    let stream: &[u8] = b"data: one\r\n: keep-alive\ndata: {\"t\":2}\ndata: thr";
    let mut whole = SseReader::new();
    let all = whole.feed(stream);
    for cut in 0..=stream.len() {
        let mut pieces = SseReader::new();
        let mut got = pieces.feed(&stream[..cut]);
        got.extend(pieces.feed(&stream[cut..]));
        assert_eq!(got, all, "cut at {cut}");
        assert_eq!(pieces.buf, whole.buf, "cut at {cut}");
    }
    assert_eq!(all, vec!["one".to_string(), "{\"t\":2}".to_string()]);
    assert_eq!(whole.buf, b"data: thr".to_vec());
}
