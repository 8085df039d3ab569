use ai_bridge::sse::{append_utf8_safe, strip_sse_field, take_sse_block, SseReader};

fn take(text: &str) -> (Option<String>, String) {
    let mut buffer = text.to_string();
    let block = take_sse_block(&mut buffer);
    (block, buffer)
}

#[test]
fn blocks_end_at_blank_lines() {
    assert_eq!(take("data: a\n\ndata: b"), (Some("data: a".to_string()), "data: b".to_string()));
    assert_eq!(take("data: a\r\n\r\nrest"), (Some("data: a".to_string()), "rest".to_string()));
    assert_eq!(take("data: a\n"), (None, "data: a\n".to_string()));
    assert_eq!(take(""), (None, "".to_string()));
}

#[test]
fn a_later_blank_line_with_carriage_returns_wins_over_an_earlier_one_without() {
    assert_eq!(take("data: a\n\nb\r\n\r\nc"), (Some("data: a\n\nb".to_string()), "c".to_string()));
    assert_eq!(take("abc\n\nb\r\n\r\nc"), (Some("abc".to_string()), "b\r\n\r\nc".to_string()));
}

#[test]
fn fields_may_have_a_space_after_the_colon() {
    assert_eq!(strip_sse_field("data: x", "data"), Some("x"));
    assert_eq!(strip_sse_field("data:x", "data"), Some("x"));
    assert_eq!(strip_sse_field("data:  x", "data"), Some(" x"));
    assert_eq!(strip_sse_field("event: x", "data"), None);
    assert_eq!(strip_sse_field("dat", "data"), None);
}

#[test]
fn a_character_that_is_cut_off_waits_for_its_rest() {
    let bytes = "é€😀".as_bytes();
    for cut in 0..=bytes.len() {
        let mut text = String::new();
        let mut rest = Vec::new();
        append_utf8_safe(&mut text, &mut rest, &bytes[..cut]);
        append_utf8_safe(&mut text, &mut rest, &bytes[cut..]);
        assert_eq!(text, "é€😀", "cut at {cut}");
        assert!(rest.is_empty());
    }
}

#[test]
fn bytes_that_are_no_text_are_replaced() {
    let mut text = String::new();
    let mut rest = Vec::new();
    append_utf8_safe(&mut text, &mut rest, &[b'a', 0xff, b'b', 0xe2, 0x82, b'c']);
    assert_eq!(text, "a\u{FFFD}b\u{FFFD}c");
    assert!(rest.is_empty());
}

#[test]
fn blocks_are_the_same_however_the_bytes_are_cut() {
    let bytes = "data: é\n\n\n\nevent: x\ndata: 😀\n\nrest".as_bytes();
    let mut whole = SseReader::new();
    let expected = whole.feed(bytes);
    assert_eq!(expected, ["data: é", "", "event: x\ndata: 😀"]);
    for cut in 0..=bytes.len() {
        let mut reader = SseReader::new();
        let mut blocks = reader.feed(&bytes[..cut]);
        blocks.append(&mut reader.feed(&bytes[cut..]));
        assert_eq!(blocks, expected, "cut at {cut}");
        assert_eq!(reader.buffer, "rest");
    }
}

#[test]
fn blocks_with_carriage_returns_are_the_same_however_the_bytes_are_cut() {
    let bytes = "data: é\r\n\r\nevent: x\r\ndata: 1\r\n\r\nrest\r".as_bytes();
    let expected = SseReader::new().feed(bytes);
    assert_eq!(expected, ["data: é", "event: x\r\ndata: 1"]);
    for cut in 0..=bytes.len() {
        let mut reader = SseReader::new();
        let mut blocks = reader.feed(&bytes[..cut]);
        blocks.append(&mut reader.feed(&bytes[cut..]));
        assert_eq!(blocks, expected, "cut at {cut}");
    }
}
