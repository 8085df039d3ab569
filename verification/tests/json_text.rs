use ai_bridge::json::Json;
use ai_bridge::json_canonical::canonical_json_string;
use ai_bridge::json_text::{parse_json, parse_json_bytes};

fn again(text: &str) -> String {
    canonical_json_string(&parse_json(text).unwrap())
}

#[test]
fn documents_are_read_and_written_compactly() {
    assert_eq!(again(" { \"b\" : [1, -2, true, null], \"a\" : {} } "), r#"{"a":{},"b":[1,-2,true,null]}"#);
    assert_eq!(again("18446744073709551615"), "18446744073709551615");
    assert_eq!(again("-9223372036854775808"), "-9223372036854775808");
    assert_eq!(again("1.5"), "1.5");
    assert_eq!(again("[]"), "[]");
}

#[test]
fn the_last_of_two_members_with_one_key_counts() {
    assert_eq!(again(r#"{"a":1,"a":2}"#), r#"{"a":2}"#);
}

#[test]
fn characters_are_escaped_in_strings() {
    let v = Json::Text("\"\\/\u{8}\u{c}\n\r\t\u{1}\u{7f}é😀".to_string());
    assert_eq!(canonical_json_string(&v), "\"\\\"\\\\/\\b\\f\\n\\r\\t\\u0001\u{7f}é😀\"");
    assert_eq!(again(&canonical_json_string(&v)), canonical_json_string(&v));
}

#[test]
fn keys_are_ordered_by_their_characters() {
    assert_eq!(again(r#"{"b":1,"a":1,"ab":1,"é":1,"Z":1,"":1}"#), r#"{"":1,"Z":1,"a":1,"ab":1,"b":1,"é":1}"#);
}

#[test]
fn what_is_no_document_is_refused_with_a_message() {
    for text in ["", "{", "[1,]", "nul", "1 2", "'a'"] {
        match parse_json(text) {
            Err(e) => assert!(e.contains("line 1"), "{text}: {e}"),
            Ok(_) => panic!("{text} is no document"),
        }
        assert!(parse_json_bytes(text.as_bytes()).is_none());
    }
    assert!(parse_json_bytes(&[b'"', 0xff, b'"']).is_none());
}

#[test]
fn nesting_is_read_to_a_limit() {
    let deep = |n: usize| format!("{}{}", "[".repeat(n), "]".repeat(n));
    assert_eq!(again(&deep(127)), deep(127));
    assert!(parse_json(&deep(128)).is_err());
}

#[test]
fn the_canonical_text_is_read_back() {
    for text in [r#"{"a":[1,-2,{"b":"\n"}],"c":18446744073709551615}"#, "null", r#""x""#] {
        assert_eq!(again(text), text);
    }
}

#[test]
fn the_key_that_the_reader_keeps_for_itself_counts_only_where_it_is_first() {
    let key = "$serde_json::private::RawValue";
    let plain = format!(r##"{{"!":1,"{key}":"5"}}"##);
    assert_eq!(again(&plain), plain);
    assert_eq!(again(&format!(r##"{{"{key}":"5"}}"##)), "5");
}
