use ai_bridge::json::Json;
use ai_bridge::json_canonical::canonical_json_string;
use ai_bridge::json_text::parse_json;
use ai_bridge::reasoning_bridge::{
    anthropic_block_from_openai_reasoning_item, decode_openai_reasoning_item, encode_openai_reasoning_item,
    openai_reasoning_item_from_anthropic_block,
};
use serde_json::Value;

fn j(text: &str) -> Json {
    parse_json(text).unwrap()
}

/// The same document as the JSON library holds it, for indexing.
fn val(v: &Json) -> Value {
    serde_json::from_str(&canonical_json_string(v)).unwrap()
}

#[test]
fn test_encode_decode_round_trip() {
    let item = j(r##"{ "type": "reasoning", "id": "rs_123", "summary": [{"type": "summary_text", "text": "Thinking..."}], "encrypted_content": "opaque-ciphertext" }"##);

    let encoded = encode_openai_reasoning_item(&item).unwrap();
    let decoded = decode_openai_reasoning_item(&encoded).unwrap();

    assert_eq!(val(&item), val(&decoded));
}

#[test]
fn test_encode_rejects_non_reasoning() {
    let item = j(r##"{"type": "message", "content": []}"##);
    assert!(encode_openai_reasoning_item(&item).is_none());
}

#[test]
fn test_decode_rejects_malformed() {
    assert!(decode_openai_reasoning_item("not-a-valid-prefix").is_none());
    assert!(decode_openai_reasoning_item("ccswitch-openai-reasoning-v1:!!!").is_none());
}

#[test]
fn test_anthropic_block_from_reasoning_with_summary() {
    let item = j(r##"{ "type": "reasoning", "id": "rs_1", "summary": [{"type": "summary_text", "text": "Step 1"}] }"##);

    let block = val(&anthropic_block_from_openai_reasoning_item(&item).unwrap());
    assert_eq!(block["type"], "thinking");
    assert_eq!(block["thinking"], "Step 1");
}

#[test]
fn test_anthropic_block_from_reasoning_with_encrypted() {
    let item = j(r##"{ "type": "reasoning", "id": "rs_1", "summary": [{"type": "summary_text", "text": "Need tool"}], "encrypted_content": "opaque" }"##);

    let block = val(&anthropic_block_from_openai_reasoning_item(&item).unwrap());
    assert_eq!(block["type"], "thinking");
    assert_eq!(block["thinking"], "Need tool");
    assert!(block["signature"]
        .as_str()
        .unwrap()
        .starts_with("ccswitch-openai-reasoning-v1:"));
}

#[test]
fn test_anthropic_block_from_encrypted_only_reasoning() {
    let item = j(r##"{ "type": "reasoning", "id": "rs_1", "summary": [], "encrypted_content": "opaque" }"##);

    let block = val(&anthropic_block_from_openai_reasoning_item(&item).unwrap());
    assert_eq!(block["type"], "redacted_thinking");
    assert!(block["data"]
        .as_str()
        .unwrap()
        .starts_with("ccswitch-openai-reasoning-v1:"));
}

#[test]
fn test_round_trip_through_anthropic_blocks() {
    let original = j(r##"{ "type": "reasoning", "id": "rs_123", "summary": [{"type": "summary_text", "text": "Need a tool."}], "encrypted_content": "opaque-ciphertext" }"##);

    let block = anthropic_block_from_openai_reasoning_item(&original).unwrap();
    let restored = openai_reasoning_item_from_anthropic_block(&block).unwrap();

    assert_eq!(val(&original), val(&restored));
}

#[test]
fn test_rejects_non_reasoning_blocks() {
    assert!(openai_reasoning_item_from_anthropic_block(&j(r##"{"type": "text", "text": "hi"}"##)).is_none());
}

#[test]
fn test_reasoning_only_assistant_turn_not_replayed() {
    let item = j(r##"{ "type": "reasoning", "id": "rs_orphan", "summary": [], "encrypted_content": "opaque" }"##);
    let block = val(&anthropic_block_from_openai_reasoning_item(&item).unwrap());
    assert_eq!(block["type"], "redacted_thinking");
}

#[test]
fn every_reasoning_item_is_given_back() {
    for text in [
        r#"{"type":"reasoning","id":"a","summary":[{"type":"summary_text","text":"why"}]}"#,
        r#"{"type":"reasoning","id":"b","summary":[]}"#,
        r#"{"type":"reasoning","n":-5,"deep":{"x":[1,{"y":null}]}}"#,
    ] {
        let item = j(text);
        let block = anthropic_block_from_openai_reasoning_item(&item).unwrap();
        let restored = openai_reasoning_item_from_anthropic_block(&block).unwrap();
        assert_eq!(canonical_json_string(&restored), canonical_json_string(&item));
    }
}
