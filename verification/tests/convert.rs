use ai_bridge::chat_stream::chat_to_anthropic_sse;
use ai_bridge::convert::{
    anthropic_to_openai_with_reasoning_content, resolve_reasoning_effort, supports_reasoning_effort,
};
use ai_bridge::json::Json;
use ai_bridge::json_canonical::canonical_json_string;
use ai_bridge::json_text::parse_json;
use ai_bridge::reasoning_bridge::{
    decode_openai_reasoning_item, encode_openai_reasoning_item, reasoning_summary_text, OPENAI_REASONING_ITEM_PREFIX,
};
use ai_bridge::stream_out::StreamPiece;
use serde_json::Value;

fn j(text: &str) -> Json {
    parse_json(text).unwrap()
}

/// The same document as the JSON library holds it, for indexing.
fn val(v: &Json) -> Value {
    serde_json::from_str(&canonical_json_string(v)).unwrap()
}

/// Feeds Chat frames to the conversion and collects the events that come out.
fn run(frames: Vec<&'static str>) -> Vec<(String, Value)> {
    let stream: Vec<StreamPiece> =
        frames.iter().map(|f| StreamPiece::Bytes(f.as_bytes().to_vec())).collect();
    let mut text = String::new();
    for out in chat_to_anthropic_sse(&stream, "sonnet-5") {
        if let Some(t) = out.client_text() {
            text.push_str(&t);
        }
    }
    text.split("\n\n")
        .filter(|b| !b.trim().is_empty())
        .map(|block| {
            let mut ev = String::new();
            let mut data = String::new();
            for line in block.lines() {
                if let Some(v) = line.strip_prefix("event: ") {
                    ev = v.to_string();
                } else if let Some(v) = line.strip_prefix("data: ") {
                    data = v.to_string();
                }
            }
            (ev, serde_json::from_str(&data).unwrap_or(Value::Null))
        })
        .collect()
}

fn event_names(events: &[(String, Value)]) -> Vec<&str> {
    events.iter().map(|(e, _)| e.as_str()).collect()
}

#[test]
fn reasoning_then_text_emits_signature_delta() {
    let events = run(vec![
        "data: {\"id\":\"1\",\"choices\":[{\"delta\":{\"reasoning_content\":\"Let me think\"}}]}\n\n",
        "data: {\"id\":\"1\",\"choices\":[{\"delta\":{\"content\":\"Hello\"}}]}\n\n",
        "data: {\"id\":\"1\",\"choices\":[{\"delta\":{},\"finish_reason\":\"stop\"}]}\n\n",
        "data: [DONE]\n\n",
    ])
    ;

    let names = event_names(&events);
    let expect: Vec<&str> = vec![
        "message_start",
        "content_block_start", // thinking block
        "content_block_delta", // thinking_delta
        "content_block_delta", // signature_delta
        "content_block_stop",  // thinking block closed
        "content_block_start", // text block
        "content_block_delta", // text_delta
        "content_block_stop",  // text block closed on finish_reason
        "message_delta",
        "message_stop",
    ];
    assert_eq!(names, expect);

    // The 4th frame is the signature_delta with the correct prefix.
    assert_eq!(events[3].0, "content_block_delta");
    assert_eq!(events[3].1["delta"]["type"], "signature_delta");
    let sig = events[3].1["delta"]["signature"].as_str().unwrap();
    assert!(sig.starts_with(OPENAI_REASONING_ITEM_PREFIX));
}

#[test]
fn plain_text_stream_has_no_signature() {
    let events = run(vec![
        "data: {\"id\":\"1\",\"choices\":[{\"delta\":{\"content\":\"Hi\"}}]}\n\n",
        "data: {\"id\":\"1\",\"choices\":[{\"delta\":{},\"finish_reason\":\"stop\"}]}\n\n",
        "data: [DONE]\n\n",
    ])
    ;
    let sigs: Vec<_> = events
        .iter()
        .filter(|(e, d)| e == "content_block_delta" && d["delta"]["type"] == "signature_delta")
        .collect();
    assert!(sigs.is_empty());
    assert!(event_names(&events).contains(&"content_block_start"));
}

#[test]
fn stream_ends_mid_reasoning_flushes_thinking_block() {
    let events = run(vec![
        "data: {\"id\":\"1\",\"choices\":[{\"delta\":{\"reasoning_content\":\"Partial\"}}]}\n\n",
    ])
    ; // upstream ends without finish_reason / [DONE]

    let names = event_names(&events);
    assert!(names.contains(&"content_block_start"));
    // signature_delta must exist (as content_block_delta), the thinking
    // block's stop must precede message_stop.
    assert!(names.contains(&"content_block_delta"));
    let stop_pos = names.iter().position(|&n| n == "content_block_stop").unwrap();
    let msg_stop_pos = names.iter().position(|&n| n == "message_stop").unwrap();
    assert!(stop_pos < msg_stop_pos);
}

#[test]
fn reasoning_then_tool_call_emits_signature_before_tool_block() {
    let events = run(vec![
        "data: {\"id\":\"1\",\"choices\":[{\"delta\":{\"reasoning_content\":\"Need tool\"}}]}\n\n",
        "data: {\"id\":\"1\",\"choices\":[{\"delta\":{\"tool_calls\":[{\"index\":0,\"id\":\"t_1\",\"type\":\"function\",\"function\":{\"name\":\"f\",\"arguments\":\"{}\"}}]}}]}\n\n",
        "data: {\"id\":\"1\",\"choices\":[{\"delta\":{},\"finish_reason\":\"tool_calls\"}]}\n\n",
        "data: [DONE]\n\n",
    ])
    ;

    let sig_pos = events
        .iter()
        .position(|(e, d)| e == "content_block_delta" && d["delta"]["type"] == "signature_delta")
        .unwrap();
    let stop_pos = events
        .iter()
        .position(|(e, d)| e == "content_block_stop" && d["index"] == 0)
        .unwrap();
    let tool_start_pos = events
        .iter()
        .position(|(e, d)| e == "content_block_start" && d["content_block"]["type"] == "tool_use")
        .unwrap();
    assert!(sig_pos < stop_pos && stop_pos < tool_start_pos);
    // Signature emitted exactly once.
    assert_eq!(
        events
            .iter()
            .filter(|(e, d)| e == "content_block_delta" && d["delta"]["type"] == "signature_delta")
            .count(),
        1
    );
}

#[test]
fn multiple_reasoning_deltas_accumulate_and_decode() {
    let events = run(vec![
        "data: {\"id\":\"1\",\"choices\":[{\"delta\":{\"reasoning_content\":\"Step A \"}}]}\n\n",
        "data: {\"id\":\"1\",\"choices\":[{\"delta\":{\"reasoning_content\":\"Step B\"}}]}\n\n",
        "data: {\"id\":\"1\",\"choices\":[{\"delta\":{\"content\":\"Done\"}}]}\n\n",
        "data: {\"id\":\"1\",\"choices\":[{\"delta\":{},\"finish_reason\":\"stop\"}]}\n\n",
        "data: [DONE]\n\n",
    ])
    ;

    let sig = events
        .iter()
        .find(|(e, d)| e == "content_block_delta" && d["delta"]["type"] == "signature_delta")
        .map(|(_, d)| d["delta"]["signature"].as_str().unwrap().to_string())
        .unwrap();
    let item = decode_openai_reasoning_item(&sig).unwrap();
    assert_eq!(
        reasoning_summary_text(&item),
        "Step A Step B"
    );
}

#[test]
fn replay_decodes_bridge_signature() {
    let item = j(r##"{ "type": "reasoning", "id": "rs_0001", "summary": [{"type": "summary_text", "text": "Full reasoning"}] }"##);
    let signature = encode_openai_reasoning_item(&item).unwrap();
    let quoted = serde_json::to_string(&signature).unwrap();
    let body = j(&format!(
        r##"{{
        "model": "deepseek-v4-flash",
        "messages": [{{
            "role": "assistant",
            "content": [
                {{"type": "thinking", "thinking": "truncated", "signature": {quoted}}},
                {{"type": "text", "text": "answer"}},
                {{"type": "tool_use", "id": "t_1", "name": "f", "input": {{}}}}
            ]
        }}]
    }}"##
    ));
    let out = val(&anthropic_to_openai_with_reasoning_content(&body, true).unwrap());
    let msg = out["messages"]
        .as_array()
        .unwrap()
        .iter()
        .find(|m| m["role"] == "assistant")
        .unwrap();
    assert_eq!(msg["reasoning_content"], "Full reasoning");
}

#[test]
fn supports_reasoning_effort_deepseek() {
    assert!(supports_reasoning_effort("deepseek-v4-flash"));
    assert!(supports_reasoning_effort("deepseek-v4-pro"));
}

#[test]
fn resolve_reasoning_effort_disabled_is_none() {
    let body = j(r##"{ "thinking": {"type": "disabled"}, "messages": [{"role": "user", "content": "hi"}] }"##);
    assert_eq!(resolve_reasoning_effort(&body), None);
}

#[test]
fn deepseek_effort_clamp() {
    // adaptive thinking on deepseek → clamped to max (legal DeepSeek enum).
    let body = j(r##"{ "model": "deepseek-v4-flash", "thinking": {"type": "adaptive"}, "messages": [{"role": "user", "content": "hi"}] }"##);
    let out = val(&anthropic_to_openai_with_reasoning_content(&body, true).unwrap());
    assert_eq!(out["reasoning_effort"], "max");
}
