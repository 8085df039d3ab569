use ai_bridge::bridge::StreamBridge;
use ai_bridge::error::LocalEntry;
use ai_bridge::forward::UpstreamType;
use ai_bridge::json::Json;
use ai_bridge::json_text::parse_json;
use ai_bridge::passthrough_log::{PassthroughLog, StreamFormat};
use ai_bridge::stream_out::StreamOut;

fn j(text: &str) -> Json {
    parse_json(text).unwrap()
}

/// Passes chunks through as a proxy does, and gives what the client gets and what
/// the log gets.
fn pass(entry: LocalEntry, upstream: UpstreamType, chunks: &[Vec<u8>]) -> (Vec<u8>, String) {
    let mut bridge = StreamBridge::new(entry, upstream, "m");
    assert!(bridge.forwards_bytes());
    let mut sent = Vec::new();
    let mut logged = String::new();
    for chunk in chunks {
        for out in bridge.push_bytes(chunk) {
            match out {
                StreamOut::Log(t) => logged.push_str(&t),
                _ => panic!("only the log is written"),
            }
        }
        sent.extend_from_slice(chunk);
    }
    (sent, logged)
}

#[test]
fn extract_anthropic_text_delta() {
    let mut log = PassthroughLog::new(StreamFormat::Anthropic);
    let ev = j(r##"{"type":"content_block_delta","index":0, "delta":{"type":"text_delta","text":"hello"}}"##);
    assert_eq!(
        log.extract_log_fragment(&ev),
        Some("hello".to_string())
    );
    assert!(log.has_text);
}

#[test]
fn extract_anthropic_thinking_delta_appends_but_not_has_text() {
    let mut log = PassthroughLog::new(StreamFormat::Anthropic);
    let ev = j(r##"{"type":"content_block_delta","index":0, "delta":{"type":"thinking_delta","thinking":"reasoning"}}"##);
    assert_eq!(
        log.extract_log_fragment(&ev),
        Some("reasoning".to_string())
    );
    // thinking does NOT flip resp_has_text (matches convert.rs semantics)
    assert!(!log.has_text);
}

#[test]
fn extract_anthropic_tool_use_marker_only_before_text_and_deduped() {
    let mut log = PassthroughLog::new(StreamFormat::Anthropic);
    let ev = j(r##"{"type":"content_block_start","index":0, "content_block":{"type":"tool_use","id":"t_1","name":"get_weather"}}"##);
    assert_eq!(
        log.extract_log_fragment(&ev),
        Some("[tool_use: get_weather]".to_string())
    );
    // Second frame for the same tool is deduped.
    assert_eq!(
        log.extract_log_fragment(&ev),
        None
    );
    // Once real text appears, the marker is suppressed entirely.
    log.has_text = true;
    let ev2 = j(r##"{"type":"content_block_start","index":2, "content_block":{"type":"tool_use","id":"t_2","name":"other"}}"##);
    assert_eq!(
        log.extract_log_fragment(&ev2),
        None
    );
}

#[test]
fn extract_chat_text_and_tool_marker() {
    let mut log = PassthroughLog::new(StreamFormat::Chat);
    let ev = j(r##"{"id":"1","choices":[{"delta":{"content":"hi"}}]}"##);
    assert_eq!(
        log.extract_log_fragment(&ev),
        Some("hi".to_string())
    );
    assert!(log.has_text);

    // Tool marker suppressed after text.
    let tool_ev = j(r##"{"id":"1","choices":[{"delta":{"tool_calls":[ {"function":{"name":"f","arguments":"{}"}} ]}}]}"##);
    assert_eq!(
        log.extract_log_fragment(&tool_ev),
        None
    );

    // Tool marker appears when no text yet.
    let mut second = PassthroughLog::new(StreamFormat::Chat);
    assert_eq!(
        second.extract_log_fragment(&tool_ev),
        Some("[tool_use: f]".to_string())
    );
}

#[test]
fn extract_chat_reasoning_content() {
    let mut log = PassthroughLog::new(StreamFormat::Chat);
    let ev = j(r##"{"id":"1","choices":[{"delta":{"reasoning_content":"think"}}]}"##);
    assert_eq!(
        log.extract_log_fragment(&ev),
        Some("think".to_string())
    );
    assert!(!log.has_text);
}

#[test]
fn extract_responses_text_and_tool_marker() {
    let mut log = PassthroughLog::new(StreamFormat::Responses);
    let ev = j(r##"{"type":"response.output_text.delta","delta":"world"}"##);
    assert_eq!(
        log.extract_log_fragment(&ev),
        Some("world".to_string())
    );
    assert!(log.has_text);

    // Reasoning summary delta appends but not has_text.
    let reason_ev = j(r##"{"type":"response.reasoning_summary_text.delta","delta":"notes"}"##);
    assert_eq!(
        log.extract_log_fragment(&reason_ev),
        Some("notes".to_string())
    );

    // Function call marker only before text.
    let tool_ev = j(r##"{"type":"response.output_item.added","item":{ "type":"function_call","name":"tool_a"}}"##);
    assert_eq!(
        log.extract_log_fragment(&tool_ev),
        None
    );
    let mut second = PassthroughLog::new(StreamFormat::Responses);
    assert_eq!(
        second.extract_log_fragment(&tool_ev),
        Some("[tool_use: tool_a]".to_string())
    );
}

#[test]
fn log_stream_forwards_bytes_unchanged() {
    let frames: Vec<Vec<u8>> = [
        "event: message_start\ndata: {\"type\":\"message_start\",\"message\":{\"id\":\"msg_1\"}}\n\n",
        "event: content_block_delta\ndata: {\"type\":\"content_block_delta\",\"index\":0,\"delta\":{\"type\":\"text_delta\",\"text\":\"hello\"}}\n\n",
        "event: content_block_delta\ndata: {\"type\":\"content_block_delta\",\"index\":0,\"delta\":{\"type\":\"text_delta\",\"text\":\"world\"}}\n\n",
        "event: message_stop\ndata: {\"type\":\"message_stop\"}\n\n",
    ]
    .iter()
    .map(|s| s.as_bytes().to_vec())
    .collect();
    let input: Vec<u8> = frames.concat();
    let (sent, logged) = pass(LocalEntry::AnthropicMessages, UpstreamType::AnthropicMessages, &frames);
    assert_eq!(sent, input);
    assert_eq!(logged, "helloworld");
}

#[test]
fn log_stream_forwards_chunk_with_split_multibyte_utf8_unchanged() {
    let prefix = "event: content_block_delta\ndata: {\"type\":\"content_block_delta\",\"index\":0,\"delta\":{\"type\":\"text_delta\",\"text\":\"";
    let full = format!("{prefix}你好世界\"}}\n\n").into_bytes();
    let split = prefix.len() + 1; // inside the first multibyte char
    let frames = vec![full[..split].to_vec(), full[split..].to_vec()];
    let (sent, _) = pass(LocalEntry::AnthropicMessages, UpstreamType::AnthropicMessages, &frames);
    assert_eq!(sent, full);
}

#[test]
fn a_character_that_is_cut_in_two_is_logged_whole() {
    let prefix = "data: {\"type\":\"content_block_delta\",\"delta\":{\"type\":\"text_delta\",\"text\":\"";
    let full = format!("{prefix}你好世界\"}}}}\n\n").into_bytes();
    for split in 0..full.len() {
        let frames = vec![full[..split].to_vec(), full[split..].to_vec()];
        let (sent, logged) = pass(LocalEntry::AnthropicMessages, UpstreamType::AnthropicMessages, &frames);
        assert_eq!(sent, full);
        assert_eq!(logged, "你好世界");
    }
}

#[test]
fn log_stream_forwards_raw_chat_frames_unchanged() {
    let frames: Vec<Vec<u8>> = [
        "data: {\"id\":\"1\",\"choices\":[{\"delta\":{\"content\":\"a\"}}]}\n\n",
        "data: {\"id\":\"1\",\"choices\":[{\"delta\":{\"content\":\"b\"}}]}\n\n",
        "data: [DONE]\n\n",
    ]
    .iter()
    .map(|s| s.as_bytes().to_vec())
    .collect();
    let input: Vec<u8> = frames.concat();
    let (sent, logged) = pass(LocalEntry::OaiChat, UpstreamType::OaiChat, &frames);
    assert_eq!(sent, input);
    assert_eq!(logged, "ab");
}

#[test]
fn over_a_stream_each_tool_is_named_once_and_none_after_text() {
    let mut log = PassthroughLog::new(StreamFormat::Chat);
    let tool = |name: &str| j(&format!(r#"{{"choices":[{{"delta":{{"tool_calls":[{{"function":{{"name":"{name}"}}}}]}}}}]}}"#));
    assert_eq!(log.extract_log_fragment(&tool("f")).as_deref(), Some("[tool_use: f]"));
    assert_eq!(log.extract_log_fragment(&tool("f")), None);
    assert_eq!(log.extract_log_fragment(&tool("g")).as_deref(), Some("[tool_use: g]"));
    assert_eq!(
        log.extract_log_fragment(&j(r#"{"choices":[{"delta":{"reasoning_content":"r"}}]}"#)).as_deref(),
        Some("r")
    );
    assert!(!log.has_text);
    assert_eq!(log.extract_log_fragment(&j(r#"{"choices":[{"delta":{"content":"t"}}]}"#)).as_deref(), Some("t"));
    assert_eq!(log.extract_log_fragment(&tool("h")), None);
    assert!(log.has_text);
    assert_eq!(log.tools, ["f", "g"]);
}
