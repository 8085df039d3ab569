use ai_bridge::convert_reverse::{anthropic_to_chat_response, chat_to_anthropic_request, dropped_chat_fields};
use ai_bridge::error::Error;
use ai_bridge::json::Json;
use ai_bridge::json_canonical::canonical_json_string;
use ai_bridge::json_text::parse_json;
use ai_bridge::reverse_stream::anthropic_to_chat_sse;
use ai_bridge::stream_out::{StreamOut, StreamPiece};
use serde_json::Value;

fn j(text: &str) -> Json {
    parse_json(text).unwrap()
}

/// The same document as the JSON library holds it, for indexing.
fn val(v: &Json) -> Value {
    serde_json::from_str(&canonical_json_string(v)).unwrap()
}

/// Feeds Anthropic frames to the conversion and collects the documents of the
/// `data:` lines that come out.
fn run_chat_sse(frames: Vec<String>, log_resp: bool) -> Vec<Value> {
    let stream: Vec<StreamPiece> =
        frames.iter().map(|f| StreamPiece::Bytes(f.as_bytes().to_vec())).collect();
    let mut text = String::new();
    for out in anthropic_to_chat_sse(&stream, "gpt-5", log_resp) {
        if let Some(t) = out.client_text() {
            text.push_str(&t);
        }
    }
    text.split("\n\n")
        .filter_map(|block| {
            let data = block.lines().find_map(|l| l.strip_prefix("data: "))?;
            serde_json::from_str(data.trim()).ok()
        })
        .collect()
}

#[test]
fn chat_to_anthropic_request_maps_system_and_tools() {
    let body = j(r##"{ "model": "gpt-5", "max_completion_tokens": 200, "messages": [ {"role": "system", "content": "be brief"}, {"role": "user", "content": "hi"} ], "tools": [{ "type": "function", "function": { "name": "get_weather", "description": "weather", "parameters": {"type": "object", "properties": {}} } }] }"##);

    let result = val(&chat_to_anthropic_request(&body).unwrap());
    assert_eq!(result["system"], "be brief");
    assert_eq!(result["max_tokens"], 200);
    assert_eq!(result["messages"][0]["role"], "user");
    assert_eq!(result["messages"][0]["content"][0]["text"], "hi");
    assert_eq!(result["tools"][0]["name"], "get_weather");
    assert_eq!(result["tools"][0]["input_schema"]["type"], "object");
}

#[test]
fn chat_to_anthropic_request_rejects_n_greater_than_one() {
    let body = j(r##"{ "model": "gpt-5", "messages": [{"role": "user", "content": "hi"}], "n": 3 }"##);
    let err = chat_to_anthropic_request(&body).unwrap_err();
    assert!(matches!(err, Error::Unsupported(_)));
}

#[test]
fn chat_to_anthropic_request_maps_parallel_tool_calls_false() {
    let body = j(r##"{ "model": "gpt-5", "messages": [{"role": "user", "content": "hi"}], "tools": [{"type": "function", "function": {"name": "f", "parameters": {}}}], "parallel_tool_calls": false }"##);
    let result = val(&chat_to_anthropic_request(&body).unwrap());
    assert_eq!(result["tool_choice"]["disable_parallel_tool_use"], true);
}

#[test]
fn chat_to_anthropic_request_maps_reasoning_effort_to_thinking() {
    let body = j(r##"{ "model": "gpt-5", "messages": [{"role": "user", "content": "hi"}], "reasoning_effort": "high" }"##);
    let result = val(&chat_to_anthropic_request(&body).unwrap());
    assert_eq!(result["thinking"]["type"], "enabled");
}

#[test]
fn chat_to_anthropic_request_maps_tool_message() {
    let body = j(r##"{ "model": "gpt-5", "messages": [ {"role": "assistant", "content": null, "tool_calls": [{ "id": "call_1", "type": "function", "function": {"name": "get_weather", "arguments": "{\"city\":\"SF\"}"} }]}, {"role": "tool", "tool_call_id": "call_1", "content": "sunny"} ] }"##);
    let result = val(&chat_to_anthropic_request(&body).unwrap());
    // assistant message → tool_use block
    let assistant = result["messages"].as_array().unwrap().iter().find(|m| m["role"] == "assistant").unwrap();
    assert_eq!(assistant["content"][0]["type"], "tool_use");
    assert_eq!(assistant["content"][0]["input"]["city"], "SF");
    // tool message → user with tool_result
    let tool_msg = result["messages"].as_array().unwrap().iter().find(|m| m["role"] == "user").unwrap();
    assert_eq!(tool_msg["content"][0]["type"], "tool_result");
    assert_eq!(tool_msg["content"][0]["tool_use_id"], "call_1");
}

#[test]
fn anthropic_to_chat_response_maps_text_and_usage() {
    let body = j(r##"{ "id": "msg_1", "type": "message", "role": "assistant", "content": [{"type": "text", "text": "hello"}], "model": "sonnet", "stop_reason": "end_turn", "usage": {"input_tokens": 5, "output_tokens": 3} }"##);

    let result = val(&anthropic_to_chat_response(&body, "gpt-5").unwrap());
    assert_eq!(result["object"], "chat.completion");
    assert_eq!(result["choices"][0]["message"]["content"][0]["text"], "hello");
    assert_eq!(result["choices"][0]["finish_reason"], "stop");
    assert_eq!(result["usage"]["prompt_tokens"], 5);
    assert_eq!(result["usage"]["completion_tokens"], 3);
    assert_eq!(result["usage"]["total_tokens"], 8);
}

#[test]
fn anthropic_to_chat_response_maps_tool_use() {
    let body = j(r##"{ "id": "msg_1", "type": "message", "role": "assistant", "content": [{ "type": "tool_use", "id": "toolu_1", "name": "get_weather", "input": {"city": "SF"} }], "model": "sonnet", "stop_reason": "tool_use" }"##);
    let result = val(&anthropic_to_chat_response(&body, "gpt-5").unwrap());
    assert_eq!(result["choices"][0]["message"]["tool_calls"][0]["function"]["name"], "get_weather");
    assert_eq!(result["choices"][0]["message"]["tool_calls"][0]["function"]["arguments"], "{\"city\":\"SF\"}");
    assert_eq!(result["choices"][0]["finish_reason"], "tool_calls");
}

#[test]
fn anthropic_to_chat_response_maps_thinking_to_reasoning_content() {
    let body = j(r##"{ "id": "msg_1", "type": "message", "role": "assistant", "content": [ {"type": "thinking", "thinking": "let me think"}, {"type": "text", "text": "answer"} ], "model": "sonnet", "stop_reason": "end_turn" }"##);
    let result = val(&anthropic_to_chat_response(&body, "gpt-5").unwrap());
    assert_eq!(result["choices"][0]["message"]["reasoning_content"], "let me think");
    assert_eq!(result["choices"][0]["message"]["content"][0]["text"], "answer");
}

#[test]
fn chat_sse_logging_flag_does_not_alter_output() {
    let frames = vec![
        "event: message_start\ndata: {\"type\":\"message_start\",\"message\":{\"id\":\"msg_1\"}}\n\n".to_string(),
        "event: content_block_start\ndata: {\"type\":\"content_block_start\",\"index\":0,\"content_block\":{\"type\":\"text\",\"text\":\"\"}}\n\n".to_string(),
        "event: content_block_delta\ndata: {\"type\":\"content_block_delta\",\"index\":0,\"delta\":{\"type\":\"text_delta\",\"text\":\"Mock \"}}\n\n".to_string(),
        "event: content_block_delta\ndata: {\"type\":\"content_block_delta\",\"index\":0,\"delta\":{\"type\":\"text_delta\",\"text\":\"anthropic\"}}\n\n".to_string(),
        "event: content_block_stop\ndata: {\"type\":\"content_block_stop\",\"index\":0}\n\n".to_string(),
        "event: message_delta\ndata: {\"type\":\"message_delta\",\"delta\":{\"stop_reason\":\"end_turn\"}}\n\n".to_string(),
        "event: message_stop\ndata: {\"type\":\"message_stop\"}\n\n".to_string(),
    ];
    let with_log = run_chat_sse(frames.clone(), true);
    let without_log = run_chat_sse(frames, false);
    // The log_resp flag must not change the emitted SSE events.
    assert_eq!(with_log, without_log);

    let contents: Vec<&str> = with_log
        .iter()
        .filter_map(|v| v.pointer("/choices/0/delta/content").and_then(Value::as_str))
        .collect();
    assert_eq!(contents, vec!["Mock ", "anthropic"]);

    let finishes: Vec<&str> = with_log
        .iter()
        .filter_map(|v| v.pointer("/choices/0/finish_reason").and_then(Value::as_str))
        .collect();
    assert_eq!(finishes, vec!["stop"]);
}

#[test]
fn chat_sse_maps_thinking_delta_to_reasoning_content() {
    let frames = vec![
        "event: content_block_start\ndata: {\"type\":\"content_block_start\",\"index\":0,\"content_block\":{\"type\":\"thinking\",\"thinking\":\"\"}}\n\n".to_string(),
        "event: content_block_delta\ndata: {\"type\":\"content_block_delta\",\"index\":0,\"delta\":{\"type\":\"thinking_delta\",\"thinking\":\"reasoning here\"}}\n\n".to_string(),
        "event: message_stop\ndata: {\"type\":\"message_stop\"}\n\n".to_string(),
    ];
    let out = run_chat_sse(frames, true);
    // The thinking content_block_start emits an empty reasoning_content chunk;
    // only the thinking_delta should carry the real text.
    let reasoning: Vec<&str> = out
        .iter()
        .filter_map(|v| v.pointer("/choices/0/delta/reasoning_content").and_then(Value::as_str))
        .filter(|s| !s.is_empty())
        .collect();
    assert_eq!(reasoning, vec!["reasoning here"]);
}

#[test]
fn chat_sse_maps_tool_use_and_arguments() {
    let frames = vec![
        "event: content_block_start\ndata: {\"type\":\"content_block_start\",\"index\":0,\"content_block\":{\"type\":\"tool_use\",\"id\":\"t_1\",\"name\":\"get_weather\"}}\n\n".to_string(),
        "event: content_block_delta\ndata: {\"type\":\"content_block_delta\",\"index\":0,\"delta\":{\"type\":\"input_json_delta\",\"partial_json\":\"{\\\"city\\\":\\\"tokyo\\\"}\"}}\n\n".to_string(),
        "event: message_delta\ndata: {\"type\":\"message_delta\",\"delta\":{\"stop_reason\":\"tool_use\"}}\n\n".to_string(),
        "event: message_stop\ndata: {\"type\":\"message_stop\"}\n\n".to_string(),
    ];
    let out = run_chat_sse(frames, true);

    let names: Vec<&str> = out
        .iter()
        .filter_map(|v| v.pointer("/choices/0/delta/tool_calls/0/function/name").and_then(Value::as_str))
        .collect();
    assert_eq!(names, vec!["get_weather"]);

    let args: Vec<&str> = out
        .iter()
        .filter_map(|v| {
            v.pointer("/choices/0/delta/tool_calls/0/function/arguments")
                .and_then(Value::as_str)
        })
        .filter(|s| !s.is_empty()) // tool_use start emits an empty arguments chunk
        .collect();
    assert_eq!(args, vec!["{\"city\":\"tokyo\"}"]);

    let finishes: Vec<&str> = out
        .iter()
        .filter_map(|v| v.pointer("/choices/0/finish_reason").and_then(Value::as_str))
        .collect();
    assert_eq!(finishes, vec!["tool_calls"]);
}

#[test]
fn the_model_that_was_asked_for_is_echoed_in_chat_responses() {
    let body = j(r#"{"content":[],"model":"sonnet"}"#);
    assert_eq!(val(&anthropic_to_chat_response(&body, "gpt-5").unwrap())["model"], "gpt-5");
}

#[test]
fn fields_that_are_dropped_are_named() {
    let body = j(r#"{"seed":1,"top_logprobs":null,"model":"m","presence_penalty":0}"#);
    assert_eq!(dropped_chat_fields(&body), ["top_logprobs", "seed", "presence_penalty"]);
    assert!(dropped_chat_fields(&j("{}")).is_empty());
    assert!(dropped_chat_fields(&j("[]")).is_empty());
}

#[test]
fn without_the_flag_only_the_end_is_logged() {
    let mut stream = vec![StreamPiece::Bytes(
        b"data: {\"type\":\"content_block_start\",\"index\":0,\"content_block\":{\"type\":\"tool_use\",\"id\":\"t\",\"name\":\"f\"}}\n\ndata: {\"type\":\"content_block_delta\",\"index\":1,\"delta\":{\"type\":\"text_delta\",\"text\":\"Hi\"}}\n\n".to_vec(),
    )];
    for _ in 0..2 {
        let outs = anthropic_to_chat_sse(&stream, "m", false);
        assert_eq!(outs.len(), 3);
        assert!(outs[..2].iter().all(|o| o.client_text().is_some()));
        assert!(matches!(outs[2], StreamOut::LogDone));
        stream.push(StreamPiece::Failure("reset".to_string()));
    }
}
