use ai_bridge::json::Json;
use ai_bridge::json_canonical::canonical_json_string;
use ai_bridge::json_text::parse_json;
use ai_bridge::responses_reverse::{anthropic_to_responses_response, responses_to_anthropic_request};
use ai_bridge::responses_reverse_stream::anthropic_to_responses_sse;
use ai_bridge::stream_out::StreamPiece;
use serde_json::Value;

fn j(text: &str) -> Json {
    parse_json(text).unwrap()
}

/// The same document as the JSON library holds it, for indexing.
fn val(v: &Json) -> Value {
    serde_json::from_str(&canonical_json_string(v)).unwrap()
}

/// Feeds Anthropic frames to the conversion and collects the events that come
/// out, without the mark at the end.
fn run_responses_sse(frames: Vec<String>, log_resp: bool) -> Vec<(String, Value)> {
    let stream: Vec<StreamPiece> =
        frames.iter().map(|f| StreamPiece::Bytes(f.as_bytes().to_vec())).collect();
    let mut text = String::new();
    for out in anthropic_to_responses_sse(&stream, "gpt-5", log_resp) {
        if let Some(t) = out.client_text() {
            text.push_str(&t);
        }
    }
    text.split("\n\n")
        .filter(|b| !b.trim().is_empty())
        .filter_map(|block| {
            let mut ev = String::new();
            let mut data = String::new();
            for line in block.lines() {
                if let Some(v) = line.strip_prefix("event: ") {
                    ev = v.to_string();
                } else if let Some(v) = line.strip_prefix("data: ") {
                    data = v.to_string();
                }
            }
            if data.trim() == "[DONE]" {
                return None;
            }
            Some((ev, serde_json::from_str(&data).unwrap_or(Value::Null)))
        })
        .collect()
}

#[test]
fn responses_to_anthropic_request_maps_instructions_and_input() {
    let body = j(r##"{ "model": "gpt-5", "instructions": "be brief", "max_output_tokens": 300, "input": [{ "type": "message", "role": "user", "content": [{"type": "input_text", "text": "hello"}] }] }"##);

    let result = val(&responses_to_anthropic_request(&body).unwrap());
    assert_eq!(result["system"], "be brief");
    assert_eq!(result["max_tokens"], 300);
    assert_eq!(result["messages"][0]["role"], "user");
    assert_eq!(result["messages"][0]["content"][0]["text"], "hello");
}

#[test]
fn responses_to_anthropic_request_maps_function_call_output() {
    let body = j(r##"{ "model": "gpt-5", "input": [{ "type": "function_call_output", "call_id": "call_1", "output": "sunny" }] }"##);
    let result = val(&responses_to_anthropic_request(&body).unwrap());
    assert_eq!(result["messages"][0]["role"], "user");
    assert_eq!(result["messages"][0]["content"][0]["type"], "tool_result");
    assert_eq!(result["messages"][0]["content"][0]["tool_use_id"], "call_1");
    assert_eq!(result["messages"][0]["content"][0]["content"], "sunny");
}

#[test]
fn responses_to_anthropic_request_maps_reasoning_effort() {
    let body = j(r##"{ "model": "gpt-5", "input": [], "reasoning": {"effort": "high"} }"##);
    let result = val(&responses_to_anthropic_request(&body).unwrap());
    assert_eq!(result["thinking"]["type"], "enabled");
}

#[test]
fn anthropic_to_responses_response_maps_text_and_tool() {
    let body = j(r##"{ "id": "msg_1", "type": "message", "role": "assistant", "content": [ {"type": "text", "text": "hello"}, {"type": "tool_use", "id": "toolu_1", "name": "get_weather", "input": {"city": "SF"}} ], "model": "sonnet", "stop_reason": "tool_use" }"##);
    let result = val(&anthropic_to_responses_response(&body, "gpt-5").unwrap());
    assert_eq!(result["object"], "response");
    assert_eq!(result["status"], "in_progress");
    // message item
    let msg_item = result["output"].as_array().unwrap().iter().find(|i| i["type"] == "message").unwrap();
    assert_eq!(msg_item["content"][0]["type"], "output_text");
    assert_eq!(msg_item["content"][0]["text"], "hello");
    // function_call item
    let fc = result["output"].as_array().unwrap().iter().find(|i| i["type"] == "function_call").unwrap();
    assert_eq!(fc["name"], "get_weather");
    assert_eq!(fc["arguments"], "{\"city\":\"SF\"}");
}

#[test]
fn anthropic_to_responses_response_maps_end_turn_status() {
    let body = j(r##"{ "id": "msg_1", "type": "message", "role": "assistant", "content": [{"type": "text", "text": "done"}], "model": "sonnet", "stop_reason": "end_turn" }"##);
    let result = val(&anthropic_to_responses_response(&body, "gpt-5").unwrap());
    assert_eq!(result["status"], "completed");
}

#[test]
fn responses_sse_logging_flag_does_not_alter_output() {
    let frames = vec![
        "event: message_start\ndata: {\"type\":\"message_start\",\"message\":{\"id\":\"msg_1\"}}\n\n".to_string(),
        "event: content_block_start\ndata: {\"type\":\"content_block_start\",\"index\":0,\"content_block\":{\"type\":\"text\",\"text\":\"\"}}\n\n".to_string(),
        "event: content_block_delta\ndata: {\"type\":\"content_block_delta\",\"index\":0,\"delta\":{\"type\":\"text_delta\",\"text\":\"Mock \"}}\n\n".to_string(),
        "event: content_block_delta\ndata: {\"type\":\"content_block_delta\",\"index\":0,\"delta\":{\"type\":\"text_delta\",\"text\":\"anthropic\"}}\n\n".to_string(),
        "event: content_block_stop\ndata: {\"type\":\"content_block_stop\",\"index\":0}\n\n".to_string(),
        "event: message_delta\ndata: {\"type\":\"message_delta\",\"delta\":{\"stop_reason\":\"end_turn\"}}\n\n".to_string(),
        "event: message_stop\ndata: {\"type\":\"message_stop\"}\n\n".to_string(),
    ];
    let with_log = run_responses_sse(frames.clone(), true);
    let without_log = run_responses_sse(frames, false);
    // The log_resp flag must not change the emitted SSE events.
    assert_eq!(with_log, without_log);

    let ev_names: Vec<&str> = with_log.iter().map(|(e, _)| e.as_str()).collect();
    assert_eq!(
        ev_names,
        vec![
            "response.created",
            "response.output_item.added",
            "response.output_text.delta",
            "response.output_text.delta",
            "response.content_part.done",
            "response.output_item.done",
            "response.completed",
        ]
    );

    let deltas: Vec<&str> = with_log
        .iter()
        .filter(|(e, _)| e == "response.output_text.delta")
        .map(|(_, v)| v.get("delta").and_then(Value::as_str).unwrap_or(""))
        .collect();
    assert_eq!(deltas, vec!["Mock ", "anthropic"]);
}

#[test]
fn responses_sse_maps_tool_use_and_arguments() {
    let frames = vec![
        "event: message_start\ndata: {\"type\":\"message_start\",\"message\":{\"id\":\"msg_1\"}}\n\n".to_string(),
        "event: content_block_start\ndata: {\"type\":\"content_block_start\",\"index\":0,\"content_block\":{\"type\":\"tool_use\",\"id\":\"t_1\",\"name\":\"get_weather\"}}\n\n".to_string(),
        "event: content_block_delta\ndata: {\"type\":\"content_block_delta\",\"index\":0,\"delta\":{\"type\":\"input_json_delta\",\"partial_json\":\"{\\\"city\\\":\\\"tokyo\\\"}\"}}\n\n".to_string(),
        "event: content_block_stop\ndata: {\"type\":\"content_block_stop\",\"index\":0}\n\n".to_string(),
        "event: message_delta\ndata: {\"type\":\"message_delta\",\"delta\":{\"stop_reason\":\"tool_use\"}}\n\n".to_string(),
        "event: message_stop\ndata: {\"type\":\"message_stop\"}\n\n".to_string(),
    ];
    let out = run_responses_sse(frames, true);

    let fc = out
        .iter()
        .find(|(e, v)| e == "response.output_item.added" && v["item"]["type"] == "function_call")
        .map(|(_, v)| v.clone())
        .expect("function_call item emitted");
    assert_eq!(fc["item"]["name"], "get_weather");

    let arg_deltas: Vec<&str> = out
        .iter()
        .filter(|(e, _)| e == "response.function_call_arguments.delta")
        .filter_map(|(_, v)| v.get("delta").and_then(Value::as_str))
        .collect();
    assert_eq!(arg_deltas, vec!["{\"city\":\"tokyo\"}"]);

    // codex finalizes a tool from its terminal events: it must receive a
    // `function_call_arguments.done` and a function_call `output_item.done`
    // (with the fully assembled arguments) or the tool is never executed.
    let args_done = out
        .iter()
        .find(|(e, _)| e == "response.function_call_arguments.done")
        .map(|(_, v)| v.clone())
        .expect("function_call_arguments.done emitted");
    assert_eq!(args_done["arguments"], "{\"city\":\"tokyo\"}");

    let fc_done = out
        .iter()
        .find(|(e, v)| e == "response.output_item.done" && v["item"]["type"] == "function_call")
        .map(|(_, v)| v.clone())
        .expect("function_call output_item.done emitted");
    assert_eq!(fc_done["item"]["call_id"], "t_1");
    assert_eq!(fc_done["item"]["name"], "get_weather");
    assert_eq!(fc_done["item"]["arguments"], "{\"city\":\"tokyo\"}");
    assert_eq!(fc_done["item"]["status"], "completed");
}

#[test]
fn the_model_that_was_asked_for_is_echoed_in_responses() {
    let body = j(r#"{"id":"msg_1","content":[{"type":"text","text":"done"}],"model":"sonnet","stop_reason":"end_turn"}"#);
    let out = val(&anthropic_to_responses_response(&body, "gpt-5").unwrap());
    assert_eq!(out["model"], "gpt-5");
    assert_eq!(out["status"], "completed");
}
