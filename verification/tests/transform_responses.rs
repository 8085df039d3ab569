use ai_bridge::error::Error;
use ai_bridge::json::Json;
use ai_bridge::json_canonical::canonical_json_string;
use ai_bridge::json_text::parse_json;
use ai_bridge::responses_response::{build_anthropic_usage_from_responses, responses_to_anthropic};
use ai_bridge::transform_responses::anthropic_to_responses;
use serde_json::Value;

fn j(text: &str) -> Json {
    parse_json(text).unwrap()
}

/// The same document as the JSON library holds it, for indexing.
fn val(v: &Json) -> Value {
    serde_json::from_str(&canonical_json_string(v)).unwrap()
}

#[test]
fn test_anthropic_to_responses_simple() {
    let input = j(r##"{ "model": "gpt-4o", "max_tokens": 1024, "messages": [{"role": "user", "content": "Hello"}] }"##);

    let result = val(&anthropic_to_responses(&input).unwrap());
    assert_eq!(result["model"], "gpt-4o");
    assert_eq!(result["max_output_tokens"], 1024);
    assert_eq!(result["input"][0]["role"], "user");
    assert_eq!(result["input"][0]["content"][0]["type"], "input_text");
    assert_eq!(result["input"][0]["content"][0]["text"], "Hello");
    assert!(result.get("stop_sequences").is_none());
}

#[test]
fn test_anthropic_to_responses_with_system_string() {
    let input = j(r##"{ "model": "gpt-4o", "max_tokens": 1024, "system": "You are a helpful assistant.", "messages": [{"role": "user", "content": "Hello"}] }"##);

    let result = val(&anthropic_to_responses(&input).unwrap());
    assert_eq!(result["instructions"], "You are a helpful assistant.");
    assert_eq!(result["input"].as_array().unwrap().len(), 1);
}

#[test]
fn test_anthropic_to_responses_strips_billing_header() {
    let input = j(r##"{ "model": "gpt-4o", "max_tokens": 1024, "system": "x-anthropic-billing-header: cc_version=2.1.119.47e;\n\nYou are a helpful assistant.", "messages": [{"role": "user", "content": "Hello"}] }"##);

    let result = val(&anthropic_to_responses(&input).unwrap());
    assert_eq!(result["instructions"], "You are a helpful assistant.");
}

#[test]
fn test_anthropic_to_responses_with_tools() {
    let input = j(r##"{ "model": "gpt-4o", "messages": [{"role": "user", "content": "Weather?"}], "tools": [{ "name": "get_weather", "description": "Get weather info", "input_schema": {"type": "object", "properties": {"location": {"type": "string"}}} }] }"##);

    let result = val(&anthropic_to_responses(&input).unwrap());
    assert_eq!(result["tools"][0]["type"], "function");
    assert_eq!(result["tools"][0]["name"], "get_weather");
    assert!(result["tools"][0].get("parameters").is_some());
    assert!(result["tools"][0].get("input_schema").is_none());
}

#[test]
fn test_anthropic_to_responses_tool_choice_any_to_required() {
    let input = j(r##"{ "model": "gpt-4o", "messages": [{"role": "user", "content": "Weather?"}], "tool_choice": {"type": "any"} }"##);

    let result = val(&anthropic_to_responses(&input).unwrap());
    assert_eq!(result["tool_choice"], "required");
}

#[test]
fn test_anthropic_to_responses_tool_use_lifting() {
    let input = j(r##"{ "model": "gpt-4o", "messages": [{ "role": "assistant", "content": [ {"type": "text", "text": "Let me check"}, {"type": "tool_use", "id": "call_123", "name": "get_weather", "input": {"location": "Tokyo"}} ] }] }"##);

    let result = val(&anthropic_to_responses(&input).unwrap());
    let input_arr = result["input"].as_array().unwrap();

    assert_eq!(input_arr.len(), 2);
    assert_eq!(input_arr[0]["role"], "assistant");
    assert_eq!(input_arr[0]["content"][0]["type"], "output_text");
    assert_eq!(input_arr[1]["type"], "function_call");
    assert_eq!(input_arr[1]["call_id"], "call_123");
    assert_eq!(input_arr[1]["name"], "get_weather");
}

#[test]
fn test_anthropic_to_responses_tool_result_lifting() {
    let input = j(r##"{ "model": "gpt-4o", "messages": [{ "role": "user", "content": [ {"type": "tool_result", "tool_use_id": "call_123", "content": "Sunny, 25°C"} ] }] }"##);

    let result = val(&anthropic_to_responses(&input).unwrap());
    let input_arr = result["input"].as_array().unwrap();

    assert_eq!(input_arr.len(), 1);
    assert_eq!(input_arr[0]["type"], "function_call_output");
    assert_eq!(input_arr[0]["call_id"], "call_123");
    assert_eq!(input_arr[0]["output"], "Sunny, 25°C");
}

#[test]
fn test_anthropic_to_responses_image() {
    let input = j(r##"{ "model": "gpt-4o", "messages": [{ "role": "user", "content": [ {"type": "text", "text": "What is this?"}, {"type": "image", "source": {"type": "base64", "media_type": "image/png", "data": "abc123"}} ] }] }"##);

    let result = val(&anthropic_to_responses(&input).unwrap());
    let content = result["input"][0]["content"].as_array().unwrap();

    assert_eq!(content[0]["type"], "input_text");
    assert_eq!(content[1]["type"], "input_image");
    assert_eq!(content[1]["image_url"], "data:image/png;base64,abc123");
}

#[test]
fn test_responses_to_anthropic_simple() {
    let input = j(r##"{ "id": "resp_123", "object": "response", "status": "completed", "model": "gpt-4o", "output": [{ "type": "message", "id": "msg_123", "role": "assistant", "content": [{"type": "output_text", "text": "Hello!"}] }], "usage": {"input_tokens": 10, "output_tokens": 5} }"##);

    let result = val(&responses_to_anthropic(&input, "").unwrap());
    assert_eq!(result["id"], "resp_123");
    assert_eq!(result["type"], "message");
    assert_eq!(result["content"][0]["type"], "text");
    assert_eq!(result["content"][0]["text"], "Hello!");
    assert_eq!(result["stop_reason"], "end_turn");
    assert_eq!(result["usage"]["input_tokens"], 10);
    assert_eq!(result["usage"]["output_tokens"], 5);
}

#[test]
fn test_responses_to_anthropic_with_function_call() {
    let input = j(r##"{ "id": "resp_123", "status": "completed", "model": "gpt-4o", "output": [{ "type": "function_call", "id": "fc_123", "call_id": "call_123", "name": "get_weather", "arguments": "{\"location\": \"Tokyo\"}", "status": "completed" }], "usage": {"input_tokens": 10, "output_tokens": 15} }"##);

    let result = val(&responses_to_anthropic(&input, "").unwrap());
    assert_eq!(result["content"][0]["type"], "tool_use");
    assert_eq!(result["content"][0]["id"], "call_123");
    assert_eq!(result["content"][0]["name"], "get_weather");
    assert_eq!(result["content"][0]["input"]["location"], "Tokyo");
    assert_eq!(result["stop_reason"], "tool_use");
}

#[test]
fn test_responses_failed_status_is_not_silent_empty_success() {
    let input = j(r##"{ "id": "resp_failed", "status": "failed", "error": {"type": "server_error", "message": "backend exploded"}, "output": [], "usage": {"input_tokens": 10, "output_tokens": 0} }"##);

    let error = responses_to_anthropic(&input, "").unwrap_err();
    assert!(
        matches!(error, Error::Transform(message) if message.contains("backend exploded"))
    );
}

#[test]
fn test_responses_to_anthropic_with_cache_tokens() {
    let input = j(r##"{ "id": "resp_123", "status": "completed", "model": "gpt-4o", "output": [{ "type": "message", "content": [{"type": "output_text", "text": "Hello!"}] }], "usage": { "input_tokens": 100, "output_tokens": 50, "input_tokens_details": { "cached_tokens": 80 } } }"##);

    let result = val(&responses_to_anthropic(&input, "").unwrap());
    assert_eq!(result["usage"]["input_tokens"], 20);
    assert_eq!(result["usage"]["output_tokens"], 50);
    assert_eq!(result["usage"]["cache_read_input_tokens"], 80);
}

#[test]
fn test_anthropic_to_responses_o_series_uses_max_output_tokens() {
    let input = j(r##"{ "model": "o3-mini", "max_tokens": 4096, "messages": [{"role": "user", "content": "Hello"}] }"##);
    let result = val(&anthropic_to_responses(&input).unwrap());
    assert_eq!(result["max_output_tokens"], 4096);
    assert!(result.get("max_completion_tokens").is_none());
}

#[test]
fn test_completed_function_call_empty_arguments_normalizes_to_object() {
    let input = j(r##"{ "id": "resp_empty_args", "status": "completed", "model": "gpt-5.6", "output": [{ "type": "function_call", "call_id": "call_1", "name": "ping", "arguments": "" }], "usage": {"input_tokens": 10, "output_tokens": 2} }"##);
    let result = val(&responses_to_anthropic(&input, "").unwrap());
    assert_eq!(result["content"][0]["input"], val(&j("{}")));
}

#[test]
fn test_responses_to_anthropic_with_reasoning() {
    let input = j(r##"{ "id": "resp_123", "status": "completed", "model": "gpt-4o", "output": [ { "type": "reasoning", "id": "rs_123", "summary": [ {"type": "summary_text", "text": "Thinking about the problem..."} ] }, { "type": "message", "id": "msg_123", "role": "assistant", "content": [{"type": "output_text", "text": "The answer is 42"}] } ], "usage": {"input_tokens": 10, "output_tokens": 20} }"##);

    let result = val(&responses_to_anthropic(&input, "").unwrap());
    assert_eq!(result["content"][0]["type"], "thinking");
    assert_eq!(result["content"][0]["thinking"], "Thinking about the problem...");
    assert_eq!(result["content"][1]["type"], "text");
    assert_eq!(result["content"][1]["text"], "The answer is 42");
}

#[test]
fn test_responses_to_anthropic_incomplete_status() {
    let input = j(r##"{ "id": "resp_123", "status": "incomplete", "model": "gpt-4o", "output": [{ "type": "message", "content": [{"type": "output_text", "text": "Partial..."}] }], "usage": {"input_tokens": 10, "output_tokens": 4096} }"##);

    let result = val(&responses_to_anthropic(&input, "").unwrap());
    assert_eq!(result["stop_reason"], "max_tokens");
}

#[test]
fn test_build_usage_from_null_parameter() {
    let result = val(&build_anthropic_usage_from_responses(None));
    assert_eq!(result["input_tokens"], 0);
    assert_eq!(result["output_tokens"], 0);
}

#[test]
fn test_build_usage_cache_tokens_direct_override() {
    let result = val(&build_anthropic_usage_from_responses(Some(&j(r##"{ "input_tokens": 100, "output_tokens": 50, "input_tokens_details": {"cached_tokens": 80}, "cache_read_input_tokens": 100 }"##))));
    assert_eq!(result["input_tokens"], 0);
    assert_eq!(result["cache_read_input_tokens"], 100);
}
