use ai_bridge::error::{Error, LocalEntry};
use ai_bridge::forward::single_line;
use ai_bridge::headers::authenticate;
use ai_bridge::json::Json;
use ai_bridge::json_canonical::canonical_json_string;
use ai_bridge::json_text::parse_json;
use ai_bridge::server::{
    extract_openai_chat_text, extract_system_for_entry, extract_text_content, handle_forward_error,
    reasoning_requested_for_entry, request_text_for_entry, tool_result_summary, tool_use_summary,
    upstream_error_response,
};
use http::{HeaderMap, HeaderValue};
use serde_json::Value;

fn j(text: &str) -> Json {
    parse_json(text).unwrap()
}

/// The same document as the JSON library holds it, for indexing.
fn val(v: &Json) -> Value {
    serde_json::from_str(&canonical_json_string(v)).unwrap()
}

fn header(map: &mut HeaderMap, name: &'static str, value: &'static str) {
    map.insert(name, HeaderValue::from_static(value));
}

#[test]
fn authenticate_none_expected_ok() {
    let headers = HeaderMap::new();
    assert!(authenticate(&headers, None).is_ok());
}

#[test]
fn authenticate_x_api_key_match_ok() {
    let mut headers = HeaderMap::new();
    header(&mut headers, "x-api-key", "secret");
    assert!(authenticate(&headers, Some("secret")).is_ok());
}

#[test]
fn authenticate_x_api_key_wrong_err() {
    let mut headers = HeaderMap::new();
    header(&mut headers, "x-api-key", "nope");
    assert!(matches!(
        authenticate(&headers, Some("secret")),
        Err(Error::Unauthorized(_))
    ));
}

#[test]
fn authenticate_bearer_match_ok() {
    let mut headers = HeaderMap::new();
    header(&mut headers, "authorization", "Bearer secret");
    assert!(authenticate(&headers, Some("secret")).is_ok());
}

#[test]
fn authenticate_bearer_wrong_err() {
    let mut headers = HeaderMap::new();
    header(&mut headers, "authorization", "Bearer nope");
    assert!(matches!(
        authenticate(&headers, Some("secret")),
        Err(Error::Unauthorized(_))
    ));
}

#[test]
fn authenticate_missing_headers_err() {
    let headers = HeaderMap::new();
    assert!(matches!(
        authenticate(&headers, Some("secret")),
        Err(Error::Unauthorized(_))
    ));
}

#[test]
fn authenticate_x_api_key_takes_precedence_over_bearer() {
    // `x-api-key` wins via `or_else`, so a wrong x-api-key still fails even
    // when the Bearer token is correct.
    let mut headers = HeaderMap::new();
    header(&mut headers, "x-api-key", "wrong");
    header(&mut headers, "authorization", "Bearer secret");
    assert!(matches!(
        authenticate(&headers, Some("secret")),
        Err(Error::Unauthorized(_))
    ));
}

#[test]
fn single_line_collapses_whitespace() {
    assert_eq!(single_line("a  b\nc\td"), "a b c d");
    assert_eq!(single_line(""), "");
    assert_eq!(single_line("  leading and trailing  "), "leading and trailing");
    assert_eq!(single_line("already"), "already");
}

#[test]
fn tool_use_summary_variants() {
    assert_eq!(tool_use_summary(&j(r##"{"name": "f", "input": {}}"##)), "[tool_use: f] {}");
    assert_eq!(tool_use_summary(&j(r##"{"name": "f"}"##)), "[tool_use: f]");
    assert_eq!(
        tool_use_summary(&j(r##"{"name": "f", "input": {"a": 1}}"##)),
        "[tool_use: f] {\"a\":1}"
    );
    assert_eq!(tool_use_summary(&j(r##"{"input": {}}"##)), "[tool_use: ?] {}");
    // Empty-string input serializes to `""` (non-empty), so it is appended.
    assert_eq!(tool_use_summary(&j(r##"{"name": "f", "input": ""}"##)), "[tool_use: f] \"\"");
}

#[test]
fn tool_result_summary_variants() {
    assert_eq!(
        tool_result_summary(&j(r##"{"tool_use_id": "t_1", "content": "out"}"##)),
        "[tool_result: t_1] out"
    );
    assert_eq!(
        tool_result_summary(&j(r##"{"tool_use_id": "t_1", "content": ""}"##)),
        "[tool_result: t_1]"
    );
    // Array content goes through extract_text_content; empty array -> `[empty]`.
    assert_eq!(
        tool_result_summary(&j(r##"{"tool_use_id": "t_1", "content": []}"##)),
        "[tool_result: t_1] [empty]"
    );
    assert_eq!(
        tool_result_summary(&j(r##"{"content": "x"}"##)),
        "[tool_result: ?] x"
    );
    // Non-string/array content -> "/".
    assert_eq!(
        tool_result_summary(&j(r##"{"tool_use_id": "t_1", "content": null}"##)),
        "[tool_result: t_1] /"
    );
}

#[test]
fn extract_text_content_variants() {
    assert_eq!(extract_text_content(Some(&j(r##""hello""##))), "hello");

    let blocks = j(r##"[ {"type": "text", "text": "a"}, {"type": "thinking", "thinking": "b"}, {"type": "image"}, {"type": "document"}, {"type": "tool_use", "name": "f", "input": {"x": 1}}, {"type": "tool_result", "tool_use_id": "t", "content": "out"} ]"##);
    assert_eq!(
        extract_text_content(Some(&blocks)),
        "a b (thinking) [image] [document] [tool_use: f] {\"x\":1} [tool_result: t] out"
    );

    assert_eq!(extract_text_content(Some(&j(r##"[]"##))), "[empty]");
    assert_eq!(extract_text_content(None), "null");
    assert_eq!(extract_text_content(Some(&Json::Null)), "null");
    assert_eq!(extract_text_content(Some(&j(r##"42"##))), "42");
}

#[test]
fn extract_openai_chat_text_variants() {
    assert_eq!(extract_openai_chat_text(Some(&j(r##""hi""##))), "hi");

    let parts = j(r##"[ {"type": "text", "text": "a"}, {"type": "input_text", "text": "b"}, {"type": "output_text", "text": "c"}, {"type": "image_url"}, {"type": "input_image"}, {"type": "other", "text": "ignored"} ]"##);
    assert_eq!(extract_openai_chat_text(Some(&parts)), "a b c [image] [image]");

    assert_eq!(extract_openai_chat_text(None), "(no content)");
    assert_eq!(extract_openai_chat_text(Some(&Json::Null)), "(no content)");
    assert_eq!(extract_openai_chat_text(Some(&j(r##"[]"##))), "");
}

#[test]
fn extract_system_for_entry_variants() {
    let anthropic = j(r##"{ "system": "top", "messages": [{"role": "system", "content": "msg"}] }"##);
    assert_eq!(
        extract_system_for_entry(&anthropic, LocalEntry::AnthropicMessages),
        Some("top | msg".to_string())
    );

    let chat = j(r##"{ "messages": [ {"role": "system", "content": "s1"}, {"role": "user", "content": "hi"} ] }"##);
    assert_eq!(
        extract_system_for_entry(&chat, LocalEntry::OaiChat),
        Some("s1".to_string())
    );

    let responses = j(r##"{ "instructions": "inst", "input": [ {"type": "message", "role": "system", "content": "s2"}, {"type": "message", "role": "user", "content": "hi"} ] }"##);
    assert_eq!(
        extract_system_for_entry(&responses, LocalEntry::OaiResponses),
        Some("inst | s2".to_string())
    );
}

#[test]
fn request_text_for_entry_variants() {
    let anthropic = j(r##"{ "messages": [{"role": "user", "content": "hello  world"}] }"##);
    assert_eq!(
        request_text_for_entry(&anthropic, LocalEntry::AnthropicMessages),
        "hello world"
    );

    let chat = j(r##"{ "messages": [ {"role": "assistant", "content": "reply"}, {"role": "user", "content": "hi there"} ] }"##);
    assert_eq!(request_text_for_entry(&chat, LocalEntry::OaiChat), "hi there");

    let responses = j(r##"{ "input": [ {"type": "message", "role": "assistant", "content": "reply"}, {"type": "message", "role": "user", "content": "hi responses"} ] }"##);
    assert_eq!(
        request_text_for_entry(&responses, LocalEntry::OaiResponses),
        "hi responses"
    );

    // OaiResponses with no user message -> "(no messages)".
    let no_user = j(r##"{ "input": [{"type": "message", "role": "assistant", "content": "reply"}] }"##);
    assert_eq!(
        request_text_for_entry(&no_user, LocalEntry::OaiResponses),
        "(no messages)"
    );
}

#[test]
fn reasoning_requested_for_entry_variants() {
    // Anthropic entry: thinking_requested semantics.
    let enabled = j(r##"{"thinking": {"type": "enabled", "budget_tokens": 32000}}"##);
    assert!(reasoning_requested_for_entry(&enabled, LocalEntry::AnthropicMessages));
    let adaptive = j(r##"{"thinking": {"type": "adaptive"}}"##);
    assert!(reasoning_requested_for_entry(&adaptive, LocalEntry::AnthropicMessages));
    let disabled = j(r##"{"thinking": {"type": "disabled"}}"##);
    assert!(!reasoning_requested_for_entry(&disabled, LocalEntry::AnthropicMessages));
    let absent = j(r##"{"messages": []}"##);
    assert!(!reasoning_requested_for_entry(&absent, LocalEntry::AnthropicMessages));
    let output_cfg = j(r##"{"output_config": {"effort": "low"}}"##);
    assert!(reasoning_requested_for_entry(&output_cfg, LocalEntry::AnthropicMessages));

    // Chat entry: reasoning_effort presence, "none" counts as disabled.
    let chat = j(r##"{"reasoning_effort": "high"}"##);
    assert!(reasoning_requested_for_entry(&chat, LocalEntry::OaiChat));
    let chat_none = j(r##"{"reasoning_effort": "none"}"##);
    assert!(!reasoning_requested_for_entry(&chat_none, LocalEntry::OaiChat));
    let chat_empty = j(r##"{}"##);
    assert!(!reasoning_requested_for_entry(&chat_empty, LocalEntry::OaiChat));

    // Responses entry: reasoning.effort.
    let responses = j(r##"{"reasoning": {"effort": "medium", "summary": "auto"}}"##);
    assert!(reasoning_requested_for_entry(&responses, LocalEntry::OaiResponses));
    let responses_none = j(r##"{"reasoning": {"effort": "none"}}"##);
    assert!(!reasoning_requested_for_entry(&responses_none, LocalEntry::OaiResponses));
    let responses_no_effort = j(r##"{"reasoning": {"summary": "auto"}}"##);
    assert!(!reasoning_requested_for_entry(&responses_no_effort, LocalEntry::OaiResponses));
}

#[test]
fn extract_system_combines_top_level_and_messages() {
    let entry = LocalEntry::AnthropicMessages;
    let body = j(r##"{"system": "top", "messages": [{"role": "system", "content": "msg"}]}"##);
    assert_eq!(extract_system_for_entry(&body, entry), Some("top | msg".to_string()));

    let only_msg =
        j(r##"{"messages": [{"role": "system", "content": "msg"}, {"role": "user", "content": "hi"}]}"##);
    assert_eq!(extract_system_for_entry(&only_msg, entry), Some("msg".to_string()));

    let none = j(r##"{"messages": [{"role": "user", "content": "hi"}]}"##);
    assert_eq!(extract_system_for_entry(&none, entry), None);
}

#[test]
fn request_text_last_user_or_fallback() {
    let entry = LocalEntry::AnthropicMessages;
    // Last user message wins, whitespace collapsed.
    let body = j(r##"{"messages": [
        {"role": "user", "content": "first"},
        {"role": "assistant", "content": "reply"},
        {"role": "user", "content": "last  user\nline"}
    ]}"##);
    assert_eq!(request_text_for_entry(&body, entry), "last user line");

    // No user message: join all messages.
    let no_user = j(r##"{"messages": [
        {"role": "system", "content": "sys"},
        {"role": "assistant", "content": "reply"}
    ]}"##);
    assert_eq!(request_text_for_entry(&no_user, entry), "sys | reply");

    // User content empty.
    let empty_user = j(r##"{"messages": [{"role": "user", "content": "  "}]}"##);
    assert_eq!(request_text_for_entry(&empty_user, entry), "(no messages)");

    // No messages key.
    assert_eq!(request_text_for_entry(&j(r##"{"system": "x"}"##), entry), "(no messages)");
}

#[test]
fn upstream_error_response_anthropic_shape() {
    let (status, body) =
        upstream_error_response(502, &j(r##"{"error": {"message": "boom"}}"##), LocalEntry::AnthropicMessages);
    assert_eq!(status, 502);
    assert_eq!(
        val(&body),
        val(&j(r##"{"type": "error", "error": {"type": "api_error", "message": "boom"}}"##))
    );

    // Missing `error.message` falls back to a default message.
    let (_, body) = upstream_error_response(502, &j("{}"), LocalEntry::AnthropicMessages);
    assert_eq!(val(&body)["error"]["message"], "Upstream request failed");
}

#[test]
fn upstream_error_response_openai_shape() {
    for entry in [LocalEntry::OaiChat, LocalEntry::OaiResponses] {
        let (status, body) = upstream_error_response(502, &j(r##"{"error": {"message": "boom"}}"##), entry);
        assert_eq!(status, 502);
        assert_eq!(val(&body), val(&j(r##"{"error": {"message": "boom", "type": "upstream_error"}}"##)));
    }
}

#[test]
fn handle_forward_error_relays_upstream_status_and_reason() {
    // Anthropic entry, upstream 503: same status and Anthropic error shape.
    let (line, status, body) = handle_forward_error(
        Error::Upstream {
            status: 503,
            reason: "Service Unavailable".to_string(),
            body: j(r##"{"error": {"message": "Service Unavailable"}}"##),
        },
        LocalEntry::AnthropicMessages,
    );
    assert_eq!(line, "upstream status 503: Service Unavailable");
    assert_eq!(status, 503);
    assert_eq!(val(&body)["error"]["message"], "Service Unavailable");

    // OpenAI entry, upstream 429: status relayed instead of a blanket 502.
    let (_, status, body) = handle_forward_error(
        Error::Upstream {
            status: 429,
            reason: "Too Many Requests".to_string(),
            body: j(r##"{"error": {"message": "Too Many Requests"}}"##),
        },
        LocalEntry::OaiChat,
    );
    assert_eq!(status, 429);
    assert_eq!(val(&body)["error"]["message"], "Too Many Requests");
}

#[test]
fn handle_forward_error_non_upstream_keeps_old_mapping() {
    let (line, status, _) = handle_forward_error(Error::Forward("boom".to_string()), LocalEntry::OaiChat);
    assert_eq!(line, "转发失败: boom");
    assert_eq!(status, 502);
}

#[test]
fn upstream_error_preserves_status_in_status_and_message() {
    let err = Error::Upstream { status: 429, reason: "rate limit".to_string(), body: j("{}") };
    let (status, message) = err.status_and_message();
    assert_eq!(status, 429);
    assert_eq!(message, "rate limit");
}
