use ai_bridge::forward::{
    apply_reasoning_policy, parse_bool, parse_error_payload, vision_upstream_type_from_url, ReasoningEffortOverride,
    UpstreamReasoningPolicy, UpstreamType,
};
use ai_bridge::headers::header_overrides_from_pairs;
use ai_bridge::json::Json;
use ai_bridge::json_canonical::canonical_json_string;
use ai_bridge::json_text::parse_json;
use serde_json::Value;

fn j(text: &str) -> Json {
    parse_json(text).unwrap()
}

/// The same document as the JSON library holds it, for indexing.
fn val(v: &Json) -> Value {
    serde_json::from_str(&canonical_json_string(v)).unwrap()
}

fn policy(thinking: Option<&str>, effort: Option<&str>) -> UpstreamReasoningPolicy {
    UpstreamReasoningPolicy::parse(thinking, effort)
}

fn overrides(entries: &[(&str, &str)]) -> http::HeaderMap {
    header_overrides_from_pairs(entries.iter().map(|(n, v)| (n.to_string(), v.to_string())).collect())
}

#[test]
fn parse_bool_maps_truthy_values() {
    for value in ["1", "true", "TRUE", " yes ", "YES", "on", "On", " 1 "] {
        assert!(parse_bool(Some(value), false), "value: {value:?}");
    }
}

#[test]
fn parse_bool_maps_falsy_values() {
    for value in ["0", "false", "FALSE", " no ", "off", "Off"] {
        assert!(!parse_bool(Some(value), true), "value: {value:?}");
    }
}

#[test]
fn parse_bool_defaults_on_missing_or_invalid() {
    // Missing and unrecognized values fall back to the given default.
    assert!(!parse_bool(None, false));
    assert!(parse_bool(None, true));
    for value in ["", "   ", "maybe", "2", "tru"] {
        assert!(!parse_bool(Some(value), false), "value: {value:?}");
    }
}

#[test]
fn reasoning_policy_defaults_to_thinking_on_and_max_effort() {
    let p = policy(None, None);
    assert!(p.thinking_enabled);
    assert_eq!(p.effort, ReasoningEffortOverride::Stamp("max".into()));

    // Empty strings behave like missing values.
    let p = policy(Some(""), Some("   "));
    assert!(p.thinking_enabled);
    assert_eq!(p.effort, ReasoningEffortOverride::Stamp("max".into()));
}

#[test]
fn reasoning_policy_parses_explicit_values() {
    // Master switch off.
    assert!(!policy(Some("0"), None).thinking_enabled);
    assert!(!policy(Some("off"), None).thinking_enabled);
    assert!(policy(Some("1"), None).thinking_enabled);
    assert!(policy(Some("yes"), None).thinking_enabled);

    // Effort values are lowercased verbatim — no whitelist, upstreams vary.
    assert_eq!(
        policy(None, Some("XHigh")).effort,
        ReasoningEffortOverride::Stamp("xhigh".into())
    );
    assert_eq!(
        policy(None, Some("  Medium ")).effort,
        ReasoningEffortOverride::Stamp("medium".into())
    );

    // Reserved words drop the field entirely.
    for raw in ["off", "drop", "none", "disable", "disabled", "DROP"] {
        assert_eq!(
            policy(None, Some(raw)).effort,
            ReasoningEffortOverride::Drop,
            "raw: {raw}"
        );
    }
}

#[test]
fn apply_policy_chat_stamps_overwrites_and_drops() {
    let on_max = policy(None, None);

    // Client asked for reasoning → effort stamped with the configured value.
    let mut body = j(r##"{"model": "m", "messages": []}"##);
    body = apply_reasoning_policy(body, UpstreamType::OaiChat, &on_max, true);
    assert_eq!(val(&body)["reasoning_effort"], "max");

    // Explicit value wins over whatever the client sent.
    let mut body = j(r##"{"reasoning_effort": "high"}"##);
    body = apply_reasoning_policy(body, UpstreamType::OaiChat, &policy(None, Some("xhigh")), true);
    assert_eq!(val(&body)["reasoning_effort"], "xhigh");

    // Drop removes an existing field…
    let mut body = j(r##"{"reasoning_effort": "high"}"##);
    body = apply_reasoning_policy(body, UpstreamType::OaiChat, &policy(None, Some("off")), true);
    assert!(body.get("reasoning_effort").is_none());

    // …and master-off removes it even with a Set configured.
    let mut body = j(r##"{"reasoning_effort": "high"}"##);
    body = apply_reasoning_policy(body, UpstreamType::OaiChat, &policy(Some("0"), None), true);
    assert!(body.get("reasoning_effort").is_none());
}

#[test]
fn apply_policy_chat_never_injects_without_client_request() {
    // No client reasoning signal → no field injected, even at default max.
    // (A thinking-disabled request reaches this stamp with wants=false too,
    // preserving the DeepSeek "disabled + reasoning_effort" 400 avoidance.)
    let mut body = j(r##"{"model": "m", "messages": []}"##);
    body = apply_reasoning_policy(body, UpstreamType::OaiChat, &policy(None, None), false);
    assert!(body.get("reasoning_effort").is_none());

    // Master off wins over everything: even a requesting client gets stripped.
    let mut body = j(r##"{"reasoning_effort": "high"}"##);
    body = apply_reasoning_policy(body, UpstreamType::OaiChat, &policy(Some("0"), None), true);
    assert!(body.get("reasoning_effort").is_none());
}

#[test]
fn apply_policy_responses_preserves_other_reasoning_keys() {
    // Set: effort stamped inside the existing object; summary preserved.
    let mut body = j(r##"{"reasoning": {"effort": "high", "summary": "auto"}}"##);
    body = apply_reasoning_policy(body, UpstreamType::OaiResponses, &policy(None, Some("low")), true);
    assert_eq!(val(&body)["reasoning"]["effort"], "low");
    assert_eq!(val(&body)["reasoning"]["summary"], "auto");

    // Set: missing reasoning object is created.
    let mut body = j(r##"{}"##);
    body = apply_reasoning_policy(body, UpstreamType::OaiResponses, &policy(None, None), true);
    assert_eq!(val(&body)["reasoning"]["effort"], "max");

    // Drop: effort removed, sibling keys survive.
    let mut body = j(r##"{"reasoning": {"effort": "high", "summary": "auto"}}"##);
    body = apply_reasoning_policy(body, UpstreamType::OaiResponses, &policy(None, Some("off")), true);
    assert!(val(&body)["reasoning"].get("effort").is_none());
    assert_eq!(val(&body)["reasoning"]["summary"], "auto");

    // Drop: empty reasoning object is pruned altogether.
    let mut body = j(r##"{"reasoning": {"effort": "high"}}"##);
    body = apply_reasoning_policy(body, UpstreamType::OaiResponses, &policy(None, Some("off")), true);
    assert!(body.get("reasoning").is_none());
}

#[test]
fn apply_policy_anthropic_only_acts_when_master_off() {
    // Master on: untouched (no effort concept on this wire format).
    let mut body = j(r##"{"thinking": {"type": "enabled"}, "messages": []}"##);
    body = apply_reasoning_policy(body,
        UpstreamType::AnthropicMessages,
        &policy(None, None),
        true,
    );
    assert!(body.get("thinking").is_some());

    // Master off: thinking stripped.
    body = apply_reasoning_policy(body,
        UpstreamType::AnthropicMessages,
        &policy(Some("false"), None),
        true,
    );
    assert!(body.get("thinking").is_none());
}

#[test]
fn upstream_type_accepts_all_three_values() {
    assert_eq!(
        UpstreamType::parse("anthropic-messages").unwrap(),
        UpstreamType::AnthropicMessages
    );
    assert_eq!(
        UpstreamType::parse("oai-chat").unwrap(),
        UpstreamType::OaiChat
    );
    assert_eq!(
        UpstreamType::parse("oai-responses").unwrap(),
        UpstreamType::OaiResponses
    );
}

#[test]
fn upstream_type_is_case_insensitive() {
    assert_eq!(
        UpstreamType::parse("OAI-CHAT").unwrap(),
        UpstreamType::OaiChat
    );
    assert_eq!(
        UpstreamType::parse("  Anthropic-Messages  ").unwrap(),
        UpstreamType::AnthropicMessages
    );
}

#[test]
fn upstream_type_rejects_unknown_values() {
    assert!(UpstreamType::parse("bogus").is_err());
    assert!(UpstreamType::parse("").is_err());
    assert!(UpstreamType::parse("responses").is_err());
}

#[test]
fn vision_upstream_type_inferred_from_url_markers() {
    assert_eq!(
        vision_upstream_type_from_url("https://v.example/v1/responses"),
        UpstreamType::OaiResponses
    );
    assert_eq!(
        vision_upstream_type_from_url("https://v.example/v1/messages"),
        UpstreamType::AnthropicMessages
    );
    // /chat/completions contains neither marker → chat; it also contains
    // no "/messages", but guard against a URL carrying both markers.
    assert_eq!(
        vision_upstream_type_from_url("https://v.example/v1/chat/completions"),
        UpstreamType::OaiChat
    );
    assert_eq!(
        vision_upstream_type_from_url("https://messages.example/v1/chat/completions"),
        UpstreamType::OaiChat
    );
}

#[test]
fn builds_simple_pairs() {
    let headers = overrides(&[("A", "a"), ("B", "b")]);
    assert_eq!(headers.len(), 2);
    assert_eq!(headers.get("a").unwrap(), "a");
    assert_eq!(headers.get("B").unwrap(), "b");
}

#[test]
fn trims_whitespace_around_names_and_values() {
    let headers = overrides(&[(" X-Trace ", "123"), ("Y", " 2 ")]);
    assert_eq!(headers.len(), 2);
    assert_eq!(headers.get("x-trace").unwrap(), "123");
    assert_eq!(headers.get("y").unwrap(), "2");
}

#[test]
fn empty_input_yields_empty_map() {
    assert!(overrides(&[]).is_empty());
}

#[test]
fn skips_invalid_entries_but_keeps_valid_siblings() {
    let headers = overrides(&[("bad name", "x"), ("X-Trace", "1")]);
    assert_eq!(headers.len(), 1);
    assert_eq!(headers.get("x-trace").unwrap(), "1");
}

#[test]
fn skips_empty_value() {
    let headers = overrides(&[("A", "")]);
    assert!(headers.is_empty());
}

#[test]
fn duplicate_names_last_wins() {
    let headers = overrides(&[("X", "1"), ("X", "2")]);
    assert_eq!(headers.len(), 1);
    assert_eq!(headers.get("x").unwrap(), "2");
}

#[test]
fn error_payload_uses_error_message_field() {
    let text = r#"{"error": {"message": "Service Unavailable", "type": "overloaded_error"}}"#;
    let (body, reason) = parse_error_payload(text);
    assert_eq!(reason, "Service Unavailable");
    assert_eq!(val(&body)["error"]["message"], "Service Unavailable");
    // Other error fields are preserved.
    assert_eq!(val(&body)["error"]["type"], "overloaded_error");
}

#[test]
fn error_payload_falls_back_to_top_level_message() {
    let text = r#"{"message": "Too Many Requests"}"#;
    let (body, reason) = parse_error_payload(text);
    assert_eq!(reason, "Too Many Requests");
    // The normalized body gains an error.message so shaping always works.
    assert_eq!(val(&body)["error"]["message"], "Too Many Requests");
}

#[test]
fn error_payload_non_json_uses_raw_text() {
    let text = "Service Unavailable";
    let (body, reason) = parse_error_payload(text);
    assert_eq!(reason, "Service Unavailable");
    assert_eq!(val(&body)["error"]["message"], "Service Unavailable");
}

#[test]
fn error_payload_collapses_multiline_plain_text() {
    let text = "<html>\n  <h1>502 Bad Gateway</h1>\n</html>";
    let (_, reason) = parse_error_payload(text);
    assert_eq!(reason, "<html> <h1>502 Bad Gateway</h1> </html>");
}

#[test]
fn error_payload_empty_body_defaults_to_unknown() {
    let (body, reason) = parse_error_payload("");
    assert_eq!(reason, "Unknown error");
    assert_eq!(val(&body)["error"]["message"], "Unknown error");
}

#[test]
fn error_payload_truncates_overlong_reason() {
    let long = "x".repeat(2000);
    let (_, reason) = parse_error_payload(&long);
    assert_eq!(reason.chars().count(), 500);
}
