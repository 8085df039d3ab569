use ai_bridge::convert::{
    anthropic_to_openai, anthropic_to_openai_with_reasoning_content, clamp_reasoning_effort_for_deepseek, clean_schema,
    ensure_send_message_summary, inject_openai_stream_include_usage, is_openai_o_series, lowercase_model_takes_effort,
    resolve_reasoning_effort, strip_leading_anthropic_billing_header, supports_reasoning_effort,
};
use ai_bridge::convert_message::recover_text;
use ai_bridge::convert_response::openai_to_anthropic;
use ai_bridge::error::Error;
use ai_bridge::forward::error_payload;
use ai_bridge::json::Json;
use ai_bridge::json_canonical::canonical_json_string;
use ai_bridge::json_text::parse_json;
use ai_bridge::reasoning_bridge::{encode_openai_reasoning_item, keep_reasoning_item};
use ai_bridge::responses_response::{function_call_input, responses_to_anthropic};
use serde_json::Value;

fn j(text: &str) -> Json {
    parse_json(text).unwrap()
}

fn text(v: &Json) -> String {
    canonical_json_string(v)
}

fn val(v: &Json) -> Value {
    serde_json::from_str(&canonical_json_string(v)).unwrap()
}

#[test]
fn o_series_models_are_an_o_and_a_digit() {
    for (model, is) in [("o1", true), ("o3-mini", true), ("o", false), ("oa", false), ("O1", false), ("gpt-o1", false), ("o１", false)] {
        assert_eq!(is_openai_o_series(model), is, "{model}");
    }
}

#[test]
fn effort_is_taken_by_some_families_in_any_case() {
    for model in ["O4-mini", "GPT-5", "gpt-9x", "Grok-4.5", "grok-4.5-fast", "grok-build-1", "My-DeepSeek-V3"] {
        assert!(supports_reasoning_effort(model), "{model}");
    }
    for model in ["gpt-4o", "gpt-", "grok-4", "grok-4.50", "sonnet"] {
        assert!(!supports_reasoning_effort(model), "{model}");
    }
    for model in ["modèle-DeepSeek-é", "Σ-gpt", "gpt-5-ß", "gro\u{212A}-4.5"] {
        assert_eq!(supports_reasoning_effort(model), supports_reasoning_effort(&model.to_ascii_uppercase()), "{model}");
    }
    assert!(!lowercase_model_takes_effort("GPT-5"));
    assert!(lowercase_model_takes_effort("gpt-5"));
}

#[test]
fn effort_goes_by_the_setting_and_then_by_the_budget() {
    let effort = |body: &str| resolve_reasoning_effort(&j(body));
    assert_eq!(effort(r#"{"output_config":{"effort":"max"},"thinking":{"type":"disabled"}}"#), Some("xhigh"));
    assert_eq!(effort(r#"{"output_config":{"effort":"odd"},"thinking":{"type":"adaptive"}}"#), None);
    assert_eq!(effort(r#"{"output_config":{"effort":1},"thinking":{"type":"adaptive"}}"#), Some("xhigh"));
    assert_eq!(effort(r#"{"thinking":{"type":"enabled","budget_tokens":3999}}"#), Some("low"));
    assert_eq!(effort(r#"{"thinking":{"type":"enabled","budget_tokens":4000}}"#), Some("medium"));
    assert_eq!(effort(r#"{"thinking":{"type":"enabled","budget_tokens":16000}}"#), Some("high"));
    assert_eq!(effort(r#"{"thinking":{"type":"enabled"}}"#), Some("high"));
    assert_eq!(effort("{}"), None);
    assert_eq!(clamp_reasoning_effort_for_deepseek("xhigh"), "max");
    assert_eq!(clamp_reasoning_effort_for_deepseek("low"), "low");
    assert_eq!(clamp_reasoning_effort_for_deepseek("medium"), "high");
}

#[test]
fn the_billing_line_is_stripped_with_one_blank_line() {
    let p = "x-anthropic-billing-header:";
    let cases = [
        (format!("{p} a\n\nrest"), "rest"),
        (format!("{p} a\r\n\r\nrest"), "rest"),
        (format!("{p} a\r\rrest"), "rest"),
        (format!("{p} a\nrest"), "rest"),
        (format!("{p} a\n\n\nrest"), "\nrest"),
        (format!("{p} a"), ""),
        (format!(" {p} a\nrest"), " x-anthropic-billing-header: a\nrest"),
    ];
    for (system, rest) in &cases {
        assert_eq!(strip_leading_anthropic_billing_header(system), *rest);
    }
}

#[test]
fn a_whole_request_in_the_chat_format() {
    let body = j(r#"{"model":"o3","system":[{"text":"A"},{"text":""},{"text":"B"}],"messages":[{"role":"user","content":"hi"}],"max_tokens":5,"temperature":1,"top_p":0.5,"stop_sequences":["x"],"stream":false,"tools":[{"name":"f","description":"d","input_schema":{"properties":{"u":{"type":"string","format":"uri"}}}},{"name":"SendMessage"},{"type":"BatchTool","name":"b"}],"tool_choice":{"type":"tool","name":"f"}}"#);
    assert_eq!(
        text(&anthropic_to_openai(&body).unwrap()),
        r#"{"max_completion_tokens":5,"messages":[{"content":"A\nB","role":"system"},{"content":"hi","role":"user"}],"model":"o3","stop":["x"],"stream":false,"temperature":1,"tool_choice":{"function":{"name":"f"},"type":"function"},"tools":[{"function":{"description":"d","name":"f","parameters":{"properties":{"u":{"type":"string"}},"type":"object"}},"type":"function"}],"top_p":0.5}"#
    );
}

#[test]
fn system_messages_are_moved_to_the_front() {
    let body = j(r#"{"messages":[{"role":"user","content":"a"},{"role":"system","content":"S"},{"role":"assistant","content":"b"}]}"#);
    let out = val(&anthropic_to_openai(&body).unwrap());
    let roles: Vec<&str> = out["messages"].as_array().unwrap().iter().map(|m| m["role"].as_str().unwrap()).collect();
    assert_eq!(roles, ["system", "user", "assistant"]);
    let body = j(r#"{"system":"S1","messages":[{"role":"user","content":"a"},{"role":"system","content":[{"type":"text","text":"S2"},{"type":"text","text":"S3"}]}]}"#);
    let out = val(&anthropic_to_openai(&body).unwrap());
    assert_eq!(out["messages"][0]["content"], "S1\nS2\nS3");
    assert_eq!(out["messages"].as_array().unwrap().len(), 2);
}

#[test]
fn tool_results_come_before_the_images_that_were_in_them() {
    let body = j(r#"{"messages":[{"role":"user","content":[{"type":"tool_result","tool_use_id":"t1","content":[{"type":"image","source":{"type":"base64","media_type":"image/png","data":"abc"}}]},{"type":"tool_result","tool_use_id":"t2","content":{"b":1,"a":2}},{"type":"text","text":"look"}]}]}"#);
    let out = val(&anthropic_to_openai(&body).unwrap());
    let ms = out["messages"].as_array().unwrap();
    assert_eq!(ms.len(), 4);
    assert_eq!(ms[0]["role"], "tool");
    assert_eq!(ms[0]["tool_call_id"], "t1");
    assert_eq!(ms[1]["content"], r#"{"a":2,"b":1}"#);
    assert_eq!(ms[2]["role"], "user");
    assert_eq!(ms[2]["content"][1]["image_url"]["url"], "data:image/png;base64,abc");
    assert_eq!(ms[3]["content"], "look");
}

#[test]
fn reasoning_is_kept_beside_tool_calls() {
    let body = j(r#"{"messages":[{"role":"assistant","content":[{"type":"thinking","thinking":"why","signature":"theirs"},{"type":"redacted_thinking","data":"x"},{"type":"tool_use","id":"t","name":"f","input":{"a":1}}]}]}"#);
    let out = val(&anthropic_to_openai_with_reasoning_content(&body, true).unwrap());
    let m = &out["messages"][0];
    assert_eq!(m["content"], Value::Null);
    assert_eq!(m["reasoning_content"], "why\n[redacted thinking]");
    assert_eq!(m["tool_calls"][0]["function"]["arguments"], r#"{"a":1}"#);
    let out = val(&anthropic_to_openai(&body).unwrap());
    assert_eq!(out["messages"][0]["reasoning_content"], Value::Null);
    let bare = j(r#"{"messages":[{"role":"assistant","content":[{"type":"tool_use","id":"t","name":"f"}]}]}"#);
    let out = val(&anthropic_to_openai_with_reasoning_content(&bare, true).unwrap());
    assert_eq!(out["messages"][0]["reasoning_content"], "tool call");
}

#[test]
fn signatures_give_their_reasoning_back() {
    let item = j(r#"{"type":"reasoning","id":"rs_0001","summary":[{"type":"summary_text","text":"why"}]}"#);
    let envelope = encode_openai_reasoning_item(&item).unwrap();
    assert_eq!(recover_text(Some(&envelope)).as_deref(), Some("why"));
    assert_eq!(recover_text(Some("theirs")), None);
    assert_eq!(recover_text(None), None);
    assert!(keep_reasoning_item(Some(item)).is_some());
    assert!(keep_reasoning_item(Some(j(r#"{"type":"message"}"#))).is_none());
    assert!(keep_reasoning_item(None).is_none());
}

#[test]
fn schemas_are_cleaned_at_every_depth() {
    assert_eq!(text(&clean_schema(&j("{}"))), r#"{"properties":{},"type":"object"}"#);
    assert_eq!(text(&clean_schema(&j(r#"{"type":"string"}"#))), r#"{"type":"string"}"#);
    assert_eq!(
        text(&clean_schema(&j(r#"{"type":"array","format":"uri","items":{"format":"uri","items":{"format":"date"}}}"#))),
        r#"{"items":{"items":{"format":"date"}},"type":"array"}"#
    );
    assert_eq!(text(&clean_schema(&j("5"))), "5");
}

#[test]
fn usage_is_asked_for_in_streams() {
    assert_eq!(text(&inject_openai_stream_include_usage(j(r#"{"stream":false}"#))), r#"{"stream":false}"#);
    assert_eq!(
        text(&inject_openai_stream_include_usage(j(r#"{"stream":true,"stream_options":{"a":1}}"#))),
        r#"{"stream":true,"stream_options":{"a":1,"include_usage":true}}"#
    );
    assert_eq!(
        text(&inject_openai_stream_include_usage(j(r#"{"stream":true,"stream_options":5}"#))),
        r#"{"stream":true,"stream_options":{"include_usage":true}}"#
    );
}

#[test]
fn messages_are_summarised() {
    let summary = |message: &str| {
        let input = Json::Object(ai_bridge::json::JsonObject::new().with("message", Json::text(message)));
        val(&ensure_send_message_summary(input))["summary"].as_str().unwrap().to_string()
    };
    assert_eq!(summary("short"), "short");
    assert_eq!(summary(&"a".repeat(50)), "a".repeat(50));
    assert_eq!(summary(&"a".repeat(51)), format!("{}...", "a".repeat(47)));
    assert_eq!(summary(&"é".repeat(26)), format!("{}...", "é".repeat(23)));
    assert_eq!(text(&ensure_send_message_summary(j("{}"))), r#"{"summary":"Agent communication"}"#);
    assert_eq!(text(&ensure_send_message_summary(j(r#"{"summary":1}"#))), r#"{"summary":1}"#);
    assert_eq!(text(&ensure_send_message_summary(j("[1]"))), "[1]");
}

#[test]
fn a_whole_chat_response_in_the_anthropic_format() {
    let body = j(r#"{"id":"c","choices":[{"message":{"reasoning_content":"why","content":[{"type":"text","text":"a"},{"type":"refusal","refusal":"no"},{"type":"text","text":""}],"tool_calls":[{"id":"t","function":{"name":"f","arguments":"{\"x\":1}"}},{"id":"u","function":{"name":"g","arguments":"broken"}}]}}],"usage":{"prompt_tokens":10,"completion_tokens":3,"prompt_tokens_details":{"cached_tokens":4}}}"#);
    assert_eq!(
        text(&openai_to_anthropic(&body, "sonnet").unwrap()),
        r#"{"content":[{"thinking":"why","type":"thinking"},{"text":"a","type":"text"},{"text":"no","type":"text"},{"id":"t","input":{"x":1},"name":"f","type":"tool_use"},{"id":"u","input":{},"name":"g","type":"tool_use"}],"id":"c","model":"sonnet","role":"assistant","stop_reason":"tool_use","stop_sequence":null,"type":"message","usage":{"cache_read_input_tokens":4,"input_tokens":6,"output_tokens":3}}"#
    );
}

#[test]
fn a_legacy_function_call_becomes_a_tool_use() {
    let body = j(r#"{"choices":[{"message":{"function_call":{"name":"f","arguments":{"x":1}}},"finish_reason":"function_call"}]}"#);
    let out = val(&openai_to_anthropic(&body, "m").unwrap());
    assert_eq!(out["content"][0]["input"]["x"], 1);
    assert_eq!(out["stop_reason"], "tool_use");
    assert_eq!(out["usage"]["input_tokens"], 0);
}

#[test]
fn arguments_of_function_calls_are_checked() {
    assert_eq!(text(&function_call_input("f", Ok(j(r#"{"a":1}"#)), true).unwrap()), r#"{"a":1}"#);
    assert_eq!(text(&function_call_input("Read", Ok(j(r#"{"pages":"","p":1}"#)), true).unwrap()), r#"{"p":1}"#);
    assert_eq!(text(&function_call_input("f", Ok(j("[]")), false).unwrap()), "{}");
    assert_eq!(text(&function_call_input("f", Err("cut".to_string()), false).unwrap()), "{}");
    match function_call_input("f", Ok(j("[]")), true) {
        Err(Error::Transform(m)) => assert_eq!(m, "Function call arguments for 'f' must be a JSON object"),
        _ => panic!("a list is no input"),
    }
    match function_call_input("f", Err("cut".to_string()), true) {
        Err(Error::Transform(m)) => assert_eq!(m, "Invalid function_call arguments for 'f': cut"),
        _ => panic!("broken arguments are no input"),
    }
}

#[test]
fn responses_that_failed_are_refused() {
    let refused = |body: &str| match responses_to_anthropic(&j(body), "m") {
        Err(Error::Transform(m)) => m,
        _ => panic!("{body}"),
    };
    assert_eq!(refused(r#"{"status":"completed"}"#), "No output in response");
    assert!(refused(r#"{"status":"cancelled"}"#).starts_with("Responses upstream cancelled the response: "));
    assert!(refused(r#"{"error":{"message":"x"}}"#).starts_with("Responses upstream returned an error envelope: x"));
}

#[test]
fn failures_carry_their_reason() {
    let told = |document: Option<Json>, body: &str| {
        let (v, reason) = error_payload(document, body);
        assert_eq!(val(&v)["error"]["message"], reason.as_str());
        reason
    };
    assert_eq!(told(Some(j(r#"{"error":{"message":"a  b","code":1}}"#)), "ignored"), "a b");
    assert_eq!(told(Some(j(r#"{"message":"m"}"#)), "ignored"), "m");
    assert_eq!(told(Some(j(r#"{"error":"text"}"#)), "raw\nbody"), "raw body");
    assert_eq!(told(Some(j("[1]")), "[1]"), "[1]");
    assert_eq!(told(None, " \n "), "Unknown error");
    assert_eq!(told(None, &"x".repeat(600)).len(), 500);
}
