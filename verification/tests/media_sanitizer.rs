use ai_bridge::convert::anthropic_to_openai_with_reasoning_content;
use ai_bridge::error::LocalEntry;
use ai_bridge::json::Json;
use ai_bridge::json_canonical::canonical_json_string;
use ai_bridge::json_text::parse_json;
use ai_bridge::media_sanitizer::{
    is_confirmed_text_only_model, replace_images_for_text_only_model, strip_images_for_text_only_model,
};
use ai_bridge::tool_media::UNSUPPORTED_IMAGE_MARKER;
use serde_json::Value;

const IMAGE: &str = r##"{"type": "image", "source": {"type": "base64", "media_type": "image/png", "data": "abc"}}"##;

fn j(text: &str) -> Json {
    parse_json(text).unwrap()
}

/// The same document as the JSON library holds it, for indexing.
fn val(v: &Json) -> Value {
    serde_json::from_str(&canonical_json_string(v)).unwrap()
}

fn quote(text: &str) -> String {
    serde_json::to_string(text).unwrap()
}

fn with_tool_result(content: &str) -> Json {
    j(&format!(
        r##"{{"messages": [{{"role": "user", "content": [
            {{"type": "tool_result", "tool_use_id": "toolu_1", "content": {content}}}
        ]}}]}}"##
    ))
}

#[test]
fn deepseek_models_are_classified_text_only() {
    for model in [
        "deepseek-v4-flash",
        "deepseek-v4-pro",
        "deepseek/deepseek-v4-pro",
        "deepseek-chat",
        "deepseek-reasoner",
    ] {
        assert!(is_confirmed_text_only_model(model), "{model}");
    }
}

#[test]
fn registry_normalizes_namespaces_and_context_markers() {
    assert!(is_confirmed_text_only_model("deepseek/deepseek-v4-pro"));
    assert!(is_confirmed_text_only_model("GLM-5.2[1M]"));
    assert!(is_confirmed_text_only_model("Qwen/Qwen3-Coder-480B-A35B-Instruct"));
    assert!(is_confirmed_text_only_model("MiniMax-M2.7-Highspeed"));
    assert!(is_confirmed_text_only_model("LongCat-2.0"));
    assert!(!is_confirmed_text_only_model("glm-5.2v"));
}

#[test]
fn vision_and_unknown_models_fail_open() {
    for model in ["gpt-5.4", "sonnet-5", "qwen3-coder-vl", "glm-5.2v"] {
        assert!(!is_confirmed_text_only_model(model), "{model}");
    }
}

#[test]
fn deepseek_replaces_direct_image_block_and_preserves_cache_control() {
    let body = j(&format!(
        r##"{{"messages": [{{"role": "user", "content": [
            {{"type": "text", "text": "look"}},
            {IMAGE},
            {{"type": "image", "cache_control": {{"type": "ephemeral"}},
              "source": {{"type": "base64", "media_type": "image/jpeg", "data": "def"}}}}
        ]}}]}}"##
    ));

    let (body, count) = replace_images_for_text_only_model(&body, "deepseek-v4-flash");

    assert_eq!(count, 2);
    let body = val(&body);
    let content = &body["messages"][0]["content"];
    assert_eq!(content[1]["type"], "text");
    assert_eq!(content[1]["text"], UNSUPPORTED_IMAGE_MARKER);
    assert_eq!(content[2]["type"], "text");
    assert_eq!(content[2]["cache_control"]["type"], "ephemeral");
    assert!(!body.to_string().contains("image_url"));
}

#[test]
fn deepseek_replaces_tool_result_image_blocks() {
    let body = with_tool_result(&format!(r##"[{{"type": "text", "text": "here is the screenshot"}}, {IMAGE}]"##));

    let (body, count) = replace_images_for_text_only_model(&body, "deepseek/deepseek-v4-pro");

    assert_eq!(count, 1);
    let body = val(&body);
    let tool_content = &body["messages"][0]["content"][0]["content"];
    assert_eq!(tool_content[0]["type"], "text");
    assert_eq!(tool_content[1]["type"], "text");
    assert_eq!(tool_content[1]["text"], UNSUPPORTED_IMAGE_MARKER);
    assert!(!body.to_string().contains("image_url"));
}

#[test]
fn deepseek_replaces_stringified_json_tool_result_image() {
    let inner =
        r##"{"content":[{"type":"image","mimeType":"image/png","data":"STRINGIFIED_IMAGE_SENTINEL"}]}"##;
    let body = with_tool_result(&quote(inner));

    let (body, count) = replace_images_for_text_only_model(&body, "deepseek-v4-flash");

    assert_eq!(count, 1);
    let body = val(&body);
    let rewritten = body["messages"][0]["content"][0]["content"].as_str().unwrap();
    assert!(rewritten.contains(UNSUPPORTED_IMAGE_MARKER));
    assert!(!rewritten.contains("STRINGIFIED_IMAGE_SENTINEL"));
}

#[test]
fn vision_model_and_unknown_model_keep_images() {
    for model in ["gpt-5.4", "sonnet-5", "deepseek-vision-unknown"] {
        let body = j(&format!(r##"{{"messages": [{{"role": "user", "content": [{IMAGE}]}}]}}"##));

        let (after, count) = replace_images_for_text_only_model(&body, model);

        assert_eq!(count, 0, "{model}");
        assert_eq!(val(&after), val(&body));
    }
}

#[test]
fn plain_text_tool_result_is_byte_stable() {
    let body = with_tool_result("\"just some text output\"");

    let (after, count) = replace_images_for_text_only_model(&body, "deepseek-v4-flash");

    assert_eq!(count, 0);
    assert_eq!(canonical_json_string(&after), canonical_json_string(&body));
}

#[test]
fn whole_string_image_data_url_is_replaced() {
    let data_url = format!("data:image/png;base64,{}", "iVBORw0KGgoAAAANSUhEUgAAAAE".repeat(400));
    let body = with_tool_result(&quote(&data_url));

    let (after, count) = replace_images_for_text_only_model(&body, "deepseek-v4-pro");

    assert_eq!(count, 1);
    assert!(!canonical_json_string(&after).contains(&data_url));
}

#[test]
fn sanitize_then_convert_emits_no_image_url_for_text_only_model() {
    let read_image_body = j(&format!(
        r##"{{
        "model": "sonnet-5", "max_tokens": 4096, "stream": false,
        "messages": [
            {{"role": "user", "content": "read the file"}},
            {{"role": "user", "content": [{{
                "type": "tool_result", "tool_use_id": "toolu_1",
                "content": [{{"type": "text", "text": "screenshot:"}}, {IMAGE}]
            }}]}}
        ]}}"##
    ));

    // Text-only upstream: images stripped before conversion.
    let (sanitized, replaced) = replace_images_for_text_only_model(&read_image_body, "deepseek-v4-flash");
    assert_eq!(replaced, 1);
    let chat = anthropic_to_openai_with_reasoning_content(&sanitized, true).unwrap();
    let serialized = canonical_json_string(&chat);
    assert!(!serialized.contains("image_url"), "image_url must not reach a text-only upstream: {serialized}");

    // Vision-capable upstream: images must be preserved end to end.
    let chat = anthropic_to_openai_with_reasoning_content(&read_image_body, true).unwrap();
    assert!(
        canonical_json_string(&chat).contains("image_url"),
        "vision-capable upstream should still receive image_url"
    );
}

#[test]
fn the_prefix_of_a_namespace_is_dropped_however_often_it_stands() {
    assert!(is_confirmed_text_only_model(" models/models/DeepSeek-Chat "));
    assert!(!is_confirmed_text_only_model(""));
}

#[test]
fn images_of_responses_requests_are_stripped() {
    let body = j(r#"{"input":[{"type":"message","role":"user","content":[{"type":"input_image","image_url":"https://x.example/a.png"}]}]}"#);
    let (out, count) = strip_images_for_text_only_model(&body, LocalEntry::OaiResponses, "deepseek-v4-flash");
    assert_eq!(count, 1);
    let block = &val(&out)["input"][0]["content"][0];
    assert_eq!(block["type"], "text");
    assert_eq!(block["text"], "[Unsupported Image]");
    assert_eq!(strip_images_for_text_only_model(&body, LocalEntry::OaiChat, "deepseek-v4-flash").1, 0);
    assert_eq!(strip_images_for_text_only_model(&body, LocalEntry::OaiResponses, "gpt-5").1, 0);
}
