use ai_bridge::convert::anthropic_to_openai_with_reasoning_content;
use ai_bridge::error::{Error, LocalEntry};
use ai_bridge::forward::UpstreamType;
use ai_bridge::json::Json;
use ai_bridge::json_canonical::canonical_json_string;
use ai_bridge::json_text::parse_json;
use ai_bridge::tool_media::{plan_chat_tool_output_media, whole_string_image_data_url, UNSUPPORTED_IMAGE_MARKER};
use ai_bridge::vision::{
    build_vision_request, collect_image_slots, describe_images_in_body, extract_vision_text, image_fingerprint,
    plan_descriptions, replace_images_with_descriptions, PromptMode, VisionCache, VisionConfig, CACHE_TTL_SECONDS, AUTO_PROMPT, COMPACT_PROMPT,
    GENERAL_PROMPT, UI_PROMPT,
};
use serde_json::Value;

const IMAGE: &str = r##"{"type": "image", "source": {"type": "base64", "media_type": "image/png", "data": "abc"}}"##;

fn j(text: &str) -> Json {
    parse_json(text).unwrap()
}

/// The same document as the JSON library holds it, for indexing.
fn val(v: &Json) -> Value {
    serde_json::from_str(&canonical_json_string(v)).unwrap()
}

fn quote(text: &str) -> String {
    serde_json::to_string(text).unwrap()
}

fn descs(n: usize) -> Vec<Option<String>> {
    (0..n).map(|i| Some(format!("description {i}"))).collect()
}

fn big_data_url() -> String {
    format!("data:image/png;base64,{}", "A".repeat(9000))
}

fn anthropic_body(content: &str) -> Json {
    j(&format!(
        r##"{{"model": "sonnet-5", "messages": [{{"role": "user", "content": {content}}}]}}"##
    ))
}

fn tool_result(content: &str) -> Json {
    anthropic_body(&format!(
        r##"[{{"type": "tool_result", "tool_use_id": "toolu_1", "content": {content}}}]"##
    ))
}

fn text_of(v: &Value) -> Json {
    j(&v.to_string())
}

#[test]
fn collects_and_replaces_tool_result_array_image() {
    let body = tool_result(&format!(r##"[{{"type": "text", "text": "screenshot:"}}, {IMAGE}]"##));

    let (images, fps) = collect_image_slots(&body, LocalEntry::AnthropicMessages);
    assert_eq!(images.len(), 1);
    assert_eq!(fps.len(), 1);
    assert!(fps[0].is_some());
    assert_eq!(val(&images[0])["type"], "image_url");

    let (body, handled) = replace_images_with_descriptions(&body, LocalEntry::AnthropicMessages, &descs(1));
    assert_eq!(handled, 1);

    let body = val(&body);
    let content = &body["messages"][0]["content"][0]["content"];
    assert_eq!(content[0]["type"], "text");
    assert_eq!(content[1]["type"], "text");
    assert_eq!(content[1]["text"], "description 0");
    // A conversion no longer sees any media to extract.
    assert!(plan_chat_tool_output_media(&text_of(content)).is_none());
}

#[test]
fn replaces_stringified_json_tool_result_image() {
    let inner = format!(r##"{{"content": [{IMAGE}]}}"##);
    let body = tool_result(&quote(&inner));

    let (body, handled) = replace_images_with_descriptions(&body, LocalEntry::AnthropicMessages, &descs(1));
    assert_eq!(handled, 1);

    let rewritten = val(&body)["messages"][0]["content"][0]["content"].as_str().unwrap().to_string();
    assert!(rewritten.contains("description 0"));
    assert!(!rewritten.contains("\"image\""));
    assert!(plan_chat_tool_output_media(&j(&rewritten)).is_none());
}

#[test]
fn replaces_whole_string_data_url_tool_result() {
    let body = tool_result(&quote(&big_data_url()));

    let (images, _) = collect_image_slots(&body, LocalEntry::AnthropicMessages);
    assert_eq!(images.len(), 1);
    assert_eq!(val(&images[0])["image_url"]["url"], big_data_url());

    let (body, handled) = replace_images_with_descriptions(&body, LocalEntry::AnthropicMessages, &descs(1));
    assert_eq!(handled, 1);
    let body = val(&body);
    let content = body["messages"][0]["content"][0]["content"].as_str().unwrap();
    assert_eq!(content, "description 0");
    assert!(!content.contains("base64"));
}

#[test]
fn missing_description_falls_back_to_placeholder() {
    let body = tool_result(&format!("[{IMAGE}]"));

    let (body, handled) = replace_images_with_descriptions(&body, LocalEntry::AnthropicMessages, &vec![None]);
    assert_eq!(handled, 1);
    let body = val(&body);
    let content = &body["messages"][0]["content"][0]["content"];
    assert_eq!(content[0]["type"], "text");
    assert_eq!(content[0]["text"], UNSUPPORTED_IMAGE_MARKER);
}

#[test]
fn indices_stay_aligned_across_messages_and_nesting() {
    // Document order: a top-level image, one in a tool result, a top-level one.
    let body = j(&format!(
        r##"{{"messages": [
            {{"role": "user", "content": [{IMAGE}]}},
            {{"role": "user", "content": [
                {{"type": "tool_result", "tool_use_id": "toolu_1", "content": [{IMAGE}]}}
            ]}},
            {{"role": "user", "content": [{IMAGE}]}}
        ]}}"##
    ));

    let (images, _) = collect_image_slots(&body, LocalEntry::AnthropicMessages);
    assert_eq!(images.len(), 3);

    let (body, handled) = replace_images_with_descriptions(&body, LocalEntry::AnthropicMessages, &descs(3));
    assert_eq!(handled, 3);

    let body = val(&body);
    assert_eq!(body["messages"][0]["content"][0]["text"], "description 0");
    assert_eq!(body["messages"][1]["content"][0]["content"][0]["text"], "description 1");
    assert_eq!(body["messages"][2]["content"][0]["text"], "description 2");
}

#[test]
fn no_images_is_byte_stable() {
    let body = anthropic_body(r##"[{"type": "text", "text": "hello"}]"##);

    let (images, fps) = collect_image_slots(&body, LocalEntry::AnthropicMessages);
    assert!(images.is_empty());
    assert!(fps.is_empty());

    let (after, handled) = replace_images_with_descriptions(&body, LocalEntry::AnthropicMessages, &vec![]);
    assert_eq!(handled, 0);
    assert_eq!(canonical_json_string(&after), canonical_json_string(&body));
}

#[test]
fn small_string_data_url_is_left_as_text() {
    let small = format!("data:image/png;base64,{}", "A".repeat(4000));
    let body = tool_result(&quote(&small));

    let (images, _) = collect_image_slots(&body, LocalEntry::AnthropicMessages);
    assert!(images.is_empty());

    let (after, handled) = replace_images_with_descriptions(&body, LocalEntry::AnthropicMessages, &vec![]);
    assert_eq!(handled, 0);
    assert_eq!(canonical_json_string(&after), canonical_json_string(&body));
}

#[test]
fn loose_typeless_image_url_object_is_collected() {
    let body = tool_result(&format!(r##"[{{"image_url": {}}}]"##, quote(&big_data_url())));

    let (images, _) = collect_image_slots(&body, LocalEntry::AnthropicMessages);
    assert_eq!(images.len(), 1);
    assert_eq!(val(&images[0])["image_url"]["url"], big_data_url());
}

#[test]
fn string_and_object_same_image_share_fingerprint() {
    let url = big_data_url();
    let string_part = whole_string_image_data_url(&url).unwrap();
    let object_part = j(&format!(r##"{{"type": "image_url", "image_url": {{"url": {}}}}}"##, quote(&url)));

    let fp_str = image_fingerprint(&string_part);
    let fp_obj = image_fingerprint(&object_part);
    assert_eq!(fp_str, fp_obj);
    assert!(fp_str.is_some());
}

#[test]
fn end_to_end_no_image_url_reaches_upstream_shape() {
    let body = tool_result(&format!(r##"[{{"type": "text", "text": "screenshot:"}}, {IMAGE}]"##));

    let (body, handled) = replace_images_with_descriptions(&body, LocalEntry::AnthropicMessages, &descs(1));
    assert_eq!(handled, 1);

    let chat = anthropic_to_openai_with_reasoning_content(&body, true).unwrap();
    let serialized = canonical_json_string(&chat);
    assert!(!serialized.contains("image_url"), "image_url must not reach the upstream: {serialized}");
    // No message of its own carries tool media.
    let chat = val(&chat);
    for m in chat["messages"].as_array().unwrap() {
        assert_ne!(m["role"], "user", "synthetic user message leaked: {serialized}");
    }
}

fn config(upstream_type: UpstreamType) -> VisionConfig {
    VisionConfig {
        url: "https://v.example/v1/chat/completions".to_string(),
        api_key: "k".to_string(),
        model: "vl".to_string(),
        upstream_type,
        prompt_mode: PromptMode::Auto,
        custom_prompt: None,
        max_tokens: Some(1024),
    }
}

#[test]
fn fingerprint_is_the_fnv_hash_of_the_data() {
    let of = |data: &str| image_fingerprint(&j(&format!(r##"{{"source": {{"data": "{data}"}}}}"##)));
    assert_eq!(of(""), Some(0xcbf29ce484222325));
    assert_eq!(of("a"), Some(0xaf63dc4c8601ec8c));
    assert_eq!(of("foobar"), Some(0x85944171f73967e8));
    assert_eq!(image_fingerprint(&j("{}")), None);
}

#[test]
fn descriptions_are_kept_until_they_expire() {
    let body = anthropic_body(&format!("[{IMAGE}]"));
    let entry = LocalEntry::AnthropicMessages;
    let mut cache = VisionCache::new();

    let plan = plan_descriptions(&body, entry, &mut cache, 100);
    assert_eq!(plan.uncached.len(), 1);
    let (after, n) = describe_images_in_body(&body, entry, plan, Some("a cat"), &mut cache, 100);
    assert_eq!(n, 1);
    assert_eq!(val(&after)["messages"][0]["content"][0]["text"], "a cat");

    // The next request finds the description.
    let plan = plan_descriptions(&body, entry, &mut cache, 100 + CACHE_TTL_SECONDS - 1);
    assert!(plan.uncached.is_empty());
    let (after, _) = describe_images_in_body(&body, entry, plan, None, &mut cache, 101);
    assert_eq!(val(&after)["messages"][0]["content"][0]["text"], "a cat");

    // A later one does not.
    let plan = plan_descriptions(&body, entry, &mut cache, 100 + CACHE_TTL_SECONDS);
    assert_eq!(plan.uncached.len(), 1);
}

#[test]
fn a_blank_answer_leaves_the_marker() {
    let body = anthropic_body(&format!("[{IMAGE}]"));
    let entry = LocalEntry::AnthropicMessages;
    let mut cache = VisionCache::new();
    for reply in [None, Some("  \n")] {
        let plan = plan_descriptions(&body, entry, &mut cache, 0);
        let (after, n) = describe_images_in_body(&body, entry, plan, reply, &mut cache, 0);
        assert_eq!(n, 1);
        assert_eq!(val(&after)["messages"][0]["content"][0]["text"], UNSUPPORTED_IMAGE_MARKER);
    }
}

#[test]
fn labels_stay_correct_when_some_images_are_known() {
    let entry = LocalEntry::AnthropicMessages;
    let mut cache = VisionCache::new();
    let first = anthropic_body(&format!("[{IMAGE}]"));
    let plan = plan_descriptions(&first, entry, &mut cache, 0);
    describe_images_in_body(&first, entry, plan, Some("known"), &mut cache, 0);

    let other = IMAGE.replace("abc", "def");
    let both = anthropic_body(&format!("[{IMAGE}, {other}]"));
    let plan = plan_descriptions(&both, entry, &mut cache, 1);
    assert_eq!(plan.uncached.len(), 1);
    let request = val(&build_vision_request(&plan, &config(UpstreamType::OaiChat)));
    assert_eq!(request["model"], "vl");
    assert_eq!(request["stream"], false);
    assert_eq!(request["max_tokens"], 1024);
    let content = &request["messages"][0]["content"];
    assert_eq!(content[0]["text"], AUTO_PROMPT);
    assert_eq!(content[1]["text"], "[Image 2]");
    assert_eq!(content[2]["image_url"]["url"], "data:image/png;base64,def");
    assert_eq!(content.as_array().unwrap().len(), 3);
}

#[test]
fn a_prompt_of_ones_own_and_no_limit() {
    let entry = LocalEntry::AnthropicMessages;
    let mut cache = VisionCache::new();
    let body = anthropic_body(&format!("[{IMAGE}]"));
    let plan = plan_descriptions(&body, entry, &mut cache, 0);
    let mut vision = config(UpstreamType::AnthropicMessages);
    vision.custom_prompt = Some("What is this?".to_string());
    vision.max_tokens = None;
    let request = val(&build_vision_request(&plan, &vision));
    assert_eq!(request["messages"][0]["content"][0]["text"], "What is this?");
    assert!(request.get("max_tokens").is_none());
    assert!(request.get("stream").is_none());
}

#[test]
fn the_text_of_a_vision_response() {
    let anthropic = UpstreamType::AnthropicMessages;
    let reply = j(r##"{"content": [{"type": "text", "text": "a"}, {"type": "text", "text": "b"}]}"##);
    assert_eq!(extract_vision_text(&reply, anthropic).unwrap(), "a\nb");
    assert!(matches!(extract_vision_text(&j("{}"), anthropic), Err(Error::Transform(m)) if m == "Vision model returned no text"));

    let chat = UpstreamType::OaiChat;
    let reply = j(r##"{"choices": [{"message": {"content": "plain"}}]}"##);
    assert_eq!(extract_vision_text(&reply, chat).unwrap(), "plain");
    let reply = j(r##"{"choices": [{"message": {"content": [{"text": "part"}]}}]}"##);
    assert_eq!(extract_vision_text(&reply, chat).unwrap(), "part");
    assert!(extract_vision_text(&j(r##"{"choices": []}"##), chat).is_err());
}

#[test]
fn the_prompt_goes_by_the_mode_unless_one_is_set() {
    let body = anthropic_body(&format!("[{IMAGE}]"));
    let plan = plan_descriptions(&body, LocalEntry::AnthropicMessages, &mut VisionCache::new(), 0);
    let prompt = |mode: PromptMode, custom: Option<&str>| {
        let mut vision = config(UpstreamType::OaiChat);
        vision.prompt_mode = mode;
        vision.custom_prompt = custom.map(str::to_string);
        val(&build_vision_request(&plan, &vision))["messages"][0]["content"][0]["text"].as_str().unwrap().to_string()
    };
    assert_eq!(prompt(PromptMode::Auto, None), AUTO_PROMPT);
    assert_eq!(prompt(PromptMode::General, None), GENERAL_PROMPT);
    assert_eq!(prompt(PromptMode::Ui, None), UI_PROMPT);
    assert_eq!(prompt(PromptMode::Compact, None), COMPACT_PROMPT);
    assert_eq!(prompt(PromptMode::Ui, Some("Look.")), "Look.");
}
