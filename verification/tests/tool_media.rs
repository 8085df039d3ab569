use ai_bridge::json::Json;
use ai_bridge::json_canonical::canonical_json_string;
use ai_bridge::json_text::parse_json;
use ai_bridge::tool_media::{
    chat_media_part_from_tool_part, image_to_content_part, plan_chat_tool_output_media, rewrite_images,
    whole_string_image_data_url, Replacement, TOOL_RESULT_MEDIA_MOVED_MARKER,
};

fn j(text: &str) -> Json {
    parse_json(text).unwrap()
}

fn text_of(v: &Json) -> String {
    canonical_json_string(v)
}

fn opt_text(v: Option<Json>) -> Option<String> {
    v.map(|v| canonical_json_string(&v))
}

const PNG: &str = r#"{"type":"image","source":{"type":"base64","media_type":"image/png","data":"abc"}}"#;
const PNG_PART: &str = r#"{"image_url":{"url":"data:image/png;base64,abc"},"type":"image_url"}"#;

#[test]
fn images_of_every_format_are_recognised() {
    assert_eq!(opt_text(chat_media_part_from_tool_part(&j(PNG))), Some(PNG_PART.to_string()));
    assert_eq!(
        opt_text(chat_media_part_from_tool_part(&j(r#"{"type":"image","data":"abc","mimeType":"image/png"}"#))),
        Some(PNG_PART.to_string())
    );
    assert_eq!(
        opt_text(chat_media_part_from_tool_part(&j(r#"{"type":"input_image","image_url":"http://x/y"}"#))),
        Some(r#"{"image_url":{"url":"http://x/y"},"type":"image_url"}"#.to_string())
    );
    assert_eq!(opt_text(chat_media_part_from_tool_part(&j(r#"{"type":"text","text":"a"}"#))), None);
    assert_eq!(
        opt_text(image_to_content_part(&j(r#"{"type":"input_image","data":"abc"}"#))),
        Some(r#"{"image_url":{"url":"data:image/jpeg;base64,abc"},"type":"image_url"}"#.to_string())
    );
    assert_eq!(opt_text(image_to_content_part(&j(r#"{"type":"image","source":{"type":"file"}}"#))), None);
}

#[test]
fn only_long_strings_count_as_images() {
    let url = |n: usize| format!("data:image/png;base64,{}", "A".repeat(n));
    assert!(whole_string_image_data_url(&url(8170)).is_some());
    assert!(whole_string_image_data_url(&url(8169)).is_none());
    assert!(whole_string_image_data_url(&format!("x{}", url(9000))).is_none());
    assert!(whole_string_image_data_url(&format!(" {} ", url(8170))).is_some());
}

#[test]
fn a_tool_result_without_images_has_no_plan() {
    assert!(plan_chat_tool_output_media(&j(r#"[{"type":"text","text":"a"}]"#)).is_none());
    assert!(plan_chat_tool_output_media(&j(r#""plain""#)).is_none());
    assert!(plan_chat_tool_output_media(&j("null")).is_none());
}

#[test]
fn images_are_moved_out_of_a_tool_result() {
    let plan = plan_chat_tool_output_media(&j(&format!(r#"[{{"type":"text","text":"a"}},{PNG}]"#))).unwrap();
    assert_eq!(plan.media_parts.iter().map(text_of).collect::<Vec<_>>(), [PNG_PART]);
    assert_eq!(
        plan.tool_content,
        format!(r#"[{{"text":"a","type":"text"}},{{"text":"{TOOL_RESULT_MEDIA_MOVED_MARKER}","type":"text"}}]"#)
    );
}

#[test]
fn images_in_json_text_are_moved_out() {
    let inner = format!(r#"{{"content":[{PNG}]}}"#);
    let plan = plan_chat_tool_output_media(&Json::Text(inner)).unwrap();
    assert_eq!(plan.media_parts.len(), 1);
    assert_eq!(
        plan.tool_content,
        format!(r#"{{"content":[{{"text":"{TOOL_RESULT_MEDIA_MOVED_MARKER}","type":"text"}}]}}"#)
    );
}

#[test]
fn images_that_stand_too_deep_are_left() {
    let nested = |n: usize| j(&format!("{}{PNG}{}", "[".repeat(n), "]".repeat(n)));
    assert!(plan_chat_tool_output_media(&nested(32)).is_some());
    assert!(plan_chat_tool_output_media(&nested(33)).is_none());
}

#[test]
fn no_image_is_left_after_a_second_search() {
    let v = j(&format!(r#"[{PNG},{{"content":[{PNG},{{"type":"input_image","data":"x"}}]}},"text"]"#));
    let descriptions = vec![Some("one".to_string()), None, Some("three".to_string())];
    let mut parts = Vec::new();
    let out = rewrite_images(&v, 0, true, &Replacement::Described(&descriptions), &mut parts);
    assert_eq!(parts.len(), 3);
    assert_eq!(
        text_of(&out),
        r#"[{"text":"one","type":"text"},{"content":[{"text":"[Unsupported Image]","type":"text"},{"text":"three","type":"text"}]},"text"]"#
    );
    let mut left = Vec::new();
    let same = rewrite_images(&out, 0, true, &Replacement::Described(&descriptions), &mut left);
    assert!(left.is_empty());
    assert_eq!(text_of(&same), text_of(&out));
    assert!(plan_chat_tool_output_media(&out).is_none());
}
