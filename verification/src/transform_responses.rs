//! Anthropic Messages and OpenAI Responses: requests.
//!
//! Tool uses and tool results stand in the content of an Anthropic message; in a
//! Responses request they are items of the input by themselves.

use vstd::prelude::*;
use vstd::string::*;
use crate::convert::{bool_at, clean, clean_schema, effort_for_upstream, extend, opt_as_text, opt_bool, strip_leading_anthropic_billing_header, upstream_effort, with_text, without_billing_header};
use crate::convert_message::{copy_or_empty_object, or_empty_object};
use crate::convert_reverse::{insert_list, with_list};
use crate::error::Error;
use crate::json::{Json, JsonObject, JsonV, field_is, group_models, insert_some, lemma_step, lemma_whole, models, opt_json, opt_model};
use crate::json_canonical::{canonical_json_string, compact_text};
use crate::reasoning_bridge::{block_reasoning_item, is_reasoning, openai_reasoning_item_from_anthropic_block};
use crate::text::{has_prefix, join, join_texts, lemma_texts_push, starts_with, texts, trim, trimmed};
use crate::tool_media::{Replacement, ReplacementV, TOOL_RESULT_MEDIA_MOVED_MARKER, data_url, make_data_url, make_result_text, result_text, rewrite, rewrite_images};

verus! {

/// What marks the result of a tool that failed.
pub const TOOL_RESULT_ERROR_MARKER: &'static str = "[cc-switch:tool-result-error]";

/// Whether a URL can be fetched.
pub open spec fn is_web_url(url: Seq<char>) -> bool {
    has_prefix(url, "http://"@) || has_prefix(url, "https://"@)
}

/// A Responses image.
pub open spec fn input_image(url: Seq<char>) -> Map<Seq<char>, JsonV> {
    map!["type"@ => JsonV::Text("input_image"@), "image_url"@ => JsonV::Text(url)]
}

/// The Responses image for an Anthropic image.
pub open spec fn responses_image(block: JsonV) -> Option<JsonV> {
    match block.get("source"@) {
        Some(source) => match source.str_at("type"@) {
            Some(kind) => if kind == "url"@ {
                match source.str_at("url"@) {
                    Some(url) => if is_web_url(url) {
                        Some(JsonV::Object(input_image(url)))
                    } else {
                        None
                    },
                    None => None,
                }
            } else if kind == "base64"@ {
                image_from_data(source)
            } else {
                None
            },
            None => image_from_data(source),
        },
        None => None,
    }
}

/// The Responses image for the data of an Anthropic image.
pub open spec fn image_from_data(source: JsonV) -> Option<JsonV> {
    let data = source.str_or("data"@, Seq::empty());
    if data.len() > 0 {
        Some(JsonV::Object(input_image(data_url(source.str_or("media_type"@, "image/png"@), data))))
    } else {
        None
    }
}

/// The name of a document.
pub open spec fn document_name(block: JsonV) -> Seq<char> {
    let named = match block.get("title"@) {
        Some(v) => Some(v),
        None => block.get("filename"@),
    };
    match named {
        Some(JsonV::Text(t)) => t,
        _ => "document.pdf"@,
    }
}

/// A Responses file under `key`.
pub open spec fn input_file(key: Seq<char>, value: Seq<char>, name: Seq<char>) -> JsonV {
    JsonV::Object(
        map![
            "type"@ => JsonV::Text("input_file"@),
            key => JsonV::Text(value),
            "filename"@ => JsonV::Text(name),
        ],
    )
}

/// The Responses file for an Anthropic document.
pub open spec fn responses_file(block: JsonV) -> Option<JsonV> {
    match block.get("source"@) {
        Some(source) => if source.str_at("type"@) == Some("url"@) {
            match source.str_at("url"@) {
                Some(url) => if is_web_url(url) {
                    Some(input_file("file_url"@, url, document_name(block)))
                } else {
                    None
                },
                None => None,
            }
        } else if source.str_at("type"@) == Some("base64"@) {
            let data = source.str_or("data"@, Seq::empty());
            if data.len() > 0 {
                Some(
                    input_file(
                        "file_data"@,
                        data_url(source.str_or("media_type"@, "application/pdf"@), data),
                        document_name(block),
                    ),
                )
            } else {
                None
            }
        } else {
            None
        },
        None => None,
    }
}

/// A Responses text of a kind.
pub open spec fn typed_text(kind: Seq<char>, t: Seq<char>) -> JsonV {
    JsonV::Object(map!["type"@ => JsonV::Text(kind), "text"@ => JsonV::Text(t)])
}

/// A Responses input text.
pub open spec fn input_text(t: Seq<char>) -> JsonV {
    typed_text("input_text"@, t)
}

/// Whether a part is plain text.
pub open spec fn is_text_part(part: JsonV) -> bool {
    ||| part.str_at("type"@) == Some("input_text"@)
    ||| part.str_at("type"@) == Some("output_text"@)
    ||| part.str_at("type"@) == Some("text"@)
}

/// The texts for the parts of a tool result without images.
pub open spec fn cleaned_parts(parts: Seq<JsonV>) -> Seq<JsonV>
    decreases parts.len(),
{
    if parts.len() == 0 {
        Seq::empty()
    } else {
        let front = cleaned_parts(parts.drop_last());
        if is_text_part(parts.last()) {
            match parts.last().str_at("text"@) {
                Some(t) => front.push(input_text(t)),
                None => front,
            }
        } else {
            front.push(input_text(compact_text(parts.last())))
        }
    }
}

/// The texts for a tool result without images.
pub open spec fn cleaned_output(v: JsonV) -> Seq<JsonV> {
    match v {
        JsonV::Text(t) => if t.len() > 0 {
            seq![input_text(t)]
        } else {
            Seq::empty()
        },
        JsonV::Array(parts) => cleaned_parts(parts),
        JsonV::Null => Seq::empty(),
        _ => if v is Object && is_text_part(v) {
            match v.str_at("text"@) {
                Some(t) => seq![input_text(t)],
                None => Seq::empty(),
            }
        } else {
            seq![input_text(compact_text(v))]
        },
    }
}

/// The Responses image for a Chat image, where its URL is not blank.
pub open spec fn image_of_part(part: JsonV) -> Option<JsonV> {
    match part.path2("image_url"@, "url"@) {
        Some(JsonV::Text(url)) => if trim(url).len() > 0 {
            Some(JsonV::Object(insert_some(input_image(url), "detail"@, part.path2("image_url"@, "detail"@))))
        } else {
            None
        },
        _ => None,
    }
}

/// The Responses images for Chat images.
pub open spec fn images_of_parts(parts: Seq<JsonV>) -> Seq<JsonV>
    decreases parts.len(),
{
    if parts.len() == 0 {
        Seq::empty()
    } else {
        match image_of_part(parts.last()) {
            Some(image) => images_of_parts(parts.drop_last()).push(image),
            None => images_of_parts(parts.drop_last()),
        }
    }
}

/// How images that are moved out of a tool result are replaced there.
pub open spec fn moved_in_responses() -> ReplacementV {
    ReplacementV::Fixed(input_text(TOOL_RESULT_MEDIA_MOVED_MARKER@), TOOL_RESULT_MEDIA_MOVED_MARKER@)
}

/// The output for a tool result with images in it: its texts, then its images.
pub open spec fn output_with_images(v: JsonV) -> Option<Seq<JsonV>> {
    let found = rewrite(v, 0, false, moved_in_responses(), 0);
    if found.parts.len() == 0 {
        None
    } else {
        Some(cleaned_output(found.value) + images_of_parts(found.parts))
    }
}

/// The output for a value of a tool result: with its images, or else as text.
pub open spec fn output_or_text(v: JsonV) -> Seq<JsonV> {
    match output_with_images(v) {
        Some(out) => out,
        None => seq![input_text(result_text(v))],
    }
}

/// The output for one part of a tool result.
pub open spec fn output_of_part(part: JsonV) -> Seq<JsonV> {
    if part.str_at("type"@) == Some("text"@) {
        match part.str_at("text"@) {
            Some(t) => seq![input_text(t)],
            None => Seq::empty(),
        }
    } else if part.str_at("type"@) == Some("image"@) && responses_image(part) is Some {
        seq![responses_image(part)->0]
    } else if part.str_at("type"@) == Some("document"@) {
        match responses_file(part) {
            Some(file) => seq![file],
            None => seq![input_text(compact_text(part))],
        }
    } else {
        match output_with_images(part) {
            Some(out) => out,
            None => seq![input_text(compact_text(part))],
        }
    }
}

/// The output for the parts of a tool result.
pub open spec fn output_of_parts(parts: Seq<JsonV>) -> Seq<JsonV>
    decreases parts.len(),
{
    if parts.len() == 0 {
        Seq::empty()
    } else {
        output_of_parts(parts.drop_last()) + output_of_part(parts.last())
    }
}

/// The output for the content of a tool result.
pub open spec fn output_of_content(content: Option<JsonV>) -> Seq<JsonV> {
    match content {
        Some(JsonV::Array(parts)) => output_of_parts(parts),
        Some(v) => output_or_text(v),
        None => Seq::empty(),
    }
}

/// The output of a function call for a tool result.
pub open spec fn responses_output(block: JsonV) -> JsonV {
    let failed = opt_bool(block.get("is_error"@)) == Some(true);
    let content = block.get("content"@);
    if !failed && content is Some && content->0 is Text {
        match output_with_images(content->0) {
            Some(out) => JsonV::Array(out),
            None => content->0,
        }
    } else if failed {
        JsonV::Array(seq![input_text(TOOL_RESULT_ERROR_MARKER@)] + output_of_content(content))
    } else {
        JsonV::Array(output_of_content(content))
    }
}

/// The items that one Anthropic message has come to, and the content that is
/// still to become one.
pub struct TurnV {
    pub items: Seq<JsonV>,
    pub content: Seq<JsonV>,
}

/// A message item with a list of contents.
pub open spec fn content_item(role: Seq<char>, content: Seq<JsonV>) -> JsonV {
    JsonV::Object(map!["role"@ => JsonV::Text(role), "content"@ => JsonV::Array(content)])
}

/// The kind of text in a message of a role.
pub open spec fn text_kind(role: Seq<char>) -> Seq<char> {
    if role == "assistant"@ {
        "output_text"@
    } else {
        "input_text"@
    }
}

/// The turn with its content made an item.
pub open spec fn flushed_turn(acc: TurnV, role: Seq<char>) -> TurnV {
    if acc.content.len() > 0 {
        TurnV { items: acc.items.push(content_item(role, acc.content)), content: Seq::empty() }
    } else {
        acc
    }
}

/// The turn with an item of its own added.
pub open spec fn with_item(acc: TurnV, role: Seq<char>, item: JsonV) -> TurnV {
    let s = flushed_turn(acc, role);
    TurnV { items: s.items.push(item), ..s }
}

/// The turn with a piece of content added, where there is one.
pub open spec fn with_content(acc: TurnV, content: Option<JsonV>) -> TurnV {
    match content {
        Some(c) => TurnV { content: acc.content.push(c), ..acc },
        None => acc,
    }
}

/// The turn with one more block.
pub open spec fn add_turn_block(acc: TurnV, role: Seq<char>, block: JsonV) -> TurnV {
    let kind = block.str_or("type"@, Seq::empty());
    if kind == "text"@ {
        with_content(
            acc,
            match block.str_at("text"@) {
                Some(t) => Some(typed_text(text_kind(role), t)),
                None => None,
            },
        )
    } else if kind == "image"@ {
        with_content(acc, responses_image(block))
    } else if kind == "document"@ {
        with_content(acc, responses_file(block))
    } else if kind == "tool_use"@ {
        with_item(
            acc,
            role,
            JsonV::Object(
                map![
                    "type"@ => JsonV::Text("function_call"@),
                    "call_id"@ => JsonV::Text(block.str_or("id"@, Seq::empty())),
                    "name"@ => JsonV::Text(block.str_or("name"@, Seq::empty())),
                    "arguments"@ => JsonV::Text(compact_text(or_empty_object(block.get("input"@)))),
                ],
            ),
        )
    } else if kind == "tool_result"@ {
        with_item(
            acc,
            role,
            JsonV::Object(
                map![
                    "type"@ => JsonV::Text("function_call_output"@),
                    "call_id"@ => JsonV::Text(block.str_or("tool_use_id"@, Seq::empty())),
                    "output"@ => responses_output(block),
                ],
            ),
        )
    } else if kind == "thinking"@ || kind == "redacted_thinking"@ {
        match block_reasoning_item(block) {
            Some(item) => with_item(acc, role, item),
            None => acc,
        }
    } else {
        acc
    }
}

/// What a list of blocks comes to.
pub open spec fn turn_of_blocks(blocks: Seq<JsonV>, role: Seq<char>) -> TurnV
    decreases blocks.len(),
{
    if blocks.len() == 0 {
        TurnV { items: Seq::empty(), content: Seq::empty() }
    } else {
        add_turn_block(turn_of_blocks(blocks.drop_last(), role), role, blocks.last())
    }
}

/// Whether an item is something that a model generated after its reasoning.
pub open spec fn is_generated(item: JsonV) -> bool {
    item.str_at("type"@) == Some("function_call"@) || item.str_at("role"@) == Some("assistant"@)
}

/// The items without the reasoning that nothing generated follows. `followed`
/// says whether something generated follows the whole list.
pub open spec fn without_orphans(items: Seq<JsonV>, followed: bool) -> Seq<JsonV>
    decreases items.len(),
{
    if items.len() == 0 {
        Seq::empty()
    } else if is_reasoning(items.last()) {
        if followed {
            without_orphans(items.drop_last(), followed).push(items.last())
        } else {
            without_orphans(items.drop_last(), followed)
        }
    } else {
        without_orphans(items.drop_last(), followed || is_generated(items.last())).push(items.last())
    }
}

/// The items of the input for the content of one Anthropic message.
pub open spec fn items_of_content(role: Seq<char>, content: Option<JsonV>) -> Seq<JsonV> {
    match content {
        Some(JsonV::Text(t)) => seq![content_item(role, seq![typed_text(text_kind(role), t)])],
        Some(JsonV::Array(blocks)) => flushed_turn(turn_of_blocks(blocks, role), role).items,
        _ => seq![JsonV::Object(map!["role"@ => JsonV::Text(role)])],
    }
}

/// The items of the input for one Anthropic message.
pub open spec fn items_of_message(msg: JsonV) -> Seq<JsonV> {
    let role = msg.str_or("role"@, "user"@);
    let items = items_of_content(role, msg.get("content"@));
    if role == "assistant"@ {
        without_orphans(items, false)
    } else {
        items
    }
}

/// The input for a list of Anthropic messages.
pub open spec fn responses_input(ms: Seq<JsonV>) -> Seq<JsonV>
    decreases ms.len(),
{
    if ms.len() == 0 {
        Seq::empty()
    } else {
        responses_input(ms.drop_last()) + items_of_message(ms.last())
    }
}

/// The texts of a system prompt, without the empty ones.
pub open spec fn instruction_texts(parts: Seq<JsonV>) -> Seq<Seq<char>>
    decreases parts.len(),
{
    if parts.len() == 0 {
        Seq::empty()
    } else {
        let front = instruction_texts(parts.drop_last());
        match parts.last().str_at("text"@) {
            Some(t) => if without_billing_header(t).len() > 0 {
                front.push(without_billing_header(t))
            } else {
                front
            },
            None => front,
        }
    }
}

/// The instructions for a system prompt.
pub open spec fn instructions(system: JsonV) -> Seq<char> {
    match system {
        JsonV::Text(t) => without_billing_header(t),
        JsonV::Array(parts) => join(instruction_texts(parts), "\n\n"@),
        _ => Seq::empty(),
    }
}

/// The Responses functions for the tools of an Anthropic request.
pub open spec fn responses_tools(tools: Seq<JsonV>) -> Seq<JsonV>
    decreases tools.len(),
{
    if tools.len() == 0 {
        Seq::empty()
    } else if tools.last().str_at("type"@) == Some("BatchTool"@) {
        responses_tools(tools.drop_last())
    } else {
        let t = tools.last();
        responses_tools(tools.drop_last()).push(
            JsonV::Object(
                map![
                    "type"@ => JsonV::Text("function"@),
                    "name"@ => JsonV::Text(t.str_or("name"@, Seq::empty())),
                    "description"@ => t.at("description"@),
                    "parameters"@ => clean(or_empty_object(t.get("input_schema"@)), true),
                ],
            ),
        )
    }
}

/// An Anthropic tool choice in the Responses format.
pub open spec fn responses_tool_choice(choice: JsonV) -> JsonV {
    match choice {
        JsonV::Object(_) => match choice.str_at("type"@) {
            Some(t) => if t == "any"@ {
                JsonV::Text("required"@)
            } else if t == "auto"@ || t == "none"@ {
                JsonV::Text(t)
            } else if t == "tool"@ {
                JsonV::Object(
                    map![
                        "type"@ => JsonV::Text("function"@),
                        "name"@ => JsonV::Text(choice.str_or("name"@, Seq::empty())),
                    ],
                )
            } else {
                choice
            },
            None => choice,
        },
        _ => choice,
    }
}

/// The Responses request for an Anthropic request.
pub open spec fn responses_request(body: JsonV) -> JsonV {
    let m = insert_some(Map::empty(), "model"@, opt_as_text(body.str_at("model"@)));
    let text = instructions(body.at("system"@));
    let m = if text.len() > 0 {
        m.insert("instructions"@, JsonV::Text(text))
    } else {
        m
    };
    let m = match body.array_at("messages"@) {
        Some(ms) => m.insert("input"@, JsonV::Array(responses_input(ms))),
        None => m,
    };
    let m = insert_some(m, "max_output_tokens"@, body.get("max_tokens"@));
    let m = insert_some(m, "temperature"@, body.get("temperature"@));
    let m = insert_some(m, "top_p"@, body.get("top_p"@));
    let m = insert_some(m, "stream"@, body.get("stream"@));
    let effort = match body.str_at("model"@) {
        Some(model) => upstream_effort(body, model),
        None => None,
    };
    let m = match effort {
        Some(e) => m.insert("reasoning"@, JsonV::Object(map!["effort"@ => JsonV::Text(e)])),
        None => m,
    };
    let m = insert_list(m, "tools"@, responses_tools(body.items_at("tools"@)));
    JsonV::Object(
        match body.get("tool_choice"@) {
            Some(choice) => m.insert("tool_choice"@, responses_tool_choice(choice)),
            None => m,
        },
    )
}

fn is_fetchable(url: &str) -> (r: bool)
    ensures
        r == is_web_url(url@),
{
    starts_with(url, "http://") || starts_with(url, "https://")
}

fn make_input_image(url: &str) -> (r: JsonObject)
    ensures
        r@ == input_image(url@),
{
    JsonObject::new().with("type", Json::text("input_image")).with("image_url", Json::text(url))
}

fn image_of_data(source: &Json) -> (r: Option<Json>)
    ensures
        opt_json(r) == image_from_data(source@),
{
    let data = source.str_or_empty("data");
    if data.is_empty() {
        None
    } else {
        let url = make_data_url(source.str_or("media_type", "image/png"), data);
        Some(Json::Object(make_input_image(url.as_str())))
    }
}

fn anthropic_image_to_responses_part(block: &Json) -> (r: Option<Json>)
    ensures
        opt_json(r) == responses_image(block@),
{
    match block.get("source") {
        Some(source) => match source.str_at("type") {
            Some(kind) => if kind.eq("url") {
                match source.str_at("url") {
                    Some(url) => if is_fetchable(url) {
                        Some(Json::Object(make_input_image(url)))
                    } else {
                        None
                    },
                    None => None,
                }
            } else if kind.eq("base64") {
                image_of_data(source)
            } else {
                None
            },
            None => image_of_data(source),
        },
        None => None,
    }
}

fn make_input_file(key: &str, value: &str, name: &str) -> (r: Json)
    ensures
        r@ == input_file(key@, value@, name@),
{
    Json::Object(
        JsonObject::new().with("type", Json::text("input_file")).with(key, Json::text(value)).with(
            "filename",
            Json::text(name),
        ),
    )
}

fn anthropic_document_to_responses_part(block: &Json) -> (r: Option<Json>)
    ensures
        opt_json(r) == responses_file(block@),
{
    let source = match block.get("source") {
        Some(source) => source,
        None => {
            return None;
        },
    };
    let named = match block.get("title") {
        Some(v) => Some(v),
        None => block.get("filename"),
    };
    let name = match named {
        Some(v) => match v.as_str() {
            Some(t) => t,
            None => "document.pdf",
        },
        None => "document.pdf",
    };
    if field_is(source, "type", "url") {
        match source.str_at("url") {
            Some(url) => if is_fetchable(url) {
                Some(make_input_file("file_url", url, name))
            } else {
                None
            },
            None => None,
        }
    } else if field_is(source, "type", "base64") {
        let data = source.str_or_empty("data");
        if data.is_empty() {
            None
        } else {
            let url = make_data_url(source.str_or("media_type", "application/pdf"), data);
            Some(make_input_file("file_data", url.as_str(), name))
        }
    } else {
        None
    }
}

/// A Responses text of a kind.
pub(crate) fn make_typed_text(kind: &str, t: &str) -> (r: Json)
    ensures
        r@ == typed_text(kind@, t@),
{
    Json::Object(JsonObject::new().with("type", Json::text(kind)).with("text", Json::text(t)))
}

fn make_input_text(t: &str) -> (r: Json)
    ensures
        r@ == input_text(t@),
{
    make_typed_text("input_text", t)
}

fn has_text_type(part: &Json) -> (r: bool)
    ensures
        r == is_text_part(part@),
{
    field_is(part, "type", "input_text") || field_is(part, "type", "output_text") || field_is(part, "type", "text")
}

fn append_sanitized_responses_tool_value(value: &Json) -> (r: Vec<Json>)
    ensures
        models(r@) == cleaned_output(value@),
{
    broadcast use group_models;

    let mut out: Vec<Json> = Vec::new();
    match value {
        Json::Text(t) => {
            if !t.as_str().is_empty() {
                out.push(make_input_text(t.as_str()));
                assert(models(out@) =~= cleaned_output(value@));
            }
        },
        Json::Array(parts) => {
            let ghost all = models(parts@);
            assert(value@->Array_0 =~= all);
            let mut i: usize = 0;
            while i < parts.len()
                invariant
                    i <= parts@.len(),
                    all == models(parts@),
                    models(out@) == cleaned_parts(all.take(i as int)),
                decreases parts@.len() - i,
            {
                proof {
                    lemma_step(all, i as int);
                }
                let part = &parts[i];
                if has_text_type(part) {
                    if let Some(t) = part.str_at("text") {
                        out.push(make_input_text(t));
                    }
                } else {
                    out.push(make_input_text(canonical_json_string(part).as_str()));
                }
                i += 1;
            }
            proof {
                lemma_whole(all);
            }
        },
        Json::Null => {},
        Json::Object(_) => {
            if has_text_type(value) {
                if let Some(t) = value.str_at("text") {
                    out.push(make_input_text(t));
                    assert(models(out@) =~= cleaned_output(value@));
                }
            } else {
                out.push(make_input_text(canonical_json_string(value).as_str()));
                assert(models(out@) =~= cleaned_output(value@));
            }
        },
        _ => {
            out.push(make_input_text(canonical_json_string(value).as_str()));
            assert(models(out@) =~= cleaned_output(value@));
        },
    }
    out
}

fn responses_image_from_chat_media(part: &Json) -> (r: Option<Json>)
    ensures
        opt_json(r) == image_of_part(part@),
{
    match part.path2("image_url", "url") {
        Some(v) => match v.as_str() {
            Some(url) => if trimmed(url).is_empty() {
                None
            } else {
                Some(
                    Json::Object(
                        make_input_image(url).with_some("detail", part.path2("image_url", "detail")),
                    ),
                )
            },
            None => None,
        },
        None => None,
    }
}

fn collect_images(parts: &Vec<Json>) -> (r: Vec<Json>)
    ensures
        models(r@) == images_of_parts(models(parts@)),
{
    broadcast use group_models;

    let ghost all = models(parts@);
    let mut out: Vec<Json> = Vec::new();
    let mut i: usize = 0;
    while i < parts.len()
        invariant
            i <= parts@.len(),
            all == models(parts@),
            models(out@) == images_of_parts(all.take(i as int)),
        decreases parts@.len() - i,
    {
        proof {
            lemma_step(all, i as int);
        }
        if let Some(image) = responses_image_from_chat_media(&parts[i]) {
            out.push(image);
        }
        i += 1;
    }
    proof {
        lemma_whole(all);
    }
    out
}

fn alternate_image_tool_result_to_responses(value: &Json) -> (r: Option<Vec<Json>>)
    ensures
        match r {
            Some(out) => output_with_images(value@) == Some(models(out@)),
            None => output_with_images(value@) is None,
        },
{
    broadcast use group_models;

    let block = make_input_text(TOOL_RESULT_MEDIA_MOVED_MARKER);
    let how = Replacement::Fixed(&block, TOOL_RESULT_MEDIA_MOVED_MARKER);
    let mut parts: Vec<Json> = Vec::new();
    let cleaned = rewrite_images(value, 0, false, &how, &mut parts);
    let ghost found = rewrite(value@, 0, false, moved_in_responses(), 0);
    assert(models(parts@) =~= found.parts);
    assert(models(parts@).len() == parts@.len());
    if parts.len() == 0 {
        return None;
    }
    let mut out = append_sanitized_responses_tool_value(&cleaned);
    extend(&mut out, collect_images(&parts));
    Some(out)
}

fn push_output_or_text(list: &mut Vec<Json>, v: &Json)
    ensures
        models(final(list)@) == models(old(list)@) + output_or_text(v@),
{
    broadcast use group_models;

    let ghost before = models(list@);
    match alternate_image_tool_result_to_responses(v) {
        Some(out) => {
            extend(list, out);
        },
        None => {
            let text = make_result_text(v);
            list.push(make_input_text(text.as_str()));
            assert(models(list@) =~= before + output_or_text(v@));
        },
    }
}

fn push_output_of_part(list: &mut Vec<Json>, part: &Json)
    ensures
        models(final(list)@) == models(old(list)@) + output_of_part(part@),
{
    broadcast use group_models;

    let ghost before = models(list@);
    assert(before + Seq::<JsonV>::empty() =~= before);
    if field_is(part, "type", "text") {
        if let Some(t) = part.str_at("text") {
            list.push(make_input_text(t));
            assert(models(list@) =~= before + output_of_part(part@));
        }
        return;
    }
    if field_is(part, "type", "image") {
        if let Some(image) = anthropic_image_to_responses_part(part) {
            list.push(image);
            assert(models(list@) =~= before + output_of_part(part@));
            return;
        }
    }
    if field_is(part, "type", "document") {
        match anthropic_document_to_responses_part(part) {
            Some(file) => {
                list.push(file);
            },
            None => {
                list.push(make_input_text(canonical_json_string(part).as_str()));
            },
        }
        assert(models(list@) =~= before + output_of_part(part@));
        return;
    }
    match alternate_image_tool_result_to_responses(part) {
        Some(out) => {
            extend(list, out);
        },
        None => {
            list.push(make_input_text(canonical_json_string(part).as_str()));
            assert(models(list@) =~= before + output_of_part(part@));
        },
    }
}

fn push_output_of_content(list: &mut Vec<Json>, content: Option<&Json>)
    ensures
        models(final(list)@) == models(old(list)@) + output_of_content(opt_model(content)),
{
    let ghost before = models(list@);
    assert(before + Seq::<JsonV>::empty() =~= before);
    if let Some(v) = content {
        match v.as_array() {
            Some(parts) => {
                let ghost all = models(parts@);
                let mut i: usize = 0;
                assert(before + output_of_parts(all.take(0)) =~= before);
                while i < parts.len()
                    invariant
                        i <= parts@.len(),
                        all == models(parts@),
                        models(list@) == before + output_of_parts(all.take(i as int)),
                    decreases parts@.len() - i,
                {
                    proof {
                        lemma_step(all, i as int);
                    }
                    push_output_of_part(list, &parts[i]);
                    assert(models(list@) =~= before + output_of_parts(all.take(i + 1)));
                    i += 1;
                }
                proof {
                    lemma_whole(all);
                }
            },
            None => {
                push_output_or_text(list, v);
            },
        }
    }
}

/// The output of a function call for a tool result.
pub fn anthropic_tool_result_to_responses_output(block: &Json) -> (r: Json)
    ensures
        r@ == responses_output(block@),
{
    broadcast use group_models;

    let failed = bool_at(block, "is_error") == Some(true);
    let content = block.get("content");
    if !failed {
        if let Some(v) = content {
            if let Json::Text(_) = v {
                return match alternate_image_tool_result_to_responses(v) {
                    Some(out) => Json::array(out),
                    None => v.copy(),
                };
            }
        }
    }
    let mut out: Vec<Json> = Vec::new();
    if failed {
        out.push(make_input_text(TOOL_RESULT_ERROR_MARKER));
    }
    let ghost lead = models(out@);
    push_output_of_content(&mut out, content);
    proof {
        if failed {
            assert(lead =~= seq![input_text(TOOL_RESULT_ERROR_MARKER@)]);
        } else {
            assert(lead + output_of_content(opt_model(content)) =~= output_of_content(opt_model(content)));
        }
    }
    Json::array(out)
}

struct Turn {
    items: Vec<Json>,
    content: Vec<Json>,
}

impl View for Turn {
    type V = TurnV;

    closed spec fn view(&self) -> TurnV {
        TurnV { items: models(self.items@), content: models(self.content@) }
    }
}

impl Turn {
    fn flush(&mut self, role: &str)
        ensures
            final(self)@ == flushed_turn(old(self)@, role@),
    {
        broadcast use group_models;

        assert(models(self.content@).len() == self.content@.len());
        if self.content.len() > 0 {
            let mut content: Vec<Json> = Vec::new();
            content.append(&mut self.content);
            assert(content@ =~= old(self).content@);
            assert(self.content@ =~= Seq::empty());
            self.items.push(
                Json::Object(
                    JsonObject::new().with("role", Json::text(role)).with("content", Json::array(content)),
                ),
            );
        }
    }

    fn add_item(&mut self, role: &str, item: Json)
        ensures
            final(self)@ == with_item(old(self)@, role@, item@),
    {
        broadcast use group_models;

        self.flush(role);
        self.items.push(item);
    }

    fn add_content(&mut self, content: Option<Json>)
        ensures
            final(self)@ == with_content(old(self)@, opt_json(content)),
    {
        broadcast use group_models;

        if let Some(c) = content {
            self.content.push(c);
        }
    }

    fn add_block(&mut self, role: &str, block: &Json)
        ensures
            final(self)@ == add_turn_block(old(self)@, role@, block@),
    {
        let kind = block.str_or_empty("type");
        if kind.eq("text") {
            let text_kind = if role.eq("assistant") {
                "output_text"
            } else {
                "input_text"
            };
            let content = match block.str_at("text") {
                Some(t) => Some(make_typed_text(text_kind, t)),
                None => None,
            };
            self.add_content(content);
        } else if kind.eq("image") {
            self.add_content(anthropic_image_to_responses_part(block));
        } else if kind.eq("document") {
            self.add_content(anthropic_document_to_responses_part(block));
        } else if kind.eq("tool_use") {
            let arguments = canonical_json_string(&copy_or_empty_object(block, "input"));
            self.add_item(
                role,
                Json::Object(
                    JsonObject::new().with("type", Json::text("function_call")).with(
                        "call_id",
                        Json::text(block.str_or_empty("id")),
                    ).with("name", Json::text(block.str_or_empty("name"))).with("arguments", Json::Text(arguments)),
                ),
            );
        } else if kind.eq("tool_result") {
            let output = anthropic_tool_result_to_responses_output(block);
            self.add_item(
                role,
                Json::Object(
                    JsonObject::new().with("type", Json::text("function_call_output")).with(
                        "call_id",
                        Json::text(block.str_or_empty("tool_use_id")),
                    ).with("output", output),
                ),
            );
        } else if kind.eq("thinking") || kind.eq("redacted_thinking") {
            if let Some(item) = openai_reasoning_item_from_anthropic_block(block) {
                self.add_item(role, item);
            }
        }
    }
}

fn convert_content(role: &str, content: Option<&Json>) -> (r: Vec<Json>)
    ensures
        models(r@) == items_of_content(role@, opt_model(content)),
{
    broadcast use group_models;

    let mut turn = Turn { items: Vec::new(), content: Vec::new() };
    if let Some(v) = content {
        if let Some(t) = v.as_str() {
            let kind = if role.eq("assistant") {
                "output_text"
            } else {
                "input_text"
            };
            let text = make_typed_text(kind, t);
            let ghost model = text@;
            turn.content.push(text);
            assert(models(turn.content@) =~= seq![model]);
            turn.flush(role);
            assert(turn@.items =~= items_of_content(role@, Some(v@)));
            return turn.items;
        }
        if let Some(blocks) = v.as_array() {
            let ghost all = models(blocks@);
            let mut i: usize = 0;
            while i < blocks.len()
                invariant
                    i <= blocks@.len(),
                    all == models(blocks@),
                    turn@ == turn_of_blocks(all.take(i as int), role@),
                decreases blocks@.len() - i,
            {
                proof {
                    lemma_step(all, i as int);
                }
                turn.add_block(role, &blocks[i]);
                i += 1;
            }
            proof {
                lemma_whole(all);
            }
            turn.flush(role);
            return turn.items;
        }
    }
    let mut out: Vec<Json> = Vec::new();
    out.push(Json::Object(JsonObject::new().with("role", Json::text(role))));
    assert(models(out@) =~= items_of_content(role@, opt_model(content)));
    out
}

fn remove_orphans(items: Vec<Json>) -> (r: Vec<Json>)
    ensures
        models(r@) == without_orphans(models(items@), false),
{
    let ghost all = models(items@);
    let ghost mut done: Seq<JsonV> = Seq::empty();
    let mut list = items;
    let mut followed = false;
    let mut i: usize = list.len();
    proof {
        lemma_whole(all);
        assert(all + done =~= all);
        assert(without_orphans(all, false) + done =~= without_orphans(all, false));
    }
    while i > 0
        invariant
            i <= all.len(),
            i <= list@.len(),
            models(list@) == all.take(i as int) + done,
            without_orphans(all, false) == without_orphans(all.take(i as int), followed) + done,
        decreases i,
    {
        i -= 1;
        let ghost front = all.take(i as int);
        let ghost before = done;
        let ghost was = followed;
        proof {
            lemma_step(all, i as int);
            assert(list@[i as int]@ == models(list@)[i as int]);
            assert(all[i as int] == list@[i as int]@);
        }
        let item = &list[i];
        let reasoning = field_is(item, "type", "reasoning");
        let generated = field_is(item, "type", "function_call") || field_is(item, "role", "assistant");
        if reasoning && !followed {
            let ghost old_list = list@;
            list.remove(i);
            proof {
                let full = all.take(i + 1) + done;
                assert(models(old_list) == full);
                assert(list@ == old_list.remove(i as int));
                assert(models(list@) =~= full.remove(i as int));
                assert(full =~= front + seq![all[i as int]] + done);
                assert(models(list@) =~= front + done);
            }
        } else {
            if !reasoning && generated {
                followed = true;
            }
            proof {
                done = seq![all[i as int]] + before;
                assert(models(list@) =~= front + done);
                assert(without_orphans(all, false) =~= without_orphans(front, followed) + done);
            }
        }
    }
    proof {
        assert(all.take(0) =~= Seq::empty());
        assert(models(list@) =~= done);
        assert(without_orphans(all, false) =~= done);
    }
    list
}

/// Convert Anthropic messages array to Responses API input array.
pub fn convert_messages_to_input(messages: &Vec<Json>) -> (r: Vec<Json>)
    ensures
        models(r@) == responses_input(models(messages@)),
{
    broadcast use group_models;

    let ghost all = models(messages@);
    let mut out: Vec<Json> = Vec::new();
    let mut i: usize = 0;
    while i < messages.len()
        invariant
            i <= messages@.len(),
            all == models(messages@),
            models(out@) == responses_input(all.take(i as int)),
        decreases messages@.len() - i,
    {
        proof {
            lemma_step(all, i as int);
        }
        let msg = &messages[i];
        let role = msg.str_or("role", "user");
        let items = convert_content(role, msg.get("content"));
        if role.eq("assistant") {
            extend(&mut out, remove_orphans(items));
        } else {
            extend(&mut out, items);
        }
        i += 1;
    }
    proof {
        lemma_whole(all);
    }
    out
}

fn make_instructions(system: &Json) -> (r: String)
    ensures
        r@ == instructions(system@),
{
    broadcast use lemma_texts_push;

    if let Some(t) = system.as_str() {
        return strip_leading_anthropic_billing_header(t).to_owned();
    }
    let mut found: Vec<String> = Vec::new();
    assert(texts(found@) =~= Seq::empty());
    if let Some(parts) = system.as_array() {
        let ghost all = models(parts@);
        let mut i: usize = 0;
        while i < parts.len()
            invariant
                i <= parts@.len(),
                all == models(parts@),
                texts(found@) == instruction_texts(all.take(i as int)),
            decreases parts@.len() - i,
        {
            proof {
                lemma_step(all, i as int);
            }
            if let Some(t) = parts[i].str_at("text") {
                let text = strip_leading_anthropic_billing_header(t);
                if !text.is_empty() {
                    found.push(text.to_owned());
                }
            }
            i += 1;
        }
        proof {
            lemma_whole(all);
        }
        join_texts(&found, "\n\n")
    } else {
        String::new()
    }
}

fn make_responses_tools(tools: &Vec<Json>) -> (r: Vec<Json>)
    ensures
        models(r@) == responses_tools(models(tools@)),
{
    broadcast use group_models;

    let ghost all = models(tools@);
    let mut out: Vec<Json> = Vec::new();
    let mut i: usize = 0;
    while i < tools.len()
        invariant
            i <= tools@.len(),
            all == models(tools@),
            models(out@) == responses_tools(all.take(i as int)),
        decreases tools@.len() - i,
    {
        proof {
            lemma_step(all, i as int);
        }
        let t = &tools[i];
        if !field_is(t, "type", "BatchTool") {
            let schema = copy_or_empty_object(t, "input_schema");
            out.push(
                Json::Object(
                    JsonObject::new().with("type", Json::text("function")).with(
                        "name",
                        Json::text(t.str_or_empty("name")),
                    ).with("description", t.copy_at("description")).with("parameters", clean_schema(&schema)),
                ),
            );
        }
        i += 1;
    }
    proof {
        lemma_whole(all);
    }
    out
}

/// An Anthropic tool choice in the Responses format.
pub fn map_tool_choice_to_responses(tool_choice: &Json) -> (r: Json)
    ensures
        r@ == responses_tool_choice(tool_choice@),
{
    match tool_choice {
        Json::Object(_) => match tool_choice.str_at("type") {
            Some(t) => if t.eq("any") {
                Json::text("required")
            } else if t.eq("auto") || t.eq("none") {
                Json::text(t)
            } else if t.eq("tool") {
                Json::Object(
                    JsonObject::new().with("type", Json::text("function")).with(
                        "name",
                        Json::text(tool_choice.str_or_empty("name")),
                    ),
                )
            } else {
                tool_choice.copy()
            },
            None => tool_choice.copy(),
        },
        _ => tool_choice.copy(),
    }
}

/// Anthropic request to OpenAI Responses request.
///
/// The outgoing `model` is taken from `body`, which the caller stamps with the
/// configured upstream model.
pub fn anthropic_to_responses(body: &Json) -> (r: Result<Json, Error>)
    ensures
        r is Ok,
        r->Ok_0@ == responses_request(body@),
{
    broadcast use group_models;

    let mut m = with_text(JsonObject::new(), "model", body.str_at("model"));
    let text = make_instructions(&body.copy_at("system"));
    if !text.as_str().is_empty() {
        m = m.with("instructions", Json::Text(text));
    }
    if let Some(ms) = body.array_at("messages") {
        m = m.with("input", Json::array(convert_messages_to_input(ms)));
    }
    m = m.with_some("max_output_tokens", body.get("max_tokens"));
    m = m.with_some("temperature", body.get("temperature"));
    m = m.with_some("top_p", body.get("top_p"));
    m = m.with_some("stream", body.get("stream"));
    let effort = match body.str_at("model") {
        Some(model) => effort_for_upstream(body, model),
        None => None,
    };
    if let Some(e) = effort {
        m = m.with("reasoning", Json::Object(JsonObject::new().with("effort", Json::text(e))));
    }
    if let Some(tools) = body.array_at("tools") {
        m = with_list(m, "tools", make_responses_tools(tools));
    } else {
        assert(responses_tools(Seq::empty()) =~= Seq::empty());
    }
    if let Some(choice) = body.get("tool_choice") {
        m = m.with("tool_choice", map_tool_choice_to_responses(choice));
    }
    Ok(Json::Object(m))
}

/// Reasoning that is kept in an assistant turn is followed by something that was
/// generated after it.
pub proof fn law_kept_reasoning_is_followed(items: Seq<JsonV>, i: int)
    requires
        0 <= i < without_orphans(items, false).len(),
        is_reasoning(without_orphans(items, false)[i]),
    ensures
        exists|j: int|
            i < j < without_orphans(items, false).len() && #[trigger] is_generated(
                without_orphans(items, false)[j],
            ),
{
    lemma_kept_reasoning(items, false, i);
}

proof fn lemma_kept_reasoning(items: Seq<JsonV>, followed: bool, i: int)
    requires
        0 <= i < without_orphans(items, followed).len(),
        is_reasoning(without_orphans(items, followed)[i]),
    ensures
        followed || exists|j: int|
            i < j < without_orphans(items, followed).len() && #[trigger] is_generated(
                without_orphans(items, followed)[j],
            ),
    decreases items.len(),
{
    let out = without_orphans(items, followed);
    let front = items.drop_last();
    let last = items.last();
    if !followed {
        if is_reasoning(last) {
            lemma_kept_reasoning(front, followed, i);
        } else {
            let rest = without_orphans(front, is_generated(last));
            assert(out == rest.push(last));
            assert(i < rest.len());
            assert(rest[i] == out[i]);
            lemma_kept_reasoning(front, is_generated(last), i);
            if is_generated(last) {
                assert(is_generated(out[out.len() - 1]));
            } else {
                let j = choose|j: int| i < j < rest.len() && #[trigger] is_generated(rest[j]);
                assert(is_generated(out[j]));
            }
        }
    }
}

} // verus!
