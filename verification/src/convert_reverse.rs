//! OpenAI Chat requests for an Anthropic upstream, and its whole responses.

use vstd::prelude::*;
use vstd::string::*;
use crate::convert::{bool_at, extend, is_system, opt_as_text, opt_bool, with_text};
use crate::convert_message::{chat_tool_call, copy_or_empty_object, make_chat_tool_call, or_empty_object};
use crate::convert_response::{make_tool_use_block, outcome, parse_or_empty, parsed_or_empty, push_text_block, text_blocks, tool_use_block, zero_or};
use crate::error::{Error, ErrorV};
use crate::json::{Json, JsonObject, JsonV, field_is, group_models, insert_some, lemma_step, lemma_whole, make_text_block, models, num, opt_json, opt_model, opt_string, opt_text, or_zero, text_block};
use crate::json_canonical::{canonical_json_string, compact_text};
use crate::text::{ascii_lower, cat, cat3, chars_of, decimal, decimal_text, has_prefix, index_from, index_or_len, join, join_texts, lemma_texts_push, pieces, split_pieces, starts_with, string_of, strip_prefix, texts, to_ascii_lower, trim, trimmed};

verus! {

/// The parts of a base64 data URL: its media type and its data.
pub open spec fn data_url_parts(url: Seq<char>) -> Option<(Seq<char>, Seq<char>)> {
    let rest = url.skip("data:"@.len() as int);
    let n = index_or_len(rest, ',');
    let fields = pieces(rest.take(n), ';');
    if has_prefix(url, "data:"@) && 0 <= n < rest.len() && fields.last() == "base64"@ {
        Some((trim(fields[0]), rest.skip(n + 1)))
    } else {
        None
    }
}

/// An Anthropic image with its data.
pub open spec fn base64_image(media_type: Seq<char>, data: Seq<char>) -> JsonV {
    JsonV::Object(
        map![
            "type"@ => JsonV::Text("image"@),
            "source"@ => JsonV::Object(
                map![
                    "type"@ => JsonV::Text("base64"@),
                    "media_type"@ => JsonV::Text(media_type),
                    "data"@ => JsonV::Text(data),
                ],
            ),
        ],
    )
}

/// An Anthropic image at a URL.
pub open spec fn url_image(url: Seq<char>) -> JsonV {
    JsonV::Object(
        map![
            "type"@ => JsonV::Text("image"@),
            "source"@ => JsonV::Object(map!["type"@ => JsonV::Text("url"@), "url"@ => JsonV::Text(url)]),
        ],
    )
}

/// The Anthropic image for a URL, which may hold the data itself.
pub open spec fn image_blocks(url: Seq<char>) -> Seq<JsonV> {
    if has_prefix(url, "data:"@) {
        match data_url_parts(url) {
            Some((media_type, data)) => seq![base64_image(media_type, data)],
            None => Seq::empty(),
        }
    } else {
        seq![url_image(url)]
    }
}

/// The string under `url` of the member under `image_url`, or the empty one.
pub open spec fn linked_url(part: JsonV) -> Seq<char> {
    match part.path2("image_url"@, "url"@) {
        Some(JsonV::Text(url)) => url,
        _ => Seq::empty(),
    }
}

/// The Anthropic blocks for one part of the content of a Chat message.
pub open spec fn chat_part_blocks(part: JsonV) -> Seq<JsonV> {
    let kind = part.str_or("type"@, Seq::empty());
    if kind == "text"@ || kind == "input_text"@ {
        text_blocks(part.str_at("text"@))
    } else if kind == "image_url"@ {
        image_blocks(linked_url(part))
    } else if kind == "input_image"@ {
        match part.str_at("image_url"@) {
            Some(url) => image_blocks(url),
            None => match part.str_at("data"@) {
                Some(data) => seq![base64_image(part.str_or("media_type"@, "image/jpeg"@), data)],
                None => Seq::empty(),
            },
        }
    } else if kind == "tool_call"@ {
        match part.str_at("id"@) {
            Some(id) => seq![
                tool_use_block(id, part.str_or("name"@, Seq::empty()), or_empty_object(part.get("arguments"@))),
            ],
            None => Seq::empty(),
        }
    } else {
        Seq::empty()
    }
}

/// The Anthropic blocks for the parts of the content of a Chat message.
pub open spec fn chat_parts_blocks(parts: Seq<JsonV>) -> Seq<JsonV>
    decreases parts.len(),
{
    if parts.len() == 0 {
        Seq::empty()
    } else {
        chat_parts_blocks(parts.drop_last()) + chat_part_blocks(parts.last())
    }
}

/// The Anthropic blocks for the content of a Chat message.
pub open spec fn chat_content_blocks(content: Option<JsonV>) -> Seq<JsonV> {
    match content {
        Some(JsonV::Text(t)) => text_blocks(Some(t)),
        Some(JsonV::Array(parts)) => chat_parts_blocks(parts),
        _ => Seq::empty(),
    }
}

/// The block for a tool call that an assistant made before.
pub open spec fn past_call_block(call: JsonV) -> JsonV {
    let function = or_empty_object(call.get("function"@));
    tool_use_block(
        call.str_or("id"@, Seq::empty()),
        function.str_or("name"@, Seq::empty()),
        parsed_or_empty(function.str_or("arguments"@, "{}"@)),
    )
}

/// The blocks for the tool calls that an assistant made before.
pub open spec fn past_call_blocks(calls: Seq<JsonV>) -> Seq<JsonV>
    decreases calls.len(),
{
    if calls.len() == 0 {
        Seq::empty()
    } else {
        past_call_blocks(calls.drop_last()).push(past_call_block(calls.last()))
    }
}

/// An Anthropic message.
pub open spec fn anthropic_turn(role: Seq<char>, blocks: Seq<JsonV>) -> JsonV {
    JsonV::Object(map!["role"@ => JsonV::Text(role), "content"@ => JsonV::Array(blocks)])
}

/// A block with the result of a tool.
pub open spec fn tool_result_block(id: Seq<char>, content: JsonV) -> JsonV {
    JsonV::Object(
        map![
            "type"@ => JsonV::Text("tool_result"@),
            "tool_use_id"@ => JsonV::Text(id),
            "content"@ => content,
        ],
    )
}

/// The Anthropic message for a Chat message that is no system message.
pub open spec fn anthropic_turn_of(msg: JsonV) -> JsonV {
    let role = msg.str_or("role"@, "user"@);
    if role == "user"@ || role == "assistant"@ || role == "developer"@ {
        let calls = if role == "assistant"@ {
            past_call_blocks(msg.items_at("tool_calls"@))
        } else {
            Seq::empty()
        };
        let blocks = chat_content_blocks(msg.get("content"@)) + calls;
        anthropic_turn(
            if role == "developer"@ {
                "user"@
            } else {
                role
            },
            if blocks.len() == 0 {
                seq![text_block(Seq::empty())]
            } else {
                blocks
            },
        )
    } else if role == "tool"@ {
        let content = match msg.get("content"@) {
            Some(JsonV::Text(t)) => JsonV::Text(t),
            Some(JsonV::Array(a)) => JsonV::Array(a),
            _ => JsonV::Text(Seq::empty()),
        };
        anthropic_turn("user"@, seq![tool_result_block(msg.str_or("tool_call_id"@, Seq::empty()), content)])
    } else {
        anthropic_turn("user"@, seq![text_block(msg.str_or("content"@, Seq::empty()))])
    }
}

/// The Anthropic messages for the Chat messages that are no system messages.
pub open spec fn anthropic_turns(ms: Seq<JsonV>) -> Seq<JsonV>
    decreases ms.len(),
{
    if ms.len() == 0 {
        Seq::empty()
    } else if is_system(ms.last()) {
        anthropic_turns(ms.drop_last())
    } else {
        anthropic_turns(ms.drop_last()).push(anthropic_turn_of(ms.last()))
    }
}

/// The text of one part of a Chat message, an image being named only.
pub open spec fn chat_part_text(part: JsonV) -> Option<Seq<char>> {
    match part.str_at("type"@) {
        Some(t) => if t == "text"@ || t == "input_text"@ {
            part.str_at("text"@)
        } else if t == "image_url"@ || t == "input_image"@ {
            Some("[image]"@)
        } else {
            None
        },
        None => None,
    }
}

/// The texts of the parts of a Chat message.
pub open spec fn chat_part_texts(parts: Seq<JsonV>) -> Seq<Seq<char>>
    decreases parts.len(),
{
    if parts.len() == 0 {
        Seq::empty()
    } else {
        match chat_part_text(parts.last()) {
            Some(t) => chat_part_texts(parts.drop_last()).push(t),
            None => chat_part_texts(parts.drop_last()),
        }
    }
}

/// The plain text of the content of a Chat message, where there is any.
pub open spec fn chat_text(content: Option<JsonV>) -> Option<Seq<char>> {
    match content {
        Some(JsonV::Text(t)) => if t.len() > 0 {
            Some(t)
        } else {
            None
        },
        Some(JsonV::Array(parts)) => if chat_part_texts(parts).len() > 0 {
            Some(join(chat_part_texts(parts), " "@))
        } else {
            None
        },
        _ => None,
    }
}

/// The texts of the system messages among Chat messages.
pub open spec fn system_prompts(ms: Seq<JsonV>) -> Seq<Seq<char>>
    decreases ms.len(),
{
    if ms.len() == 0 {
        Seq::empty()
    } else if is_system(ms.last()) {
        match chat_text(ms.last().get("content"@)) {
            Some(t) => system_prompts(ms.drop_last()).push(t),
            None => system_prompts(ms.drop_last()),
        }
    } else {
        system_prompts(ms.drop_last())
    }
}

/// A choice of a given type.
pub open spec fn typed_choice(t: Seq<char>) -> Map<Seq<char>, JsonV> {
    map!["type"@ => JsonV::Text(t)]
}

/// The string under `name` of the member under `function`, or the empty one.
pub open spec fn chosen_function(choice: JsonV) -> Seq<char> {
    match choice.path2("function"@, "name"@) {
        Some(JsonV::Text(t)) => t,
        _ => Seq::empty(),
    }
}

/// A Chat tool choice in the Anthropic format.
pub open spec fn anthropic_tool_choice(choice: JsonV) -> Option<Map<Seq<char>, JsonV>> {
    match choice {
        JsonV::Text(s) => if s == "none"@ || s == "auto"@ {
            Some(typed_choice(s))
        } else if s == "required"@ {
            Some(typed_choice("any"@))
        } else {
            None
        },
        JsonV::Object(_) => if choice.str_at("type"@) == Some("function"@) {
            let name = chosen_function(choice);
            if name.len() == 0 {
                Some(typed_choice("any"@))
            } else {
                Some(typed_choice("tool"@).insert("name"@, JsonV::Text(name)))
            }
        } else {
            None
        },
        _ => None,
    }
}

/// The tool choice of the Anthropic request for a Chat request, with the ban on
/// parallel calls in it.
pub open spec fn folded_tool_choice(body: JsonV) -> Option<JsonV> {
    let choice = match body.get("tool_choice"@) {
        Some(c) => anthropic_tool_choice(c),
        None => None,
    };
    if opt_bool(body.get("parallel_tool_calls"@)) == Some(false) {
        let m = match choice {
            Some(m) => m,
            None => typed_choice("auto"@),
        };
        Some(JsonV::Object(m.insert("disable_parallel_tool_use"@, JsonV::Bool(true))))
    } else {
        match choice {
            Some(m) => Some(JsonV::Object(m)),
            None => None,
        }
    }
}

/// A Chat function as an Anthropic tool, where it has a name.
pub open spec fn anthropic_tool(tool: JsonV) -> Option<JsonV> {
    match tool.get("function"@) {
        Some(function) => match function.str_at("name"@) {
            Some(name) => {
                let m = map![
                    "name"@ => JsonV::Text(name),
                    "input_schema"@ => or_empty_object(function.get("parameters"@)),
                ];
                Some(JsonV::Object(insert_some(m, "description"@, opt_as_text(function.str_at("description"@)))))
            },
            None => None,
        },
        None => None,
    }
}

/// The Anthropic tools for the functions of a Chat request.
pub open spec fn anthropic_tools(tools: Seq<JsonV>) -> Seq<JsonV>
    decreases tools.len(),
{
    if tools.len() == 0 {
        Seq::empty()
    } else {
        match anthropic_tool(tools.last()) {
            Some(t) => anthropic_tools(tools.drop_last()).push(t),
            None => anthropic_tools(tools.drop_last()),
        }
    }
}

/// The stop sequences of a Chat request as a list.
pub open spec fn stop_list(stop: Option<JsonV>) -> Seq<JsonV> {
    match stop {
        Some(JsonV::Text(s)) => seq![JsonV::Text(s)],
        Some(JsonV::Array(a)) => a,
        _ => Seq::empty(),
    }
}

/// The thinking that an effort asks for.
pub open spec fn thinking_of_effort(effort: Option<Seq<char>>) -> Option<JsonV> {
    match effort {
        Some(e) => Some(
            JsonV::Object(
                typed_choice(
                    if ascii_lower(e) == "none"@ {
                        "disabled"@
                    } else {
                        "enabled"@
                    },
                ),
            ),
        ),
        None => None,
    }
}

/// A list under `key`, where the list is not empty.
pub open spec fn insert_list(m: Map<Seq<char>, JsonV>, key: Seq<char>, list: Seq<JsonV>) -> Map<Seq<char>, JsonV> {
    if list.len() > 0 {
        m.insert(key, JsonV::Array(list))
    } else {
        m
    }
}

/// Why a request for several candidates is refused.
pub open spec fn several_candidates(n: u64) -> ErrorV {
    ErrorV::Unsupported(
        "n="@ + decimal(n as nat)
            + " is not supported when the upstream is Anthropic Messages (Anthropic returns a single candidate)"@,
    )
}

/// The Anthropic request for a Chat request.
pub open spec fn anthropic_request(body: JsonV) -> JsonV {
    let ms = body.items_at("messages"@);
    let prompts = system_prompts(ms);
    let m = insert_some(Map::empty(), "model"@, opt_as_text(body.str_at("model"@)));
    let m = if prompts.len() > 0 {
        m.insert("system"@, JsonV::Text(join(prompts, "\n\n"@)))
    } else {
        m
    };
    let m = insert_list(m, "messages"@, anthropic_turns(ms));
    let limit = match body.get("max_completion_tokens"@) {
        Some(v) => Some(v),
        None => body.get("max_tokens"@),
    };
    let m = insert_some(m, "max_tokens"@, limit);
    let m = insert_some(m, "temperature"@, body.get("temperature"@));
    let m = insert_some(m, "top_p"@, body.get("top_p"@));
    let m = insert_some(m, "thinking"@, thinking_of_effort(body.str_at("reasoning_effort"@)));
    let m = insert_list(m, "stop_sequences"@, stop_list(body.get("stop"@)));
    let m = insert_list(m, "tools"@, anthropic_tools(body.items_at("tools"@)));
    let m = insert_some(m, "tool_choice"@, folded_tool_choice(body));
    JsonV::Object(insert_some(m, "stream"@, body.get("stream"@)))
}

/// The Anthropic request for a Chat request, or why there is none.
pub open spec fn anthropic_request_outcome(body: JsonV) -> Result<JsonV, ErrorV> {
    match body.u64_at("n"@) {
        Some(n) => if n > 1 {
            Err(several_candidates(n))
        } else {
            Ok(anthropic_request(body))
        },
        None => Ok(anthropic_request(body)),
    }
}

/// Parse a `data:<media_type>;base64,<data>` URL into its parts.
pub fn parse_data_url(url: &str) -> (r: Option<(String, String)>)
    ensures
        match r {
            Some(p) => data_url_parts(url@) == Some((p.0@, p.1@)),
            None => data_url_parts(url@) is None,
        },
{
    let rest = match strip_prefix(url, "data:") {
        Some(rest) => rest,
        None => {
            return None;
        },
    };
    let v = chars_of(rest);
    let n = index_from(&v, 0, ',');
    assert(v@.skip(0) =~= v@);
    if n >= v.len() {
        return None;
    }
    let meta = string_of(&v, 0, n);
    assert(meta@ =~= rest@.take(n as int));
    let fields = split_pieces(meta.as_str(), ';');
    let ghost parts = texts(fields@);
    assert(parts.len() == fields@.len());
    assert(parts.last() == fields@[fields@.len() - 1]@);
    if fields[fields.len() - 1].as_str().eq("base64") {
        let media_type = trimmed(fields[0].as_str()).to_owned();
        let data = string_of(&v, n + 1, v.len());
        assert(data@ =~= rest@.skip(n + 1));
        Some((media_type, data))
    } else {
        None
    }
}

/// An Anthropic image with its data.
pub(crate) fn make_base64_image(media_type: &str, data: &str) -> (r: Json)
    ensures
        r@ == base64_image(media_type@, data@),
{
    Json::Object(
        JsonObject::new().with("type", Json::text("image")).with(
            "source",
            Json::Object(
                JsonObject::new().with("type", Json::text("base64")).with("media_type", Json::text(media_type)).with(
                    "data",
                    Json::text(data),
                ),
            ),
        ),
    )
}

/// Adds the Anthropic image for a URL.
pub(crate) fn push_image(list: &mut Vec<Json>, url: &str)
    ensures
        models(final(list)@) == models(old(list)@) + image_blocks(url@),
{
    broadcast use group_models;

    let ghost before = models(list@);
    assert(before + Seq::<JsonV>::empty() =~= before);
    if starts_with(url, "data:") {
        if let Some((media_type, data)) = parse_data_url(url) {
            list.push(make_base64_image(media_type.as_str(), data.as_str()));
            assert(models(list@) =~= before + image_blocks(url@));
        }
    } else {
        list.push(
            Json::Object(
                JsonObject::new().with("type", Json::text("image")).with(
                    "source",
                    Json::Object(JsonObject::new().with("type", Json::text("url")).with("url", Json::text(url))),
                ),
            ),
        );
        assert(models(list@) =~= before + image_blocks(url@));
    }
}

/// The string that an optional document is, or the empty one.
pub(crate) fn text_of(o: Option<&Json>) -> (r: &str)
    ensures
        r@ == match opt_model(o) {
            Some(JsonV::Text(t)) => t,
            _ => Seq::empty(),
        },
{
    if let Some(v) = o {
        if let Some(t) = v.as_str() {
            return t;
        }
    }
    proof {
        reveal_strlit("");
        assert(""@ =~= Seq::<char>::empty());
    }
    ""
}

fn push_part_blocks(list: &mut Vec<Json>, part: &Json)
    ensures
        models(final(list)@) == models(old(list)@) + chat_part_blocks(part@),
{
    broadcast use group_models;

    let ghost before = models(list@);
    assert(before + Seq::<JsonV>::empty() =~= before);
    let kind = part.str_or_empty("type");
    if kind.eq("text") || kind.eq("input_text") {
        push_text_block(list, part.str_at("text"));
    } else if kind.eq("image_url") {
        push_image(list, text_of(part.path2("image_url", "url")));
    } else if kind.eq("input_image") {
        match part.str_at("image_url") {
            Some(url) => {
                push_image(list, url);
            },
            None => {
                if let Some(data) = part.str_at("data") {
                    list.push(make_base64_image(part.str_or("media_type", "image/jpeg"), data));
                    assert(models(list@) =~= before + chat_part_blocks(part@));
                }
            },
        }
    } else if kind.eq("tool_call") {
        if let Some(id) = part.str_at("id") {
            let input = copy_or_empty_object(part, "arguments");
            list.push(make_tool_use_block(id, part.str_or_empty("name"), input));
            assert(models(list@) =~= before + chat_part_blocks(part@));
        }
    }
}

fn make_content_blocks(content: Option<&Json>) -> (r: Vec<Json>)
    ensures
        models(r@) == chat_content_blocks(opt_model(content)),
{
    broadcast use group_models;

    let mut out: Vec<Json> = Vec::new();
    if let Some(content) = content {
        if let Some(t) = content.as_str() {
            push_text_block(&mut out, Some(t));
            assert(models(out@) =~= text_blocks(Some(t@)));
        } else if let Some(parts) = content.as_array() {
            let ghost all = models(parts@);
            let mut i: usize = 0;
            while i < parts.len()
                invariant
                    i <= parts@.len(),
                    all == models(parts@),
                    models(out@) == chat_parts_blocks(all.take(i as int)),
                decreases parts@.len() - i,
            {
                proof {
                    lemma_step(all, i as int);
                }
                push_part_blocks(&mut out, &parts[i]);
                i += 1;
            }
            proof {
                lemma_whole(all);
            }
        }
    }
    out
}

fn make_past_call_blocks(calls: &Vec<Json>) -> (r: Vec<Json>)
    ensures
        models(r@) == past_call_blocks(models(calls@)),
{
    broadcast use group_models;

    let ghost all = models(calls@);
    let mut out: Vec<Json> = Vec::new();
    let mut i: usize = 0;
    while i < calls.len()
        invariant
            i <= calls@.len(),
            all == models(calls@),
            models(out@) == past_call_blocks(all.take(i as int)),
        decreases calls@.len() - i,
    {
        proof {
            lemma_step(all, i as int);
        }
        let call = &calls[i];
        let function = copy_or_empty_object(call, "function");
        let input = parse_or_empty(function.str_or("arguments", "{}"));
        out.push(make_tool_use_block(call.str_or_empty("id"), function.str_or_empty("name"), input));
        i += 1;
    }
    proof {
        lemma_whole(all);
    }
    out
}

/// An Anthropic message.
pub(crate) fn make_anthropic_turn(role: &str, blocks: Vec<Json>) -> (r: Json)
    ensures
        r@ == anthropic_turn(role@, models(blocks@)),
{
    Json::Object(JsonObject::new().with("role", Json::text(role)).with("content", Json::array(blocks)))
}

/// An Anthropic message of one block.
pub(crate) fn make_single_turn(role: &str, block: Json) -> (r: Json)
    ensures
        r@ == anthropic_turn(role@, seq![block@]),
{
    broadcast use group_models;

    let ghost model = block@;
    let mut blocks: Vec<Json> = Vec::new();
    blocks.push(block);
    assert(models(blocks@) =~= seq![model]);
    make_anthropic_turn(role, blocks)
}

/// A block with the result of a tool.
pub(crate) fn make_tool_result_block(id: &str, content: Json) -> (r: Json)
    ensures
        r@ == tool_result_block(id@, content@),
{
    Json::Object(
        JsonObject::new().with("type", Json::text("tool_result")).with("tool_use_id", Json::text(id)).with(
            "content",
            content,
        ),
    )
}

/// Convert one OpenAI message (non-system role) to an Anthropic message: content,
/// tool calls of the assistant, and tool messages.
pub fn chat_message_to_anthropic(msg: &Json) -> (r: Json)
    ensures
        r@ == anthropic_turn_of(msg@),
{
    broadcast use group_models;

    let role = msg.str_or("role", "user");
    if role.eq("user") || role.eq("assistant") || role.eq("developer") {
        let mut blocks = make_content_blocks(msg.get("content"));
        let ghost content = models(blocks@);
        assert(content + Seq::<JsonV>::empty() =~= content);
        if role.eq("assistant") {
            if let Some(calls) = msg.array_at("tool_calls") {
                extend(&mut blocks, make_past_call_blocks(calls));
            } else {
                assert(past_call_blocks(Seq::empty()) =~= Seq::empty());
            }
        }
        assert(models(blocks@).len() == blocks@.len());
        let shown = if role.eq("developer") {
            "user"
        } else {
            role
        };
        if blocks.len() == 0 {
            let empty = String::new();
            make_single_turn(shown, make_text_block(empty.as_str()))
        } else {
            make_anthropic_turn(shown, blocks)
        }
    } else if role.eq("tool") {
        let content = match msg.get("content") {
            Some(v) => match v {
                Json::Text(_) => v.copy(),
                Json::Array(_) => v.copy(),
                _ => Json::Text(String::new()),
            },
            None => Json::Text(String::new()),
        };
        make_single_turn("user", make_tool_result_block(msg.str_or_empty("tool_call_id"), content))
    } else {
        make_single_turn("user", make_text_block(msg.str_or_empty("content")))
    }
}

/// The plain text of the content of a Chat message, where there is any.
pub fn extract_chat_text(content: Option<&Json>) -> (r: Option<String>)
    ensures
        opt_string(r) == chat_text(opt_model(content)),
{
    broadcast use lemma_texts_push;

    let content = match content {
        Some(content) => content,
        None => {
            return None;
        },
    };
    if let Some(t) = content.as_str() {
        return if t.is_empty() {
            None
        } else {
            Some(t.to_owned())
        };
    }
    let parts = match content.as_array() {
        Some(parts) => parts,
        None => {
            return None;
        },
    };
    let ghost all = models(parts@);
    let mut found: Vec<String> = Vec::new();
    let mut i: usize = 0;
    assert(texts(found@) =~= Seq::empty());
    while i < parts.len()
        invariant
            i <= parts@.len(),
            all == models(parts@),
            texts(found@) == chat_part_texts(all.take(i as int)),
        decreases parts@.len() - i,
    {
        proof {
            lemma_step(all, i as int);
        }
        let part = &parts[i];
        if let Some(t) = part.str_at("type") {
            if t.eq("text") || t.eq("input_text") {
                if let Some(text) = part.str_at("text") {
                    found.push(text.to_owned());
                }
            } else if t.eq("image_url") || t.eq("input_image") {
                found.push("[image]".to_owned());
            }
        }
        i += 1;
    }
    proof {
        lemma_whole(all);
        assert(texts(found@).len() == found@.len());
    }
    if found.len() == 0 {
        None
    } else {
        Some(join_texts(&found, " "))
    }
}

/// A choice of a given type.
pub(crate) fn make_typed_choice(t: &str) -> (r: JsonObject)
    ensures
        r@ == typed_choice(t@),
{
    JsonObject::new().with("type", Json::text(t))
}

/// Map an OpenAI tool_choice (string "none"/"auto"/"required", or object
/// {type:"function", function:{name}}) to an Anthropic tool_choice object.
pub fn map_chat_tool_choice(tc: &Json) -> (r: Option<JsonObject>)
    ensures
        match r {
            Some(o) => anthropic_tool_choice(tc@) == Some(o@),
            None => anthropic_tool_choice(tc@) is None,
        },
{
    match tc {
        Json::Text(s) => {
            let s = s.as_str();
            if s.eq("none") || s.eq("auto") {
                Some(make_typed_choice(s))
            } else if s.eq("required") {
                Some(make_typed_choice("any"))
            } else {
                None
            }
        },
        Json::Object(_) => if field_is(tc, "type", "function") {
            let name = text_of(tc.path2("function", "name"));
            if name.is_empty() {
                Some(make_typed_choice("any"))
            } else {
                Some(make_typed_choice("tool").with("name", Json::text(name)))
            }
        } else {
            None
        },
        _ => None,
    }
}

/// The thinking that an effort asks for.
pub(crate) fn make_thinking_of_effort(effort: &str) -> (r: Json)
    ensures
        Some(r@) == thinking_of_effort(Some(effort@)),
{
    let lower = to_ascii_lower(effort);
    let kind = if lower.as_str().eq("none") {
        "disabled"
    } else {
        "enabled"
    };
    Json::Object(make_typed_choice(kind))
}

fn make_folded_tool_choice(body: &Json) -> (r: Option<Json>)
    ensures
        opt_json(r) == folded_tool_choice(body@),
{
    let choice = match body.get("tool_choice") {
        Some(c) => map_chat_tool_choice(c),
        None => None,
    };
    if bool_at(body, "parallel_tool_calls") == Some(false) {
        let m = match choice {
            Some(m) => m,
            None => make_typed_choice("auto"),
        };
        Some(Json::Object(m.with("disable_parallel_tool_use", Json::Bool(true))))
    } else {
        match choice {
            Some(m) => Some(Json::Object(m)),
            None => None,
        }
    }
}

fn make_anthropic_tools(tools: &Vec<Json>) -> (r: Vec<Json>)
    ensures
        models(r@) == anthropic_tools(models(tools@)),
{
    broadcast use group_models;

    let ghost all = models(tools@);
    let mut out: Vec<Json> = Vec::new();
    let mut i: usize = 0;
    while i < tools.len()
        invariant
            i <= tools@.len(),
            all == models(tools@),
            models(out@) == anthropic_tools(all.take(i as int)),
        decreases tools@.len() - i,
    {
        proof {
            lemma_step(all, i as int);
        }
        if let Some(function) = tools[i].get("function") {
            if let Some(name) = function.str_at("name") {
                let m = JsonObject::new().with("name", Json::text(name)).with(
                    "input_schema",
                    copy_or_empty_object(function, "parameters"),
                );
                out.push(Json::Object(with_text(m, "description", function.str_at("description"))));
            }
        }
        i += 1;
    }
    proof {
        lemma_whole(all);
    }
    out
}

/// The object with a list under `key`, where the list is not empty.
pub(crate) fn with_list(o: JsonObject, key: &str, list: Vec<Json>) -> (r: JsonObject)
    ensures
        r@ == insert_list(o@, key@, models(list@)),
{
    assert(models(list@).len() == list@.len());
    if list.len() > 0 {
        o.with(key, Json::array(list))
    } else {
        o
    }
}

/// A copy of a list of documents.
pub(crate) fn copy_list(list: &Vec<Json>) -> (r: Vec<Json>)
    ensures
        models(r@) == models(list@),
{
    broadcast use group_models;

    let ghost all = models(list@);
    let mut out: Vec<Json> = Vec::new();
    let mut i: usize = 0;
    assert(all.take(0) =~= Seq::empty());
    while i < list.len()
        invariant
            i <= list@.len(),
            all == models(list@),
            models(out@) == all.take(i as int),
        decreases list@.len() - i,
    {
        let item = list[i].copy();
        assert(item@ == all[i as int]);
        out.push(item);
        assert(all.take(i + 1) =~= all.take(i as int).push(all[i as int]));
        i += 1;
    }
    proof {
        lemma_whole(all);
    }
    out
}

fn make_stop_list(stop: Option<&Json>) -> (r: Vec<Json>)
    ensures
        models(r@) == stop_list(opt_model(stop)),
{
    broadcast use group_models;

    let mut out: Vec<Json> = Vec::new();
    if let Some(v) = stop {
        if let Some(t) = v.as_str() {
            out.push(Json::text(t));
            assert(models(out@) =~= stop_list(Some(v@)));
        } else if let Some(list) = v.as_array() {
            return copy_list(list);
        }
    }
    out
}

fn convert_turns(ms: &Vec<Json>) -> (r: (Vec<Json>, Vec<String>))
    ensures
        models(r.0@) == anthropic_turns(models(ms@)),
        texts(r.1@) == system_prompts(models(ms@)),
{
    broadcast use {group_models, lemma_texts_push};

    let ghost all = models(ms@);
    let mut turns: Vec<Json> = Vec::new();
    let mut prompts: Vec<String> = Vec::new();
    let mut i: usize = 0;
    assert(texts(prompts@) =~= Seq::empty());
    while i < ms.len()
        invariant
            i <= ms@.len(),
            all == models(ms@),
            models(turns@) == anthropic_turns(all.take(i as int)),
            texts(prompts@) == system_prompts(all.take(i as int)),
        decreases ms@.len() - i,
    {
        proof {
            lemma_step(all, i as int);
        }
        let msg = &ms[i];
        if field_is(msg, "role", "system") {
            if let Some(t) = extract_chat_text(msg.get("content")) {
                prompts.push(t);
            }
        } else {
            turns.push(chat_message_to_anthropic(msg));
        }
        i += 1;
    }
    proof {
        lemma_whole(all);
    }
    (turns, prompts)
}

/// The members of a Chat request that Anthropic cannot represent.
pub open spec fn unsupported_chat_fields() -> Seq<Seq<char>> {
    seq![
        "logprobs"@,
        "top_logprobs"@,
        "response_format"@,
        "seed"@,
        "frequency_penalty"@,
        "presence_penalty"@,
    ]
}

/// Those of a list of keys under which a document has a member, in their order.
pub open spec fn keys_held(body: JsonV, keys: Seq<Seq<char>>) -> Seq<Seq<char>>
    decreases keys.len(),
{
    if keys.len() == 0 {
        Seq::empty()
    } else if body.get(keys.last()) is Some {
        keys_held(body, keys.drop_last()).push(keys.last())
    } else {
        keys_held(body, keys.drop_last())
    }
}

/// The texts of a list of literals.
pub open spec fn literal_texts(v: Seq<&'static str>) -> Seq<Seq<char>> {
    Seq::new(v.len(), |i: int| v[i]@)
}

/// The members of a Chat request that are dropped on the way to the Anthropic
/// format, so that they can be reported.
pub fn dropped_chat_fields(body: &Json) -> (r: Vec<&'static str>)
    ensures
        literal_texts(r@) == keys_held(body@, unsupported_chat_fields()),
{
    let keys: [&'static str; 6] = [
        "logprobs",
        "top_logprobs",
        "response_format",
        "seed",
        "frequency_penalty",
        "presence_penalty",
    ];
    let ghost all = unsupported_chat_fields();
    let mut found: Vec<&'static str> = Vec::new();
    let mut i: usize = 0;
    assert(literal_texts(found@) =~= keys_held(body@, all.take(0)));
    while i < 6
        invariant
            i <= 6,
            all.len() == 6,
            keys@.len() == 6,
            forall|j: int| 0 <= j < 6 ==> #[trigger] keys@[j]@ == all[j],
            literal_texts(found@) == keys_held(body@, all.take(i as int)),
        decreases 6 - i,
    {
        let key: &'static str = keys[i];
        proof {
            lemma_step(all, i as int);
        }
        let ghost before = found@;
        if body.get(key).is_some() {
            found.push(key);
            assert(literal_texts(found@) =~= literal_texts(before).push(key@));
        }
        i += 1;
    }
    proof {
        lemma_whole(all);
    }
    found
}

/// Convert an OpenAI Chat Completions request body to an Anthropic Messages
/// request body. Members that Anthropic cannot represent are dropped, but several
/// candidates are refused.
pub fn chat_to_anthropic_request(body: &Json) -> (r: Result<Json, Error>)
    ensures
        outcome(r) == anthropic_request_outcome(body@),
{
    broadcast use {group_models, lemma_texts_push};

    if let Some(n) = body.u64_at("n") {
        if n > 1 {
            let message = cat3(
                "n=",
                decimal_text(n).as_str(),
                " is not supported when the upstream is Anthropic Messages (Anthropic returns a single candidate)",
            );
            return Err(Error::Unsupported(message));
        }
    }
    let mut m = with_text(JsonObject::new(), "model", body.str_at("model"));
    let (turns, prompts) = match body.array_at("messages") {
        Some(ms) => convert_turns(ms),
        None => {
            let none: (Vec<Json>, Vec<String>) = (Vec::new(), Vec::new());
            assert(texts(none.1@) =~= Seq::empty());
            none
        },
    };
    assert(texts(prompts@).len() == prompts@.len());
    if prompts.len() > 0 {
        m = m.with("system", Json::Text(join_texts(&prompts, "\n\n")));
    }
    m = with_list(m, "messages", turns);
    let limit = match body.get("max_completion_tokens") {
        Some(v) => Some(v),
        None => body.get("max_tokens"),
    };
    m = m.with_some("max_tokens", limit);
    m = m.with_some("temperature", body.get("temperature"));
    m = m.with_some("top_p", body.get("top_p"));
    if let Some(effort) = body.str_at("reasoning_effort") {
        m = m.with("thinking", make_thinking_of_effort(effort));
    }
    m = with_list(m, "stop_sequences", make_stop_list(body.get("stop")));
    if let Some(tools) = body.array_at("tools") {
        m = with_list(m, "tools", make_anthropic_tools(tools));
    } else {
        assert(anthropic_tools(Seq::empty()) =~= Seq::empty());
    }
    let choice = make_folded_tool_choice(body);
    m = m.with_some("tool_choice", choice.as_ref());
    m = m.with_some("stream", body.get("stream"));
    Ok(Json::Object(m))
}

/// What the blocks of an Anthropic response come to in a Chat message.
pub struct ReplyPartsV {
    pub content: Seq<JsonV>,
    pub reasoning: Option<Seq<char>>,
    pub calls: Seq<JsonV>,
}

/// The reply with one more block.
pub open spec fn add_reply_block(acc: ReplyPartsV, block: JsonV) -> ReplyPartsV {
    let kind = block.str_or("type"@, Seq::empty());
    if kind == "text"@ {
        match block.str_at("text"@) {
            Some(t) => ReplyPartsV { content: acc.content.push(text_block(t)), ..acc },
            None => acc,
        }
    } else if kind == "thinking"@ {
        match block.str_at("thinking"@) {
            Some(t) => ReplyPartsV {
                reasoning: Some(
                    match acc.reasoning {
                        Some(r) => r + t,
                        None => t,
                    },
                ),
                ..acc
            },
            None => acc,
        }
    } else if kind == "tool_use"@ {
        ReplyPartsV {
            calls: acc.calls.push(
                chat_tool_call(
                    block.str_or("id"@, Seq::empty()),
                    block.str_or("name"@, Seq::empty()),
                    compact_text(or_empty_object(block.get("input"@))),
                ),
            ),
            ..acc
        }
    } else {
        acc
    }
}

/// What a list of blocks comes to.
pub open spec fn reply_parts(blocks: Seq<JsonV>) -> ReplyPartsV
    decreases blocks.len(),
{
    if blocks.len() == 0 {
        ReplyPartsV { content: Seq::empty(), reasoning: None, calls: Seq::empty() }
    } else {
        add_reply_block(reply_parts(blocks.drop_last()), blocks.last())
    }
}

/// Why a response ended, in the terms of Chat.
pub open spec fn finish_reason(stop: Option<Seq<char>>) -> Seq<char> {
    if stop == Some("max_tokens"@) {
        "length"@
    } else if stop == Some("tool_use"@) {
        "tool_calls"@
    } else if stop == Some("refusal"@) {
        "content_filter"@
    } else {
        "stop"@
    }
}

/// The sum of two counts, in 64 bits.
pub open spec fn wrapping_sum(a: u64, b: u64) -> u64 {
    ((a + b) % 0x1_0000_0000_0000_0000) as u64
}

/// The usage of a Chat response from that of an Anthropic response.
pub open spec fn chat_usage(usage: JsonV) -> JsonV {
    let m = insert_some(Map::empty(), "prompt_tokens"@, usage.get("input_tokens"@));
    let m = insert_some(m, "completion_tokens"@, usage.get("output_tokens"@));
    JsonV::Object(
        m.insert(
            "total_tokens"@,
            num(
                wrapping_sum(
                    or_zero(usage.u64_at("input_tokens"@)),
                    or_zero(usage.u64_at("output_tokens"@)),
                ),
            ),
        ),
    )
}

/// The assistant message of a Chat response.
pub open spec fn assistant_message(acc: ReplyPartsV) -> JsonV {
    let m = map![
        "role"@ => JsonV::Text("assistant"@),
        "content"@ => if acc.content.len() == 0 {
            JsonV::Text(Seq::empty())
        } else {
            JsonV::Array(acc.content)
        },
    ];
    let m = insert_some(m, "reasoning_content"@, opt_as_text(acc.reasoning));
    JsonV::Object(insert_list(m, "tool_calls"@, acc.calls))
}

/// The Chat response for an Anthropic response.
pub open spec fn chat_response(body: JsonV, model: Seq<char>) -> JsonV {
    let choice = JsonV::Object(
        map![
            "index"@ => num(0),
            "message"@ => assistant_message(reply_parts(body.items_at("content"@))),
            "finish_reason"@ => JsonV::Text(finish_reason(body.str_at("stop_reason"@))),
        ],
    );
    let m = map![
        "model"@ => JsonV::Text(model),
        "choices"@ => JsonV::Array(seq![choice]),
    ];
    let m = match body.get("usage"@) {
        Some(usage) => m.insert("usage"@, chat_usage(usage)),
        None => m,
    };
    JsonV::Object(m.insert("object"@, JsonV::Text("chat.completion"@)))
}

/// Anthropic stop_reason to OpenAI finish_reason.
pub(crate) fn map_stop_reason_to_finish(stop: Option<&str>) -> (r: &'static str)
    ensures
        r@ == finish_reason(opt_text(stop)),
{
    match stop {
        Some(s) => if s.eq("max_tokens") {
            "length"
        } else if s.eq("tool_use") {
            "tool_calls"
        } else if s.eq("refusal") {
            "content_filter"
        } else {
            "stop"
        },
        None => "stop",
    }
}

/// The sum of two counts, in 64 bits.
pub(crate) fn add_counts(a: u64, b: u64) -> (r: u64)
    ensures
        r == wrapping_sum(a, b),
{
    a.wrapping_add(b)
}

fn make_chat_usage(usage: &Json) -> (r: Json)
    ensures
        r@ == chat_usage(usage@),
{
    let m = JsonObject::new().with_some("prompt_tokens", usage.get("input_tokens")).with_some(
        "completion_tokens",
        usage.get("output_tokens"),
    );
    let total: u64 = add_counts(zero_or(usage.u64_at("input_tokens")), zero_or(usage.u64_at("output_tokens")));
    Json::Object(m.with("total_tokens", Json::number(total)))
}

/// What the blocks of an Anthropic response come to in a Chat message.
struct ReplyParts {
    content: Vec<Json>,
    reasoning: Option<String>,
    calls: Vec<Json>,
}

impl View for ReplyParts {
    type V = ReplyPartsV;

    closed spec fn view(&self) -> ReplyPartsV {
        ReplyPartsV {
            content: models(self.content@),
            reasoning: opt_string(self.reasoning),
            calls: models(self.calls@),
        }
    }
}

impl ReplyParts {
    fn add_block(&mut self, block: &Json)
        ensures
            final(self)@ == add_reply_block(old(self)@, block@),
    {
        broadcast use group_models;

        let kind = block.str_or_empty("type");
        if kind.eq("text") {
            if let Some(t) = block.str_at("text") {
                self.content.push(make_text_block(t));
            }
        } else if kind.eq("thinking") {
            if let Some(t) = block.str_at("thinking") {
                let joined = match &self.reasoning {
                    Some(r) => cat(r.as_str(), t),
                    None => t.to_owned(),
                };
                self.reasoning = Some(joined);
            }
        } else if kind.eq("tool_use") {
            let arguments = canonical_json_string(&copy_or_empty_object(block, "input"));
            self.calls.push(
                make_chat_tool_call(block.str_or_empty("id"), block.str_or_empty("name"), arguments.as_str()),
            );
        }
    }
}

fn make_assistant_message(blocks: &Vec<Json>) -> (r: Json)
    ensures
        r@ == assistant_message(reply_parts(models(blocks@))),
{
    broadcast use group_models;

    let ghost all = models(blocks@);
    let mut parts = ReplyParts { content: Vec::new(), reasoning: None, calls: Vec::new() };
    let mut i: usize = 0;
    while i < blocks.len()
        invariant
            i <= blocks@.len(),
            all == models(blocks@),
            parts@ == reply_parts(all.take(i as int)),
        decreases blocks@.len() - i,
    {
        proof {
            lemma_step(all, i as int);
        }
        parts.add_block(&blocks[i]);
        i += 1;
    }
    let ghost acc = parts@;
    proof {
        lemma_whole(all);
        assert(acc.content.len() == parts.content@.len());
    }
    let ReplyParts { content, reasoning, calls } = parts;
    let body = if content.len() == 0 {
        Json::Text(String::new())
    } else {
        Json::array(content)
    };
    let m = JsonObject::new().with("role", Json::text("assistant")).with("content", body);
    let m = with_text(
        m,
        "reasoning_content",
        match &reasoning {
            Some(r) => Some(r.as_str()),
            None => None,
        },
    );
    Json::Object(with_list(m, "tool_calls", calls))
}

/// Convert an Anthropic Messages response to an OpenAI Chat Completions
/// response. `model` is echoed back.
pub fn anthropic_to_chat_response(body: &Json, model: &str) -> (r: Result<Json, Error>)
    ensures
        r is Ok,
        r->Ok_0@ == chat_response(body@, model@),
{
    broadcast use group_models;

    let none: Vec<Json> = Vec::new();
    let blocks = match body.array_at("content") {
        Some(blocks) => blocks,
        None => &none,
    };
    let message = make_assistant_message(blocks);
    let finish = map_stop_reason_to_finish(body.str_at("stop_reason"));
    let choice = Json::Object(
        JsonObject::new().with("index", Json::number(0)).with("message", message).with(
            "finish_reason",
            Json::text(finish),
        ),
    );
    let ghost chosen = choice@;
    let mut choices: Vec<Json> = Vec::new();
    choices.push(choice);
    assert(models(choices@) =~= seq![chosen]);
    let mut m = JsonObject::new().with("model", Json::text(model)).with(
        "choices",
        Json::array(choices),
    );
    if let Some(usage) = body.get("usage") {
        m = m.with("usage", make_chat_usage(usage));
    }
    Ok(Json::Object(m.with("object", Json::text("chat.completion"))))
}

} // verus!
