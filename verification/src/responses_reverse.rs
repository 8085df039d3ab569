//! OpenAI Responses requests for an Anthropic upstream, and its whole responses.

use vstd::prelude::*;
use vstd::string::*;
use crate::convert::{bool_at, collect_part_texts, extend, opt_as_text, opt_bool, part_texts, with_text};
use crate::convert_message::{copy_or_empty_object, or_empty_object};
use crate::convert_response::{make_tool_use_block, parse_or_empty, parsed_or_empty, push_text_block, text_blocks, tool_use_block, zero_or};
use crate::convert_reverse::{add_counts, anthropic_turn, base64_image, image_blocks, insert_list, make_anthropic_turn, make_base64_image, make_single_turn, make_thinking_of_effort, make_tool_result_block, make_typed_choice, push_image, thinking_of_effort, tool_result_block, typed_choice, with_list, wrapping_sum};
use crate::error::Error;
use crate::json::{Json, JsonObject, JsonV, empty_object, field_is, group_models, insert_some, lemma_step, lemma_whole, make_text_block, models, num, opt_json, opt_model, opt_text, or_null, or_zero, text_block};
use crate::json_canonical::{canonical_json_string, compact_text};
use crate::responses_response::opt_num;
use crate::text::{cat, decimal, decimal_text, join, join_texts};
use crate::transform_responses::{make_typed_text, typed_text};

verus! {

/// The system prompt for instructions.
pub open spec fn system_of_instructions(v: JsonV) -> Seq<char> {
    match v {
        JsonV::Text(t) => t,
        JsonV::Array(parts) => join(part_texts(parts), "\n\n"@),
        _ => Seq::empty(),
    }
}

/// The document that an optional text is, or the empty object.
pub open spec fn opt_parsed_or_empty(o: Option<Seq<char>>) -> JsonV {
    match o {
        Some(t) => parsed_or_empty(t),
        None => empty_object(),
    }
}

/// The Anthropic blocks for one part of a Responses message.
pub open spec fn input_part_blocks(part: JsonV) -> Seq<JsonV> {
    let kind = part.str_or("type"@, Seq::empty());
    if kind == "input_text"@ || kind == "output_text"@ {
        text_blocks(part.str_at("text"@))
    } else if kind == "input_image"@ {
        match part.str_at("image_url"@) {
            Some(url) => image_blocks(url),
            None => match part.str_at("data"@) {
                Some(data) => seq![base64_image(part.str_or("media_type"@, "image/jpeg"@), data)],
                None => Seq::empty(),
            },
        }
    } else if kind == "function_call"@ {
        seq![
            tool_use_block(
                part.str_or("call_id"@, Seq::empty()),
                part.str_or("name"@, Seq::empty()),
                opt_parsed_or_empty(part.str_at("arguments"@)),
            ),
        ]
    } else {
        Seq::empty()
    }
}

/// The Anthropic blocks for the parts of a Responses message.
pub open spec fn input_parts_blocks(parts: Seq<JsonV>) -> Seq<JsonV>
    decreases parts.len(),
{
    if parts.len() == 0 {
        Seq::empty()
    } else {
        input_parts_blocks(parts.drop_last()) + input_part_blocks(parts.last())
    }
}

/// The Anthropic message for one item of the input, where it is a message or the
/// output of a function call.
pub open spec fn message_of_item(item: JsonV) -> Option<JsonV> {
    if item.str_at("type"@) == Some("message"@) {
        let blocks = input_parts_blocks(item.items_at("content"@));
        Some(
            anthropic_turn(
                item.str_or("role"@, "user"@),
                if blocks.len() == 0 {
                    seq![text_block(Seq::empty())]
                } else {
                    blocks
                },
            ),
        )
    } else if item.str_at("type"@) == Some("function_call_output"@) {
        Some(
            anthropic_turn(
                "user"@,
                seq![
                    tool_result_block(
                        item.str_or("call_id"@, Seq::empty()),
                        JsonV::Text(item.str_or("output"@, Seq::empty())),
                    ),
                ],
            ),
        )
    } else {
        None
    }
}

/// The Anthropic messages for the items of the input.
pub open spec fn messages_of_input(items: Seq<JsonV>) -> Seq<JsonV>
    decreases items.len(),
{
    if items.len() == 0 {
        Seq::empty()
    } else {
        match message_of_item(items.last()) {
            Some(m) => messages_of_input(items.drop_last()).push(m),
            None => messages_of_input(items.drop_last()),
        }
    }
}

/// A Responses tool choice in the Anthropic format.
pub open spec fn choice_of_responses(choice: JsonV) -> Option<Map<Seq<char>, JsonV>> {
    match choice.str_at("type"@) {
        Some(t) => if t == "none"@ || t == "auto"@ {
            Some(typed_choice(t))
        } else if t == "required"@ {
            Some(typed_choice("any"@))
        } else if t == "function"@ {
            let name = choice.str_or("name"@, Seq::empty());
            if name.len() == 0 {
                Some(typed_choice("any"@))
            } else {
                Some(typed_choice("tool"@).insert("name"@, JsonV::Text(name)))
            }
        } else {
            None
        },
        None => None,
    }
}

/// A tool choice with the ban on parallel calls in it.
pub open spec fn with_parallel_ban(choice: Option<Map<Seq<char>, JsonV>>, banned: bool) -> Option<JsonV> {
    if banned {
        let m = match choice {
            Some(m) => m,
            None => typed_choice("auto"@),
        };
        Some(JsonV::Object(m.insert("disable_parallel_tool_use"@, JsonV::Bool(true))))
    } else {
        match choice {
            Some(m) => Some(JsonV::Object(m)),
            None => None,
        }
    }
}

/// The Anthropic tools for the functions of a Responses request.
pub open spec fn tools_of_responses(tools: Seq<JsonV>) -> Seq<JsonV>
    decreases tools.len(),
{
    if tools.len() == 0 {
        Seq::empty()
    } else {
        let t = tools.last();
        match t.str_at("name"@) {
            Some(name) => tools_of_responses(tools.drop_last()).push(
                JsonV::Object(
                    map![
                        "name"@ => JsonV::Text(name),
                        "description"@ => JsonV::Text(t.str_or("description"@, Seq::empty())),
                        "input_schema"@ => or_empty_object(t.get("parameters"@)),
                    ],
                ),
            ),
            None => tools_of_responses(tools.drop_last()),
        }
    }
}

/// The Anthropic request for a Responses request.
pub open spec fn request_of_responses(body: JsonV) -> JsonV {
    let m = insert_some(Map::empty(), "model"@, opt_as_text(body.str_at("model"@)));
    let system = system_of_instructions(body.at("instructions"@));
    let m = if system.len() > 0 {
        m.insert("system"@, JsonV::Text(system))
    } else {
        m
    };
    let m = insert_list(m, "messages"@, messages_of_input(body.items_at("input"@)));
    let m = insert_some(m, "max_tokens"@, body.get("max_output_tokens"@));
    let m = insert_some(m, "temperature"@, body.get("temperature"@));
    let m = insert_some(m, "top_p"@, body.get("top_p"@));
    let effort = match body.path2("reasoning"@, "effort"@) {
        Some(v) => v.as_str(),
        None => None,
    };
    let m = insert_some(m, "thinking"@, thinking_of_effort(effort));
    let m = insert_list(m, "tools"@, tools_of_responses(body.items_at("tools"@)));
    let choice = match body.get("tool_choice"@) {
        Some(c) => choice_of_responses(c),
        None => None,
    };
    let banned = opt_bool(body.get("parallel_tool_calls"@)) == Some(false);
    let m = insert_some(m, "tool_choice"@, with_parallel_ban(choice, banned));
    JsonV::Object(insert_some(m, "stream"@, body.get("stream"@)))
}

/// The status of a response, by why it ended.
pub open spec fn status_of_stop(stop: Option<Seq<char>>) -> Seq<char> {
    if stop == Some("max_tokens"@) {
        "incomplete"@
    } else if stop == Some("tool_use"@) {
        "in_progress"@
    } else {
        "completed"@
    }
}

/// A reasoning item of the output, the `n`th of all items.
pub open spec fn output_reasoning(n: nat, thinking: Seq<char>) -> JsonV {
    let part = typed_text("summary_text"@, thinking);
    JsonV::Object(
        map![
            "id"@ => JsonV::Text("rs_"@ + decimal(n)),
            "type"@ => JsonV::Text("reasoning"@),
            "summary"@ => JsonV::Array(
                if thinking.len() == 0 {
                    Seq::empty()
                } else {
                    seq![part]
                },
            ),
            "content"@ => JsonV::Array(seq![part]),
        ],
    )
}

/// A function call of the output, the `n`th of all items.
pub open spec fn output_call(n: nat, id: Seq<char>, name: Seq<char>, arguments: Seq<char>, status: Seq<char>) -> JsonV {
    JsonV::Object(
        map![
            "id"@ => JsonV::Text("fc_"@ + decimal(n)),
            "type"@ => JsonV::Text("function_call"@),
            "call_id"@ => JsonV::Text(id),
            "name"@ => JsonV::Text(name),
            "arguments"@ => JsonV::Text(arguments),
            "status"@ => JsonV::Text(status),
        ],
    )
}

/// A message of the output, the `n`th of all items.
pub open spec fn output_message(n: nat, content: Seq<JsonV>, status: Seq<char>) -> JsonV {
    JsonV::Object(
        map![
            "id"@ => JsonV::Text("msg_"@ + decimal(n)),
            "type"@ => JsonV::Text("message"@),
            "role"@ => JsonV::Text("assistant"@),
            "content"@ => JsonV::Array(content),
            "status"@ => JsonV::Text(status),
        ],
    )
}

/// The items of the output besides the message.
pub open spec fn output_items(blocks: Seq<JsonV>) -> Seq<JsonV>
    decreases blocks.len(),
{
    if blocks.len() == 0 {
        Seq::empty()
    } else {
        let front = output_items(blocks.drop_last());
        let block = blocks.last();
        if block.str_at("type"@) == Some("thinking"@) {
            front.push(output_reasoning(front.len(), block.str_or("thinking"@, Seq::empty())))
        } else if block.str_at("type"@) == Some("tool_use"@) {
            front.push(
                output_call(
                    front.len(),
                    block.str_or("id"@, Seq::empty()),
                    block.str_or("name"@, Seq::empty()),
                    compact_text(or_empty_object(block.get("input"@))),
                    "completed"@,
                ),
            )
        } else {
            front
        }
    }
}

/// The texts of the message of the output.
pub open spec fn output_texts(blocks: Seq<JsonV>) -> Seq<JsonV>
    decreases blocks.len(),
{
    if blocks.len() == 0 {
        Seq::empty()
    } else {
        let front = output_texts(blocks.drop_last());
        let block = blocks.last();
        if block.str_at("type"@) == Some("text"@) && block.str_at("text"@) is Some {
            front.push(typed_text("output_text"@, block.str_at("text"@)->0))
        } else {
            front
        }
    }
}

/// The output for the blocks of an Anthropic response: one message with all of
/// its texts, where it has any, and then the other items.
pub open spec fn output_of_blocks(blocks: Seq<JsonV>) -> Seq<JsonV> {
    let items = output_items(blocks);
    let texts = output_texts(blocks);
    if texts.len() > 0 {
        seq![output_message(items.len(), texts, "completed"@)] + items
    } else {
        items
    }
}

/// The usage of a Responses response from that of an Anthropic response. The
/// total is always there.
pub open spec fn usage_for_responses(usage: Option<JsonV>) -> JsonV {
    let u = or_null(usage);
    let m = insert_some(Map::empty(), "input_tokens"@, opt_num(u.u64_at("input_tokens"@)));
    let m = insert_some(m, "output_tokens"@, opt_num(u.u64_at("output_tokens"@)));
    let m = match u.u64_at("cache_creation_input_tokens"@) {
        Some(n) => m.insert("input_tokens_details"@, JsonV::Object(map!["cached_tokens"@ => num(n)])),
        None => m,
    };
    JsonV::Object(
        m.insert(
            "total_tokens"@,
            num(wrapping_sum(or_zero(u.u64_at("input_tokens"@)), or_zero(u.u64_at("output_tokens"@)))),
        ),
    )
}

/// The Responses response for an Anthropic response.
pub open spec fn responses_response(body: JsonV, model: Seq<char>) -> JsonV {
    JsonV::Object(
        map![
            "id"@ => JsonV::Text("resp_"@ + body.str_or("id"@, Seq::empty())),
            "object"@ => JsonV::Text("response"@),
            "model"@ => JsonV::Text(model),
            "status"@ => JsonV::Text(status_of_stop(body.str_at("stop_reason"@))),
            "output"@ => JsonV::Array(output_of_blocks(body.items_at("content"@))),
            "usage"@ => usage_for_responses(body.get("usage"@)),
        ],
    )
}

fn push_input_part_blocks(list: &mut Vec<Json>, part: &Json)
    ensures
        models(final(list)@) == models(old(list)@) + input_part_blocks(part@),
{
    broadcast use group_models;

    let ghost before = models(list@);
    assert(before + Seq::<JsonV>::empty() =~= before);
    let kind = part.str_or_empty("type");
    if kind.eq("input_text") || kind.eq("output_text") {
        push_text_block(list, part.str_at("text"));
    } else if kind.eq("input_image") {
        match part.str_at("image_url") {
            Some(url) => {
                push_image(list, url);
            },
            None => {
                if let Some(data) = part.str_at("data") {
                    list.push(make_base64_image(part.str_or("media_type", "image/jpeg"), data));
                    assert(models(list@) =~= before + input_part_blocks(part@));
                }
            },
        }
    } else if kind.eq("function_call") {
        let input = match part.str_at("arguments") {
            Some(t) => parse_or_empty(t),
            None => Json::Object(JsonObject::new()),
        };
        list.push(make_tool_use_block(part.str_or_empty("call_id"), part.str_or_empty("name"), input));
        assert(models(list@) =~= before + input_part_blocks(part@));
    }
}

fn make_input_blocks(item: &Json) -> (r: Vec<Json>)
    ensures
        models(r@) == input_parts_blocks(item@.items_at("content"@)),
{
    broadcast use group_models;

    let mut out: Vec<Json> = Vec::new();
    if let Some(parts) = item.array_at("content") {
        let ghost all = models(parts@);
        let mut i: usize = 0;
        while i < parts.len()
            invariant
                i <= parts@.len(),
                all == models(parts@),
                models(out@) == input_parts_blocks(all.take(i as int)),
            decreases parts@.len() - i,
        {
            proof {
                lemma_step(all, i as int);
            }
            push_input_part_blocks(&mut out, &parts[i]);
            i += 1;
        }
        proof {
            lemma_whole(all);
        }
    } else {
        assert(input_parts_blocks(Seq::empty()) =~= Seq::empty());
    }
    out
}

fn make_message_of_item(item: &Json) -> (r: Option<Json>)
    ensures
        opt_json(r) == message_of_item(item@),
{
    if field_is(item, "type", "message") {
        let blocks = make_input_blocks(item);
        assert(models(blocks@).len() == blocks@.len());
        let role = item.str_or("role", "user");
        if blocks.len() == 0 {
            let empty = String::new();
            Some(make_single_turn(role, make_text_block(empty.as_str())))
        } else {
            Some(make_anthropic_turn(role, blocks))
        }
    } else if field_is(item, "type", "function_call_output") {
        let content = Json::text(item.str_or_empty("output"));
        Some(make_single_turn("user", make_tool_result_block(item.str_or_empty("call_id"), content)))
    } else {
        None
    }
}

/// Convert a Responses `input` array to Anthropic messages: messages and the
/// outputs of function calls. Reasoning that is replayed is left out.
pub fn responses_input_to_messages(input: &Vec<Json>) -> (r: Vec<Json>)
    ensures
        models(r@) == messages_of_input(models(input@)),
{
    broadcast use group_models;

    let ghost all = models(input@);
    let mut out: Vec<Json> = Vec::new();
    let mut i: usize = 0;
    while i < input.len()
        invariant
            i <= input@.len(),
            all == models(input@),
            models(out@) == messages_of_input(all.take(i as int)),
        decreases input@.len() - i,
    {
        proof {
            lemma_step(all, i as int);
        }
        if let Some(m) = make_message_of_item(&input[i]) {
            out.push(m);
        }
        i += 1;
    }
    proof {
        lemma_whole(all);
    }
    out
}

/// Map a Responses tool_choice to Anthropic form.
pub fn map_responses_tool_choice(tc: &Json) -> (r: Option<JsonObject>)
    ensures
        match r {
            Some(o) => choice_of_responses(tc@) == Some(o@),
            None => choice_of_responses(tc@) is None,
        },
{
    match tc.str_at("type") {
        Some(t) => if t.eq("none") || t.eq("auto") {
            Some(make_typed_choice(t))
        } else if t.eq("required") {
            Some(make_typed_choice("any"))
        } else if t.eq("function") {
            let name = tc.str_or_empty("name");
            if name.is_empty() {
                Some(make_typed_choice("any"))
            } else {
                Some(make_typed_choice("tool").with("name", Json::text(name)))
            }
        } else {
            None
        },
        None => None,
    }
}

fn make_tools(tools: &Vec<Json>) -> (r: Vec<Json>)
    ensures
        models(r@) == tools_of_responses(models(tools@)),
{
    broadcast use group_models;

    let ghost all = models(tools@);
    let mut out: Vec<Json> = Vec::new();
    let mut i: usize = 0;
    while i < tools.len()
        invariant
            i <= tools@.len(),
            all == models(tools@),
            models(out@) == tools_of_responses(all.take(i as int)),
        decreases tools@.len() - i,
    {
        proof {
            lemma_step(all, i as int);
        }
        let t = &tools[i];
        if let Some(name) = t.str_at("name") {
            out.push(
                Json::Object(
                    JsonObject::new().with("name", Json::text(name)).with(
                        "description",
                        Json::text(t.str_or_empty("description")),
                    ).with("input_schema", copy_or_empty_object(t, "parameters")),
                ),
            );
        }
        i += 1;
    }
    proof {
        lemma_whole(all);
    }
    out
}

/// Convert an OpenAI Responses API request body to an Anthropic Messages body.
pub fn responses_to_anthropic_request(body: &Json) -> (r: Result<Json, Error>)
    ensures
        r is Ok,
        r->Ok_0@ == request_of_responses(body@),
{
    broadcast use group_models;

    let mut m = with_text(JsonObject::new(), "model", body.str_at("model"));
    let system = match body.get("instructions") {
        Some(v) => match v.as_str() {
            Some(t) => t.to_owned(),
            None => match v.as_array() {
                Some(parts) => join_texts(&collect_part_texts(parts), "\n\n"),
                None => String::new(),
            },
        },
        None => String::new(),
    };
    if !system.as_str().is_empty() {
        m = m.with("system", Json::Text(system));
    }
    if let Some(input) = body.array_at("input") {
        m = with_list(m, "messages", responses_input_to_messages(input));
    } else {
        assert(messages_of_input(Seq::empty()) =~= Seq::empty());
    }
    m = m.with_some("max_tokens", body.get("max_output_tokens"));
    m = m.with_some("temperature", body.get("temperature"));
    m = m.with_some("top_p", body.get("top_p"));
    let effort = match body.path2("reasoning", "effort") {
        Some(v) => v.as_str(),
        None => None,
    };
    if let Some(e) = effort {
        m = m.with("thinking", make_thinking_of_effort(e));
    }
    if let Some(tools) = body.array_at("tools") {
        m = with_list(m, "tools", make_tools(tools));
    } else {
        assert(tools_of_responses(Seq::empty()) =~= Seq::empty());
    }
    let choice = match body.get("tool_choice") {
        Some(c) => map_responses_tool_choice(c),
        None => None,
    };
    if bool_at(body, "parallel_tool_calls") == Some(false) {
        let c = match choice {
            Some(c) => c,
            None => make_typed_choice("auto"),
        };
        m = m.with("tool_choice", Json::Object(c.with("disable_parallel_tool_use", Json::Bool(true))));
    } else if let Some(c) = choice {
        m = m.with("tool_choice", Json::Object(c));
    }
    m = m.with_some("stream", body.get("stream"));
    Ok(Json::Object(m))
}

/// The status of a response, by why it ended.
pub(crate) fn map_stop_to_status(stop: Option<&str>) -> (r: &'static str)
    ensures
        r@ == status_of_stop(opt_text(stop)),
{
    match stop {
        Some(s) => if s.eq("max_tokens") {
            "incomplete"
        } else if s.eq("tool_use") {
            "in_progress"
        } else {
            "completed"
        },
        None => "completed",
    }
}

/// A list of one document.
pub(crate) fn single(v: Json) -> (r: Vec<Json>)
    ensures
        models(r@) == seq![v@],
{
    broadcast use group_models;

    let ghost model = v@;
    let mut list: Vec<Json> = Vec::new();
    list.push(v);
    assert(models(list@) =~= seq![model]);
    list
}

fn make_output_reasoning(n: u64, thinking: &str) -> (r: Json)
    ensures
        r@ == output_reasoning(n as nat, thinking@),
{
    broadcast use group_models;

    let summary: Vec<Json> = if thinking.is_empty() {
        Vec::new()
    } else {
        single(make_typed_text("summary_text", thinking))
    };
    let id = cat("rs_", decimal_text(n).as_str());
    Json::Object(
        JsonObject::new().with("id", Json::Text(id)).with("type", Json::text("reasoning")).with(
            "summary",
            Json::array(summary),
        ).with("content", Json::array(single(make_typed_text("summary_text", thinking)))),
    )
}

/// A function call of the output, the `n`th of all items.
pub(crate) fn make_output_call(n: u64, id: &str, name: &str, arguments: &str, status: &str) -> (r: Json)
    ensures
        r@ == output_call(n as nat, id@, name@, arguments@, status@),
{
    let item = cat("fc_", decimal_text(n).as_str());
    Json::Object(
        JsonObject::new().with("id", Json::Text(item)).with("type", Json::text("function_call")).with(
            "call_id",
            Json::text(id),
        ).with("name", Json::text(name)).with("arguments", Json::text(arguments)).with("status", Json::text(status)),
    )
}

/// A message of the output, the `n`th of all items.
pub(crate) fn make_output_message(n: u64, content: Vec<Json>, status: &str) -> (r: Json)
    ensures
        r@ == output_message(n as nat, models(content@), status@),
{
    let item = cat("msg_", decimal_text(n).as_str());
    Json::Object(
        JsonObject::new().with("id", Json::Text(item)).with("type", Json::text("message")).with(
            "role",
            Json::text("assistant"),
        ).with("content", Json::array(content)).with("status", Json::text(status)),
    )
}

fn make_output(blocks: &Vec<Json>) -> (r: Vec<Json>)
    ensures
        models(r@) == output_of_blocks(models(blocks@)),
{
    broadcast use group_models;

    proof {
        reveal_strlit("text");
        reveal_strlit("thinking");
        reveal_strlit("tool_use");
        assert("text"@.len() != "thinking"@.len());
        assert("text"@.len() != "tool_use"@.len());
    }
    let ghost all = models(blocks@);
    let mut items: Vec<Json> = Vec::new();
    let mut shown: Vec<Json> = Vec::new();
    let mut i: usize = 0;
    while i < blocks.len()
        invariant
            i <= blocks@.len(),
            all == models(blocks@),
            "text"@.len() != "thinking"@.len(),
            "text"@.len() != "tool_use"@.len(),
            models(items@) == output_items(all.take(i as int)),
            models(shown@) == output_texts(all.take(i as int)),
        decreases blocks@.len() - i,
    {
        proof {
            lemma_step(all, i as int);
            assert(models(items@).len() == items@.len());
        }
        let block = &blocks[i];
        if field_is(block, "type", "text") {
            if let Some(t) = block.str_at("text") {
                shown.push(make_typed_text("output_text", t));
            }
        } else if field_is(block, "type", "thinking") {
            items.push(make_output_reasoning(items.len() as u64, block.str_or_empty("thinking")));
        } else if field_is(block, "type", "tool_use") {
            let arguments = canonical_json_string(&copy_or_empty_object(block, "input"));
            items.push(
                make_output_call(
                    items.len() as u64,
                    block.str_or_empty("id"),
                    block.str_or_empty("name"),
                    arguments.as_str(),
                    "completed",
                ),
            );
        }
        i += 1;
    }
    proof {
        lemma_whole(all);
        assert(models(items@).len() == items@.len());
        assert(models(shown@).len() == shown@.len());
    }
    if shown.len() > 0 {
        let mut out = single(make_output_message(items.len() as u64, shown, "completed"));
        extend(&mut out, items);
        out
    } else {
        items
    }
}

/// Anthropic usage to Responses usage. `total_tokens` is required by the format,
/// so it is always present.
pub fn build_responses_usage(usage: Option<&Json>) -> (r: Json)
    ensures
        r@ == usage_for_responses(opt_model(usage)),
{
    let nothing = Json::Null;
    let u = match usage {
        Some(u) => u,
        None => &nothing,
    };
    let input = u.u64_at("input_tokens");
    let output = u.u64_at("output_tokens");
    let mut m = JsonObject::new();
    if let Some(n) = input {
        m = m.with("input_tokens", Json::number(n));
    }
    if let Some(n) = output {
        m = m.with("output_tokens", Json::number(n));
    }
    if let Some(n) = u.u64_at("cache_creation_input_tokens") {
        m = m.with(
            "input_tokens_details",
            Json::Object(JsonObject::new().with("cached_tokens", Json::number(n))),
        );
    }
    let total: u64 = add_counts(zero_or(input), zero_or(output));
    Json::Object(m.with("total_tokens", Json::number(total)))
}

/// Convert an Anthropic Messages response to an OpenAI Responses response.
/// `model` is echoed back.
pub fn anthropic_to_responses_response(body: &Json, model: &str) -> (r: Result<Json, Error>)
    ensures
        r is Ok,
        r->Ok_0@ == responses_response(body@, model@),
{
    broadcast use group_models;

    let none: Vec<Json> = Vec::new();
    let blocks = match body.array_at("content") {
        Some(blocks) => blocks,
        None => &none,
    };
    let id = cat("resp_", body.str_or_empty("id"));
    let status = map_stop_to_status(body.str_at("stop_reason"));
    Ok(
        Json::Object(
            JsonObject::new().with("id", Json::Text(id)).with("object", Json::text("response")).with(
                "model",
                Json::text(model),
            ).with("status", Json::text(status)).with("output", Json::array(make_output(blocks))).with(
                "usage",
                build_responses_usage(body.get("usage")),
            ),
        ),
    )
}

} // verus!
