//! A whole Chat response as an Anthropic response.

use vstd::prelude::*;
use vstd::string::*;
use crate::convert::{ensure_send_message_summary, extend, with_summary};
use crate::convert_message::{copy_or_empty_object, or_empty_object};
use crate::error::{Error, ErrorV};
use crate::json::{Json, JsonObject, JsonV, empty_object, first_of, group_models, lemma_step, lemma_whole, make_text_block, make_text_or_null, models, num, opt_model, opt_text, opt_u64, or_zero, text_block, text_or_null, u64_of};
use crate::json_text::{json_parse, parse_json};

verus! {

/// A block of thinking.
pub open spec fn thinking_block(t: Seq<char>) -> JsonV {
    JsonV::Object(map!["type"@ => JsonV::Text("thinking"@), "thinking"@ => JsonV::Text(t)])
}

/// A block that calls a tool.
pub open spec fn tool_use_block(id: Seq<char>, name: Seq<char>, input: JsonV) -> JsonV {
    JsonV::Object(
        map![
            "type"@ => JsonV::Text("tool_use"@),
            "id"@ => JsonV::Text(id),
            "name"@ => JsonV::Text(name),
            "input"@ => input,
        ],
    )
}

/// The block for a text, where the text is not empty.
pub open spec fn text_blocks(t: Option<Seq<char>>) -> Seq<JsonV> {
    match t {
        Some(t) => if t.len() > 0 {
            seq![text_block(t)]
        } else {
            Seq::empty()
        },
        None => Seq::empty(),
    }
}

/// The blocks for one part of the content of a Chat message.
pub open spec fn part_blocks(part: JsonV) -> Seq<JsonV> {
    let kind = part.str_or("type"@, Seq::empty());
    if kind == "text"@ || kind == "output_text"@ {
        text_blocks(part.str_at("text"@))
    } else if kind == "refusal"@ {
        text_blocks(part.str_at("refusal"@))
    } else {
        Seq::empty()
    }
}

/// The blocks for the parts of the content of a Chat message.
pub open spec fn parts_blocks(parts: Seq<JsonV>) -> Seq<JsonV>
    decreases parts.len(),
{
    if parts.len() == 0 {
        Seq::empty()
    } else {
        parts_blocks(parts.drop_last()) + part_blocks(parts.last())
    }
}

/// The blocks for the content of a Chat message.
pub open spec fn content_blocks(content: Option<JsonV>) -> Seq<JsonV> {
    match content {
        Some(JsonV::Text(t)) => text_blocks(Some(t)),
        Some(JsonV::Array(parts)) => parts_blocks(parts),
        _ => Seq::empty(),
    }
}

/// The document that a text is, or the empty object where it is none.
pub open spec fn parsed_or_empty(t: Seq<char>) -> JsonV {
    match json_parse(t) {
        Ok(v) => v,
        Err(_) => empty_object(),
    }
}

/// The input of a tool call, with the summary that `SendMessage` needs.
pub open spec fn call_input(name: Seq<char>, input: JsonV) -> JsonV {
    if name == "SendMessage"@ {
        with_summary(input)
    } else {
        input
    }
}

/// The block for a tool call of a Chat message.
pub open spec fn call_block(call: JsonV) -> JsonV {
    let function = or_empty_object(call.get("function"@));
    let name = function.str_or("name"@, Seq::empty());
    tool_use_block(
        call.str_or("id"@, Seq::empty()),
        name,
        call_input(name, parsed_or_empty(function.str_or("arguments"@, "{}"@))),
    )
}

/// The blocks for the tool calls of a Chat message.
pub open spec fn call_blocks(calls: Seq<JsonV>) -> Seq<JsonV>
    decreases calls.len(),
{
    if calls.len() == 0 {
        Seq::empty()
    } else {
        call_blocks(calls.drop_last()).push(call_block(calls.last()))
    }
}

/// The block for the older form of a tool call, where it names a function or has
/// arguments.
pub open spec fn legacy_blocks(call: Option<JsonV>) -> Seq<JsonV> {
    match call {
        Some(call) => {
            let name = call.str_or("name"@, Seq::empty());
            let input = match call.get("arguments"@) {
                Some(JsonV::Text(t)) => parsed_or_empty(t),
                Some(JsonV::Object(m)) => JsonV::Object(m),
                Some(JsonV::Array(a)) => JsonV::Array(a),
                _ => empty_object(),
            };
            if name.len() > 0 || call.get("arguments"@) is Some {
                seq![tool_use_block(call.str_or("id"@, Seq::empty()), name, call_input(name, input))]
            } else {
                Seq::empty()
            }
        },
        None => Seq::empty(),
    }
}

/// The blocks in which a Chat message calls tools.
pub open spec fn tool_blocks(message: JsonV) -> Seq<JsonV> {
    if message.items_at("tool_calls"@).len() > 0 {
        call_blocks(message.items_at("tool_calls"@))
    } else {
        legacy_blocks(message.get("function_call"@))
    }
}

/// The block for the reasoning of a Chat message.
pub open spec fn reasoning_blocks(message: JsonV) -> Seq<JsonV> {
    let t = message.str_or("reasoning_content"@, Seq::empty());
    if t.len() > 0 {
        seq![thinking_block(t)]
    } else {
        Seq::empty()
    }
}

/// The content of the Anthropic response for a Chat message.
pub open spec fn anthropic_content(message: JsonV) -> Seq<JsonV> {
    reasoning_blocks(message) + content_blocks(message.get("content"@)) + text_blocks(message.str_at("refusal"@))
        + tool_blocks(message)
}

/// Why the response ended.
pub open spec fn stop_reason(finish: Option<Seq<char>>, has_tool_use: bool) -> Option<Seq<char>> {
    match finish {
        Some(r) => Some(
            if r == "length"@ {
                "max_tokens"@
            } else if r == "tool_calls"@ || r == "function_call"@ {
                "tool_use"@
            } else {
                "end_turn"@
            },
        ),
        None => if has_tool_use {
            Some("tool_use"@)
        } else {
            None
        },
    }
}

/// The tokens that were read from the cache.
pub open spec fn cached_tokens(usage: JsonV) -> u64 {
    or_zero(
        first_of(
            usage.u64_at("cache_read_input_tokens"@),
            opt_u64(usage.path2("prompt_tokens_details"@, "cached_tokens"@)),
        ),
    )
}

/// The tokens that were written to the cache, where a details member tells.
pub open spec fn written_tokens(usage: JsonV) -> Option<u64> {
    opt_u64(
        match usage.path2("prompt_tokens_details"@, "cache_write_tokens"@) {
            Some(v) => Some(v),
            None => usage.path2("input_tokens_details"@, "cache_write_tokens"@),
        },
    )
}

/// The tokens that were written to the cache.
pub open spec fn cache_creation_tokens(usage: JsonV) -> u64 {
    or_zero(first_of(usage.u64_at("cache_creation_input_tokens"@), written_tokens(usage)))
}

/// The part of `a` beyond `b`.
pub open spec fn beyond(a: u64, b: u64) -> u64 {
    if a >= b {
        (a - b) as u64
    } else {
        0
    }
}

/// A count of tokens in 32 bits.
pub open spec fn low_word(n: u64) -> u64 {
    n % 0x1_0000_0000
}

/// The usage of an Anthropic response from the usage of a Chat response: what was
/// read from or written to the cache does not count as input.
pub open spec fn anthropic_usage(usage: JsonV) -> JsonV {
    let cached = cached_tokens(usage);
    let created = cache_creation_tokens(usage);
    let input = beyond(beyond(or_zero(usage.u64_at("prompt_tokens"@)), cached), created);
    let m = map![
        "input_tokens"@ => num(low_word(input)),
        "output_tokens"@ => num(low_word(or_zero(usage.u64_at("completion_tokens"@)))),
    ];
    let m = if cached > 0 {
        m.insert("cache_read_input_tokens"@, num(cached))
    } else {
        m
    };
    JsonV::Object(
        if created > 0 {
            m.insert("cache_creation_input_tokens"@, num(created))
        } else {
            m
        },
    )
}

/// An Anthropic response.
pub open spec fn anthropic_message(
    id: Seq<char>,
    content: Seq<JsonV>,
    model: Seq<char>,
    stop: Option<Seq<char>>,
    usage: JsonV,
) -> JsonV {
    JsonV::Object(
        map![
            "id"@ => JsonV::Text(id),
            "type"@ => JsonV::Text("message"@),
            "role"@ => JsonV::Text("assistant"@),
            "content"@ => JsonV::Array(content),
            "model"@ => JsonV::Text(model),
            "stop_reason"@ => text_or_null(stop),
            "stop_sequence"@ => JsonV::Null,
            "usage"@ => usage,
        ],
    )
}

/// The Anthropic response for a Chat response, or what it lacks.
pub open spec fn anthropic_response(body: JsonV, model: Seq<char>) -> Result<JsonV, ErrorV> {
    match body.array_at("choices"@) {
        None => Err(ErrorV::Transform("No choices in response"@)),
        Some(choices) => if choices.len() == 0 {
            Err(ErrorV::Transform("Empty choices array"@))
        } else {
            match choices[0].get("message"@) {
                None => Err(ErrorV::Transform("No message in choice"@)),
                Some(message) => Ok(
                    anthropic_message(
                        body.str_or("id"@, Seq::empty()),
                        anthropic_content(message),
                        model,
                        stop_reason(choices[0].str_at("finish_reason"@), tool_blocks(message).len() > 0),
                        anthropic_usage(or_empty_object(body.get("usage"@))),
                    ),
                ),
            }
        },
    }
}

/// The outcome of a conversion.
pub open spec fn outcome(r: Result<Json, Error>) -> Result<JsonV, ErrorV> {
    match r {
        Ok(v) => Ok(v@),
        Err(e) => Err(e@),
    }
}

/// A block of thinking.
pub(crate) fn make_thinking_block(t: &str) -> (r: Json)
    ensures
        r@ == thinking_block(t@),
{
    Json::Object(JsonObject::new().with("type", Json::text("thinking")).with("thinking", Json::text(t)))
}

/// A block that calls a tool.
pub(crate) fn make_tool_use_block(id: &str, name: &str, input: Json) -> (r: Json)
    ensures
        r@ == tool_use_block(id@, name@, input@),
{
    Json::Object(
        JsonObject::new().with("type", Json::text("tool_use")).with("id", Json::text(id)).with(
            "name",
            Json::text(name),
        ).with("input", input),
    )
}

/// Adds the block for a text, where the text is not empty.
pub(crate) fn push_text_block(list: &mut Vec<Json>, t: Option<&str>)
    ensures
        models(final(list)@) == models(old(list)@) + text_blocks(opt_text(t)),
{
    broadcast use group_models;

    let ghost before = models(list@);
    assert(before + Seq::<JsonV>::empty() =~= before);
    if let Some(t) = t {
        if !t.is_empty() {
            list.push(make_text_block(t));
            assert(models(list@) =~= before + seq![text_block(t@)]);
        }
    }
}

fn push_content_blocks(list: &mut Vec<Json>, content: Option<&Json>)
    ensures
        models(final(list)@) == models(old(list)@) + content_blocks(opt_model(content)),
{
    let ghost before = models(list@);
    assert(before + Seq::<JsonV>::empty() =~= before);
    if let Some(content) = content {
        if let Some(t) = content.as_str() {
            push_text_block(list, Some(t));
        } else if let Some(parts) = content.as_array() {
            let ghost all = models(parts@);
            let mut i: usize = 0;
            assert(before + parts_blocks(all.take(0)) =~= before);
            while i < parts.len()
                invariant
                    i <= parts@.len(),
                    all == models(parts@),
                    models(list@) == before + parts_blocks(all.take(i as int)),
                decreases parts@.len() - i,
            {
                let part = &parts[i];
                let ghost so_far = models(list@);
                proof {
                    lemma_step(all, i as int);
                    assert(so_far + Seq::<JsonV>::empty() =~= so_far);
                }
                let kind = part.str_or_empty("type");
                if kind.eq("text") || kind.eq("output_text") {
                    push_text_block(list, part.str_at("text"));
                } else if kind.eq("refusal") {
                    push_text_block(list, part.str_at("refusal"));
                }
                assert(models(list@) == so_far + part_blocks(part@));
                assert(models(list@) =~= before + parts_blocks(all.take(i + 1)));
                i += 1;
            }
            proof {
                lemma_whole(all);
            }
        }
    }
}

/// The document that a text is, or the empty object where it is none.
pub(crate) fn parse_or_empty(t: &str) -> (r: Json)
    ensures
        r@ == parsed_or_empty(t@),
{
    match parse_json(t) {
        Ok(v) => v,
        Err(_) => Json::Object(JsonObject::new()),
    }
}

/// The input of a tool call, with the summary that `SendMessage` needs.
pub fn finish_input(name: &str, input: Json) -> (r: Json)
    ensures
        r@ == call_input(name@, input@),
{
    if name.eq("SendMessage") {
        ensure_send_message_summary(input)
    } else {
        input
    }
}

fn make_call_blocks(calls: &Vec<Json>) -> (r: Vec<Json>)
    ensures
        models(r@) == call_blocks(models(calls@)),
{
    broadcast use group_models;

    let ghost all = models(calls@);
    let mut out: Vec<Json> = Vec::new();
    let mut i: usize = 0;
    while i < calls.len()
        invariant
            i <= calls@.len(),
            all == models(calls@),
            models(out@) == call_blocks(all.take(i as int)),
        decreases calls@.len() - i,
    {
        proof {
            lemma_step(all, i as int);
        }
        let call = &calls[i];
        let function = copy_or_empty_object(call, "function");
        let name = function.str_or_empty("name");
        let input = parse_or_empty(function.str_or("arguments", "{}"));
        out.push(make_tool_use_block(call.str_or_empty("id"), name, finish_input(name, input)));
        i += 1;
    }
    proof {
        lemma_whole(all);
    }
    out
}

fn make_legacy_blocks(call: Option<&Json>) -> (r: Vec<Json>)
    ensures
        models(r@) == legacy_blocks(opt_model(call)),
{
    broadcast use group_models;

    let mut out: Vec<Json> = Vec::new();
    if let Some(call) = call {
        let name = call.str_or_empty("name");
        let arguments = call.get("arguments");
        let input = match arguments {
            Some(v) => match v {
                Json::Text(t) => parse_or_empty(t.as_str()),
                Json::Object(_) => v.copy(),
                Json::Array(_) => v.copy(),
                _ => Json::Object(JsonObject::new()),
            },
            None => Json::Object(JsonObject::new()),
        };
        if !name.is_empty() || arguments.is_some() {
            out.push(make_tool_use_block(call.str_or_empty("id"), name, finish_input(name, input)));
            assert(models(out@) =~= legacy_blocks(Some(call@)));
        }
    }
    out
}

fn make_tool_blocks(message: &Json) -> (r: Vec<Json>)
    ensures
        models(r@) == tool_blocks(message@),
{
    if let Some(calls) = message.array_at("tool_calls") {
        assert(models(calls@).len() == calls@.len());
        if calls.len() > 0 {
            return make_call_blocks(calls);
        }
    }
    make_legacy_blocks(message.get("function_call"))
}

/// The first of two optional values.
pub(crate) fn first(a: Option<u64>, b: Option<u64>) -> (r: Option<u64>)
    ensures
        r == first_of(a, b),
{
    match a {
        Some(_) => a,
        None => b,
    }
}

/// The value, or zero where there is none.
pub(crate) fn zero_or(o: Option<u64>) -> (r: u64)
    ensures
        r == or_zero(o),
{
    match o {
        Some(n) => n,
        None => 0,
    }
}

/// The tokens that were written to the cache, where a details member tells.
pub(crate) fn count_written_tokens(usage: &Json) -> (r: Option<u64>)
    ensures
        r == written_tokens(usage@),
{
    match usage.path2("prompt_tokens_details", "cache_write_tokens") {
        Some(v) => v.as_u64(),
        None => u64_of(usage.path2("input_tokens_details", "cache_write_tokens")),
    }
}

fn make_anthropic_usage(usage: &Json) -> (r: Json)
    ensures
        r@ == anthropic_usage(usage@),
{
    let cached: u64 = zero_or(
        first(
            usage.u64_at("cache_read_input_tokens"),
            u64_of(usage.path2("prompt_tokens_details", "cached_tokens")),
        ),
    );
    let created: u64 = zero_or(first(usage.u64_at("cache_creation_input_tokens"), count_written_tokens(usage)));
    let input: u64 = zero_or(usage.u64_at("prompt_tokens")).saturating_sub(cached).saturating_sub(created);
    let output: u64 = zero_or(usage.u64_at("completion_tokens"));
    let mut m = JsonObject::new().with("input_tokens", Json::number(input % 0x1_0000_0000)).with(
        "output_tokens",
        Json::number(output % 0x1_0000_0000),
    );
    if cached > 0 {
        m = m.with("cache_read_input_tokens", Json::number(cached));
    }
    if created > 0 {
        m = m.with("cache_creation_input_tokens", Json::number(created));
    }
    Json::Object(m)
}

/// Why the response ended.
pub(crate) fn map_stop_reason(finish: Option<&str>, has_tool_use: bool) -> (r: Option<&'static str>)
    ensures
        opt_text(r) == stop_reason(opt_text(finish), has_tool_use),
{
    match finish {
        Some(r) => if r.eq("length") {
            Some("max_tokens")
        } else if r.eq("tool_calls") || r.eq("function_call") {
            Some("tool_use")
        } else {
            Some("end_turn")
        },
        None => if has_tool_use {
            Some("tool_use")
        } else {
            None
        },
    }
}

/// An Anthropic response.
pub(crate) fn make_anthropic_message(
    id: &str,
    content: Vec<Json>,
    model: &str,
    stop: Option<&str>,
    usage: Json,
) -> (r: Json)
    ensures
        r@ == anthropic_message(id@, models(content@), model@, opt_text(stop), usage@),
{
    Json::Object(
        JsonObject::new().with("id", Json::text(id)).with("type", Json::text("message")).with(
            "role",
            Json::text("assistant"),
        ).with("content", Json::array(content)).with("model", Json::text(model)).with(
            "stop_reason",
            make_text_or_null(stop),
        ).with("stop_sequence", Json::Null).with("usage", usage),
    )
}

pub(crate) fn transform_error(message: &str) -> (r: Error)
    ensures
        r@ == ErrorV::Transform(message@),
{
    Error::Transform(message.to_owned())
}

/// OpenAI Chat Completions response to Anthropic Messages response.
///
/// `model` is the model echoed back to the Anthropic client (the original model
/// the client requested), not the upstream's reported model.
pub fn openai_to_anthropic(body: &Json, model: &str) -> (r: Result<Json, Error>)
    ensures
        outcome(r) == anthropic_response(body@, model@),
{
    broadcast use group_models;

    let choices = match body.array_at("choices") {
        Some(choices) => choices,
        None => {
            return Err(transform_error("No choices in response"));
        },
    };
    assert(models(choices@).len() == choices@.len());
    if choices.len() == 0 {
        return Err(transform_error("Empty choices array"));
    }
    let choice = &choices[0];
    let message = match choice.get("message") {
        Some(message) => message,
        None => {
            return Err(transform_error("No message in choice"));
        },
    };
    let mut content: Vec<Json> = Vec::new();
    let reasoning = message.str_or_empty("reasoning_content");
    if !reasoning.is_empty() {
        content.push(make_thinking_block(reasoning));
    }
    assert(models(content@) =~= reasoning_blocks(message@));
    push_content_blocks(&mut content, message.get("content"));
    push_text_block(&mut content, message.str_at("refusal"));
    let tools = make_tool_blocks(message);
    let has_tool_use = tools.len() > 0;
    assert(models(tools@).len() == tools@.len());
    extend(&mut content, tools);
    let usage = make_anthropic_usage(&copy_or_empty_object(body, "usage"));
    let stop = map_stop_reason(choice.str_at("finish_reason"), has_tool_use);
    Ok(make_anthropic_message(body.str_or_empty("id"), content, model, stop, usage))
}

} // verus!
