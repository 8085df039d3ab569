//! A whole Responses response as an Anthropic response.

use vstd::prelude::*;
use vstd::string::*;
use crate::convert_response::{anthropic_message, beyond, call_input, finish_input, first, make_anthropic_message, make_tool_use_block, outcome, push_text_block, text_blocks, tool_use_block, transform_error, zero_or};
use crate::error::{Error, ErrorV};
use crate::json::{Json, JsonObject, JsonV, empty_object, field_is, first_of, group_models, insert_some, lemma_step, lemma_whole, models, num, opt_json, opt_model, opt_text, opt_u64, or_zero, u64_of};
use crate::json_text::{json_parse, parse_json};
use crate::reasoning_bridge::{anthropic_block_from_openai_reasoning_item, is_reasoning, reasoning_block};
use crate::text::{cat, cat3, trim, trimmed};

verus! {

/// The message of the error in a document: the first member that may hold one,
/// or `fallback` where that one is blank or there is none.
pub open spec fn error_message(body: JsonV, fallback: Seq<char>) -> Seq<char> {
    let nested = match body.path2("error"@, "message"@) {
        Some(v) => v.as_str(),
        None => None,
    };
    let found = match nested {
        Some(t) => Some(t),
        None => match body.str_at("message"@) {
            Some(t) => Some(t),
            None => body.str_at("error"@),
        },
    };
    match found {
        Some(t) => if trim(t).len() > 0 {
            t
        } else {
            fallback
        },
        None => fallback,
    }
}

/// Why a response that did not come to a good end is refused.
pub open spec fn terminal_error(body: JsonV) -> Option<ErrorV> {
    if body.str_at("status"@) == Some("failed"@) {
        Some(
            ErrorV::Transform(
                "Responses upstream failed: "@ + error_message(body, "response generation failed"@),
            ),
        )
    } else if body.str_at("status"@) == Some("cancelled"@) {
        Some(
            ErrorV::Transform(
                "Responses upstream cancelled the response: "@ + error_message(
                    body,
                    "response generation was cancelled"@,
                ),
            ),
        )
    } else if body.get("error"@) is Some && !(body.get("error"@)->0 is Null) {
        Some(
            ErrorV::Transform(
                "Responses upstream returned an error envelope: "@ + error_message(
                    body,
                    "unknown upstream error"@,
                ),
            ),
        )
    } else {
        None
    }
}

/// The input of a tool call, without the empty list of pages that `Read` rejects.
pub open spec fn tool_input(name: Seq<char>, input: JsonV) -> JsonV {
    if name == "Read"@ && input.str_at("pages"@) == Some(Seq::<char>::empty()) {
        input.unset("pages"@)
    } else {
        input
    }
}

/// The input of a function call whose arguments were read. A response that was not
/// completed may hold arguments that are cut off; they count as none.
pub open spec fn input_of_arguments(
    name: Seq<char>,
    arguments: Result<JsonV, Seq<char>>,
    completed: bool,
) -> Result<JsonV, ErrorV> {
    match arguments {
        Ok(v) => if v is Object {
            Ok(call_input(name, tool_input(name, v)))
        } else if completed {
            Err(ErrorV::Transform("Function call arguments for '"@ + name + "' must be a JSON object"@))
        } else {
            Ok(empty_object())
        },
        Err(e) => if completed {
            Err(ErrorV::Transform("Invalid function_call arguments for '"@ + name + "': "@ + e))
        } else {
            Ok(call_input(name, empty_object()))
        },
    }
}

/// The input of a function call. Blank arguments count as none.
pub open spec fn function_input(item: JsonV, completed: bool) -> Result<JsonV, ErrorV> {
    let args = item.str_or("arguments"@, "{}"@);
    input_of_arguments(
        item.str_or("name"@, Seq::empty()),
        if trim(args).len() == 0 {
            Ok(empty_object())
        } else {
            json_parse(args)
        },
        completed,
    )
}

/// The blocks for one part of a message.
pub open spec fn message_part_blocks(part: JsonV) -> Seq<JsonV> {
    let kind = part.str_or("type"@, Seq::empty());
    if kind == "output_text"@ {
        text_blocks(part.str_at("text"@))
    } else if kind == "refusal"@ {
        text_blocks(part.str_at("refusal"@))
    } else {
        Seq::empty()
    }
}

/// The blocks for the parts of a message.
pub open spec fn message_parts_blocks(parts: Seq<JsonV>) -> Seq<JsonV>
    decreases parts.len(),
{
    if parts.len() == 0 {
        Seq::empty()
    } else {
        message_parts_blocks(parts.drop_last()) + message_part_blocks(parts.last())
    }
}

/// Whether an item is a function call.
pub open spec fn is_call(item: JsonV) -> bool {
    item.str_at("type"@) == Some("function_call"@)
}

/// The blocks for one item of the output.
pub open spec fn item_blocks(item: JsonV, completed: bool) -> Result<Seq<JsonV>, ErrorV> {
    if item.str_at("type"@) == Some("message"@) {
        Ok(message_parts_blocks(item.items_at("content"@)))
    } else if is_call(item) {
        match function_input(item, completed) {
            Ok(input) => Ok(
                seq![
                    tool_use_block(
                        item.str_or("call_id"@, Seq::empty()),
                        item.str_or("name"@, Seq::empty()),
                        input,
                    ),
                ],
            ),
            Err(e) => Err(e),
        }
    } else if is_reasoning(item) {
        match reasoning_block(item) {
            Some(block) => Ok(seq![block]),
            None => Ok(Seq::empty()),
        }
    } else {
        Ok(Seq::empty())
    }
}

/// The blocks for the output, or the first error in it.
pub open spec fn output_blocks(items: Seq<JsonV>, completed: bool) -> Result<Seq<JsonV>, ErrorV>
    decreases items.len(),
{
    if items.len() == 0 {
        Ok(Seq::empty())
    } else {
        match output_blocks(items.drop_last(), completed) {
            Ok(front) => match item_blocks(items.last(), completed) {
                Ok(last) => Ok(front + last),
                Err(e) => Err(e),
            },
            Err(e) => Err(e),
        }
    }
}

/// Whether the output calls a function.
pub open spec fn has_call(items: Seq<JsonV>) -> bool {
    exists|i: int| 0 <= i < items.len() && #[trigger] is_call(items[i])
}

/// Why a response ended, by its status.
pub open spec fn responses_stop_reason(
    status: Option<Seq<char>>,
    has_tool_use: bool,
    incomplete: Option<Seq<char>>,
) -> Option<Seq<char>> {
    match status {
        Some(s) => Some(
            if s == "completed"@ && has_tool_use {
                "tool_use"@
            } else if s == "incomplete"@ && (incomplete is None || incomplete == Some("max_output_tokens"@)
                || incomplete == Some("max_tokens"@)) {
                "max_tokens"@
            } else {
                "end_turn"@
            },
        ),
        None => None,
    }
}

/// A count as a document, where there is one.
pub open spec fn opt_num(o: Option<u64>) -> Option<JsonV> {
    match o {
        Some(n) => Some(num(n)),
        None => None,
    }
}

/// The tokens read from the cache: a member by itself, or in the details.
pub open spec fn responses_cache_read(u: JsonV) -> Option<JsonV> {
    match u.get("cache_read_input_tokens"@) {
        Some(v) => Some(v),
        None => opt_num(
            first_of(
                opt_u64(u.path2("input_tokens_details"@, "cached_tokens"@)),
                opt_u64(u.path2("prompt_tokens_details"@, "cached_tokens"@)),
            ),
        ),
    }
}

/// The tokens written to the cache: a member by itself, or in the details.
pub open spec fn responses_cache_created(u: JsonV) -> Option<JsonV> {
    match u.get("cache_creation_input_tokens"@) {
        Some(v) => Some(v),
        None => opt_num(
            first_of(
                opt_u64(u.path2("input_tokens_details"@, "cache_write_tokens"@)),
                opt_u64(u.path2("prompt_tokens_details"@, "cache_write_tokens"@)),
            ),
        ),
    }
}

/// The counts of tokens of a Responses usage: what was read from or written to the
/// cache does not count as input.
pub open spec fn token_counts(u: JsonV) -> Map<Seq<char>, JsonV> {
    let input = or_zero(first_of(u.u64_at("input_tokens"@), u.u64_at("prompt_tokens"@)));
    let output = or_zero(first_of(u.u64_at("output_tokens"@), u.u64_at("completion_tokens"@)));
    let read = responses_cache_read(u);
    let created = responses_cache_created(u);
    let fresh = beyond(beyond(input, or_zero(opt_u64(read))), or_zero(opt_u64(created)));
    let m = map!["input_tokens"@ => num(fresh), "output_tokens"@ => num(output)];
    let m = insert_some(m, "cache_read_input_tokens"@, read);
    insert_some(m, "cache_creation_input_tokens"@, created)
}

/// A usage of nothing.
pub open spec fn no_usage() -> JsonV {
    JsonV::Object(map!["input_tokens"@ => num(0), "output_tokens"@ => num(0)])
}

/// The usage of an Anthropic response from that of a Responses response.
pub open spec fn responses_usage(usage: Option<JsonV>) -> JsonV {
    match usage {
        Some(JsonV::Object(_)) => JsonV::Object(
            insert_some(token_counts(usage->0), "cache_creation"@, usage->0.get("cache_creation"@)),
        ),
        _ => no_usage(),
    }
}

/// The usage at the end of a stream.
pub open spec fn streamed_usage(usage: Option<JsonV>) -> JsonV {
    match usage {
        Some(JsonV::Object(_)) => JsonV::Object(token_counts(usage->0)),
        _ => no_usage(),
    }
}

/// The Anthropic response for a Responses response, or why there is none.
pub open spec fn anthropic_from_responses(body: JsonV, model: Seq<char>) -> Result<JsonV, ErrorV> {
    match terminal_error(body) {
        Some(e) => Err(e),
        None => match body.array_at("output"@) {
            None => Err(ErrorV::Transform("No output in response"@)),
            Some(items) => match output_blocks(items, body.str_at("status"@) == Some("completed"@)) {
                Err(e) => Err(e),
                Ok(content) => {
                    let incomplete = match body.path2("incomplete_details"@, "reason"@) {
                        Some(v) => v.as_str(),
                        None => None,
                    };
                    Ok(
                        anthropic_message(
                            body.str_or("id"@, Seq::empty()),
                            content,
                            model,
                            responses_stop_reason(body.str_at("status"@), has_call(items), incomplete),
                            responses_usage(body.get("usage"@)),
                        ),
                    )
                },
            },
        },
    }
}

/// The message of the error in a document.
pub(crate) fn responses_error_message<'a>(body: &'a Json, fallback: &'a str) -> (r: &'a str)
    ensures
        r@ == error_message(body@, fallback@),
{
    let nested = match body.path2("error", "message") {
        Some(v) => v.as_str(),
        None => None,
    };
    let found = match nested {
        Some(t) => Some(t),
        None => match body.str_at("message") {
            Some(t) => Some(t),
            None => body.str_at("error"),
        },
    };
    match found {
        Some(t) => if trimmed(t).is_empty() {
            fallback
        } else {
            t
        },
        None => fallback,
    }
}

fn validate_responses_terminal_status(body: &Json) -> (r: Result<(), Error>)
    ensures
        match r {
            Ok(_) => terminal_error(body@) is None,
            Err(e) => terminal_error(body@) == Some(e@),
        },
{
    if field_is(body, "status", "failed") {
        return Err(
            Error::Transform(
                cat(
                    "Responses upstream failed: ",
                    responses_error_message(body, "response generation failed"),
                ),
            ),
        );
    }
    if field_is(body, "status", "cancelled") {
        return Err(
            Error::Transform(
                cat(
                    "Responses upstream cancelled the response: ",
                    responses_error_message(body, "response generation was cancelled"),
                ),
            ),
        );
    }
    match body.get("error") {
        None => Ok(()),
        Some(Json::Null) => Ok(()),
        Some(_) => Err(
            Error::Transform(
                cat(
                    "Responses upstream returned an error envelope: ",
                    responses_error_message(body, "unknown upstream error"),
                ),
            ),
        ),
    }
}

/// The input of a tool call, without the empty list of pages that `Read` rejects.
pub fn sanitize_anthropic_tool_use_input(name: &str, input: Json) -> (r: Json)
    ensures
        r@ == tool_input(name@, input@),
{
    let empty_pages = match input.str_at("pages") {
        Some(t) => {
            assert(t@.len() == 0 ==> t@ =~= Seq::<char>::empty());
            t.is_empty()
        },
        None => false,
    };
    if name.eq("Read") && empty_pages {
        input.unset("pages")
    } else {
        input
    }
}

/// The input of a function call whose arguments were read. A response that was not
/// completed may hold arguments that are cut off; they count as none.
pub fn function_call_input(name: &str, arguments: Result<Json, String>, completed: bool) -> (r: Result<Json, Error>)
    ensures
        outcome(r) == input_of_arguments(
            name@,
            match arguments {
                Ok(v) => Ok(v@),
                Err(e) => Err(e@),
            },
            completed,
        ),
{
    let input = match arguments {
        Ok(v) => v,
        Err(e) => {
            if completed {
                let mut message = cat3("Invalid function_call arguments for '", name, "': ");
                message.append(e.as_str());
                return Err(Error::Transform(message));
            }
            let none = Json::Object(JsonObject::new());
            return Ok(finish_input(name, none));
        },
    };
    if let Json::Object(_) = input {
        let cleaned = sanitize_anthropic_tool_use_input(name, input);
        Ok(finish_input(name, cleaned))
    } else if completed {
        Err(Error::Transform(cat3("Function call arguments for '", name, "' must be a JSON object")))
    } else {
        Ok(Json::Object(JsonObject::new()))
    }
}

fn make_function_input(item: &Json, completed: bool) -> (r: Result<Json, Error>)
    ensures
        outcome(r) == function_input(item@, completed),
{
    let args = item.str_or("arguments", "{}");
    let arguments = if trimmed(args).is_empty() {
        Ok(Json::Object(JsonObject::new()))
    } else {
        parse_json(args)
    };
    function_call_input(item.str_or_empty("name"), arguments, completed)
}

fn push_message_blocks(list: &mut Vec<Json>, parts: &Vec<Json>)
    ensures
        models(final(list)@) == models(old(list)@) + message_parts_blocks(models(parts@)),
{
    let ghost before = models(list@);
    let ghost all = models(parts@);
    let mut i: usize = 0;
    assert(before + message_parts_blocks(all.take(0)) =~= before);
    while i < parts.len()
        invariant
            i <= parts@.len(),
            all == models(parts@),
            models(list@) == before + message_parts_blocks(all.take(i as int)),
        decreases parts@.len() - i,
    {
        let part = &parts[i];
        let ghost so_far = models(list@);
        proof {
            lemma_step(all, i as int);
            assert(so_far + Seq::<JsonV>::empty() =~= so_far);
        }
        let kind = part.str_or_empty("type");
        if kind.eq("output_text") {
            push_text_block(list, part.str_at("text"));
        } else if kind.eq("refusal") {
            push_text_block(list, part.str_at("refusal"));
        }
        assert(models(list@) == so_far + message_part_blocks(part@));
        assert(models(list@) =~= before + message_parts_blocks(all.take(i + 1)));
        i += 1;
    }
    proof {
        lemma_whole(all);
    }
}

/// Adds the blocks for one item of the output.
fn push_item_blocks(list: &mut Vec<Json>, item: &Json, completed: bool) -> (r: Result<(), Error>)
    ensures
        match (r, item_blocks(item@, completed)) {
            (Ok(_), Ok(blocks)) => models(final(list)@) == models(old(list)@) + blocks,
            (Err(e), Err(f)) => e@ == f,
            _ => false,
        },
{
    broadcast use group_models;

    proof {
        reveal_strlit("message");
        reveal_strlit("function_call");
        reveal_strlit("reasoning");
        assert("message"@.len() != "function_call"@.len());
        assert("message"@.len() != "reasoning"@.len());
        assert("function_call"@.len() != "reasoning"@.len());
    }
    let ghost before = models(list@);
    assert(before + Seq::<JsonV>::empty() =~= before);
    if field_is(item, "type", "message") {
        if let Some(parts) = item.array_at("content") {
            push_message_blocks(list, parts);
        } else {
            assert(message_parts_blocks(Seq::empty()) =~= Seq::empty());
        }
    } else if field_is(item, "type", "function_call") {
        match make_function_input(item, completed) {
            Ok(input) => {
                let ghost block = tool_use_block(
                    item@.str_or("call_id"@, Seq::empty()),
                    item@.str_or("name"@, Seq::empty()),
                    input@,
                );
                list.push(make_tool_use_block(item.str_or_empty("call_id"), item.str_or_empty("name"), input));
                assert(models(list@) =~= before + seq![block]);
            },
            Err(e) => {
                return Err(e);
            },
        }
    } else if field_is(item, "type", "reasoning") {
        if let Some(block) = anthropic_block_from_openai_reasoning_item(item) {
            let ghost model = block@;
            list.push(block);
            assert(models(list@) =~= before + seq![model]);
        }
    }
    Ok(())
}

proof fn lemma_error_stays(items: Seq<JsonV>, n: int, completed: bool)
    requires
        0 <= n <= items.len(),
        output_blocks(items.take(n), completed) is Err,
    ensures
        output_blocks(items, completed) == output_blocks(items.take(n), completed),
    decreases items.len() - n,
{
    if n < items.len() {
        lemma_step(items, n);
        lemma_error_stays(items, n + 1, completed);
    } else {
        lemma_whole(items);
    }
}

fn map_responses_stop_reason(status: Option<&str>, has_tool_use: bool, incomplete: Option<&str>) -> (r: Option<
    &'static str,
>)
    ensures
        opt_text(r) == responses_stop_reason(opt_text(status), has_tool_use, opt_text(incomplete)),
{
    match status {
        Some(s) => {
            let cut_off = match incomplete {
                Some(t) => t.eq("max_output_tokens") || t.eq("max_tokens"),
                None => true,
            };
            if s.eq("completed") && has_tool_use {
                Some("tool_use")
            } else if s.eq("incomplete") && cut_off {
                Some("max_tokens")
            } else {
                Some("end_turn")
            }
        },
        None => None,
    }
}

fn copy_or_number(v: Option<&Json>, n: Option<u64>) -> (r: Option<Json>)
    ensures
        opt_json(r) == match opt_model(v) {
            Some(v) => Some(v),
            None => opt_num(n),
        },
{
    match v {
        Some(v) => Some(v.copy()),
        None => match n {
            Some(n) => Some(Json::number(n)),
            None => None,
        },
    }
}

fn count_tokens(u: &Json) -> (r: JsonObject)
    ensures
        r@ == token_counts(u@),
{
    let input: u64 = zero_or(first(u.u64_at("input_tokens"), u.u64_at("prompt_tokens")));
    let output: u64 = zero_or(first(u.u64_at("output_tokens"), u.u64_at("completion_tokens")));
    let read = copy_or_number(
        u.get("cache_read_input_tokens"),
        first(
            u64_of(u.path2("input_tokens_details", "cached_tokens")),
            u64_of(u.path2("prompt_tokens_details", "cached_tokens")),
        ),
    );
    let created = copy_or_number(
        u.get("cache_creation_input_tokens"),
        first(
            u64_of(u.path2("input_tokens_details", "cache_write_tokens")),
            u64_of(u.path2("prompt_tokens_details", "cache_write_tokens")),
        ),
    );
    let fresh: u64 = input.saturating_sub(zero_or(u64_of(read.as_ref()))).saturating_sub(
        zero_or(u64_of(created.as_ref())),
    );
    let m = JsonObject::new().with("input_tokens", Json::number(fresh)).with("output_tokens", Json::number(output));
    m.with_some("cache_read_input_tokens", read.as_ref()).with_some("cache_creation_input_tokens", created.as_ref())
}

/// A usage of nothing.
pub(crate) fn make_no_usage() -> (r: Json)
    ensures
        r@ == no_usage(),
{
    Json::Object(
        JsonObject::new().with("input_tokens", Json::number(0)).with("output_tokens", Json::number(0)),
    )
}

/// Build Anthropic-style usage from Responses API usage.
pub fn build_anthropic_usage_from_responses(usage: Option<&Json>) -> (r: Json)
    ensures
        r@ == responses_usage(opt_model(usage)),
{
    match usage {
        Some(u) => if u.as_object().is_some() {
            Json::Object(count_tokens(u).with_some("cache_creation", u.get("cache_creation")))
        } else {
            make_no_usage()
        },
        None => make_no_usage(),
    }
}

/// Build Anthropic-style usage from Responses API usage at the end of a stream.
pub fn build_anthropic_usage_from_responses_streaming(usage: Option<&Json>) -> (r: Json)
    ensures
        r@ == streamed_usage(opt_model(usage)),
{
    match usage {
        Some(u) => if u.as_object().is_some() {
            Json::Object(count_tokens(u))
        } else {
            make_no_usage()
        },
        None => make_no_usage(),
    }
}

/// OpenAI Responses response to Anthropic response.
///
/// `model` is the model echoed back to the Anthropic client (the original model
/// the client requested), not the upstream's reported model.
pub fn responses_to_anthropic(body: &Json, model: &str) -> (r: Result<Json, Error>)
    ensures
        outcome(r) == anthropic_from_responses(body@, model@),
{
    broadcast use group_models;

    if let Err(e) = validate_responses_terminal_status(body) {
        return Err(e);
    }
    let items = match body.array_at("output") {
        Some(items) => items,
        None => {
            return Err(transform_error("No output in response"));
        },
    };
    let ghost all = models(items@);
    let completed = field_is(body, "status", "completed");
    let mut content: Vec<Json> = Vec::new();
    let mut called = false;
    let mut i: usize = 0;
    while i < items.len()
        invariant
            i <= items@.len(),
            all == models(items@),
            body@.array_at("output"@) == Some(all),
            terminal_error(body@) is None,
            completed == (body@.str_at("status"@) == Some("completed"@)),
            output_blocks(all.take(i as int), completed) == Ok::<Seq<JsonV>, ErrorV>(models(content@)),
            called == exists|j: int| 0 <= j < i && #[trigger] is_call(all[j]),
        decreases items@.len() - i,
    {
        proof {
            lemma_step(all, i as int);
        }
        let item = &items[i];
        match push_item_blocks(&mut content, item, completed) {
            Ok(_) => {},
            Err(e) => {
                proof {
                    lemma_error_stays(all, i + 1, completed);
                }
                return Err(e);
            },
        }
        if field_is(item, "type", "function_call") {
            called = true;
            assert(is_call(all[i as int]));
        }
        i += 1;
    }
    proof {
        lemma_whole(all);
        assert(called == has_call(all));
    }
    let incomplete = match body.path2("incomplete_details", "reason") {
        Some(v) => v.as_str(),
        None => None,
    };
    let stop = map_responses_stop_reason(body.str_at("status"), called, incomplete);
    let usage = build_anthropic_usage_from_responses(body.get("usage"));
    Ok(make_anthropic_message(body.str_or_empty("id"), content, model, stop, usage))
}

} // verus!
