//! What a whole Responses response holds and what the Anthropic response that comes of
//! it holds are the same, and the other way round.

use vstd::prelude::*;
use crate::json::{JsonV, opt_u64};
use crate::json_canonical::compact_text;
use crate::json_text::json_parse;
use crate::reasoning_bridge::{is_reasoning, reasoning_block};
use crate::replies_told::{ReplySeen, lemma_reply_keys, lemma_reply_seen_add, lemma_reply_seen_one, lemma_reply_types, lemma_usage_keys, lemma_words, plain_input, reply_block_seen, reply_blocks_seen, reply_texts, words_seen};
use crate::responses_response::{anthropic_from_responses, function_input, has_call, is_call, item_blocks, message_part_blocks, message_parts_blocks, output_blocks, responses_cache_created, responses_cache_read, responses_usage, streamed_usage, token_counts};
use crate::responses_reverse::{output_items, output_texts, responses_response, usage_for_responses};
use crate::text::{decimal, trim};

verus! {

/// The words of the parts of a message of a Responses response.
pub open spec fn output_words(parts: Seq<JsonV>) -> Seq<ReplySeen>
    decreases parts.len(),
{
    if parts.len() == 0 {
        Seq::empty()
    } else {
        let p = parts.last();
        output_words(parts.drop_last()) + if p.str_at("type"@) == Some("output_text"@) {
            words_seen(p.str_or("text"@, Seq::empty()))
        } else if p.str_at("type"@) == Some("refusal"@) {
            words_seen(p.str_or("refusal"@, Seq::empty()))
        } else {
            Seq::empty()
        }
    }
}

/// The input of a function call: what its arguments are, where they are an object, and
/// an empty object where they are blank or cut off.
pub open spec fn input_seen(item: JsonV) -> JsonV {
    let args = item.str_or("arguments"@, "{}"@);
    match json_parse(args) {
        Ok(v) => if v is Object && trim(args).len() > 0 {
            v
        } else {
            JsonV::Object(Map::empty())
        },
        Err(_) => JsonV::Object(Map::empty()),
    }
}

/// What a reader sees of an item of the output; its reasoning is left out.
pub open spec fn output_item_seen(item: JsonV) -> Seq<ReplySeen> {
    if item.str_at("type"@) == Some("message"@) {
        output_words(item.items_at("content"@))
    } else if item.str_at("type"@) == Some("function_call"@) {
        let name = item.str_or("name"@, Seq::empty());
        seq![ReplySeen::Call(item.str_or("call_id"@, Seq::empty()), name, plain_input(name, input_seen(item)))]
    } else {
        Seq::empty()
    }
}

/// What a reader sees of the output of a Responses response.
pub open spec fn output_seen(items: Seq<JsonV>) -> Seq<ReplySeen>
    decreases items.len(),
{
    if items.len() == 0 {
        Seq::empty()
    } else {
        output_seen(items.drop_last()) + output_item_seen(items.last())
    }
}

/// What is seen, without the thoughts.
pub open spec fn without_thoughts(list: Seq<ReplySeen>) -> Seq<ReplySeen>
    decreases list.len(),
{
    if list.len() == 0 {
        Seq::empty()
    } else if list.last() is Thought {
        without_thoughts(list.drop_last())
    } else {
        without_thoughts(list.drop_last()).push(list.last())
    }
}

proof fn lemma_without_thoughts_add(a: Seq<ReplySeen>, b: Seq<ReplySeen>)
    ensures
        without_thoughts(a + b) == without_thoughts(a) + without_thoughts(b),
    decreases b.len(),
{
    if b.len() == 0 {
        assert(a + b =~= a);
        assert(without_thoughts(a) + without_thoughts(b) =~= without_thoughts(a));
    } else {
        lemma_without_thoughts_add(a, b.drop_last());
        assert((a + b).drop_last() =~= a + b.drop_last());
        assert(without_thoughts(a + b) =~= without_thoughts(a) + without_thoughts(b));
    }
}

/// Whether the arguments of a function call are good: blank, or an object.
pub open spec fn has_good_arguments(item: JsonV) -> bool {
    let args = item.str_or("arguments"@, "{}"@);
    trim(args).len() == 0 || (json_parse(args) matches Ok(v) && v is Object)
}

proof fn lemma_output_words(parts: Seq<JsonV>)
    ensures
        without_thoughts(reply_blocks_seen(message_parts_blocks(parts))) == output_words(parts),
    decreases parts.len(),
{
    lemma_reply_types();
    if parts.len() > 0 {
        let front = parts.drop_last();
        let p = parts.last();
        lemma_output_words(front);
        lemma_reply_seen_add(message_parts_blocks(front), message_part_blocks(p));
        lemma_without_thoughts_add(
            reply_blocks_seen(message_parts_blocks(front)),
            reply_blocks_seen(message_part_blocks(p)),
        );
        lemma_words(p.str_at("text"@));
        lemma_words(p.str_at("refusal"@));
        reveal_strlit("output_text");
        reveal_strlit("refusal");
        assert("output_text"@.len() == 11 && "refusal"@.len() == 7);
        lemma_words_are_no_thoughts(p.str_or("text"@, Seq::empty()));
        lemma_words_are_no_thoughts(p.str_or("refusal"@, Seq::empty()));
        assert(words_seen(Seq::empty()) =~= Seq::empty());
        assert(without_thoughts(Seq::empty()) =~= Seq::empty());
    }
}

proof fn lemma_words_are_no_thoughts(t: Seq<char>)
    ensures
        without_thoughts(words_seen(t)) == words_seen(t),
{
    reveal_with_fuel(without_thoughts, 2);
    if t.len() > 0 {
        let w = words_seen(t);
        assert(w.drop_last() =~= Seq::empty());
        assert(Seq::<ReplySeen>::empty().push(w.last()) =~= w);
    }
}

proof fn lemma_item_seen_in_reply(item: JsonV, completed: bool)
    requires
        item_blocks(item, completed) is Ok,
    ensures
        without_thoughts(reply_blocks_seen(item_blocks(item, completed)->Ok_0)) == output_item_seen(item),
{
    lemma_reply_types();
    lemma_reply_keys();
    let blocks = item_blocks(item, completed)->Ok_0;
    reveal_with_fuel(without_thoughts, 2);
    if item.str_at("type"@) == Some("message"@) {
        lemma_output_words(item.items_at("content"@));
    } else if is_call(item) {
        let b = blocks[0];
        assert(blocks =~= seq![b]);
        lemma_reply_seen_one(b);
        let s = reply_block_seen(b);
        assert(s.drop_last() =~= Seq::empty());
        let name = item.str_or("name"@, Seq::empty());
        let args = item.str_or("arguments"@, "{}"@);
        if name != "SendMessage"@ && name != "Read"@ {
            assert(b.at("input"@) == function_input(item, completed)->Ok_0);
            assert(function_input(item, completed)->Ok_0 == input_seen(item));
        }
        assert(without_thoughts(s) =~= output_item_seen(item));
    } else if is_reasoning(item) {
        if blocks.len() > 0 {
            let b = blocks[0];
            assert(blocks =~= seq![b]);
            lemma_reply_seen_one(b);
            lemma_reasoning_block(item);
            let s = reply_block_seen(b);
            if s.len() > 0 {
                assert(s.drop_last() =~= Seq::empty());
            }
            assert(without_thoughts(s) =~= Seq::empty());
        } else {
            assert(reply_blocks_seen(blocks) =~= Seq::empty());
            assert(without_thoughts(reply_blocks_seen(blocks)) =~= Seq::empty());
        }
    } else {
        assert(reply_blocks_seen(blocks) =~= Seq::empty());
        assert(without_thoughts(reply_blocks_seen(blocks)) =~= Seq::empty());
    }
}

/// The block for a reasoning item is one of thinking.
proof fn lemma_reasoning_block(item: JsonV)
    ensures
        reasoning_block(item) is Some ==> {
            let kind = reasoning_block(item)->0.str_at("type"@);
            kind == Some("thinking"@) || kind == Some("redacted_thinking"@)
        },
        "redacted_thinking"@ != "text"@,
        "redacted_thinking"@ != "tool_use"@,
        "redacted_thinking"@ != "thinking"@,
{
    lemma_reply_keys();
    reveal_strlit("redacted_thinking");
    reveal_strlit("text");
    reveal_strlit("tool_use");
    reveal_strlit("thinking");
    reveal_strlit("signature");
    reveal_strlit("data");
    reveal_strlit("type");
    assert("redacted_thinking"@.len() == 17 && "text"@.len() == 4 && "tool_use"@.len() == 8 && "thinking"@.len() == 8);
    assert("data"@[0] == 'd' && "type"@[0] == 't' && "signature"@.len() == 9);
}

proof fn lemma_output_blocks(items: Seq<JsonV>, completed: bool)
    ensures
        output_blocks(items, completed) is Ok ==> without_thoughts(
            reply_blocks_seen(output_blocks(items, completed)->Ok_0),
        ) == output_seen(items),
        output_blocks(items, completed) is Ok <==> (completed ==> forall|i: int|
            0 <= i < items.len() && is_call(#[trigger] items[i]) ==> has_good_arguments(items[i])),
    decreases items.len(),
{
    lemma_reply_types();
    if items.len() > 0 {
        let front = items.drop_last();
        let last = items.last();
        lemma_output_blocks(front, completed);
        if completed {
            if forall|i: int|
                0 <= i < items.len() && is_call(#[trigger] items[i]) ==> has_good_arguments(items[i]) {
                assert forall|i: int| 0 <= i < front.len() && is_call(#[trigger] front[i]) implies has_good_arguments(
                    front[i],
                ) by {
                    assert(front[i] == items[i]);
                }
                assert(is_call(items[items.len() - 1]) ==> has_good_arguments(items[items.len() - 1]));
            } else {
                let i = choose|i: int|
                    0 <= i < items.len() && is_call(#[trigger] items[i]) && !has_good_arguments(items[i]);
                if i < front.len() {
                    assert(front[i] == items[i]);
                }
            }
        }
        if output_blocks(items, completed) is Ok {
            lemma_item_seen_in_reply(last, completed);
            let a = output_blocks(front, completed)->Ok_0;
            let b = item_blocks(last, completed)->Ok_0;
            lemma_reply_seen_add(a, b);
            lemma_without_thoughts_add(reply_blocks_seen(a), reply_blocks_seen(b));
        }
    } else {
        assert(reply_blocks_seen(Seq::empty()) =~= Seq::empty());
        assert(without_thoughts(Seq::empty()) =~= output_seen(items));
    }
}

/// Whether a Responses response reports that it failed, was cancelled or met an error.
pub open spec fn reports_error(body: JsonV) -> bool {
    body.str_at("status"@) == Some("failed"@) || body.str_at("status"@) == Some("cancelled"@) || (body.get("error"@)
        is Some && body.get("error"@) != Some(JsonV::Null))
}

/// A Responses response that reports no error comes to an Anthropic response, as long as
/// the arguments of its calls are good where it was completed, and no other does. It has
/// the same id, is for the model that was asked for, and holds the same in the same order:
/// the texts and the refusals, and the calls.
pub proof fn law_responses_reply_is_kept(body: JsonV, model: Seq<char>)
    ensures
        ({
            let items = body.items_at("output"@);
            let completed = body.str_at("status"@) == Some("completed"@);
            let good = !reports_error(body) && body.array_at("output"@) is Some && (completed ==> forall|i: int|
                0 <= i < items.len() && is_call(#[trigger] items[i]) ==> has_good_arguments(items[i]));
            &&& anthropic_from_responses(body, model) is Ok <==> good
            &&& anthropic_from_responses(body, model) matches Ok(r) ==> {
                &&& r.str_at("id"@) == Some(body.str_or("id"@, Seq::empty()))
                &&& r.str_at("type"@) == Some("message"@)
                &&& r.str_at("role"@) == Some("assistant"@)
                &&& r.str_at("model"@) == Some(model)
                &&& without_thoughts(reply_blocks_seen(r.items_at("content"@))) == output_seen(items)
            }
        }),
{
    lemma_reply_keys();
    let items = body.items_at("output"@);
    let completed = body.str_at("status"@) == Some("completed"@);
    lemma_output_blocks(items, completed);
}

/// A response that was completed ended in a call where it has one; one that was cut off
/// by the limit of tokens ended for that; any other came to its end. One without a status
/// does not tell.
pub proof fn law_responses_reply_tells_why_it_ended(body: JsonV, model: Seq<char>)
    requires
        anthropic_from_responses(body, model) is Ok,
    ensures
        ({
            let stop = anthropic_from_responses(body, model)->Ok_0.get("stop_reason"@);
            let items = body.items_at("output"@);
            let calls = exists|i: int| 0 <= i < items.len() && (#[trigger] items[i]).str_at("type"@) == Some(
                "function_call"@,
            );
            let why = body.at("incomplete_details"@).str_at("reason"@);
            &&& body.str_at("status"@) == Some("completed"@) && calls ==> stop == Some(JsonV::Text("tool_use"@))
            &&& body.str_at("status"@) == Some("completed"@) && !calls ==> stop == Some(JsonV::Text("end_turn"@))
            &&& body.str_at("status"@) == Some("incomplete"@) && (why is None || why == Some("max_output_tokens"@) || why
                == Some("max_tokens"@)) ==> stop == Some(JsonV::Text("max_tokens"@))
            &&& body.str_at("status"@) == Some("incomplete"@) && !(why is None || why == Some("max_output_tokens"@)
                || why == Some("max_tokens"@)) ==> stop == Some(JsonV::Text("end_turn"@))
            &&& body.str_at("status"@) is None ==> stop == Some(JsonV::Null)
        }),
{
    lemma_reply_keys();
    reveal_strlit("completed");
    reveal_strlit("incomplete");
    assert("completed"@.len() == 9 && "incomplete"@.len() == 10);
    let items = body.items_at("output"@);
    if exists|i: int| 0 <= i < items.len() && (#[trigger] items[i]).str_at("type"@) == Some("function_call"@) {
        let i = choose|i: int| 0 <= i < items.len() && (#[trigger] items[i]).str_at("type"@) == Some("function_call"@);
        assert(is_call(items[i]));
        assert(has_call(items));
    } else {
        if has_call(items) {
            let i = choose|i: int| 0 <= i < items.len() && #[trigger] is_call(items[i]);
            assert(items[i].str_at("type"@) == Some("function_call"@));
        }
    }
}

/// The tokens that a Responses response used are all counted once: those that were read
/// from the cache, those that were written to it, and the rest as input. It is the same
/// at the end of a stream.
pub proof fn law_responses_usage_is_counted_once(usage: JsonV, input: u64, read: u64, created: u64)
    requires
        usage is Object,
        usage.u64_at("input_tokens"@) == Some(input),
        usage.u64_at("cache_read_input_tokens"@) == Some(read) || usage.get("cache_read_input_tokens"@) is None
            && usage.at("input_tokens_details"@).u64_at("cached_tokens"@) == Some(read),
        usage.u64_at("cache_creation_input_tokens"@) == Some(created) || usage.get("cache_creation_input_tokens"@) is None
            && usage.at("input_tokens_details"@).u64_at("cache_write_tokens"@) == Some(created),
        read + created <= input,
    ensures
        forall|r: JsonV|
            (r == responses_usage(Some(usage)) || r == streamed_usage(Some(usage))) ==> {
                &&& (#[trigger] r.u64_at("input_tokens"@)) is Some
                &&& r.u64_at("input_tokens"@)->0 + read + created == input
                &&& r.u64_at("cache_read_input_tokens"@) == Some(read)
                &&& r.u64_at("cache_creation_input_tokens"@) == Some(created)
                &&& usage.u64_at("output_tokens"@) is Some ==> r.u64_at("output_tokens"@) == usage.u64_at("output_tokens"@)
            },
{
    lemma_usage_keys();
    let m = token_counts(usage);
    assert(opt_u64(responses_cache_read(usage)) == Some(read));
    assert(opt_u64(responses_cache_created(usage)) == Some(created));
}

/// The items that the blocks of an Anthropic response come to besides the message.
pub open spec fn other_items(blocks: Seq<JsonV>) -> Seq<ReplySeen>
    decreases blocks.len(),
{
    if blocks.len() == 0 {
        Seq::empty()
    } else {
        let b = blocks.last();
        let front = other_items(blocks.drop_last());
        if b.str_at("type"@) == Some("thinking"@) {
            front.push(ReplySeen::Thought(b.str_or("thinking"@, Seq::empty())))
        } else if b.str_at("type"@) == Some("tool_use"@) {
            front.push(
                ReplySeen::Call(
                    b.str_or("id"@, Seq::empty()),
                    b.str_or("name"@, Seq::empty()),
                    Some(
                        JsonV::Text(
                            compact_text(
                                match b.get("input"@) {
                                    Some(v) => v,
                                    None => JsonV::Object(Map::empty()),
                                },
                            ),
                        ),
                    ),
                ),
            )
        } else {
            front
        }
    }
}

/// Whether an item of the output shows a thought or a call.
pub open spec fn shows(item: JsonV, seen: ReplySeen, n: nat) -> bool {
    match seen {
        ReplySeen::Thought(t) => {
            &&& item.str_at("type"@) == Some("reasoning"@)
            &&& item.str_at("id"@) == Some("rs_"@ + decimal(n))
            &&& t.len() > 0 ==> item.items_at("summary"@).len() == 1 && item.items_at("summary"@)[0].str_at("text"@)
                == Some(t)
            &&& t.len() == 0 ==> item.items_at("summary"@).len() == 0
        },
        ReplySeen::Call(id, name, arguments) => {
            &&& item.str_at("type"@) == Some("function_call"@)
            &&& item.str_at("id"@) == Some("fc_"@ + decimal(n))
            &&& item.str_at("call_id"@) == Some(id)
            &&& item.str_at("name"@) == Some(name)
            &&& item.get("arguments"@) == arguments
            &&& item.str_at("status"@) == Some("completed"@)
        },
        ReplySeen::Words(t) => false,
    }
}

/// The keys of the items of an output are all different.
pub proof fn lemma_output_keys()
    ensures
        "id"@ != "type"@,
        "id"@ != "summary"@,
        "id"@ != "status"@,
        "id"@ != "call_id"@,
        "id"@ != "name"@,
        "id"@ != "arguments"@,
        "id"@ != "role"@,
        "id"@ != "content"@,
        "id"@ != "text"@,
        "id"@ != "object"@,
        "id"@ != "model"@,
        "id"@ != "output"@,
        "id"@ != "usage"@,
        "type"@ != "summary"@,
        "type"@ != "status"@,
        "type"@ != "call_id"@,
        "type"@ != "name"@,
        "type"@ != "arguments"@,
        "type"@ != "role"@,
        "type"@ != "content"@,
        "type"@ != "text"@,
        "type"@ != "object"@,
        "type"@ != "model"@,
        "type"@ != "output"@,
        "type"@ != "usage"@,
        "summary"@ != "status"@,
        "summary"@ != "call_id"@,
        "summary"@ != "name"@,
        "summary"@ != "arguments"@,
        "summary"@ != "role"@,
        "summary"@ != "content"@,
        "summary"@ != "text"@,
        "summary"@ != "object"@,
        "summary"@ != "model"@,
        "summary"@ != "output"@,
        "summary"@ != "usage"@,
        "status"@ != "call_id"@,
        "status"@ != "name"@,
        "status"@ != "arguments"@,
        "status"@ != "role"@,
        "status"@ != "content"@,
        "status"@ != "text"@,
        "status"@ != "object"@,
        "status"@ != "model"@,
        "status"@ != "output"@,
        "status"@ != "usage"@,
        "call_id"@ != "name"@,
        "call_id"@ != "arguments"@,
        "call_id"@ != "role"@,
        "call_id"@ != "content"@,
        "call_id"@ != "text"@,
        "call_id"@ != "object"@,
        "call_id"@ != "model"@,
        "call_id"@ != "output"@,
        "call_id"@ != "usage"@,
        "name"@ != "arguments"@,
        "name"@ != "role"@,
        "name"@ != "content"@,
        "name"@ != "text"@,
        "name"@ != "object"@,
        "name"@ != "model"@,
        "name"@ != "output"@,
        "name"@ != "usage"@,
        "arguments"@ != "role"@,
        "arguments"@ != "content"@,
        "arguments"@ != "text"@,
        "arguments"@ != "object"@,
        "arguments"@ != "model"@,
        "arguments"@ != "output"@,
        "arguments"@ != "usage"@,
        "role"@ != "content"@,
        "role"@ != "text"@,
        "role"@ != "object"@,
        "role"@ != "model"@,
        "role"@ != "output"@,
        "role"@ != "usage"@,
        "content"@ != "text"@,
        "content"@ != "object"@,
        "content"@ != "model"@,
        "content"@ != "output"@,
        "content"@ != "usage"@,
        "text"@ != "object"@,
        "text"@ != "model"@,
        "text"@ != "output"@,
        "text"@ != "usage"@,
        "object"@ != "model"@,
        "object"@ != "output"@,
        "object"@ != "usage"@,
        "model"@ != "output"@,
        "model"@ != "usage"@,
        "output"@ != "usage"@,
{
    reveal_strlit("id");
    reveal_strlit("type");
    reveal_strlit("summary");
    reveal_strlit("status");
    reveal_strlit("call_id");
    reveal_strlit("name");
    reveal_strlit("arguments");
    reveal_strlit("role");
    reveal_strlit("content");
    reveal_strlit("text");
    reveal_strlit("object");
    reveal_strlit("model");
    reveal_strlit("output");
    reveal_strlit("usage");
    assert("id"@.len() == 2 && "type"@.len() == 4 && "summary"@.len() == 7 && "status"@.len() == 6 && "call_id"@.len() == 7 && "name"@.len() == 4 && "arguments"@.len() == 9 && "role"@.len() == 4 && "content"@.len() == 7 && "text"@.len() == 4 && "object"@.len() == 6 && "model"@.len() == 5 && "output"@.len() == 6 && "usage"@.len() == 5);
    assert("type"@[0] == 't' && "name"@[0] == 'n');
    assert("type"@[0] == 't' && "role"@[0] == 'r');
    assert("type"@[1] == 'y' && "text"@[1] == 'e');
    assert("summary"@[0] == 's' && "call_id"@[0] == 'c');
    assert("summary"@[0] == 's' && "content"@[0] == 'c');
    assert("status"@[0] == 's' && "object"@[0] == 'o');
    assert("status"@[0] == 's' && "output"@[0] == 'o');
    assert("call_id"@[1] == 'a' && "content"@[1] == 'o');
    assert("name"@[0] == 'n' && "role"@[0] == 'r');
    assert("name"@[0] == 'n' && "text"@[0] == 't');
    assert("role"@[0] == 'r' && "text"@[0] == 't');
    assert("object"@[1] == 'b' && "output"@[1] == 'u');
    assert("model"@[0] == 'm' && "usage"@[0] == 'u');
}

proof fn lemma_output_items(blocks: Seq<JsonV>, i: int)
    ensures
        output_items(blocks).len() == other_items(blocks).len(),
        0 <= i < output_items(blocks).len() ==> shows(output_items(blocks)[i], other_items(blocks)[i], i as nat),
    decreases blocks.len(),
{
    lemma_output_keys();
    lemma_reply_types();
    if blocks.len() > 0 {
        let front = blocks.drop_last();
        lemma_output_items(front, i);
        let list = output_items(blocks);
        if list.len() > output_items(front).len() && i == output_items(front).len() {
            assert(list[i] == list.last());
        }
    }
}

proof fn lemma_output_texts(blocks: Seq<JsonV>)
    ensures
        output_texts(blocks) == Seq::new(
            reply_texts(blocks).len(),
            |i: int|
                JsonV::Object(
                    map!["type"@ => JsonV::Text("output_text"@), "text"@ => JsonV::Text(reply_texts(blocks)[i])],
                ),
        ),
    decreases blocks.len(),
{
    if blocks.len() > 0 {
        lemma_output_texts(blocks.drop_last());
    }
    let texts = reply_texts(blocks);
    assert(output_texts(blocks) =~= Seq::new(
        texts.len(),
        |i: int| JsonV::Object(map!["type"@ => JsonV::Text("output_text"@), "text"@ => JsonV::Text(texts[i])]),
    ));
}

/// An Anthropic response comes to a Responses response for the model that was asked for
/// that holds the same: one message with all of its texts in order, where it has any, and
/// after it its thoughts and its calls in order.
pub proof fn law_anthropic_reply_is_kept_for_responses(body: JsonV, model: Seq<char>, i: int)
    ensures
        ({
            let r = responses_response(body, model);
            let blocks = body.items_at("content"@);
            let texts = reply_texts(blocks);
            let others = other_items(blocks);
            let output = r.items_at("output"@);
            let lead = if texts.len() > 0 {
                1int
            } else {
                0int
            };
            &&& r.str_at("id"@) == Some("resp_"@ + body.str_or("id"@, Seq::empty()))
            &&& r.str_at("object"@) == Some("response"@)
            &&& r.str_at("model"@) == Some(model)
            &&& r.str_at("status"@) == Some(
                if body.str_at("stop_reason"@) == Some("max_tokens"@) {
                    "incomplete"@
                } else if body.str_at("stop_reason"@) == Some("tool_use"@) {
                    "in_progress"@
                } else {
                    "completed"@
                },
            )
            &&& output.len() == lead + others.len()
            &&& 0 <= i < others.len() ==> shows(output[lead + i], others[i], i as nat)
            &&& texts.len() > 0 ==> {
                &&& output[0].str_at("type"@) == Some("message"@)
                &&& output[0].str_at("role"@) == Some("assistant"@)
                &&& output[0].str_at("status"@) == Some("completed"@)
                &&& output[0].items_at("content"@) == Seq::new(
                    texts.len(),
                    |j: int|
                        JsonV::Object(
                            map!["type"@ => JsonV::Text("output_text"@), "text"@ => JsonV::Text(texts[j])],
                        ),
                )
            }
        }),
{
    lemma_output_keys();
    let blocks = body.items_at("content"@);
    lemma_output_items(blocks, i);
    lemma_output_texts(blocks);
}

/// The tokens that an Anthropic response used stay what they are in a Responses
/// response, and the total is their sum.
pub proof fn law_anthropic_usage_is_kept_for_responses(usage: JsonV, input: u64, output: u64)
    requires
        usage.u64_at("input_tokens"@) == Some(input),
        usage.u64_at("output_tokens"@) == Some(output),
        input + output <= u64::MAX,
    ensures
        ({
            let r = usage_for_responses(Some(usage));
            &&& r.u64_at("input_tokens"@) == Some(input)
            &&& r.u64_at("output_tokens"@) == Some(output)
            &&& r.u64_at("total_tokens"@) == Some((input + output) as u64)
        }),
{
    lemma_usage_keys();
}

} // verus!
