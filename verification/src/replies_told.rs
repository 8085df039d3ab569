//! What a whole response holds and what the response that comes of it holds are the
//! same, in every direction: its texts, its thinking, its calls, why it ended and what it
//! used.

use vstd::prelude::*;
use crate::convert_message::or_empty_object;
use crate::convert_response::{anthropic_response, anthropic_usage, cache_creation_tokens, cached_tokens, call_block, call_blocks, content_blocks, part_blocks, parts_blocks, reasoning_blocks, text_blocks, thinking_block, tool_blocks};
use crate::convert_reverse::{assistant_message, chat_response, reply_parts};
use crate::json::{JsonV, or_zero, text_block};
use crate::json_text::json_parse;
use crate::message_told::{call_seen, calls_seen, lemma_message_keys, uses_in};
use crate::request_order::text_part;
use crate::responses_response::{responses_usage, streamed_usage};
use crate::responses_reverse::usage_for_responses;

verus! {

/// What a reader sees of a response: a text, a thought, or a call with its id, its name
/// and its input. The input of `SendMessage` and of `Read` is left out.
pub enum ReplySeen {
    Words(Seq<char>),
    Thought(Seq<char>),
    Call(Seq<char>, Seq<char>, Option<JsonV>),
}

/// The input of a call that is passed on as it is.
pub open spec fn plain_input(name: Seq<char>, input: JsonV) -> Option<JsonV> {
    if name == "SendMessage"@ || name == "Read"@ {
        None
    } else {
        Some(input)
    }
}

/// What a reader sees of a block of an Anthropic response.
pub open spec fn reply_block_seen(block: JsonV) -> Seq<ReplySeen> {
    if block.str_at("type"@) == Some("text"@) {
        seq![ReplySeen::Words(block.str_or("text"@, Seq::empty()))]
    } else if block.str_at("type"@) == Some("thinking"@) {
        seq![ReplySeen::Thought(block.str_or("thinking"@, Seq::empty()))]
    } else if block.str_at("type"@) == Some("tool_use"@) {
        let name = block.str_or("name"@, Seq::empty());
        seq![ReplySeen::Call(block.str_or("id"@, Seq::empty()), name, plain_input(name, block.at("input"@)))]
    } else {
        Seq::empty()
    }
}

/// What a reader sees of the blocks of an Anthropic response.
pub open spec fn reply_blocks_seen(blocks: Seq<JsonV>) -> Seq<ReplySeen>
    decreases blocks.len(),
{
    if blocks.len() == 0 {
        Seq::empty()
    } else {
        reply_blocks_seen(blocks.drop_last()) + reply_block_seen(blocks.last())
    }
}

pub proof fn lemma_reply_seen_add(a: Seq<JsonV>, b: Seq<JsonV>)
    ensures
        reply_blocks_seen(a + b) == reply_blocks_seen(a) + reply_blocks_seen(b),
    decreases b.len(),
{
    if b.len() == 0 {
        assert(a + b =~= a);
        assert(reply_blocks_seen(a) + reply_blocks_seen(b) =~= reply_blocks_seen(a));
    } else {
        lemma_reply_seen_add(a, b.drop_last());
        assert((a + b).drop_last() =~= a + b.drop_last());
        assert(reply_blocks_seen(a + b) =~= reply_blocks_seen(a) + reply_blocks_seen(b));
    }
}

pub proof fn lemma_reply_seen_one(b: JsonV)
    ensures
        reply_blocks_seen(seq![b]) == reply_block_seen(b),
{
    reveal_with_fuel(reply_blocks_seen, 2);
    assert(seq![b].drop_last() =~= Seq::empty());
    assert(Seq::<ReplySeen>::empty() + reply_block_seen(b) =~= reply_block_seen(b));
}

/// The types of blocks, parts and items are all different.
pub proof fn lemma_reply_types()
    ensures
        "text"@ != "thinking"@,
        "text"@ != "tool_use"@,
        "text"@ != "output_text"@,
        "text"@ != "refusal"@,
        "text"@ != "message"@,
        "text"@ != "function_call"@,
        "text"@ != "reasoning"@,
        "thinking"@ != "tool_use"@,
        "thinking"@ != "output_text"@,
        "thinking"@ != "refusal"@,
        "thinking"@ != "message"@,
        "thinking"@ != "function_call"@,
        "thinking"@ != "reasoning"@,
        "tool_use"@ != "output_text"@,
        "tool_use"@ != "refusal"@,
        "tool_use"@ != "message"@,
        "tool_use"@ != "function_call"@,
        "tool_use"@ != "reasoning"@,
        "output_text"@ != "refusal"@,
        "output_text"@ != "message"@,
        "output_text"@ != "function_call"@,
        "output_text"@ != "reasoning"@,
        "refusal"@ != "message"@,
        "refusal"@ != "function_call"@,
        "refusal"@ != "reasoning"@,
        "message"@ != "function_call"@,
        "message"@ != "reasoning"@,
        "function_call"@ != "reasoning"@,
{
    reveal_strlit("text");
    reveal_strlit("thinking");
    reveal_strlit("tool_use");
    reveal_strlit("output_text");
    reveal_strlit("refusal");
    reveal_strlit("message");
    reveal_strlit("function_call");
    reveal_strlit("reasoning");
    assert("text"@.len() == 4 && "thinking"@.len() == 8 && "tool_use"@.len() == 8 && "output_text"@.len() == 11 && "refusal"@.len() == 7 && "message"@.len() == 7 && "function_call"@.len() == 13 && "reasoning"@.len() == 9);
    assert("thinking"@[1] == 'h' && "tool_use"@[1] == 'o');
    assert("refusal"@[0] == 'r' && "message"@[0] == 'm');
}
/// The keys of an Anthropic response are all different.
pub proof fn lemma_reply_keys()
    ensures
        "type"@ != "text"@,
        "type"@ != "thinking"@,
        "type"@ != "id"@,
        "type"@ != "name"@,
        "type"@ != "input"@,
        "type"@ != "role"@,
        "type"@ != "content"@,
        "type"@ != "model"@,
        "type"@ != "stop_reason"@,
        "type"@ != "stop_sequence"@,
        "type"@ != "usage"@,
        "text"@ != "thinking"@,
        "text"@ != "id"@,
        "text"@ != "name"@,
        "text"@ != "input"@,
        "text"@ != "role"@,
        "text"@ != "content"@,
        "text"@ != "model"@,
        "text"@ != "stop_reason"@,
        "text"@ != "stop_sequence"@,
        "text"@ != "usage"@,
        "thinking"@ != "id"@,
        "thinking"@ != "name"@,
        "thinking"@ != "input"@,
        "thinking"@ != "role"@,
        "thinking"@ != "content"@,
        "thinking"@ != "model"@,
        "thinking"@ != "stop_reason"@,
        "thinking"@ != "stop_sequence"@,
        "thinking"@ != "usage"@,
        "id"@ != "name"@,
        "id"@ != "input"@,
        "id"@ != "role"@,
        "id"@ != "content"@,
        "id"@ != "model"@,
        "id"@ != "stop_reason"@,
        "id"@ != "stop_sequence"@,
        "id"@ != "usage"@,
        "name"@ != "input"@,
        "name"@ != "role"@,
        "name"@ != "content"@,
        "name"@ != "model"@,
        "name"@ != "stop_reason"@,
        "name"@ != "stop_sequence"@,
        "name"@ != "usage"@,
        "input"@ != "role"@,
        "input"@ != "content"@,
        "input"@ != "model"@,
        "input"@ != "stop_reason"@,
        "input"@ != "stop_sequence"@,
        "input"@ != "usage"@,
        "role"@ != "content"@,
        "role"@ != "model"@,
        "role"@ != "stop_reason"@,
        "role"@ != "stop_sequence"@,
        "role"@ != "usage"@,
        "content"@ != "model"@,
        "content"@ != "stop_reason"@,
        "content"@ != "stop_sequence"@,
        "content"@ != "usage"@,
        "model"@ != "stop_reason"@,
        "model"@ != "stop_sequence"@,
        "model"@ != "usage"@,
        "stop_reason"@ != "stop_sequence"@,
        "stop_reason"@ != "usage"@,
        "stop_sequence"@ != "usage"@,
{
    reveal_strlit("type");
    reveal_strlit("text");
    reveal_strlit("thinking");
    reveal_strlit("id");
    reveal_strlit("name");
    reveal_strlit("input");
    reveal_strlit("role");
    reveal_strlit("content");
    reveal_strlit("model");
    reveal_strlit("stop_reason");
    reveal_strlit("stop_sequence");
    reveal_strlit("usage");
    assert("type"@.len() == 4 && "text"@.len() == 4 && "thinking"@.len() == 8 && "id"@.len() == 2 && "name"@.len() == 4 && "input"@.len() == 5 && "role"@.len() == 4 && "content"@.len() == 7 && "model"@.len() == 5 && "stop_reason"@.len() == 11 && "stop_sequence"@.len() == 13 && "usage"@.len() == 5);
    assert("type"@[1] == 'y' && "text"@[1] == 'e');
    assert("type"@[0] == 't' && "name"@[0] == 'n');
    assert("type"@[0] == 't' && "role"@[0] == 'r');
    assert("text"@[0] == 't' && "name"@[0] == 'n');
    assert("text"@[0] == 't' && "role"@[0] == 'r');
    assert("name"@[0] == 'n' && "role"@[0] == 'r');
    assert("input"@[0] == 'i' && "model"@[0] == 'm');
    assert("input"@[0] == 'i' && "usage"@[0] == 'u');
    assert("model"@[0] == 'm' && "usage"@[0] == 'u');
}

/// A text, where there is some.
pub open spec fn words_seen(t: Seq<char>) -> Seq<ReplySeen> {
    if t.len() > 0 {
        seq![ReplySeen::Words(t)]
    } else {
        Seq::empty()
    }
}

/// The words of the parts of a message: texts and refusals, where there are some.
pub open spec fn words_of_parts(parts: Seq<JsonV>) -> Seq<ReplySeen>
    decreases parts.len(),
{
    if parts.len() == 0 {
        Seq::empty()
    } else {
        let p = parts.last();
        words_of_parts(parts.drop_last()) + if p.str_at("type"@) == Some("text"@) || p.str_at("type"@) == Some(
            "output_text"@,
        ) {
            words_seen(p.str_or("text"@, Seq::empty()))
        } else if p.str_at("type"@) == Some("refusal"@) {
            words_seen(p.str_or("refusal"@, Seq::empty()))
        } else {
            Seq::empty()
        }
    }
}

/// The calls of a Chat message.
pub open spec fn calls_of_message(calls: Seq<JsonV>) -> Seq<ReplySeen> {
    Seq::new(
        calls.len(),
        |i: int|
            {
                let f = calls[i].at("function"@);
                let name = f.str_or("name"@, Seq::empty());
                ReplySeen::Call(
                    calls[i].str_or("id"@, Seq::empty()),
                    name,
                    plain_input(
                        name,
                        match json_parse(f.str_or("arguments"@, "{}"@)) {
                            Ok(v) => v,
                            Err(_) => JsonV::Object(Map::empty()),
                        },
                    ),
                )
            },
    )
}

/// What a reader sees of the message of a Chat response: its reasoning, its text, its
/// refusal and its calls.
pub open spec fn chat_reply_seen(message: JsonV) -> Seq<ReplySeen> {
    let t = message.str_or("reasoning_content"@, Seq::empty());
    let thought = if t.len() > 0 {
        seq![ReplySeen::Thought(t)]
    } else {
        Seq::empty()
    };
    let text = if message.str_at("content"@) is Some {
        words_seen(message.str_at("content"@)->0)
    } else {
        words_of_parts(message.items_at("content"@))
    };
    thought + text + words_seen(message.str_or("refusal"@, Seq::empty())) + calls_of_message(message.items_at("tool_calls"@))
}

pub proof fn lemma_words(t: Option<Seq<char>>)
    ensures
        reply_blocks_seen(text_blocks(t)) == match t {
            Some(t) => words_seen(t),
            None => Seq::empty(),
        },
{
    lemma_reply_types();
    lemma_reply_keys();
    if let Some(x) = t {
        if x.len() > 0 {
            lemma_reply_seen_one(text_block(x));
            assert(reply_block_seen(text_block(x)) == words_seen(x));
        }
    }
}

proof fn lemma_words_of_parts(parts: Seq<JsonV>)
    ensures
        reply_blocks_seen(parts_blocks(parts)) == words_of_parts(parts),
    decreases parts.len(),
{
    lemma_reply_types();
    if parts.len() > 0 {
        let front = parts.drop_last();
        let p = parts.last();
        lemma_words_of_parts(front);
        lemma_reply_seen_add(parts_blocks(front), part_blocks(p));
        lemma_words(p.str_at("text"@));
        lemma_words(p.str_at("refusal"@));
        reveal_strlit("text");
        reveal_strlit("output_text");
        reveal_strlit("refusal");
        assert("text"@.len() == 4 && "output_text"@.len() == 11 && "refusal"@.len() == 7);
        assert(words_seen(Seq::empty()) =~= Seq::empty());
    }
}

proof fn lemma_calls_of_message(calls: Seq<JsonV>)
    ensures
        reply_blocks_seen(call_blocks(calls)) == calls_of_message(calls),
        call_blocks(calls).len() == calls.len(),
    decreases calls.len(),
{
    lemma_reply_types();
    lemma_reply_keys();
    if calls.len() > 0 {
        let front = calls.drop_last();
        lemma_calls_of_message(front);
        let c = calls.last();
        let b = call_block(c);
        assert(call_blocks(calls) =~= call_blocks(front) + seq![b]);
        lemma_reply_seen_add(call_blocks(front), seq![b]);
        lemma_reply_seen_one(b);
        let f = c.at("function"@);
        if c.get("function"@) is None {
            assert(or_empty_object(c.get("function"@)).str_at("name"@) is None);
            assert(or_empty_object(c.get("function"@)).str_at("arguments"@) is None);
        }
        assert(reply_block_seen(b) =~= seq![calls_of_message(calls).last()]);
        assert(calls_of_message(calls) =~= calls_of_message(front).push(calls_of_message(calls).last()));
        assert(reply_blocks_seen(call_blocks(calls)) =~= calls_of_message(calls));
    } else {
        assert(reply_blocks_seen(call_blocks(calls)) =~= calls_of_message(calls));
    }
}

/// A Chat response with a message comes to an Anthropic response with the same id, for
/// the model that was asked for, that holds the same: the reasoning as a thought, the
/// text, the refusal and the calls, in this order.
pub proof fn law_chat_reply_is_kept(body: JsonV, model: Seq<char>)
    requires
        body.items_at("choices"@).len() > 0,
        body.items_at("choices"@)[0].get("message"@) is Some,
        body.items_at("choices"@)[0].at("message"@).get("function_call"@) is None,
    ensures
        anthropic_response(body, model) matches Ok(r) && {
            let choice = body.items_at("choices"@)[0];
            let message = choice.at("message"@);
            &&& r.str_at("id"@) == Some(body.str_or("id"@, Seq::empty()))
            &&& r.str_at("type"@) == Some("message"@)
            &&& r.str_at("role"@) == Some("assistant"@)
            &&& r.str_at("model"@) == Some(model)
            &&& r.get("stop_sequence"@) == Some(JsonV::Null)
            &&& reply_blocks_seen(r.items_at("content"@)) == chat_reply_seen(message)
            &&& r.get("stop_reason"@) == Some(
                match choice.str_at("finish_reason"@) {
                    Some(f) => JsonV::Text(
                        if f == "length"@ {
                            "max_tokens"@
                        } else if f == "tool_calls"@ || f == "function_call"@ {
                            "tool_use"@
                        } else {
                            "end_turn"@
                        },
                    ),
                    None => if message.items_at("tool_calls"@).len() > 0 {
                        JsonV::Text("tool_use"@)
                    } else {
                        JsonV::Null
                    },
                },
            )
        },
{
    lemma_reply_keys();
    lemma_reply_types();
    let choice = body.items_at("choices"@)[0];
    let message = choice.at("message"@);
    let r = anthropic_response(body, model)->Ok_0;
    let t = message.str_or("reasoning_content"@, Seq::empty());
    let a = reasoning_blocks(message);
    let b = content_blocks(message.get("content"@));
    let c = text_blocks(message.str_at("refusal"@));
    let d = tool_blocks(message);
    lemma_reply_seen_add(a + b + c, d);
    lemma_reply_seen_add(a + b, c);
    lemma_reply_seen_add(a, b);
    if t.len() > 0 {
        lemma_reply_seen_one(thinking_block(t));
        assert(reply_block_seen(thinking_block(t)) == seq![ReplySeen::Thought(t)]);
    } else {
        assert(reply_blocks_seen(a) =~= Seq::empty());
    }
    lemma_words(message.str_at("refusal"@));
    assert(words_seen(Seq::empty()) =~= Seq::empty());
    lemma_words(message.str_at("content"@));
    lemma_words_of_parts(message.items_at("content"@));
    if message.str_at("content"@) is Some {
        assert(message.get("content"@) == Some(JsonV::Text(message.str_at("content"@)->0)));
    } else if message.array_at("content"@) is Some {
        assert(message.get("content"@) == Some(JsonV::Array(message.items_at("content"@))));
    } else {
        assert(b =~= Seq::empty());
        assert(words_of_parts(message.items_at("content"@)) =~= Seq::empty());
    }
    lemma_calls_of_message(message.items_at("tool_calls"@));
    assert(reply_blocks_seen(Seq::empty()) =~= Seq::<ReplySeen>::empty());
    if message.items_at("tool_calls"@).len() == 0 {
        assert(d =~= Seq::empty());
        assert(calls_of_message(message.items_at("tool_calls"@)) =~= Seq::empty());
    }
}

/// A Chat response without a message is refused.
pub proof fn law_chat_reply_needs_a_message(body: JsonV, model: Seq<char>)
    ensures
        anthropic_response(body, model) is Ok <==> body.items_at("choices"@).len() > 0 && body.items_at(
            "choices"@,
        )[0].get("message"@) is Some,
{
}

/// The tokens that a Chat response used are all counted once: those that were read from
/// the cache, those that were written to it, and the rest as input.
pub proof fn law_chat_usage_is_counted_once(usage: JsonV, prompt: u64, cached: u64, created: u64)
    requires
        usage.u64_at("prompt_tokens"@) == Some(prompt),
        usage.u64_at("cache_read_input_tokens"@) == Some(cached) || usage.get("cache_read_input_tokens"@) is None
            && usage.at("prompt_tokens_details"@).u64_at("cached_tokens"@) == Some(cached),
        usage.u64_at("cache_creation_input_tokens"@) == Some(created) || usage.get("cache_creation_input_tokens"@) is None
            && usage.at("prompt_tokens_details"@).u64_at("cache_write_tokens"@) == Some(created),
        cached + created <= prompt <= u32::MAX,
    ensures
        ({
            let r = anthropic_usage(usage);
            &&& or_zero(r.u64_at("input_tokens"@)) + or_zero(r.u64_at("cache_read_input_tokens"@)) + or_zero(
                r.u64_at("cache_creation_input_tokens"@),
            ) == prompt
            &&& or_zero(r.u64_at("cache_read_input_tokens"@)) == cached
            &&& or_zero(r.u64_at("cache_creation_input_tokens"@)) == created
            &&& or_zero(usage.u64_at("completion_tokens"@)) <= u32::MAX ==> r.u64_at("output_tokens"@) == Some(
                or_zero(usage.u64_at("completion_tokens"@)),
            )
        }),
{
    lemma_usage_keys();
    assert(cached_tokens(usage) == cached);
    assert(cache_creation_tokens(usage) == created);
}

/// The keys of usages are all different.
pub proof fn lemma_usage_keys()
    ensures
        "input_tokens"@ != "output_tokens"@,
        "input_tokens"@ != "cache_read_input_tokens"@,
        "input_tokens"@ != "cache_creation_input_tokens"@,
        "input_tokens"@ != "cache_creation"@,
        "input_tokens"@ != "prompt_tokens"@,
        "input_tokens"@ != "completion_tokens"@,
        "input_tokens"@ != "total_tokens"@,
        "input_tokens"@ != "input_tokens_details"@,
        "output_tokens"@ != "cache_read_input_tokens"@,
        "output_tokens"@ != "cache_creation_input_tokens"@,
        "output_tokens"@ != "cache_creation"@,
        "output_tokens"@ != "prompt_tokens"@,
        "output_tokens"@ != "completion_tokens"@,
        "output_tokens"@ != "total_tokens"@,
        "output_tokens"@ != "input_tokens_details"@,
        "cache_read_input_tokens"@ != "cache_creation_input_tokens"@,
        "cache_read_input_tokens"@ != "cache_creation"@,
        "cache_read_input_tokens"@ != "prompt_tokens"@,
        "cache_read_input_tokens"@ != "completion_tokens"@,
        "cache_read_input_tokens"@ != "total_tokens"@,
        "cache_read_input_tokens"@ != "input_tokens_details"@,
        "cache_creation_input_tokens"@ != "cache_creation"@,
        "cache_creation_input_tokens"@ != "prompt_tokens"@,
        "cache_creation_input_tokens"@ != "completion_tokens"@,
        "cache_creation_input_tokens"@ != "total_tokens"@,
        "cache_creation_input_tokens"@ != "input_tokens_details"@,
        "cache_creation"@ != "prompt_tokens"@,
        "cache_creation"@ != "completion_tokens"@,
        "cache_creation"@ != "total_tokens"@,
        "cache_creation"@ != "input_tokens_details"@,
        "prompt_tokens"@ != "completion_tokens"@,
        "prompt_tokens"@ != "total_tokens"@,
        "prompt_tokens"@ != "input_tokens_details"@,
        "completion_tokens"@ != "total_tokens"@,
        "completion_tokens"@ != "input_tokens_details"@,
        "total_tokens"@ != "input_tokens_details"@,
{
    reveal_strlit("input_tokens");
    reveal_strlit("output_tokens");
    reveal_strlit("cache_read_input_tokens");
    reveal_strlit("cache_creation_input_tokens");
    reveal_strlit("cache_creation");
    reveal_strlit("prompt_tokens");
    reveal_strlit("completion_tokens");
    reveal_strlit("total_tokens");
    reveal_strlit("input_tokens_details");
    assert("input_tokens"@.len() == 12 && "output_tokens"@.len() == 13 && "cache_read_input_tokens"@.len() == 23 && "cache_creation_input_tokens"@.len() == 27 && "cache_creation"@.len() == 14 && "prompt_tokens"@.len() == 13 && "completion_tokens"@.len() == 17 && "total_tokens"@.len() == 12 && "input_tokens_details"@.len() == 20);
    assert("input_tokens"@[0] == 'i' && "total_tokens"@[0] == 't');
    assert("output_tokens"@[0] == 'o' && "prompt_tokens"@[0] == 'p');
}

/// The texts of an Anthropic response.
pub open spec fn reply_texts(blocks: Seq<JsonV>) -> Seq<Seq<char>>
    decreases blocks.len(),
{
    if blocks.len() == 0 {
        Seq::empty()
    } else if blocks.last().str_at("type"@) == Some("text"@) && blocks.last().str_at("text"@) is Some {
        reply_texts(blocks.drop_last()).push(blocks.last().str_at("text"@)->0)
    } else {
        reply_texts(blocks.drop_last())
    }
}

/// The thinking of an Anthropic response, put one after another, where there is a block
/// of it.
pub open spec fn reply_thinking(blocks: Seq<JsonV>) -> Option<Seq<char>>
    decreases blocks.len(),
{
    if blocks.len() == 0 {
        None
    } else if blocks.last().str_at("type"@) == Some("thinking"@) && blocks.last().str_at("thinking"@) is Some {
        let t = blocks.last().str_at("thinking"@)->0;
        match reply_thinking(blocks.drop_last()) {
            Some(r) => Some(r + t),
            None => Some(t),
        }
    } else {
        reply_thinking(blocks.drop_last())
    }
}

proof fn lemma_reply_parts(blocks: Seq<JsonV>)
    ensures
        ({
            let acc = reply_parts(blocks);
            &&& acc.reasoning == reply_thinking(blocks)
            &&& acc.content == Seq::new(reply_texts(blocks).len(), |i: int| text_part(reply_texts(blocks)[i]))
            &&& Seq::new(acc.calls.len(), |i: int| call_seen(acc.calls[i])) == uses_in(blocks)
        }),
    decreases blocks.len(),
{
    lemma_reply_types();
    lemma_message_keys();
    let acc = reply_parts(blocks);
    if blocks.len() > 0 {
        let front = blocks.drop_last();
        let b = blocks.last();
        lemma_reply_parts(front);
        let was = reply_parts(front);
        reveal_strlit("text");
        reveal_strlit("thinking");
        reveal_strlit("tool_use");
        assert("text"@.len() == 4 && "thinking"@.len() == 8 && "tool_use"@.len() == 8);
        let texts = reply_texts(blocks);
        let kind = b.str_or("type"@, Seq::empty());
        if b.str_at("type"@) is Some {
            assert(b.str_at("type"@) == Some(kind));
        }
        if acc.calls != was.calls {
            let c = acc.calls.last();
            assert(call_seen(c) == uses_in(blocks).last());
            assert(Seq::new(acc.calls.len(), |i: int| call_seen(acc.calls[i])) =~= Seq::new(
                was.calls.len(),
                |i: int| call_seen(was.calls[i]),
            ).push(call_seen(c)));
        }
        assert(acc.content =~= Seq::new(texts.len(), |i: int| text_part(texts[i])));
        assert(Seq::new(acc.calls.len(), |i: int| call_seen(acc.calls[i])) =~= uses_in(blocks));
    } else {
        assert(acc.content =~= Seq::new(reply_texts(blocks).len(), |i: int| text_part(reply_texts(blocks)[i])));
        assert(Seq::new(acc.calls.len(), |i: int| call_seen(acc.calls[i])) =~= uses_in(blocks));
    }
}

/// The keys of a Chat response are all different.
pub proof fn lemma_chat_reply_keys()
    ensures
        "model"@ != "choices"@,
        "model"@ != "usage"@,
        "model"@ != "object"@,
        "model"@ != "index"@,
        "model"@ != "message"@,
        "model"@ != "finish_reason"@,
        "model"@ != "role"@,
        "model"@ != "content"@,
        "model"@ != "reasoning_content"@,
        "model"@ != "tool_calls"@,
        "choices"@ != "usage"@,
        "choices"@ != "object"@,
        "choices"@ != "index"@,
        "choices"@ != "message"@,
        "choices"@ != "finish_reason"@,
        "choices"@ != "role"@,
        "choices"@ != "content"@,
        "choices"@ != "reasoning_content"@,
        "choices"@ != "tool_calls"@,
        "usage"@ != "object"@,
        "usage"@ != "index"@,
        "usage"@ != "message"@,
        "usage"@ != "finish_reason"@,
        "usage"@ != "role"@,
        "usage"@ != "content"@,
        "usage"@ != "reasoning_content"@,
        "usage"@ != "tool_calls"@,
        "object"@ != "index"@,
        "object"@ != "message"@,
        "object"@ != "finish_reason"@,
        "object"@ != "role"@,
        "object"@ != "content"@,
        "object"@ != "reasoning_content"@,
        "object"@ != "tool_calls"@,
        "index"@ != "message"@,
        "index"@ != "finish_reason"@,
        "index"@ != "role"@,
        "index"@ != "content"@,
        "index"@ != "reasoning_content"@,
        "index"@ != "tool_calls"@,
        "message"@ != "finish_reason"@,
        "message"@ != "role"@,
        "message"@ != "content"@,
        "message"@ != "reasoning_content"@,
        "message"@ != "tool_calls"@,
        "finish_reason"@ != "role"@,
        "finish_reason"@ != "content"@,
        "finish_reason"@ != "reasoning_content"@,
        "finish_reason"@ != "tool_calls"@,
        "role"@ != "content"@,
        "role"@ != "reasoning_content"@,
        "role"@ != "tool_calls"@,
        "content"@ != "reasoning_content"@,
        "content"@ != "tool_calls"@,
        "reasoning_content"@ != "tool_calls"@,
{
    reveal_strlit("model");
    reveal_strlit("choices");
    reveal_strlit("usage");
    reveal_strlit("object");
    reveal_strlit("index");
    reveal_strlit("message");
    reveal_strlit("finish_reason");
    reveal_strlit("role");
    reveal_strlit("content");
    reveal_strlit("reasoning_content");
    reveal_strlit("tool_calls");
    assert("model"@.len() == 5 && "choices"@.len() == 7 && "usage"@.len() == 5 && "object"@.len() == 6 && "index"@.len() == 5 && "message"@.len() == 7 && "finish_reason"@.len() == 13 && "role"@.len() == 4 && "content"@.len() == 7 && "reasoning_content"@.len() == 17 && "tool_calls"@.len() == 10);
    assert("model"@[0] == 'm' && "usage"@[0] == 'u');
    assert("model"@[0] == 'm' && "index"@[0] == 'i');
    assert("choices"@[0] == 'c' && "message"@[0] == 'm');
    assert("choices"@[1] == 'h' && "content"@[1] == 'o');
    assert("usage"@[0] == 'u' && "index"@[0] == 'i');
    assert("message"@[0] == 'm' && "content"@[0] == 'c');
}

/// An Anthropic response comes to a Chat response for the model that was asked for, with
/// one choice that holds the same: its texts in order, its thinking put one after
/// another, its calls in order, and why it ended.
pub proof fn law_anthropic_reply_is_kept_for_chat(body: JsonV, model: Seq<char>)
    ensures
        ({
            let r = chat_response(body, model);
            let blocks = body.items_at("content"@);
            let texts = reply_texts(blocks);
            let choice = r.items_at("choices"@)[0];
            let message = choice.at("message"@);
            &&& r.str_at("model"@) == Some(model)
            &&& r.str_at("object"@) == Some("chat.completion"@)
            &&& r.items_at("choices"@).len() == 1
            &&& message.str_at("role"@) == Some("assistant"@)
            &&& texts.len() == 0 ==> message.str_at("content"@) == Some(Seq::<char>::empty())
            &&& texts.len() > 0 ==> message.array_at("content"@) == Some(
                Seq::new(texts.len(), |i: int| text_part(texts[i])),
            )
            &&& message.str_at("reasoning_content"@) == reply_thinking(blocks)
            &&& calls_seen(message) == uses_in(blocks)
            &&& uses_in(blocks).len() == 0 ==> message.get("tool_calls"@) is None
            &&& choice.str_at("finish_reason"@) == Some(
                if body.str_at("stop_reason"@) == Some("max_tokens"@) {
                    "length"@
                } else if body.str_at("stop_reason"@) == Some("tool_use"@) {
                    "tool_calls"@
                } else if body.str_at("stop_reason"@) == Some("refusal"@) {
                    "content_filter"@
                } else {
                    "stop"@
                },
            )
            &&& body.get("usage"@) is Some ==> {
                let u = body.at("usage"@);
                let v = r.at("usage"@);
                &&& v.get("prompt_tokens"@) == u.get("input_tokens"@)
                &&& v.get("completion_tokens"@) == u.get("output_tokens"@)
                &&& or_zero(u.u64_at("input_tokens"@)) + or_zero(u.u64_at("output_tokens"@)) <= u64::MAX ==> v.u64_at(
                    "total_tokens"@,
                ) == Some((or_zero(u.u64_at("input_tokens"@)) + or_zero(u.u64_at("output_tokens"@))) as u64)
            }
            &&& body.get("usage"@) is None ==> r.get("usage"@) is None
        }),
{
    lemma_chat_reply_keys();
    lemma_usage_keys();
    lemma_reply_parts(body.items_at("content"@));
    let blocks = body.items_at("content"@);
    let acc = reply_parts(blocks);
    let r = chat_response(body, model);
    let choice = r.items_at("choices"@)[0];
    let message = choice.at("message"@);
    assert(message == assistant_message(acc));
    assert(acc.calls.len() == uses_in(blocks).len());
    if acc.calls.len() > 0 {
        assert(message.items_at("tool_calls"@) == acc.calls);
    } else {
        assert(message.get("tool_calls"@) is None);
        assert(calls_seen(message) =~= uses_in(blocks));
    }
    assert(acc.content.len() == reply_texts(blocks).len());
}

/// A usage that is not there counts nothing. The tokens that were written to the cache
/// are told in the details of a Responses usage.
pub proof fn law_missing_usage_counts_nothing(usage: JsonV, n: u64)
    ensures
        ({
            let none = responses_usage(None);
            &&& none.u64_at("input_tokens"@) == Some(0u64)
            &&& none.u64_at("output_tokens"@) == Some(0u64)
            &&& streamed_usage(None) == none
            &&& usage_for_responses(None).u64_at("total_tokens"@) == Some(0u64)
            &&& anthropic_usage(JsonV::Object(Map::empty())).u64_at("input_tokens"@) == Some(0u64)
            &&& anthropic_usage(JsonV::Object(Map::empty())).u64_at("output_tokens"@) == Some(0u64)
            &&& usage.u64_at("cache_creation_input_tokens"@) == Some(n) ==> usage_for_responses(Some(usage)).at(
                "input_tokens_details"@,
            ).u64_at("cached_tokens"@) == Some(n)
        }),
{
    lemma_usage_keys();
    let empty = JsonV::Object(Map::<Seq<char>, JsonV>::empty());
    assert(forall|k: Seq<char>| #[trigger] empty.get(k) is None);
}

} // verus!
