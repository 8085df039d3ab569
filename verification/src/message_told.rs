//! What an Anthropic message holds and what the Chat messages that come of it hold are
//! the same: its texts and images, its tool calls, and the results of tools.

use vstd::prelude::*;
use crate::convert_message::{MessagePartsV, add_tool_result, folded_content, message_parts, openai_messages};
use crate::json::JsonV;
use crate::json_canonical::compact_text;
use crate::json_text::json_parse;
use crate::text::trim;
use crate::tool_media::{is_image_data_url, string_image};

verus! {

/// What a reader sees of one part of a content.
pub enum Seen {
    Words(Seq<char>),
    Picture(Seq<char>),
    Other,
}

/// The texts and images among the blocks of an Anthropic message, in order.
pub open spec fn pieces_in(blocks: Seq<JsonV>) -> Seq<Seen>
    decreases blocks.len(),
{
    if blocks.len() == 0 {
        Seq::empty()
    } else {
        let b = blocks.last();
        let front = pieces_in(blocks.drop_last());
        if b.str_at("type"@) == Some("text"@) && b.str_at("text"@) is Some {
            front.push(Seen::Words(b.str_at("text"@)->0))
        } else if b.str_at("type"@) == Some("image"@) && b.get("source"@) is Some {
            front.push(
                Seen::Picture(
                    "data:"@ + b.at("source"@).str_or("media_type"@, "image/png"@) + ";base64,"@ + b.at(
                        "source"@,
                    ).str_or("data"@, Seq::empty()),
                ),
            )
        } else {
            front
        }
    }
}

/// What a reader sees of a part of the content of a Chat message.
pub open spec fn part_seen(part: JsonV) -> Seen {
    if part.str_at("type"@) == Some("text"@) && part.str_at("text"@) is Some {
        Seen::Words(part.str_at("text"@)->0)
    } else if part.str_at("type"@) == Some("image_url"@) && part.at("image_url"@).str_at("url"@) is Some {
        Seen::Picture(part.at("image_url"@).str_at("url"@)->0)
    } else {
        Seen::Other
    }
}

/// What a reader sees of the content of a Chat message.
pub open spec fn content_seen(content: JsonV) -> Seq<Seen> {
    match content {
        JsonV::Text(t) => seq![Seen::Words(t)],
        JsonV::Array(parts) => Seq::new(parts.len(), |i: int| part_seen(parts[i])),
        _ => Seq::empty(),
    }
}

/// The tool calls among the blocks of an Anthropic message, in order: the id, the name
/// and the arguments of each.
pub open spec fn uses_in(blocks: Seq<JsonV>) -> Seq<(Seq<char>, Seq<char>, Seq<char>)>
    decreases blocks.len(),
{
    if blocks.len() == 0 {
        Seq::empty()
    } else {
        let b = blocks.last();
        let front = uses_in(blocks.drop_last());
        if b.str_at("type"@) == Some("tool_use"@) {
            front.push(
                (
                    b.str_or("id"@, Seq::empty()),
                    b.str_or("name"@, Seq::empty()),
                    compact_text(
                        match b.get("input"@) {
                            Some(v) => v,
                            None => JsonV::Object(Map::empty()),
                        },
                    ),
                ),
            )
        } else {
            front
        }
    }
}

/// The id, the name and the arguments of a tool call of a Chat message.
pub open spec fn call_seen(call: JsonV) -> (Seq<char>, Seq<char>, Seq<char>) {
    (
        call.str_or("id"@, Seq::empty()),
        call.at("function"@).str_or("name"@, Seq::empty()),
        call.at("function"@).str_or("arguments"@, Seq::empty()),
    )
}

/// The tool calls of a Chat message.
pub open spec fn calls_seen(message: JsonV) -> Seq<(Seq<char>, Seq<char>, Seq<char>)> {
    let calls = message.items_at("tool_calls"@);
    Seq::new(calls.len(), |i: int| call_seen(calls[i]))
}

/// The results of tools among the blocks of an Anthropic message, in order.
pub open spec fn results_in(blocks: Seq<JsonV>) -> Seq<JsonV>
    decreases blocks.len(),
{
    if blocks.len() == 0 {
        Seq::empty()
    } else if blocks.last().str_at("type"@) == Some("tool_result"@) {
        results_in(blocks.drop_last()).push(blocks.last())
    } else {
        results_in(blocks.drop_last())
    }
}

/// Whether a text is read as it stands: it is no image, and no document that could
/// hold one.
pub open spec fn is_plain_text(t: Seq<char>) -> bool {
    !is_image_data_url(trim(t)) && (trim(t).len() == 0 || json_parse(trim(t)) is Err)
}

/// Whether a Chat message hands on the result of a tool.
pub open spec fn hands_on(message: JsonV, result: JsonV) -> bool {
    &&& message.str_at("role"@) == Some("tool"@)
    &&& message.str_at("tool_call_id"@) == Some(result.str_or("tool_use_id"@, Seq::empty()))
    &&& message.str_at("content"@) is Some
    &&& result.get("content"@) is None ==> message.str_at("content"@)->0.len() == 0
    &&& result.str_at("content"@) is Some && is_plain_text(result.str_at("content"@)->0) ==> message.str_at(
        "content"@,
    ) == result.str_at("content"@)
}

/// The types of blocks are all different.
pub proof fn lemma_block_names()
    ensures
        "text"@ != "image"@,
        "text"@ != "tool_use"@,
        "text"@ != "tool_result"@,
        "text"@ != "thinking"@,
        "text"@ != "redacted_thinking"@,
        "text"@ != "image_url"@,
        "image"@ != "tool_use"@,
        "image"@ != "tool_result"@,
        "image"@ != "thinking"@,
        "image"@ != "redacted_thinking"@,
        "image"@ != "image_url"@,
        "tool_use"@ != "tool_result"@,
        "tool_use"@ != "thinking"@,
        "tool_use"@ != "redacted_thinking"@,
        "tool_use"@ != "image_url"@,
        "tool_result"@ != "thinking"@,
        "tool_result"@ != "redacted_thinking"@,
        "tool_result"@ != "image_url"@,
        "thinking"@ != "redacted_thinking"@,
        "thinking"@ != "image_url"@,
        "redacted_thinking"@ != "image_url"@,
{
    reveal_strlit("text");
    reveal_strlit("image");
    reveal_strlit("tool_use");
    reveal_strlit("tool_result");
    reveal_strlit("thinking");
    reveal_strlit("redacted_thinking");
    reveal_strlit("image_url");
    assert("text"@.len() == 4 && "image"@.len() == 5 && "tool_use"@.len() == 8 && "tool_result"@.len() == 11 && "thinking"@.len() == 8 && "redacted_thinking"@.len() == 17 && "image_url"@.len() == 9);
    assert("tool_use"@[1] == 'o' && "thinking"@[1] == 'h');
}
/// The keys of a Chat message are all different.
pub proof fn lemma_message_keys()
    ensures
        "role"@ != "content"@,
        "role"@ != "tool_calls"@,
        "role"@ != "tool_call_id"@,
        "role"@ != "reasoning_content"@,
        "role"@ != "type"@,
        "role"@ != "text"@,
        "role"@ != "image_url"@,
        "role"@ != "url"@,
        "role"@ != "id"@,
        "role"@ != "function"@,
        "role"@ != "name"@,
        "role"@ != "arguments"@,
        "content"@ != "tool_calls"@,
        "content"@ != "tool_call_id"@,
        "content"@ != "reasoning_content"@,
        "content"@ != "type"@,
        "content"@ != "text"@,
        "content"@ != "image_url"@,
        "content"@ != "url"@,
        "content"@ != "id"@,
        "content"@ != "function"@,
        "content"@ != "name"@,
        "content"@ != "arguments"@,
        "tool_calls"@ != "tool_call_id"@,
        "tool_calls"@ != "reasoning_content"@,
        "tool_calls"@ != "type"@,
        "tool_calls"@ != "text"@,
        "tool_calls"@ != "image_url"@,
        "tool_calls"@ != "url"@,
        "tool_calls"@ != "id"@,
        "tool_calls"@ != "function"@,
        "tool_calls"@ != "name"@,
        "tool_calls"@ != "arguments"@,
        "tool_call_id"@ != "reasoning_content"@,
        "tool_call_id"@ != "type"@,
        "tool_call_id"@ != "text"@,
        "tool_call_id"@ != "image_url"@,
        "tool_call_id"@ != "url"@,
        "tool_call_id"@ != "id"@,
        "tool_call_id"@ != "function"@,
        "tool_call_id"@ != "name"@,
        "tool_call_id"@ != "arguments"@,
        "reasoning_content"@ != "type"@,
        "reasoning_content"@ != "text"@,
        "reasoning_content"@ != "image_url"@,
        "reasoning_content"@ != "url"@,
        "reasoning_content"@ != "id"@,
        "reasoning_content"@ != "function"@,
        "reasoning_content"@ != "name"@,
        "reasoning_content"@ != "arguments"@,
        "type"@ != "text"@,
        "type"@ != "image_url"@,
        "type"@ != "url"@,
        "type"@ != "id"@,
        "type"@ != "function"@,
        "type"@ != "name"@,
        "type"@ != "arguments"@,
        "text"@ != "image_url"@,
        "text"@ != "url"@,
        "text"@ != "id"@,
        "text"@ != "function"@,
        "text"@ != "name"@,
        "text"@ != "arguments"@,
        "image_url"@ != "url"@,
        "image_url"@ != "id"@,
        "image_url"@ != "function"@,
        "image_url"@ != "name"@,
        "image_url"@ != "arguments"@,
        "url"@ != "id"@,
        "url"@ != "function"@,
        "url"@ != "name"@,
        "url"@ != "arguments"@,
        "id"@ != "function"@,
        "id"@ != "name"@,
        "id"@ != "arguments"@,
        "function"@ != "name"@,
        "function"@ != "arguments"@,
        "name"@ != "arguments"@,
{
    reveal_strlit("role");
    reveal_strlit("content");
    reveal_strlit("tool_calls");
    reveal_strlit("tool_call_id");
    reveal_strlit("reasoning_content");
    reveal_strlit("type");
    reveal_strlit("text");
    reveal_strlit("image_url");
    reveal_strlit("url");
    reveal_strlit("id");
    reveal_strlit("function");
    reveal_strlit("name");
    reveal_strlit("arguments");
    assert("role"@.len() == 4 && "content"@.len() == 7 && "tool_calls"@.len() == 10 && "tool_call_id"@.len() == 12 && "reasoning_content"@.len() == 17 && "type"@.len() == 4 && "text"@.len() == 4 && "image_url"@.len() == 9 && "url"@.len() == 3 && "id"@.len() == 2 && "function"@.len() == 8 && "name"@.len() == 4 && "arguments"@.len() == 9);
    assert("role"@[0] == 'r' && "type"@[0] == 't');
    assert("role"@[0] == 'r' && "text"@[0] == 't');
    assert("role"@[0] == 'r' && "name"@[0] == 'n');
    assert("type"@[1] == 'y' && "text"@[1] == 'e');
    assert("type"@[0] == 't' && "name"@[0] == 'n');
    assert("text"@[0] == 't' && "name"@[0] == 'n');
    assert("image_url"@[0] == 'i' && "arguments"@[0] == 'a');
}

/// What the parts of a message hold, against its blocks.
pub open spec fn parts_agree(acc: MessagePartsV, blocks: Seq<JsonV>) -> bool {
    &&& content_seen(JsonV::Array(acc.content)) == pieces_in(blocks)
    &&& forall|i: int|
        0 <= i < acc.content.len() && (#[trigger] acc.content[i]).get("text"@) is Some ==> acc.content[i].get("text"@)
            == Some(JsonV::Text(pieces_in(blocks)[i]->Words_0)) && pieces_in(blocks)[i] is Words
    &&& Seq::new(acc.calls.len(), |i: int| call_seen(acc.calls[i])) == uses_in(blocks)
    &&& acc.results.len() == results_in(blocks).len()
    &&& forall|i: int| 0 <= i < acc.results.len() ==> hands_on(#[trigger] acc.results[i], results_in(blocks)[i])
}

proof fn lemma_result_agrees(acc: MessagePartsV, block: JsonV)
    ensures
        ({
            let r = add_tool_result(acc, block);
            &&& r.content == acc.content
            &&& r.calls == acc.calls
            &&& r.results.len() == acc.results.len() + 1
            &&& r.results.drop_last() == acc.results
            &&& hands_on(r.results.last(), block)
        }),
{
    lemma_message_keys();
    let r = add_tool_result(acc, block);
    assert(r.results.drop_last() =~= acc.results);
    if let Some(t) = block.str_at("content"@) {
        if is_plain_text(t) {
            assert(string_image(t) is None);
            assert(block.get("content"@) == Some(JsonV::Text(t)));
        }
    }
}

pub proof fn lemma_parts_agree(blocks: Seq<JsonV>, preserve: bool)
    ensures
        parts_agree(message_parts(blocks, preserve), blocks),
    decreases blocks.len(),
{
    lemma_block_names();
    lemma_message_keys();
    if blocks.len() > 0 {
        let front = blocks.drop_last();
        let b = blocks.last();
        lemma_parts_agree(front, preserve);
        let acc = message_parts(front, preserve);
        let r = message_parts(blocks, preserve);
        let kind = b.str_or("type"@, Seq::empty());
        reveal_strlit("text");
        reveal_strlit("image");
        reveal_strlit("tool_use");
        reveal_strlit("tool_result");
        assert("text"@.len() == 4 && "image"@.len() == 5 && "tool_use"@.len() == 8 && "tool_result"@.len() == 11);
        if b.str_at("type"@) is Some {
            assert(b.str_at("type"@) == Some(kind));
        }
        if kind == "tool_result"@ {
            lemma_result_agrees(acc, b);
            assert forall|i: int| 0 <= i < r.results.len() implies hands_on(
                #[trigger] r.results[i],
                results_in(blocks)[i],
            ) by {
                if i < acc.results.len() {
                    assert(r.results[i] == r.results.drop_last()[i]);
                    assert(hands_on(acc.results[i], results_in(front)[i]));
                }
            }
        } else {
            assert(r.results == acc.results && results_in(blocks) == results_in(front));
            if kind == "tool_use"@ {
                let c = r.calls.last();
                assert(call_seen(c) == uses_in(blocks).last());
                assert(Seq::new(r.calls.len(), |i: int| call_seen(r.calls[i])) =~= Seq::new(
                    acc.calls.len(),
                    |i: int| call_seen(acc.calls[i]),
                ).push(call_seen(c)));
            } else {
                assert(r.calls == acc.calls && uses_in(blocks) == uses_in(front));
            }
        }
        if r.content == acc.content {
            assert(pieces_in(blocks) == pieces_in(front));
        } else {
            let p = r.content.last();
            assert(r.content.drop_last() =~= acc.content);
            assert(part_seen(p) == pieces_in(blocks).last());
            assert(content_seen(JsonV::Array(r.content)) =~= content_seen(JsonV::Array(acc.content)).push(part_seen(p)));
            assert(pieces_in(blocks) == pieces_in(front).push(part_seen(p)));
            assert forall|i: int| 0 <= i < r.content.len() && (#[trigger] r.content[i]).get("text"@) is Some implies
                r.content[i].get("text"@) == Some(JsonV::Text(pieces_in(blocks)[i]->Words_0)) && pieces_in(
                blocks,
            )[i] is Words by {
                assert(pieces_in(front).len() == acc.content.len());
                if i < acc.content.len() {
                    assert(r.content[i] == acc.content[i]);
                }
            }
        }
    } else {
        let r = message_parts(blocks, preserve);
        assert(content_seen(JsonV::Array(r.content)) =~= pieces_in(blocks));
        assert(Seq::new(r.calls.len(), |i: int| call_seen(r.calls[i])) =~= uses_in(blocks));
    }
}

/// Each text and each image of an Anthropic message stands in the content of the Chat
/// message that comes of it, in order, whether or not it has tool calls; each of its
/// tool calls stands there with its id, its name and its arguments; and each result of
/// a tool comes before it as a message of its own.
pub proof fn law_message_keeps_what_it_holds(role: Seq<char>, blocks: Seq<JsonV>, preserve: bool)
    ensures
        ({
            let ms = openai_messages(role, Some(JsonV::Array(blocks)), preserve);
            let results = results_in(blocks);
            &&& results.len() <= ms.len() <= results.len() + 2
            &&& forall|i: int| 0 <= i < results.len() ==> hands_on(#[trigger] ms[i], results[i])
            &&& pieces_in(blocks).len() > 0 || uses_in(blocks).len() > 0 ==> {
                &&& ms.len() > results.len()
                &&& ms.last().str_at("role"@) == Some(role)
                &&& content_seen(ms.last().at("content"@)) == pieces_in(blocks)
                &&& calls_seen(ms.last()) == uses_in(blocks)
            }
            &&& pieces_in(blocks).len() == 0 && uses_in(blocks).len() == 0 ==> ms.len() <= results.len() + 1
            &&& uses_in(blocks).len() == 0 && pieces_in(blocks).len() > 0 ==> ms.last().get("tool_calls"@) is None
        }),
{
    lemma_block_names();
    lemma_message_keys();
    lemma_parts_agree(blocks, preserve);
    let acc = message_parts(blocks, preserve);
    let ms = openai_messages(role, Some(JsonV::Array(blocks)), preserve);
    let results = results_in(blocks);
    assert(acc.content.len() == pieces_in(blocks).len());
    assert(acc.calls.len() == uses_in(blocks).len());
    assert forall|i: int| 0 <= i < results.len() implies hands_on(#[trigger] ms[i], results[i]) by {
        assert(ms[i] == acc.results[i]);
    }
    if acc.content.len() > 0 || acc.calls.len() > 0 {
        let m = ms.last();
        assert(m.at("content"@) == folded_content(acc.content));
        assert(m.str_at("role"@) == Some(role));
        if acc.content.len() == 1 && acc.content[0].get("text"@) is Some {
            assert(content_seen(m.at("content"@)) =~= pieces_in(blocks));
        } else if acc.content.len() == 0 {
            assert(content_seen(m.at("content"@)) =~= pieces_in(blocks));
        }
        if acc.calls.len() > 0 {
            assert(m.items_at("tool_calls"@) == acc.calls);
        } else {
            assert(m.get("tool_calls"@) is None);
            assert(calls_seen(m) =~= uses_in(blocks));
        }
    }
}

} // verus!
