//! What an Anthropic message holds and what the items of a Responses request that come
//! of it hold are the same, in the same order.

use vstd::prelude::*;
use crate::json::JsonV;
use crate::json_canonical::compact_text;
use crate::message_told::is_plain_text;
use crate::reasoning_bridge::{block_reasoning_item, is_reasoning};
use crate::request_fields::lemma_setting_keys;
use crate::request_order::{block_message, text_message, with_messages};
use crate::text::has_prefix;
use crate::tool_media::string_image;
use crate::transform_responses::{TurnV, add_turn_block, content_item, flushed_turn, input_text, is_generated, items_of_content, items_of_message, output_of_content, output_with_images, responses_file, responses_image, responses_input, responses_output, responses_request, text_kind, turn_of_blocks, typed_text, with_content, with_item, without_orphans};

verus! {

/// What a reader sees of a message: a text, an image at an address, a call with its id,
/// its name and its arguments, or the result of a call with its id and its output.
pub enum ItemSeen {
    Words(Seq<char>),
    Picture(Seq<char>),
    Call(Seq<char>, Seq<char>, Seq<char>),
    Outcome(Seq<char>, JsonV),
}

/// What a reader sees of a block of an Anthropic message; reasoning and documents are
/// left out.
pub open spec fn seen_in_block(block: JsonV) -> Seq<ItemSeen> {
    let source = block.at("source"@);
    let data = source.str_or("data"@, Seq::empty());
    let kind = block.str_at("type"@);
    if kind == Some("text"@) && block.str_at("text"@) is Some {
        seq![ItemSeen::Words(block.str_at("text"@)->0)]
    } else if kind == Some("image"@) && source.str_at("type"@) == Some("url"@) && source.str_at("url"@) is Some && (
    has_prefix(source.str_at("url"@)->0, "http://"@) || has_prefix(source.str_at("url"@)->0, "https://"@)) {
        seq![ItemSeen::Picture(source.str_at("url"@)->0)]
    } else if kind == Some("image"@) && (source.str_at("type"@) is None || source.str_at("type"@) == Some("base64"@))
        && data.len() > 0 {
        seq![
            ItemSeen::Picture("data:"@ + source.str_or("media_type"@, "image/png"@) + ";base64,"@ + data),
        ]
    } else if kind == Some("tool_use"@) {
        seq![
            ItemSeen::Call(
                block.str_or("id"@, Seq::empty()),
                block.str_or("name"@, Seq::empty()),
                compact_text(
                    match block.get("input"@) {
                        Some(v) => v,
                        None => JsonV::Object(Map::empty()),
                    },
                ),
            ),
        ]
    } else if kind == Some("tool_result"@) {
        seq![ItemSeen::Outcome(block.str_or("tool_use_id"@, Seq::empty()), responses_output(block))]
    } else {
        Seq::empty()
    }
}

/// What a reader sees of blocks.
pub open spec fn seen_in_blocks(blocks: Seq<JsonV>) -> Seq<ItemSeen>
    decreases blocks.len(),
{
    if blocks.len() == 0 {
        Seq::empty()
    } else {
        seen_in_blocks(blocks.drop_last()) + seen_in_block(blocks.last())
    }
}

/// What a reader sees of a part of a message of a Responses request.
pub open spec fn seen_in_part(part: JsonV) -> Seq<ItemSeen> {
    let kind = part.str_at("type"@);
    if kind == Some("input_text"@) || kind == Some("output_text"@) {
        seq![ItemSeen::Words(part.str_or("text"@, Seq::empty()))]
    } else if kind == Some("input_image"@) {
        seq![ItemSeen::Picture(part.str_or("image_url"@, Seq::empty()))]
    } else {
        Seq::empty()
    }
}

/// What a reader sees of the parts of a message of a Responses request.
pub open spec fn seen_in_parts(parts: Seq<JsonV>) -> Seq<ItemSeen>
    decreases parts.len(),
{
    if parts.len() == 0 {
        Seq::empty()
    } else {
        seen_in_parts(parts.drop_last()) + seen_in_part(parts.last())
    }
}

/// What a reader sees of an item of a Responses request.
pub open spec fn seen_in_item(item: JsonV) -> Seq<ItemSeen> {
    if item.str_at("type"@) == Some("function_call"@) {
        seq![
            ItemSeen::Call(
                item.str_or("call_id"@, Seq::empty()),
                item.str_or("name"@, Seq::empty()),
                item.str_or("arguments"@, Seq::empty()),
            ),
        ]
    } else if item.str_at("type"@) == Some("function_call_output"@) {
        seq![ItemSeen::Outcome(item.str_or("call_id"@, Seq::empty()), item.at("output"@))]
    } else if item.str_at("type"@) == Some("reasoning"@) {
        Seq::empty()
    } else {
        seen_in_parts(item.items_at("content"@))
    }
}

/// What a reader sees of items of a Responses request.
pub open spec fn seen_in_items(items: Seq<JsonV>) -> Seq<ItemSeen>
    decreases items.len(),
{
    if items.len() == 0 {
        Seq::empty()
    } else {
        seen_in_items(items.drop_last()) + seen_in_item(items.last())
    }
}

/// The items of a Responses request for Anthropic messages.
pub open spec fn input_items(ms: Seq<JsonV>) -> Seq<JsonV> {
    responses_request(with_messages(ms)).items_at("input"@)
}

/// The types of items, parts and blocks are all different.
pub proof fn lemma_item_types()
    ensures
        "function_call"@ != "function_call_output"@,
        "function_call"@ != "reasoning"@,
        "function_call"@ != "input_text"@,
        "function_call"@ != "output_text"@,
        "function_call"@ != "input_image"@,
        "function_call"@ != "input_file"@,
        "function_call"@ != "text"@,
        "function_call"@ != "image"@,
        "function_call"@ != "document"@,
        "function_call"@ != "tool_use"@,
        "function_call"@ != "tool_result"@,
        "function_call"@ != "thinking"@,
        "function_call"@ != "redacted_thinking"@,
        "function_call_output"@ != "reasoning"@,
        "function_call_output"@ != "input_text"@,
        "function_call_output"@ != "output_text"@,
        "function_call_output"@ != "input_image"@,
        "function_call_output"@ != "input_file"@,
        "function_call_output"@ != "text"@,
        "function_call_output"@ != "image"@,
        "function_call_output"@ != "document"@,
        "function_call_output"@ != "tool_use"@,
        "function_call_output"@ != "tool_result"@,
        "function_call_output"@ != "thinking"@,
        "function_call_output"@ != "redacted_thinking"@,
        "reasoning"@ != "input_text"@,
        "reasoning"@ != "output_text"@,
        "reasoning"@ != "input_image"@,
        "reasoning"@ != "input_file"@,
        "reasoning"@ != "text"@,
        "reasoning"@ != "image"@,
        "reasoning"@ != "document"@,
        "reasoning"@ != "tool_use"@,
        "reasoning"@ != "tool_result"@,
        "reasoning"@ != "thinking"@,
        "reasoning"@ != "redacted_thinking"@,
        "input_text"@ != "output_text"@,
        "input_text"@ != "input_image"@,
        "input_text"@ != "input_file"@,
        "input_text"@ != "text"@,
        "input_text"@ != "image"@,
        "input_text"@ != "document"@,
        "input_text"@ != "tool_use"@,
        "input_text"@ != "tool_result"@,
        "input_text"@ != "thinking"@,
        "input_text"@ != "redacted_thinking"@,
        "output_text"@ != "input_image"@,
        "output_text"@ != "input_file"@,
        "output_text"@ != "text"@,
        "output_text"@ != "image"@,
        "output_text"@ != "document"@,
        "output_text"@ != "tool_use"@,
        "output_text"@ != "tool_result"@,
        "output_text"@ != "thinking"@,
        "output_text"@ != "redacted_thinking"@,
        "input_image"@ != "input_file"@,
        "input_image"@ != "text"@,
        "input_image"@ != "image"@,
        "input_image"@ != "document"@,
        "input_image"@ != "tool_use"@,
        "input_image"@ != "tool_result"@,
        "input_image"@ != "thinking"@,
        "input_image"@ != "redacted_thinking"@,
        "input_file"@ != "text"@,
        "input_file"@ != "image"@,
        "input_file"@ != "document"@,
        "input_file"@ != "tool_use"@,
        "input_file"@ != "tool_result"@,
        "input_file"@ != "thinking"@,
        "input_file"@ != "redacted_thinking"@,
        "text"@ != "image"@,
        "text"@ != "document"@,
        "text"@ != "tool_use"@,
        "text"@ != "tool_result"@,
        "text"@ != "thinking"@,
        "text"@ != "redacted_thinking"@,
        "image"@ != "document"@,
        "image"@ != "tool_use"@,
        "image"@ != "tool_result"@,
        "image"@ != "thinking"@,
        "image"@ != "redacted_thinking"@,
        "document"@ != "tool_use"@,
        "document"@ != "tool_result"@,
        "document"@ != "thinking"@,
        "document"@ != "redacted_thinking"@,
        "tool_use"@ != "tool_result"@,
        "tool_use"@ != "thinking"@,
        "tool_use"@ != "redacted_thinking"@,
        "tool_result"@ != "thinking"@,
        "tool_result"@ != "redacted_thinking"@,
        "thinking"@ != "redacted_thinking"@,
{
    reveal_strlit("function_call");
    reveal_strlit("function_call_output");
    reveal_strlit("reasoning");
    reveal_strlit("input_text");
    reveal_strlit("output_text");
    reveal_strlit("input_image");
    reveal_strlit("input_file");
    reveal_strlit("text");
    reveal_strlit("image");
    reveal_strlit("document");
    reveal_strlit("tool_use");
    reveal_strlit("tool_result");
    reveal_strlit("thinking");
    reveal_strlit("redacted_thinking");
    assert("function_call"@.len() == 13 && "function_call_output"@.len() == 20 && "reasoning"@.len() == 9 && "input_text"@.len() == 10 && "output_text"@.len() == 11 && "input_image"@.len() == 11 && "input_file"@.len() == 10 && "text"@.len() == 4 && "image"@.len() == 5 && "document"@.len() == 8 && "tool_use"@.len() == 8 && "tool_result"@.len() == 11 && "thinking"@.len() == 8 && "redacted_thinking"@.len() == 17);
    assert("input_text"@[6] == 't' && "input_file"@[6] == 'f');
    assert("output_text"@[0] == 'o' && "input_image"@[0] == 'i');
    assert("output_text"@[0] == 'o' && "tool_result"@[0] == 't');
    assert("input_image"@[0] == 'i' && "tool_result"@[0] == 't');
    assert("document"@[0] == 'd' && "tool_use"@[0] == 't');
    assert("document"@[0] == 'd' && "thinking"@[0] == 't');
    assert("tool_use"@[1] == 'o' && "thinking"@[1] == 'h');
}
/// The keys of items are all different.
pub proof fn lemma_item_keys()
    ensures
        "type"@ != "text"@,
        "type"@ != "image_url"@,
        "type"@ != "call_id"@,
        "type"@ != "name"@,
        "type"@ != "arguments"@,
        "type"@ != "output"@,
        "type"@ != "content"@,
        "type"@ != "role"@,
        "type"@ != "filename"@,
        "type"@ != "file_url"@,
        "type"@ != "file_data"@,
        "text"@ != "image_url"@,
        "text"@ != "call_id"@,
        "text"@ != "name"@,
        "text"@ != "arguments"@,
        "text"@ != "output"@,
        "text"@ != "content"@,
        "text"@ != "role"@,
        "text"@ != "filename"@,
        "text"@ != "file_url"@,
        "text"@ != "file_data"@,
        "image_url"@ != "call_id"@,
        "image_url"@ != "name"@,
        "image_url"@ != "arguments"@,
        "image_url"@ != "output"@,
        "image_url"@ != "content"@,
        "image_url"@ != "role"@,
        "image_url"@ != "filename"@,
        "image_url"@ != "file_url"@,
        "image_url"@ != "file_data"@,
        "call_id"@ != "name"@,
        "call_id"@ != "arguments"@,
        "call_id"@ != "output"@,
        "call_id"@ != "content"@,
        "call_id"@ != "role"@,
        "call_id"@ != "filename"@,
        "call_id"@ != "file_url"@,
        "call_id"@ != "file_data"@,
        "name"@ != "arguments"@,
        "name"@ != "output"@,
        "name"@ != "content"@,
        "name"@ != "role"@,
        "name"@ != "filename"@,
        "name"@ != "file_url"@,
        "name"@ != "file_data"@,
        "arguments"@ != "output"@,
        "arguments"@ != "content"@,
        "arguments"@ != "role"@,
        "arguments"@ != "filename"@,
        "arguments"@ != "file_url"@,
        "arguments"@ != "file_data"@,
        "output"@ != "content"@,
        "output"@ != "role"@,
        "output"@ != "filename"@,
        "output"@ != "file_url"@,
        "output"@ != "file_data"@,
        "content"@ != "role"@,
        "content"@ != "filename"@,
        "content"@ != "file_url"@,
        "content"@ != "file_data"@,
        "role"@ != "filename"@,
        "role"@ != "file_url"@,
        "role"@ != "file_data"@,
        "filename"@ != "file_url"@,
        "filename"@ != "file_data"@,
        "file_url"@ != "file_data"@,
{
    reveal_strlit("type");
    reveal_strlit("text");
    reveal_strlit("image_url");
    reveal_strlit("call_id");
    reveal_strlit("name");
    reveal_strlit("arguments");
    reveal_strlit("output");
    reveal_strlit("content");
    reveal_strlit("role");
    reveal_strlit("filename");
    reveal_strlit("file_url");
    reveal_strlit("file_data");
    assert("type"@.len() == 4 && "text"@.len() == 4 && "image_url"@.len() == 9 && "call_id"@.len() == 7 && "name"@.len() == 4 && "arguments"@.len() == 9 && "output"@.len() == 6 && "content"@.len() == 7 && "role"@.len() == 4 && "filename"@.len() == 8 && "file_url"@.len() == 8 && "file_data"@.len() == 9);
    assert("type"@[1] == 'y' && "text"@[1] == 'e');
    assert("type"@[0] == 't' && "name"@[0] == 'n');
    assert("type"@[0] == 't' && "role"@[0] == 'r');
    assert("text"@[0] == 't' && "name"@[0] == 'n');
    assert("text"@[0] == 't' && "role"@[0] == 'r');
    assert("image_url"@[0] == 'i' && "arguments"@[0] == 'a');
    assert("image_url"@[0] == 'i' && "file_data"@[0] == 'f');
    assert("call_id"@[1] == 'a' && "content"@[1] == 'o');
    assert("name"@[0] == 'n' && "role"@[0] == 'r');
    assert("arguments"@[0] == 'a' && "file_data"@[0] == 'f');
    assert("filename"@[4] == 'n' && "file_url"@[4] == '_');
}

proof fn lemma_seen_push(items: Seq<JsonV>, item: JsonV)
    ensures
        seen_in_items(items.push(item)) == seen_in_items(items) + seen_in_item(item),
{
    assert(items.push(item).drop_last() =~= items);
}

proof fn lemma_parts_push(parts: Seq<JsonV>, part: JsonV)
    ensures
        seen_in_parts(parts.push(part)) == seen_in_parts(parts) + seen_in_part(part),
{
    assert(parts.push(part).drop_last() =~= parts);
}

/// What a reader sees of a turn so far.
pub open spec fn seen_in_turn(acc: TurnV) -> Seq<ItemSeen> {
    seen_in_items(acc.items) + seen_in_parts(acc.content)
}

proof fn lemma_flushed_seen(acc: TurnV, role: Seq<char>)
    ensures
        seen_in_turn(flushed_turn(acc, role)) == seen_in_turn(acc),
        flushed_turn(acc, role).content.len() == 0,
{
    lemma_item_types();
    lemma_item_keys();
    if acc.content.len() > 0 {
        let item = content_item(role, acc.content);
        lemma_seen_push(acc.items, item);
        assert(item.str_at("type"@) is None);
        assert(item.items_at("content"@) == acc.content);
        assert(seen_in_turn(flushed_turn(acc, role)) =~= seen_in_turn(acc));
    } else {
        assert(flushed_turn(acc, role) == acc);
    }
}

proof fn lemma_item_seen(acc: TurnV, role: Seq<char>, item: JsonV)
    ensures
        seen_in_turn(with_item(acc, role, item)) == seen_in_turn(acc) + seen_in_item(item),
{
    let f = flushed_turn(acc, role);
    lemma_flushed_seen(acc, role);
    lemma_seen_push(f.items, item);
    assert(seen_in_parts(f.content) =~= Seq::empty());
    assert(seen_in_turn(with_item(acc, role, item)) =~= seen_in_turn(acc) + seen_in_item(item));
}

proof fn lemma_content_seen(acc: TurnV, part: JsonV)
    ensures
        seen_in_turn(with_content(acc, Some(part))) == seen_in_turn(acc) + seen_in_part(part),
{
    lemma_parts_push(acc.content, part);
    assert(seen_in_turn(with_content(acc, Some(part))) =~= seen_in_turn(acc) + seen_in_part(part));
}

proof fn lemma_turn_block_seen(acc: TurnV, role: Seq<char>, block: JsonV)
    ensures
        seen_in_turn(add_turn_block(acc, role, block)) == seen_in_turn(acc) + seen_in_block(block),
{
    lemma_item_types();
    lemma_item_keys();
    let before = seen_in_turn(acc);
    assert(before + Seq::<ItemSeen>::empty() =~= before);
    let kind = block.str_or("type"@, Seq::empty());
    reveal_strlit("text");
    reveal_strlit("image");
    reveal_strlit("tool_use");
    reveal_strlit("tool_result");
    if block.str_at("type"@) is Some {
        assert(block.str_at("type"@) == Some(kind));
    }
    if kind == "text"@ {
        if let Some(t) = block.str_at("text"@) {
            let part = typed_text(text_kind(role), t);
            lemma_content_seen(acc, part);
            assert(part.str_at("type"@) == Some(text_kind(role)));
            assert(seen_in_part(part) == seq![ItemSeen::Words(t)]);
        }
    } else if kind == "image"@ {
        if let Some(part) = responses_image(block) {
            lemma_content_seen(acc, part);
            assert(part.str_at("type"@) == Some("input_image"@));
            assert(seen_in_part(part) == seen_in_block(block));
        } else {
            reveal_strlit("url");
            reveal_strlit("base64");
            assert("url"@.len() == 3 && "base64"@.len() == 6);
            if block.get("source"@) is None {
                assert(block.at("source"@) == JsonV::Null);
                assert(block.at("source"@).str_at("type"@) is None);
            }
            assert(seen_in_block(block) =~= Seq::empty());
        }
    } else if kind == "document"@ {
        if let Some(part) = responses_file(block) {
            lemma_content_seen(acc, part);
            assert(part.str_at("type"@) == Some("input_file"@));
            assert(seen_in_part(part) =~= Seq::empty());
        }
    } else if kind == "tool_use"@ {
        let item = add_turn_block(acc, role, block).items.last();
        lemma_item_seen(acc, role, item);
    } else if kind == "tool_result"@ {
        let item = add_turn_block(acc, role, block).items.last();
        lemma_item_seen(acc, role, item);
    } else if kind == "thinking"@ || kind == "redacted_thinking"@ {
        if let Some(item) = block_reasoning_item(block) {
            lemma_item_seen(acc, role, item);
            assert(item.str_at("type"@) == Some("reasoning"@));
        }
    }
}

proof fn lemma_turn_seen(blocks: Seq<JsonV>, role: Seq<char>)
    ensures
        seen_in_turn(turn_of_blocks(blocks, role)) == seen_in_blocks(blocks),
    decreases blocks.len(),
{
    if blocks.len() == 0 {
        assert(seen_in_turn(turn_of_blocks(blocks, role)) =~= seen_in_blocks(blocks));
    } else {
        lemma_turn_seen(blocks.drop_last(), role);
        lemma_turn_block_seen(turn_of_blocks(blocks.drop_last(), role), role, blocks.last());
    }
}

proof fn lemma_orphans_seen(items: Seq<JsonV>, followed: bool)
    ensures
        seen_in_items(without_orphans(items, followed)) == seen_in_items(items),
    decreases items.len(),
{
    lemma_item_types();
    if items.len() > 0 {
        let front = items.drop_last();
        let last = items.last();
        lemma_orphans_seen(front, followed);
        lemma_orphans_seen(front, followed || is_generated(last));
        lemma_seen_push(without_orphans(front, followed), last);
        lemma_seen_push(without_orphans(front, followed || is_generated(last)), last);
        if is_reasoning(last) {
            assert(seen_in_item(last) =~= Seq::empty());
            assert(seen_in_items(front) + Seq::<ItemSeen>::empty() =~= seen_in_items(front));
        }
    }
}

proof fn lemma_input(ms: Seq<JsonV>)
    ensures
        input_items(ms) == responses_input(ms),
{
    lemma_setting_keys();
    assert(with_messages(ms).array_at("messages"@) == Some(ms));
}

proof fn lemma_input_add(a: Seq<JsonV>, b: Seq<JsonV>)
    ensures
        responses_input(a + b) == responses_input(a) + responses_input(b),
    decreases b.len(),
{
    if b.len() == 0 {
        assert(a + b =~= a);
        assert(responses_input(a) + responses_input(b) =~= responses_input(a));
    } else {
        lemma_input_add(a, b.drop_last());
        assert((a + b).drop_last() =~= a + b.drop_last());
        assert(responses_input(a + b) =~= responses_input(a) + responses_input(b));
    }
}

/// What Anthropic messages one after the other come to in a Responses request is what
/// they come to by themselves, one after the other: the earlier come earlier.
pub proof fn law_responses_request_keeps_the_order(a: Seq<JsonV>, b: Seq<JsonV>)
    ensures
        input_items(a + b) == input_items(a) + input_items(b),
{
    lemma_input(a);
    lemma_input(b);
    lemma_input(a + b);
    lemma_input_add(a, b);
}

proof fn lemma_one_message(m: JsonV)
    ensures
        input_items(seq![m]) == items_of_message(m),
{
    lemma_input(seq![m]);
    reveal_with_fuel(responses_input, 2);
    assert(seq![m].drop_last() =~= Seq::empty());
    assert(Seq::<JsonV>::empty() + items_of_message(m) =~= items_of_message(m));
}

/// The texts, the images, the calls and the results of calls in an Anthropic message
/// stand in the Responses request in their order; only reasoning may be left out.
pub proof fn law_block_message_is_kept_for_responses(role: Seq<char>, blocks: Seq<JsonV>)
    ensures
        seen_in_items(input_items(seq![block_message(role, blocks)])) == seen_in_blocks(blocks),
{
    lemma_item_keys();
    let m = block_message(role, blocks);
    lemma_one_message(m);
    assert(m.str_or("role"@, "user"@) == role);
    let turn = turn_of_blocks(blocks, role);
    lemma_turn_seen(blocks, role);
    lemma_flushed_seen(turn, role);
    let items = flushed_turn(turn, role).items;
    assert(seen_in_parts(flushed_turn(turn, role).content) =~= Seq::empty());
    assert(seen_in_items(items) =~= seen_in_blocks(blocks));
    lemma_orphans_seen(items, false);
}

/// A message with a text comes to one item with the same role and the same text, which
/// is output of an assistant and input of any other.
pub proof fn law_text_message_is_kept_for_responses(role: Seq<char>, t: Seq<char>)
    ensures
        input_items(seq![text_message(role, t)]) == seq![
            JsonV::Object(
                map![
                    "role"@ => JsonV::Text(role),
                    "content"@ => JsonV::Array(
                        seq![
                            JsonV::Object(
                                map![
                                    "type"@ => JsonV::Text(
                                        if role == "assistant"@ {
                                            "output_text"@
                                        } else {
                                            "input_text"@
                                        },
                                    ),
                                    "text"@ => JsonV::Text(t),
                                ],
                            ),
                        ],
                    ),
                ],
            ),
        ],
{
    lemma_item_keys();
    lemma_item_types();
    let m = text_message(role, t);
    lemma_one_message(m);
    assert(m.str_or("role"@, "user"@) == role);
    let item = content_item(role, seq![typed_text(text_kind(role), t)]);
    assert(items_of_content(role, m.get("content"@)) =~= seq![item]);
    if role == "assistant"@ {
        reveal_with_fuel(without_orphans, 2);
        assert(seq![item].drop_last() =~= Seq::empty());
        assert(!is_reasoning(item));
        assert(Seq::<JsonV>::empty().push(item) =~= seq![item]);
    }
}

/// The result of a call that did not fail and is a plain text is handed on as that text.
/// One that failed is marked before all else.
pub proof fn law_outcome_is_kept_for_responses(block: JsonV, t: Seq<char>)
    requires
        block.str_at("content"@) == Some(t),
        is_plain_text(t),
    ensures
        block.get("is_error"@) is None ==> responses_output(block) == JsonV::Text(t),
        block.get("is_error"@) == Some(JsonV::Bool(true)) ==> responses_output(block) == JsonV::Array(
            seq![
                JsonV::Object(
                    map![
                        "type"@ => JsonV::Text("input_text"@),
                        "text"@ => JsonV::Text("[cc-switch:tool-result-error]"@),
                    ],
                ),
                JsonV::Object(map!["type"@ => JsonV::Text("input_text"@), "text"@ => JsonV::Text(t)]),
            ],
        ),
{
    assert(block.get("content"@) == Some(JsonV::Text(t)));
    assert(string_image(t) is None);
    assert(output_with_images(JsonV::Text(t)) is None);
    if block.get("is_error"@) == Some(JsonV::Bool(true)) {
        let out = output_of_content(Some(JsonV::Text(t)));
        assert(seq![input_text("[cc-switch:tool-result-error]"@)] + out =~= seq![
            input_text("[cc-switch:tool-result-error]"@),
            input_text(t),
        ]);
    }
}

} // verus!
