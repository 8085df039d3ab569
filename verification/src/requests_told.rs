//! What a Chat or a Responses request asks and what the Anthropic request that comes of
//! it asks are the same: its messages in their order, its prompt, its tools and its
//! settings.

use vstd::prelude::*;
use crate::convert::is_system;
use crate::convert_response::text_blocks;
use crate::convert_reverse::{anthropic_request, anthropic_turn_of, anthropic_turns, chat_content_blocks, chat_part_blocks, chat_parts_blocks, linked_url, past_call_block, past_call_blocks, url_image};
use crate::json::JsonV;
use crate::json_text::json_parse;
use crate::message_told::Seen;
use crate::responses_reverse::{message_of_item, messages_of_input, request_of_responses};
use crate::text::has_prefix;

verus! {

/// The number of messages that are no system messages.
pub open spec fn count_turns(ms: Seq<JsonV>) -> nat
    decreases ms.len(),
{
    if ms.len() == 0 {
        0
    } else {
        count_turns(ms.drop_last()) + if ms.last().str_at("role"@) == Some("system"@) {
            0nat
        } else {
            1nat
        }
    }
}

/// A request with one message.
pub open spec fn only_message(m: JsonV) -> JsonV {
    JsonV::Object(map!["messages"@ => JsonV::Array(seq![m])])
}

/// The messages of a request.
pub open spec fn request_messages(body: JsonV) -> Seq<JsonV> {
    body.items_at("messages"@)
}

/// The keys of an Anthropic request are all different.
pub proof fn lemma_request_keys()
    ensures
        "model"@ != "system"@,
        "model"@ != "messages"@,
        "model"@ != "max_tokens"@,
        "model"@ != "temperature"@,
        "model"@ != "top_p"@,
        "model"@ != "thinking"@,
        "model"@ != "stop_sequences"@,
        "model"@ != "tools"@,
        "model"@ != "tool_choice"@,
        "model"@ != "stream"@,
        "system"@ != "messages"@,
        "system"@ != "max_tokens"@,
        "system"@ != "temperature"@,
        "system"@ != "top_p"@,
        "system"@ != "thinking"@,
        "system"@ != "stop_sequences"@,
        "system"@ != "tools"@,
        "system"@ != "tool_choice"@,
        "system"@ != "stream"@,
        "messages"@ != "max_tokens"@,
        "messages"@ != "temperature"@,
        "messages"@ != "top_p"@,
        "messages"@ != "thinking"@,
        "messages"@ != "stop_sequences"@,
        "messages"@ != "tools"@,
        "messages"@ != "tool_choice"@,
        "messages"@ != "stream"@,
        "max_tokens"@ != "temperature"@,
        "max_tokens"@ != "top_p"@,
        "max_tokens"@ != "thinking"@,
        "max_tokens"@ != "stop_sequences"@,
        "max_tokens"@ != "tools"@,
        "max_tokens"@ != "tool_choice"@,
        "max_tokens"@ != "stream"@,
        "temperature"@ != "top_p"@,
        "temperature"@ != "thinking"@,
        "temperature"@ != "stop_sequences"@,
        "temperature"@ != "tools"@,
        "temperature"@ != "tool_choice"@,
        "temperature"@ != "stream"@,
        "top_p"@ != "thinking"@,
        "top_p"@ != "stop_sequences"@,
        "top_p"@ != "tools"@,
        "top_p"@ != "tool_choice"@,
        "top_p"@ != "stream"@,
        "thinking"@ != "stop_sequences"@,
        "thinking"@ != "tools"@,
        "thinking"@ != "tool_choice"@,
        "thinking"@ != "stream"@,
        "stop_sequences"@ != "tools"@,
        "stop_sequences"@ != "tool_choice"@,
        "stop_sequences"@ != "stream"@,
        "tools"@ != "tool_choice"@,
        "tools"@ != "stream"@,
        "tool_choice"@ != "stream"@,
{
    reveal_strlit("model");
    reveal_strlit("system");
    reveal_strlit("messages");
    reveal_strlit("max_tokens");
    reveal_strlit("temperature");
    reveal_strlit("top_p");
    reveal_strlit("thinking");
    reveal_strlit("stop_sequences");
    reveal_strlit("tools");
    reveal_strlit("tool_choice");
    reveal_strlit("stream");
    assert("model"@.len() == 5 && "system"@.len() == 6 && "messages"@.len() == 8 && "max_tokens"@.len() == 10 && "temperature"@.len() == 11 && "top_p"@.len() == 5 && "thinking"@.len() == 8 && "stop_sequences"@.len() == 14 && "tools"@.len() == 5 && "tool_choice"@.len() == 11 && "stream"@.len() == 6);
    assert("model"@[0] == 'm' && "top_p"@[0] == 't');
    assert("model"@[0] == 'm' && "tools"@[0] == 't');
    assert("system"@[1] == 'y' && "stream"@[1] == 't');
    assert("messages"@[0] == 'm' && "thinking"@[0] == 't');
    assert("temperature"@[1] == 'e' && "tool_choice"@[1] == 'o');
    assert("top_p"@[2] == 'p' && "tools"@[2] == 'o');
}

proof fn lemma_turns_in_order(ms: Seq<JsonV>, i: int)
    ensures
        anthropic_turns(ms).len() == count_turns(ms),
        0 <= i < ms.len() && !is_system(ms[i]) ==> count_turns(ms.take(i)) < count_turns(ms) && anthropic_turns(
            ms,
        )[count_turns(ms.take(i)) as int] == anthropic_turn_of(ms[i]),
    decreases ms.len(),
{
    if ms.len() > 0 {
        let front = ms.drop_last();
        lemma_turns_in_order(front, i);
        if 0 <= i < ms.len() {
            if i < front.len() {
                assert(front.take(i) =~= ms.take(i));
                assert(front[i] == ms[i]);
            } else {
                assert(ms.take(i) =~= front);
            }
        }
    }
}

proof fn lemma_request_turns(body: JsonV)
    ensures
        request_messages(anthropic_request(body)) == anthropic_turns(request_messages(body)),
{
    lemma_request_keys();
    let turns = anthropic_turns(request_messages(body));
    if turns.len() == 0 {
        assert(turns =~= Seq::empty());
    }
}

/// Of the messages of a Chat request that are no system messages, each comes to the
/// message that it comes to alone, at its place among them: the earlier comes earlier.
/// Where none is a system message, the `i`th comes to the `i`th.
pub proof fn law_turns_keep_their_order(body: JsonV, i: int)
    requires
        0 <= i < request_messages(body).len(),
        request_messages(body)[i].str_at("role"@) != Some("system"@),
    ensures
        ({
            let ms = request_messages(body);
            let turns = request_messages(anthropic_request(body));
            let k = count_turns(ms.take(i));
            &&& turns.len() == count_turns(ms)
            &&& k < turns.len()
            &&& request_messages(anthropic_request(only_message(ms[i]))) == seq![turns[k as int]]
            &&& (forall|j: int| 0 <= j < ms.len() ==> (#[trigger] ms[j]).str_at("role"@) != Some("system"@)) ==> k == i
                && turns.len() == ms.len()
            &&& forall|j: int|
                0 <= j < i && (#[trigger] ms[j]).str_at("role"@) != Some("system"@) ==> count_turns(ms.take(j)) < k
        }),
{
    let ms = request_messages(body);
    lemma_request_turns(body);
    lemma_turns_in_order(ms, i);
    let one = only_message(ms[i]);
    assert(request_messages(one) =~= seq![ms[i]]);
    lemma_request_turns(one);
    reveal_with_fuel(anthropic_turns, 2);
    assert(seq![ms[i]].drop_last() =~= Seq::empty());
    assert(Seq::<JsonV>::empty().push(anthropic_turn_of(ms[i])) =~= seq![anthropic_turn_of(ms[i])]);
    if forall|j: int| 0 <= j < ms.len() ==> (#[trigger] ms[j]).str_at("role"@) != Some("system"@) {
        lemma_all_turns(ms);
        assert forall|j: int| 0 <= j < ms.take(i).len() implies (#[trigger] ms.take(i)[j]).str_at("role"@) != Some(
            "system"@,
        ) by {
            assert(ms.take(i)[j] == ms[j]);
        }
        lemma_all_turns(ms.take(i));
    }
    assert forall|j: int| 0 <= j < i && (#[trigger] ms[j]).str_at("role"@) != Some("system"@) implies count_turns(
        ms.take(j),
    ) < count_turns(ms.take(i)) by {
        let t = ms.take(i);
        assert(t[j] == ms[j]);
        assert(t.take(j) =~= ms.take(j));
        lemma_turns_in_order(t, j);
    }
}

proof fn lemma_all_turns(ms: Seq<JsonV>)
    requires
        forall|j: int| 0 <= j < ms.len() ==> (#[trigger] ms[j]).str_at("role"@) != Some("system"@),
    ensures
        count_turns(ms) == ms.len(),
    decreases ms.len(),
{
    if ms.len() > 0 {
        let front = ms.drop_last();
        assert(ms[ms.len() - 1].str_at("role"@) != Some("system"@));
        assert forall|j: int| 0 <= j < front.len() implies (#[trigger] front[j]).str_at("role"@) != Some("system"@) by {
            assert(front[j] == ms[j]);
        }
        lemma_all_turns(front);
    }
}

/// The number of items that are messages or outputs of calls.
pub open spec fn count_items(items: Seq<JsonV>) -> nat
    decreases items.len(),
{
    if items.len() == 0 {
        0
    } else {
        count_items(items.drop_last()) + if is_turn_item(items.last()) {
            1nat
        } else {
            0nat
        }
    }
}

/// Whether an item of a Responses request is a message or the output of a call.
pub open spec fn is_turn_item(item: JsonV) -> bool {
    item.str_at("type"@) == Some("message"@) || item.str_at("type"@) == Some("function_call_output"@)
}

/// A Responses request with one item.
pub open spec fn only_item(item: JsonV) -> JsonV {
    JsonV::Object(map!["input"@ => JsonV::Array(seq![item])])
}

proof fn lemma_items_in_order(items: Seq<JsonV>, i: int)
    ensures
        messages_of_input(items).len() == count_items(items),
        0 <= i < items.len() && is_turn_item(items[i]) ==> count_items(items.take(i)) < count_items(items)
            && Some(messages_of_input(items)[count_items(items.take(i)) as int]) == message_of_item(items[i]),
    decreases items.len(),
{
    if items.len() > 0 {
        let front = items.drop_last();
        lemma_items_in_order(front, i);
        if 0 <= i < items.len() {
            if i < front.len() {
                assert(front.take(i) =~= items.take(i));
                assert(front[i] == items[i]);
            } else {
                assert(items.take(i) =~= front);
            }
        }
    }
}

pub proof fn lemma_request_items(body: JsonV)
    ensures
        request_messages(request_of_responses(body)) == messages_of_input(body.items_at("input"@)),
{
    lemma_request_keys();
    let turns = messages_of_input(body.items_at("input"@));
    if turns.len() == 0 {
        assert(turns =~= Seq::empty());
    }
}

/// Of the items of a Responses request that are messages or outputs of calls, each
/// comes to the message that it comes to alone, at its place among them: the earlier
/// comes earlier.
pub proof fn law_items_keep_their_order(body: JsonV, i: int)
    requires
        0 <= i < body.items_at("input"@).len(),
        is_turn_item(body.items_at("input"@)[i]),
    ensures
        ({
            let items = body.items_at("input"@);
            let turns = request_messages(request_of_responses(body));
            let k = count_items(items.take(i));
            &&& turns.len() == count_items(items)
            &&& k < turns.len()
            &&& request_messages(request_of_responses(only_item(items[i]))) == seq![turns[k as int]]
            &&& forall|j: int| 0 <= j < i && is_turn_item(#[trigger] items[j]) ==> count_items(items.take(j)) < k
        }),
{
    let items = body.items_at("input"@);
    lemma_request_items(body);
    lemma_items_in_order(items, i);
    let one = only_item(items[i]);
    assert(one.items_at("input"@) =~= seq![items[i]]);
    lemma_request_items(one);
    reveal_with_fuel(messages_of_input, 2);
    assert(seq![items[i]].drop_last() =~= Seq::empty());
    let m = message_of_item(items[i])->0;
    assert(Seq::<JsonV>::empty().push(m) =~= seq![m]);
    assert forall|j: int| 0 <= j < i && is_turn_item(#[trigger] items[j]) implies count_items(items.take(j))
        < count_items(items.take(i)) by {
        let t = items.take(i);
        assert(t[j] == items[j]);
        assert(t.take(j) =~= items.take(j));
        lemma_items_in_order(t, j);
    }
}

/// What a reader sees of a block of an Anthropic message.
pub open spec fn block_seen(block: JsonV) -> Seen {
    if block.str_at("type"@) == Some("text"@) && block.str_at("text"@) is Some {
        Seen::Words(block.str_at("text"@)->0)
    } else if block.str_at("type"@) == Some("image"@) && block.at("source"@).str_at("type"@) == Some("url"@)
        && block.at("source"@).str_at("url"@) is Some {
        Seen::Picture(block.at("source"@).str_at("url"@)->0)
    } else {
        Seen::Other
    }
}

/// The texts and images at a web address among the parts of the content of a Chat
/// message, in order; a part without text says nothing.
pub open spec fn chat_pieces(parts: Seq<JsonV>) -> Seq<Seen>
    decreases parts.len(),
{
    if parts.len() == 0 {
        Seq::empty()
    } else {
        let p = parts.last();
        let front = chat_pieces(parts.drop_last());
        if p.str_at("type"@) == Some("text"@) || p.str_at("type"@) == Some("input_text"@) {
            if p.str_or("text"@, Seq::empty()).len() > 0 {
                front.push(Seen::Words(p.str_or("text"@, Seq::empty())))
            } else {
                front
            }
        } else {
            front.push(Seen::Picture(p.at("image_url"@).str_or("url"@, Seq::empty())))
        }
    }
}

/// Whether a part of the content of a Chat message is a text or an image at a web
/// address.
pub open spec fn is_plain_part(p: JsonV) -> bool {
    ||| p.str_at("type"@) == Some("text"@)
    ||| p.str_at("type"@) == Some("input_text"@)
    ||| p.str_at("type"@) == Some("image_url"@) && !has_prefix(p.at("image_url"@).str_or("url"@, Seq::empty()), "data:"@)
}

/// The types of parts are all different.
pub proof fn lemma_part_types()
    ensures
        "text"@ != "input_text"@,
        "text"@ != "image_url"@,
        "text"@ != "input_image"@,
        "text"@ != "tool_call"@,
        "text"@ != "image"@,
        "text"@ != "url"@,
        "text"@ != "tool_use"@,
        "text"@ != "tool_result"@,
        "text"@ != "output_text"@,
        "text"@ != "function_call"@,
        "input_text"@ != "image_url"@,
        "input_text"@ != "input_image"@,
        "input_text"@ != "tool_call"@,
        "input_text"@ != "image"@,
        "input_text"@ != "url"@,
        "input_text"@ != "tool_use"@,
        "input_text"@ != "tool_result"@,
        "input_text"@ != "output_text"@,
        "input_text"@ != "function_call"@,
        "image_url"@ != "input_image"@,
        "image_url"@ != "tool_call"@,
        "image_url"@ != "image"@,
        "image_url"@ != "url"@,
        "image_url"@ != "tool_use"@,
        "image_url"@ != "tool_result"@,
        "image_url"@ != "output_text"@,
        "image_url"@ != "function_call"@,
        "input_image"@ != "tool_call"@,
        "input_image"@ != "image"@,
        "input_image"@ != "url"@,
        "input_image"@ != "tool_use"@,
        "input_image"@ != "tool_result"@,
        "input_image"@ != "output_text"@,
        "input_image"@ != "function_call"@,
        "tool_call"@ != "image"@,
        "tool_call"@ != "url"@,
        "tool_call"@ != "tool_use"@,
        "tool_call"@ != "tool_result"@,
        "tool_call"@ != "output_text"@,
        "tool_call"@ != "function_call"@,
        "image"@ != "url"@,
        "image"@ != "tool_use"@,
        "image"@ != "tool_result"@,
        "image"@ != "output_text"@,
        "image"@ != "function_call"@,
        "url"@ != "tool_use"@,
        "url"@ != "tool_result"@,
        "url"@ != "output_text"@,
        "url"@ != "function_call"@,
        "tool_use"@ != "tool_result"@,
        "tool_use"@ != "output_text"@,
        "tool_use"@ != "function_call"@,
        "tool_result"@ != "output_text"@,
        "tool_result"@ != "function_call"@,
        "output_text"@ != "function_call"@,
{
    reveal_strlit("text");
    reveal_strlit("input_text");
    reveal_strlit("image_url");
    reveal_strlit("input_image");
    reveal_strlit("tool_call");
    reveal_strlit("image");
    reveal_strlit("url");
    reveal_strlit("tool_use");
    reveal_strlit("tool_result");
    reveal_strlit("output_text");
    reveal_strlit("function_call");
    assert("text"@.len() == 4 && "input_text"@.len() == 10 && "image_url"@.len() == 9 && "input_image"@.len() == 11 && "tool_call"@.len() == 9 && "image"@.len() == 5 && "url"@.len() == 3 && "tool_use"@.len() == 8 && "tool_result"@.len() == 11 && "output_text"@.len() == 11 && "function_call"@.len() == 13);
    assert("image_url"@[0] == 'i' && "tool_call"@[0] == 't');
    assert("input_image"@[0] == 'i' && "tool_result"@[0] == 't');
    assert("input_image"@[0] == 'i' && "output_text"@[0] == 'o');
    assert("tool_result"@[0] == 't' && "output_text"@[0] == 'o');
}
/// The keys of parts are all different.
proof fn lemma_part_keys()
    ensures
        "type"@ != "text"@,
        "type"@ != "source"@,
        "type"@ != "url"@,
        "type"@ != "image_url"@,
        "type"@ != "role"@,
        "type"@ != "content"@,
        "type"@ != "id"@,
        "type"@ != "name"@,
        "type"@ != "input"@,
        "type"@ != "tool_use_id"@,
        "text"@ != "source"@,
        "text"@ != "url"@,
        "text"@ != "image_url"@,
        "text"@ != "role"@,
        "text"@ != "content"@,
        "text"@ != "id"@,
        "text"@ != "name"@,
        "text"@ != "input"@,
        "text"@ != "tool_use_id"@,
        "source"@ != "url"@,
        "source"@ != "image_url"@,
        "source"@ != "role"@,
        "source"@ != "content"@,
        "source"@ != "id"@,
        "source"@ != "name"@,
        "source"@ != "input"@,
        "source"@ != "tool_use_id"@,
        "url"@ != "image_url"@,
        "url"@ != "role"@,
        "url"@ != "content"@,
        "url"@ != "id"@,
        "url"@ != "name"@,
        "url"@ != "input"@,
        "url"@ != "tool_use_id"@,
        "image_url"@ != "role"@,
        "image_url"@ != "content"@,
        "image_url"@ != "id"@,
        "image_url"@ != "name"@,
        "image_url"@ != "input"@,
        "image_url"@ != "tool_use_id"@,
        "role"@ != "content"@,
        "role"@ != "id"@,
        "role"@ != "name"@,
        "role"@ != "input"@,
        "role"@ != "tool_use_id"@,
        "content"@ != "id"@,
        "content"@ != "name"@,
        "content"@ != "input"@,
        "content"@ != "tool_use_id"@,
        "id"@ != "name"@,
        "id"@ != "input"@,
        "id"@ != "tool_use_id"@,
        "name"@ != "input"@,
        "name"@ != "tool_use_id"@,
        "input"@ != "tool_use_id"@,
{
    reveal_strlit("type");
    reveal_strlit("text");
    reveal_strlit("source");
    reveal_strlit("url");
    reveal_strlit("image_url");
    reveal_strlit("role");
    reveal_strlit("content");
    reveal_strlit("id");
    reveal_strlit("name");
    reveal_strlit("input");
    reveal_strlit("tool_use_id");
    assert("type"@.len() == 4 && "text"@.len() == 4 && "source"@.len() == 6 && "url"@.len() == 3 && "image_url"@.len() == 9 && "role"@.len() == 4 && "content"@.len() == 7 && "id"@.len() == 2 && "name"@.len() == 4 && "input"@.len() == 5 && "tool_use_id"@.len() == 11);
    assert("type"@[1] == 'y' && "text"@[1] == 'e');
    assert("type"@[0] == 't' && "role"@[0] == 'r');
    assert("type"@[0] == 't' && "name"@[0] == 'n');
    assert("text"@[0] == 't' && "role"@[0] == 'r');
    assert("text"@[0] == 't' && "name"@[0] == 'n');
    assert("role"@[0] == 'r' && "name"@[0] == 'n');
}

proof fn lemma_text_blocks(t: Seq<char>)
    ensures
        t.len() > 0 ==> text_blocks(Some(t)) == seq![
            JsonV::Object(map!["type"@ => JsonV::Text("text"@), "text"@ => JsonV::Text(t)]),
        ],
        t.len() == 0 ==> text_blocks(Some(t)).len() == 0,
{
}

proof fn lemma_chat_parts_seen(parts: Seq<JsonV>)
    requires
        forall|i: int| 0 <= i < parts.len() ==> is_plain_part(#[trigger] parts[i]),
    ensures
        Seq::new(chat_parts_blocks(parts).len(), |i: int| block_seen(chat_parts_blocks(parts)[i])) == chat_pieces(parts),
    decreases parts.len(),
{
    lemma_part_types();
    lemma_part_keys();
    let all = chat_parts_blocks(parts);
    if parts.len() > 0 {
        let front = parts.drop_last();
        assert forall|i: int| 0 <= i < front.len() implies is_plain_part(#[trigger] front[i]) by {
            assert(front[i] == parts[i]);
        }
        lemma_chat_parts_seen(front);
        let p = parts.last();
        assert(is_plain_part(parts[parts.len() - 1]));
        let more = chat_part_blocks(p);
        let before = chat_parts_blocks(front);
        if p.str_at("type"@) == Some("image_url"@) {
            let url = linked_url(p);
            assert(url == p.at("image_url"@).str_or("url"@, Seq::empty()));
            assert(more == seq![url_image(url)]);
            assert(block_seen(more[0]) == Seen::Picture(url));
        } else {
            let t = p.str_or("text"@, Seq::empty());
            lemma_text_blocks(t);
            if t.len() > 0 {
                assert(block_seen(more[0]) == Seen::Words(t));
            }
        }
        assert(Seq::new(all.len(), |i: int| block_seen(all[i])) =~= Seq::new(
            before.len(),
            |i: int| block_seen(before[i]),
        ) + Seq::new(more.len(), |i: int| block_seen(more[i])));
        assert(Seq::new(all.len(), |i: int| block_seen(all[i])) =~= chat_pieces(parts));
    } else {
        assert(Seq::new(all.len(), |i: int| block_seen(all[i])) =~= chat_pieces(parts));
    }
}

/// What a reader sees of the blocks of an Anthropic message.
pub open spec fn turn_seen(turn: JsonV) -> Seq<Seen> {
    let blocks = turn.items_at("content"@);
    Seq::new(blocks.len(), |i: int| block_seen(blocks[i]))
}

/// The roles are all different.
pub proof fn lemma_roles()
    ensures
        "user"@ != "assistant"@,
        "user"@ != "developer"@,
        "user"@ != "tool"@,
        "user"@ != "system"@,
        "assistant"@ != "developer"@,
        "assistant"@ != "tool"@,
        "assistant"@ != "system"@,
        "developer"@ != "tool"@,
        "developer"@ != "system"@,
        "tool"@ != "system"@,
{
    reveal_strlit("user");
    reveal_strlit("assistant");
    reveal_strlit("developer");
    reveal_strlit("tool");
    reveal_strlit("system");
    assert("user"@.len() == 4 && "assistant"@.len() == 9 && "developer"@.len() == 9 && "tool"@.len() == 4 && "system"@.len() == 6);
    assert("user"@[0] == 'u' && "tool"@[0] == 't');
    assert("assistant"@[0] == 'a' && "developer"@[0] == 'd');
}

/// A user's text comes to a user's message with that text in one block; a list of texts
/// and of images at web addresses comes to their blocks, in order. A developer's message
/// comes to the same, and so does an assistant's that made no calls, as an assistant's.
pub proof fn law_chat_message_keeps_its_content(msg: JsonV, role: Seq<char>)
    requires
        role == "user"@ || role == "developer"@ || role == "assistant"@,
        msg.str_at("role"@) == Some(role),
        msg.items_at("tool_calls"@).len() == 0,
    ensures
        ({
            let turns = request_messages(anthropic_request(only_message(msg)));
            &&& turns.len() == 1
            &&& turns[0].str_at("role"@) == Some(
                if role == "assistant"@ {
                    "assistant"@
                } else {
                    "user"@
                },
            )
            &&& msg.str_at("content"@) is Some ==> turns[0].items_at("content"@) == seq![
                JsonV::Object(
                    map!["type"@ => JsonV::Text("text"@), "text"@ => JsonV::Text(msg.str_at("content"@)->0)],
                ),
            ]
            &&& msg.array_at("content"@) is Some && (forall|i: int|
                0 <= i < msg.items_at("content"@).len() ==> is_plain_part(#[trigger] msg.items_at("content"@)[i]))
                && chat_pieces(msg.items_at("content"@)).len() > 0 ==> turn_seen(turns[0]) == chat_pieces(
                msg.items_at("content"@),
            )
        }),
{
    lemma_roles();
    lemma_part_keys();
    lemma_one_turn(msg);
    let turn = anthropic_turn_of(msg);
    assert(past_call_blocks(msg.items_at("tool_calls"@)) =~= Seq::empty());
    let blocks = chat_content_blocks(msg.get("content"@));
    assert(blocks + Seq::<JsonV>::empty() =~= blocks);
    if let Some(t) = msg.str_at("content"@) {
        lemma_text_blocks(t);
        assert(msg.get("content"@) == Some(JsonV::Text(t)));
        if t.len() == 0 {
            assert(t =~= Seq::empty());
        }
    } else if let Some(parts) = msg.array_at("content"@) {
        assert(msg.get("content"@) == Some(JsonV::Array(parts)));
        if forall|i: int| 0 <= i < parts.len() ==> is_plain_part(#[trigger] parts[i]) {
            lemma_chat_parts_seen(parts);
            if chat_pieces(parts).len() > 0 {
                assert(turn.items_at("content"@) == blocks);
            }
        }
    }
}

proof fn lemma_one_turn(msg: JsonV)
    requires
        msg.str_at("role"@) != Some("system"@),
    ensures
        request_messages(anthropic_request(only_message(msg))) == seq![anthropic_turn_of(msg)],
{
    let one = only_message(msg);
    assert(request_messages(one) =~= seq![msg]);
    lemma_request_turns(one);
    reveal_with_fuel(anthropic_turns, 2);
    assert(seq![msg].drop_last() =~= Seq::empty());
    assert(Seq::<JsonV>::empty().push(anthropic_turn_of(msg)) =~= seq![anthropic_turn_of(msg)]);
}

pub proof fn lemma_past_calls(calls: Seq<JsonV>, i: int)
    ensures
        past_call_blocks(calls).len() == calls.len(),
        0 <= i < calls.len() ==> past_call_blocks(calls)[i] == past_call_block(calls[i]),
    decreases calls.len(),
{
    if calls.len() > 0 {
        lemma_past_calls(calls.drop_last(), i);
    }
}

/// The calls that an assistant made stand at the end of its message, in order, each
/// with its id, its name and its arguments.
pub proof fn law_assistant_keeps_its_calls(msg: JsonV, i: int)
    requires
        msg.str_at("role"@) == Some("assistant"@),
        0 <= i < msg.items_at("tool_calls"@).len(),
    ensures
        ({
            let calls = msg.items_at("tool_calls"@);
            let blocks = request_messages(anthropic_request(only_message(msg)))[0].items_at("content"@);
            let block = blocks[blocks.len() - calls.len() + i];
            let function = calls[i].at("function"@);
            &&& request_messages(anthropic_request(only_message(msg)))[0].str_at("role"@) == Some("assistant"@)
            &&& blocks.len() >= calls.len()
            &&& block.str_at("type"@) == Some("tool_use"@)
            &&& block.str_at("id"@) == Some(calls[i].str_or("id"@, Seq::empty()))
            &&& block.str_at("name"@) == Some(function.str_or("name"@, Seq::empty()))
            &&& block.get("input"@) == Some(
                match json_parse(function.str_or("arguments"@, "{}"@)) {
                    Ok(v) => v,
                    Err(_) => JsonV::Object(Map::empty()),
                },
            )
            &&& msg.str_at("content"@) is Some && msg.str_at("content"@)->0.len() > 0 ==> blocks.len() == calls.len() + 1
                && blocks[0] == JsonV::Object(
                map!["type"@ => JsonV::Text("text"@), "text"@ => JsonV::Text(msg.str_at("content"@)->0)],
            )
            &&& msg.get("content"@) is None || msg.get("content"@) == Some(JsonV::Null) ==> blocks.len() == calls.len()
        }),
{
    lemma_roles();
    lemma_part_keys();
    lemma_one_turn(msg);
    let calls = msg.items_at("tool_calls"@);
    lemma_past_calls(calls, i);
    let head = chat_content_blocks(msg.get("content"@));
    let all = head + past_call_blocks(calls);
    let turn = anthropic_turn_of(msg);
    assert(turn.items_at("content"@) == all);
    assert(all[all.len() - calls.len() + i] == past_call_block(calls[i]));
    if let Some(t) = msg.str_at("content"@) {
        lemma_text_blocks(t);
        assert(msg.get("content"@) == Some(JsonV::Text(t)));
    }
}

/// The result of a tool comes to a user's message with that result, under the id of its
/// call.
pub proof fn law_tool_message_keeps_its_result(msg: JsonV)
    requires
        msg.str_at("role"@) == Some("tool"@),
    ensures
        request_messages(anthropic_request(only_message(msg))) == seq![
            JsonV::Object(
                map![
                    "role"@ => JsonV::Text("user"@),
                    "content"@ => JsonV::Array(
                        seq![
                            JsonV::Object(
                                map![
                                    "type"@ => JsonV::Text("tool_result"@),
                                    "tool_use_id"@ => JsonV::Text(msg.str_or("tool_call_id"@, Seq::empty())),
                                    "content"@ => if msg.str_at("content"@) is Some || msg.array_at("content"@) is Some {
                                        msg.at("content"@)
                                    } else {
                                        JsonV::Text(Seq::empty())
                                    },
                                ],
                            ),
                        ],
                    ),
                ],
            ),
        ],
{
    lemma_roles();
    lemma_one_turn(msg);
}

} // verus!
