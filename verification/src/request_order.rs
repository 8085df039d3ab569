//! The messages of a request keep their order and what they hold when it is converted
//! for a Chat or a Responses upstream, and so does its prompt.

use vstd::prelude::*;
use crate::convert::{break_len, chat_request, converted_messages, is_system, law_other_messages_are_kept, line_len, other_messages, system_messages, system_prompt_messages, with_leading_system, without_billing_header};
use crate::convert_message::openai_messages;
use crate::convert_reverse::{anthropic_request, chat_part_text, chat_part_texts, system_prompts};
use crate::json::JsonV;
use crate::message_told::{calls_seen, content_seen, law_message_keeps_what_it_holds, pieces_in, uses_in};
use crate::request_fields::lemma_setting_keys;
use crate::requests_told::request_messages;
use crate::text::{has_prefix, join};
use crate::transform_responses::responses_request;

verus! {

/// A request with messages and nothing else.
pub open spec fn with_messages(ms: Seq<JsonV>) -> JsonV {
    JsonV::Object(map!["messages"@ => JsonV::Array(ms)])
}

/// The prompt of the Anthropic request for Chat messages.
pub open spec fn prompt_of_messages(ms: Seq<JsonV>) -> Option<Seq<char>> {
    anthropic_request(with_messages(ms)).str_at("system"@)
}

proof fn lemma_join_add(a: Seq<Seq<char>>, b: Seq<Seq<char>>, sep: Seq<char>)
    requires
        a.len() > 0,
        b.len() > 0,
    ensures
        join(a + b, sep) == join(a, sep) + sep + join(b, sep),
    decreases b.len(),
{
    let all = a + b;
    assert(all.drop_last() =~= a + b.drop_last());
    assert(all.last() == b.last());
    if b.len() == 1 {
        assert(a + b.drop_last() =~= a);
        assert(join(b, sep) == b[0]);
    } else {
        lemma_join_add(a, b.drop_last(), sep);
        assert(join(all, sep) =~= join(a, sep) + sep + join(b, sep));
    }
}

proof fn lemma_prompts_add(a: Seq<JsonV>, b: Seq<JsonV>)
    ensures
        system_prompts(a + b) == system_prompts(a) + system_prompts(b),
    decreases b.len(),
{
    if b.len() == 0 {
        assert(a + b =~= a);
        assert(system_prompts(a) + system_prompts(b) =~= system_prompts(a));
    } else {
        lemma_prompts_add(a, b.drop_last());
        assert((a + b).drop_last() =~= a + b.drop_last());
        assert(system_prompts(a + b) =~= system_prompts(a) + system_prompts(b));
    }
}

proof fn lemma_prompt(ms: Seq<JsonV>)
    ensures
        prompt_of_messages(ms) == if system_prompts(ms).len() > 0 {
            Some(join(system_prompts(ms), "\n\n"@))
        } else {
            None
        },
{
    lemma_setting_keys();
    assert(with_messages(ms).items_at("messages"@) == ms);
}

/// The prompt for messages one after the other is their prompts, with an empty line
/// between them. One system message with a text comes to that text, and with a list of
/// texts to those that are there, in order, with a space between them; a message that is
/// no system message comes to no prompt.
pub proof fn law_prompts_are_joined(a: Seq<JsonV>, b: Seq<JsonV>, m: JsonV, t: Seq<char>, u: Seq<char>)
    ensures
        prompt_of_messages(a + b) == match (prompt_of_messages(a), prompt_of_messages(b)) {
            (Some(x), Some(y)) => Some(x + "\n\n"@ + y),
            (Some(x), None) => Some(x),
            (None, y) => y,
        },
        m.str_at("role"@) != Some("system"@) ==> prompt_of_messages(seq![m]) is None,
        m.str_at("role"@) == Some("system"@) && m.str_at("content"@) == Some(t) ==> prompt_of_messages(seq![m])
            == if t.len() > 0 {
            Some(t)
        } else {
            None
        },
        m.str_at("role"@) == Some("system"@) && m.array_at("content"@) == Some(
            seq![text_part(t), text_part(u)],
        ) ==> prompt_of_messages(seq![m]) == Some(t + " "@ + u),
{
    lemma_prompt(a);
    lemma_prompt(b);
    lemma_prompt(a + b);
    lemma_prompts_add(a, b);
    let x = system_prompts(a);
    let y = system_prompts(b);
    if x.len() > 0 && y.len() > 0 {
        lemma_join_add(x, y, "\n\n"@);
    } else if x.len() == 0 {
        assert(x + y =~= y);
    } else {
        assert(x + y =~= x);
    }
    let one = seq![m];
    lemma_prompt(one);
    reveal_with_fuel(system_prompts, 2);
    assert(one.drop_last() =~= Seq::empty());
    if m.str_at("role"@) == Some("system"@) {
        if m.str_at("content"@) == Some(t) {
            assert(m.get("content"@) == Some(JsonV::Text(t)));
            if t.len() > 0 {
                assert(system_prompts(one) =~= seq![t]);
            }
        } else if m.array_at("content"@) == Some(seq![text_part(t), text_part(u)]) {
            let parts = seq![text_part(t), text_part(u)];
            assert(m.get("content"@) == Some(JsonV::Array(parts)));
            reveal_strlit("type");
            reveal_strlit("text");
            assert("type"@[1] == 'y' && "text"@[1] == 'e');
            reveal_with_fuel(chat_part_texts, 3);
            assert(parts.drop_last() =~= seq![text_part(t)]);
            assert(parts.drop_last().drop_last() =~= Seq::empty());
            assert(chat_part_text(text_part(t)) == Some(t));
            assert(chat_part_text(text_part(u)) == Some(u));
            let texts = chat_part_texts(parts);
            assert(texts =~= seq![t, u]);
            reveal_with_fuel(join, 2);
            assert(seq![t, u].drop_last() =~= seq![t]);
            assert(join(texts, " "@) == t + " "@ + u);
            assert(system_prompts(one) =~= seq![t + " "@ + u]);
        }
    }
}

/// A part with a text.
pub open spec fn text_part(t: Seq<char>) -> JsonV {
    JsonV::Object(map!["type"@ => JsonV::Text("text"@), "text"@ => JsonV::Text(t)])
}

/// The messages of the Chat request for an Anthropic request that are no system
/// messages.
pub open spec fn chat_turns(ms: Seq<JsonV>, preserve: bool) -> Seq<JsonV> {
    other_messages(request_messages(chat_request(with_messages(ms), preserve)))
}

proof fn lemma_others_add(a: Seq<JsonV>, b: Seq<JsonV>)
    ensures
        other_messages(a + b) == other_messages(a) + other_messages(b),
    decreases b.len(),
{
    if b.len() == 0 {
        assert(a + b =~= a);
        assert(other_messages(a) + other_messages(b) =~= other_messages(a));
    } else {
        lemma_others_add(a, b.drop_last());
        assert((a + b).drop_last() =~= a + b.drop_last());
        assert(other_messages(a + b) =~= other_messages(a) + other_messages(b));
    }
}

proof fn lemma_converted_add(a: Seq<JsonV>, b: Seq<JsonV>, preserve: bool)
    ensures
        converted_messages(a + b, preserve) == converted_messages(a, preserve) + converted_messages(b, preserve),
    decreases b.len(),
{
    if b.len() == 0 {
        assert(a + b =~= a);
        assert(converted_messages(a, preserve) + converted_messages(b, preserve) =~= converted_messages(a, preserve));
    } else {
        lemma_converted_add(a, b.drop_last(), preserve);
        assert((a + b).drop_last() =~= a + b.drop_last());
        assert(converted_messages(a + b, preserve) =~= converted_messages(a, preserve) + converted_messages(
            b,
            preserve,
        ));
    }
}

proof fn lemma_chat_turns(ms: Seq<JsonV>, preserve: bool)
    ensures
        chat_turns(ms, preserve) == other_messages(converted_messages(ms, preserve)),
{
    lemma_setting_keys();
    let body = with_messages(ms);
    assert(body.items_at("messages"@) == ms);
    assert(system_prompt_messages(body.at("system"@)) =~= Seq::empty());
    let all = Seq::<JsonV>::empty() + converted_messages(ms, preserve);
    assert(all =~= converted_messages(ms, preserve));
    law_other_messages_are_kept(all);
    assert(request_messages(chat_request(body, preserve)) == with_leading_system(all));
}

/// What Anthropic messages one after the other come to in a Chat request is what they
/// come to by themselves, one after the other: the earlier come earlier.
pub proof fn law_chat_request_keeps_the_order(a: Seq<JsonV>, b: Seq<JsonV>, preserve: bool)
    ensures
        chat_turns(a + b, preserve) == chat_turns(a, preserve) + chat_turns(b, preserve),
{
    lemma_chat_turns(a, preserve);
    lemma_chat_turns(b, preserve);
    lemma_chat_turns(a + b, preserve);
    lemma_converted_add(a, b, preserve);
    lemma_others_add(converted_messages(a, preserve), converted_messages(b, preserve));
}

/// A message with a text comes to one Chat message with the same role and the same
/// text, and one with a list of blocks comes to what the blocks come to.
pub proof fn law_text_message_is_kept_for_chat(role: Seq<char>, t: Seq<char>, preserve: bool)
    requires
        role != "system"@,
    ensures
        chat_turns(seq![text_message(role, t)], preserve) == seq![text_message(role, t)],
{
    let m = text_message(role, t);
    let ms = seq![m];
    lemma_chat_turns(ms, preserve);
    reveal_strlit("role");
    reveal_strlit("content");
    assert("role"@.len() == 4 && "content"@.len() == 7);
    reveal_with_fuel(converted_messages, 2);
    assert(ms.drop_last() =~= Seq::empty());
    assert(m.str_or("role"@, "user"@) == role);
    assert(converted_messages(ms, preserve) =~= ms);
    reveal_with_fuel(other_messages, 2);
    assert(Seq::<JsonV>::empty().push(m) =~= ms);
}

/// A message with a text.
pub open spec fn text_message(role: Seq<char>, t: Seq<char>) -> JsonV {
    JsonV::Object(map!["role"@ => JsonV::Text(role), "content"@ => JsonV::Text(t)])
}

/// A message with blocks.
pub open spec fn block_message(role: Seq<char>, blocks: Seq<JsonV>) -> JsonV {
    JsonV::Object(map!["role"@ => JsonV::Text(role), "content"@ => JsonV::Array(blocks)])
}

/// A message with blocks comes to the messages that keep what the blocks hold.
pub proof fn law_block_message_is_kept_for_chat(role: Seq<char>, blocks: Seq<JsonV>, preserve: bool)
    requires
        role != "system"@,
        pieces_in(blocks).len() > 0 || uses_in(blocks).len() > 0,
    ensures
        ({
            let ms = chat_turns(seq![block_message(role, blocks)], preserve);
            &&& ms.len() > 0
            &&& ms.last().str_at("role"@) == Some(role)
            &&& content_seen(ms.last().at("content"@)) == pieces_in(blocks)
            &&& calls_seen(ms.last()) == uses_in(blocks)
        }),
{
    let m = block_message(role, blocks);
    let ms = seq![m];
    lemma_chat_turns(ms, preserve);
    reveal_strlit("role");
    reveal_strlit("content");
    assert("role"@.len() == 4 && "content"@.len() == 7);
    reveal_with_fuel(converted_messages, 2);
    assert(ms.drop_last() =~= Seq::empty());
    assert(m.str_or("role"@, "user"@) == role);
    let out = openai_messages(role, Some(JsonV::Array(blocks)), preserve);
    assert(converted_messages(ms, preserve) =~= out);
    law_message_keeps_what_it_holds(role, blocks, preserve);
    assert(!is_system(out.last()));
}

/// The system prompt of an Anthropic request without the line about billing is the
/// system message at the head of the Chat request, and the instructions of the
/// Responses request.
pub proof fn law_prompt_is_kept(body: JsonV, t: Seq<char>, preserve: bool)
    requires
        body.get("system"@) == Some(JsonV::Text(t)),
        t.len() > 0,
        !has_prefix(t, "x-anthropic-billing-header:"@),
        forall|i: int|
            0 <= i < converted_messages(request_messages(body), preserve).len() ==> !is_system(
                #[trigger] converted_messages(request_messages(body), preserve)[i],
            ),
    ensures
        request_messages(chat_request(body, preserve)) == seq![text_message("system"@, t)] + converted_messages(
            request_messages(body),
            preserve,
        ),
        responses_request(body).str_at("instructions"@) == Some(t),
{
    lemma_setting_keys();
    let rest = converted_messages(request_messages(body), preserve);
    let lead = text_message("system"@, t);
    assert(without_billing_header(t) == t);
    assert(system_prompt_messages(body.at("system"@)) =~= seq![lead]);
    reveal_strlit("role");
    reveal_strlit("content");
    assert("role"@.len() == 4 && "content"@.len() == 7);
    lemma_no_systems(rest);
    lemma_systems_behind(lead, rest);
    assert(request_messages(chat_request(body, preserve)) == with_leading_system(seq![lead] + rest));
}

proof fn lemma_no_systems(ms: Seq<JsonV>)
    requires
        forall|i: int| 0 <= i < ms.len() ==> !is_system(#[trigger] ms[i]),
    ensures
        system_messages(ms).len() == 0,
        other_messages(ms) == ms,
    decreases ms.len(),
{
    if ms.len() > 0 {
        let front = ms.drop_last();
        assert(!is_system(ms[ms.len() - 1]));
        assert forall|i: int| 0 <= i < front.len() implies !is_system(#[trigger] front[i]) by {
            assert(front[i] == ms[i]);
        }
        lemma_no_systems(front);
        assert(other_messages(ms) =~= ms);
    } else {
        assert(other_messages(ms) =~= ms);
    }
}

proof fn lemma_systems_behind(lead: JsonV, rest: Seq<JsonV>)
    requires
        is_system(lead),
        forall|i: int| 0 <= i < rest.len() ==> !is_system(#[trigger] rest[i]),
    ensures
        system_messages(seq![lead] + rest) == seq![lead],
        other_messages(seq![lead] + rest) == rest,
    decreases rest.len(),
{
    let all = seq![lead] + rest;
    if rest.len() == 0 {
        assert(all =~= seq![lead]);
        reveal_with_fuel(system_messages, 2);
        reveal_with_fuel(other_messages, 2);
        assert(seq![lead].drop_last() =~= Seq::empty());
        assert(Seq::<JsonV>::empty().push(lead) =~= seq![lead]);
        assert(rest =~= Seq::empty());
    } else {
        let front = rest.drop_last();
        assert(!is_system(rest[rest.len() - 1]));
        assert forall|i: int| 0 <= i < front.len() implies !is_system(#[trigger] front[i]) by {
            assert(front[i] == rest[i]);
        }
        lemma_systems_behind(lead, front);
        assert(all.drop_last() =~= seq![lead] + front);
        assert(front.push(rest.last()) =~= rest);
    }
}

/// The line about billing at the start of a prompt is taken out, with up to two line
/// breaks behind it, and nothing else.
pub proof fn law_billing_line_is_taken_out(line: Seq<char>, rest: Seq<char>)
    requires
        has_prefix(line, "x-anthropic-billing-header:"@),
        forall|i: int| 0 <= i < line.len() ==> #[trigger] line[i] != '\n' && line[i] != '\r',
        rest.len() > 0,
        rest[0] != '\n' && rest[0] != '\r',
    ensures
        without_billing_header(line + "\n"@ + rest) == rest,
        without_billing_header(line + "\n\n"@ + rest) == rest,
        without_billing_header(line + "\r\n"@ + rest) == rest,
        without_billing_header(line) == Seq::<char>::empty(),
        without_billing_header(line + "\n\n\n"@ + rest) == "\n"@ + rest,
{
    reveal_strlit("\n");
    reveal_strlit("\n\n");
    reveal_strlit("\r\n");
    reveal_strlit("\n\n\n");
    lemma_after_line(line, "\n"@ + rest);
    lemma_after_line(line, "\n\n"@ + rest);
    lemma_after_line(line, "\r\n"@ + rest);
    lemma_after_line(line, "\n\n\n"@ + rest);
    assert(line + "\n"@ + rest =~= line + ("\n"@ + rest));
    assert(line + "\n\n"@ + rest =~= line + ("\n\n"@ + rest));
    assert(line + "\r\n"@ + rest =~= line + ("\r\n"@ + rest));
    assert(line + "\n\n\n"@ + rest =~= line + ("\n\n\n"@ + rest));
    assert(("\n"@ + rest).skip(1) =~= rest);
    assert(rest.skip(0) =~= rest);
    assert(("\n\n"@ + rest).skip(1) =~= "\n"@ + rest);
    assert(("\r\n"@ + rest).skip(2) =~= rest);
    assert(("\n\n\n"@ + rest).skip(1) =~= "\n\n"@ + rest);
    lemma_line_alone(line);
}

proof fn lemma_line_alone(line: Seq<char>)
    requires
        has_prefix(line, "x-anthropic-billing-header:"@),
        forall|i: int| 0 <= i < line.len() ==> #[trigger] line[i] != '\n' && line[i] != '\r',
    ensures
        without_billing_header(line) == Seq::<char>::empty(),
{
    lemma_line_len(line, Seq::empty());
    assert(line + Seq::<char>::empty() =~= line);
    let tail = line.skip(line.len() as int);
    assert(tail =~= Seq::empty());
    assert(tail.skip(0) =~= Seq::empty());
    assert(Seq::<char>::empty().skip(0) =~= Seq::empty());
}

proof fn lemma_line_len(line: Seq<char>, tail: Seq<char>)
    requires
        forall|i: int| 0 <= i < line.len() ==> #[trigger] line[i] != '\n' && line[i] != '\r',
        tail.len() == 0 || tail[0] == '\n' || tail[0] == '\r',
    ensures
        line_len(line + tail) == line.len(),
    decreases line.len(),
{
    if line.len() == 0 {
        assert(line + tail =~= tail);
    } else {
        let less = line.drop_first();
        assert forall|i: int| 0 <= i < less.len() implies #[trigger] less[i] != '\n' && less[i] != '\r' by {
            assert(less[i] == line[i + 1]);
        }
        lemma_line_len(less, tail);
        assert((line + tail).drop_first() =~= less + tail);
        assert((line + tail)[0] == line[0]);
    }
}

proof fn lemma_after_line(line: Seq<char>, tail: Seq<char>)
    requires
        has_prefix(line, "x-anthropic-billing-header:"@),
        forall|i: int| 0 <= i < line.len() ==> #[trigger] line[i] != '\n' && line[i] != '\r',
        tail.len() > 0,
        tail[0] == '\n' || tail[0] == '\r',
    ensures
        without_billing_header(line + tail) == ({
            let rest = tail.skip(break_len(tail));
            rest.skip(break_len(rest))
        }),
{
    lemma_line_len(line, tail);
    let s = line + tail;
    let p = "x-anthropic-billing-header:"@;
    assert(s.take(p.len() as int) =~= line.take(p.len() as int));
    assert(s.skip(line.len() as int) =~= tail);
}

} // verus!
