//! How texts stand in JSON and in streams, and how they are read back.

use vstd::prelude::*;
use crate::chat_chunk::{ChoiceV, ChunkV, read_call, read_calls, read_choice, read_choices, read_chunk, read_usage};
use crate::json::{JsonV, or_zero};
use crate::json_canonical::{escaped, escaped_char, quoted};
use crate::sse::{blocks, decoded};
use crate::streaming_responses::{FrameV, frame};
use crate::text::{first_at, has_infix, has_prefix, hex, is_first, lemma_first_at, lines, occurs_at, trim};
use crate::text_laws::{digits_value, is_without, law_field_follows_its_name, law_hex_stands_for_the_number, law_lines_end_at_line_feeds};

verus! {

/// Whether a text holds no control character.
pub open spec fn is_printable(s: Seq<char>) -> bool {
    forall|i: int| 0 <= i < s.len() ==> (#[trigger] s[i]) as u32 >= 32
}

proof fn lemma_escaped_add(a: Seq<char>, b: Seq<char>)
    ensures
        escaped(a + b) == escaped(a) + escaped(b),
    decreases b.len(),
{
    if b.len() == 0 {
        assert(a + b =~= a);
        assert(escaped(a) + escaped(b) =~= escaped(a));
    } else {
        lemma_escaped_add(a, b.drop_last());
        assert((a + b).drop_last() =~= a + b.drop_last());
        assert(escaped(a + b) =~= escaped(a) + escaped(b));
    }
}

proof fn lemma_escaped_one(c: char)
    ensures
        escaped(seq![c]) == escaped_char(c),
{
    reveal_with_fuel(escaped, 2);
    assert(seq![c].drop_last() =~= Seq::empty());
    assert(Seq::<char>::empty() + escaped_char(c) =~= escaped_char(c));
}

proof fn lemma_escaped_char_printable(c: char)
    ensures
        is_printable(escaped_char(c)),
{
    law_hex_stands_for_the_number(c as nat, 4);
    let h = hex(c as nat, 4);
    let e = escaped_char(c);
    if (c as u32) < 32 {
        assert forall|i: int| 0 <= i < e.len() implies (#[trigger] e[i]) as u32 >= 32 by {
            if i >= 2 && e.len() > 2 {
                assert(e[i] == h[i - 2]);
            }
        }
    }
}

/// A JSON string stands between quotes on one line: no control character is left in it.
pub proof fn law_quoted_text_is_printable(s: Seq<char>)
    ensures
        is_printable(quoted(s)),
        quoted(s).len() >= 2,
        quoted(s)[0] == '"',
        quoted(s).last() == '"',
    decreases s.len(),
{
    if s.len() > 0 {
        law_quoted_text_is_printable(s.drop_last());
        lemma_escaped_char_printable(s.last());
        let front = escaped(s.drop_last());
        let e = escaped(s);
        let q = quoted(s.drop_last());
        assert forall|i: int| 0 <= i < e.len() implies (#[trigger] e[i]) as u32 >= 32 by {
            if i < front.len() {
                assert(q[i + 1] == front[i]);
            } else {
                assert(e[i] == escaped_char(s.last())[i - front.len()]);
            }
        }
    }
    let e = escaped(s);
    assert forall|i: int| 0 <= i < quoted(s).len() implies (#[trigger] quoted(s)[i]) as u32 >= 32 by {
        if 1 <= i <= e.len() {
            assert(quoted(s)[i] == e[i - 1]);
        }
    }
}

/// What a JSON string says from some place on: an escape stands for one character, and
/// any other character stands for itself.
pub open spec fn unescaped(e: Seq<char>) -> Seq<char>
    decreases e.len(),
{
    if e.len() == 0 {
        Seq::empty()
    } else if e[0] != '\\' {
        seq![e[0]] + unescaped(e.skip(1))
    } else if e.len() == 1 {
        Seq::empty()
    } else if e[1] == 'u' && e.len() >= 6 {
        seq![digits_value(e.subrange(2, 6), 16) as u8 as char] + unescaped(e.skip(6))
    } else {
        let c = if e[1] == 'b' {
            8u8 as char
        } else if e[1] == 't' {
            9u8 as char
        } else if e[1] == 'n' {
            10u8 as char
        } else if e[1] == 'f' {
            12u8 as char
        } else if e[1] == 'r' {
            13u8 as char
        } else {
            e[1]
        };
        seq![c] + unescaped(e.skip(2))
    }
}

proof fn lemma_short_hex(n: nat)
    requires
        n < 32,
    ensures
        hex(n, 4).len() == 4,
{
    assert(n / 16 / 16 == 0 && n / 16 / 16 / 16 == 0);
    reveal_with_fuel(hex, 5);
}

proof fn lemma_control_char(c: char)
    requires
        (c as u32) < 32,
    ensures
        hex(c as nat, 4).len() == 4,
        digits_value(hex(c as nat, 4), 16) as u8 as char == c,
{
    let n = c as u32;
    assert(c as nat == n);
    lemma_short_hex(c as nat);
    law_hex_stands_for_the_number(c as nat, 4);
    assert(n as u8 as char == c);
}

proof fn lemma_unescaped_char(c: char, tail: Seq<char>)
    ensures
        unescaped(escaped_char(c) + tail) == seq![c] + unescaped(tail),
{
    let head = escaped_char(c);
    let e = head + tail;
    assert(e.skip(head.len() as int) =~= tail);
    assert(e[0] == head[0]);
    if head.len() > 1 {
        assert(e[1] == head[1]);
    }
    if c == '"' || c == '\\' {
        assert(e[1] == c);
    } else if c as u32 == 8 {
        assert(8u8 as char == c);
        assert(e[1] == 'b');
    } else if c == '\t' {
        assert(9u8 as char == c);
    } else if c == '\n' {
        assert(10u8 as char == c);
    } else if c as u32 == 12 {
        assert(12u8 as char == c);
    } else if c == '\r' {
        assert(13u8 as char == c);
    } else if (c as u32) < 32 {
        lemma_control_char(c);
        assert(e.subrange(2, 6) =~= hex(c as nat, 4));
        assert(head.len() == 6);
    } else {
        assert(head =~= seq![c]);
        assert(e[0] == c);
    }
}

/// What stands in a JSON string is read back as the text that was written.
pub proof fn law_escaped_text_is_read_back(s: Seq<char>)
    ensures
        unescaped(escaped(s)) == s,
    decreases s.len(),
{
    if s.len() > 0 {
        let c = s[0];
        let rest = s.drop_first();
        law_escaped_text_is_read_back(rest);
        assert(s =~= seq![c] + rest);
        lemma_escaped_add(seq![c], rest);
        lemma_escaped_one(c);
        let e = escaped(s);
        assert(e == escaped_char(c) + escaped(rest));
        lemma_unescaped_char(c, escaped(rest));
    }
}

/// What the client gets of an event is read back as that event: a line with its name, and
/// a line with its data.
pub proof fn law_event_is_read_back(name: Seq<char>, data: Seq<char>)
    requires
        is_without(name, '\n'),
        is_without(data, '\n'),
        is_without(name, '\r'),
        trim(name) == name,
    ensures
        frame(lines("event: "@ + name + "\ndata: "@ + data)) == (FrameV { kind: name, data }),
{
    reveal_strlit("event: ");
    reveal_strlit("\ndata: ");
    reveal_strlit("event");
    reveal_strlit("data");
    reveal_strlit(": ");
    reveal_strlit(":");
    reveal_strlit("\n");
    let first = "event"@ + ": "@ + name;
    let second = "data"@ + ": "@ + data;
    let all = "event: "@ + name + "\ndata: "@ + data;
    assert("event"@ + ": "@ =~= "event: "@);
    assert(all =~= first + "\n"@ + second);
    assert forall|i: int| 0 <= i < first.len() implies #[trigger] first[i] != '\n' by {
        if i >= 7 {
            assert(first[i] == name[i - 7]);
        }
    }
    assert forall|i: int| 0 <= i < second.len() implies #[trigger] second[i] != '\n' by {
        if i >= 6 {
            assert(second[i] == data[i - 6]);
        }
    }
    if name.len() > 0 {
        assert(first.last() == name.last());
    }
    law_lines_end_at_line_feeds(first, second);
    law_lines_end_at_line_feeds(second, Seq::empty());
    assert(lines(all) =~= seq![first, second]);
    law_field_follows_its_name("event"@, name, second);
    law_field_follows_its_name("data"@, data, first);
    assert(!has_prefix(second, "event"@ + ":"@)) by {
        if has_prefix(second, "event"@ + ":"@) {
            assert(second.take(6)[0] == ("event"@ + ":"@)[0]);
            assert(second[0] == 'd');
        }
    }
    reveal_with_fuel(frame, 3);
    assert(seq![first, second].drop_last() =~= seq![first]);
    assert(seq![first].drop_last() =~= Seq::empty());
}

/// A block ends at the first blank line. Where a text has no blank line with carriage
/// returns, a block without a blank line, that ends in no line feed, is taken off with the
/// two line feeds behind it, and the blocks of the rest follow.
pub proof fn law_blocks_end_at_blank_lines(block: Seq<char>, rest: Seq<char>)
    requires
        !has_infix(block + "\n\n"@ + rest, "\r\n\r\n"@),
        !has_infix(block + "\n"@, "\n\n"@),
    ensures
        blocks(block + "\n\n"@ + rest).0 == seq![block] + blocks(rest).0,
        blocks(block + "\n\n"@ + rest).1 == blocks(rest).1,
{
    let s = block + "\n\n"@ + rest;
    let p = "\n\n"@;
    reveal_strlit("\n\n");
    reveal_strlit("\n");
    assert(s.subrange(block.len() as int, block.len() as int + 2) =~= p);
    assert(occurs_at(s, p, block.len() as int));
    assert forall|j: int| 0 <= j < block.len() implies !#[trigger] occurs_at(s, p, j) by {
        if occurs_at(s, p, j) {
            let t = block + "\n"@;
            assert(t.subrange(j, j + 2) =~= s.subrange(j, j + 2));
            assert(occurs_at(t, p, j));
        }
    }
    assert(is_first(s, p, block.len() as int));
    lemma_first_at(s, p, block.len() as int);
    assert(has_infix(s, p));
    assert(first_at(s, "\r\n\r\n"@) is None);
    assert(s.take(block.len() as int) =~= block);
    assert(s.skip(block.len() as int + 2) =~= rest);
}

/// A chunk that is written as an object is read by its members: the id, and for each
/// choice in order its text, its reasoning, why it ended, and its calls.
pub proof fn law_chunk_is_read_by_its_members(v: JsonV, i: int)
    requires
        v is Object,
        read_chunk(v) is Some,
    ensures
        ({
            let c = read_chunk(v)->0;
            let items = v.items_at("choices"@);
            &&& c.id == v.str_or("id"@, Seq::empty())
            &&& c.choices.len() == items.len()
            &&& c.usage is None <==> v.get("usage"@) is None || v.get("usage"@) == Some(JsonV::Null)
            &&& 0 <= i < items.len() && items[i] is Object && items[i].at("delta"@) is Object ==> {
                let d = items[i].at("delta"@);
                &&& c.choices[i].content == d.str_at("content"@)
                &&& c.choices[i].finish_reason == items[i].str_at("finish_reason"@)
                &&& c.choices[i].reasoning == match d.get("reasoning"@) {
                    Some(_) => d.str_at("reasoning"@),
                    None => d.str_at("reasoning_content"@),
                }
                &&& c.choices[i].calls is Some <==> d.array_at("tool_calls"@) is Some
                &&& c.choices[i].calls matches Some(calls) ==> calls.len() == d.items_at("tool_calls"@).len()
            }
        }),
{
    let items = v.items_at("choices"@);
    if v.get("choices"@) is Some {
        lemma_choices_read(items, i);
        if 0 <= i < items.len() {
            lemma_calls_read(items[i].at("delta"@).items_at("tool_calls"@), 0);
        }
    }
}

proof fn lemma_choices_read(items: Seq<JsonV>, i: int)
    requires
        read_choices(items) is Some,
    ensures
        read_choices(items)->0.len() == items.len(),
        0 <= i < items.len() ==> Some(read_choices(items)->0[i]) == read_choice(items[i]),
    decreases items.len(),
{
    if items.len() > 0 {
        lemma_choices_read(items.drop_last(), i);
    }
}

proof fn lemma_calls_read(items: Seq<JsonV>, i: int)
    ensures
        read_calls(items) is Some ==> read_calls(items)->0.len() == items.len(),
        read_calls(items) is Some && 0 <= i < items.len() ==> Some(read_calls(items)->0[i]) == read_call(items[i]),
    decreases items.len(),
{
    if items.len() > 0 {
        lemma_calls_read(items.drop_last(), i);
    }
}

/// The parts of tool calls of a chunk are read in order, each by its members: the number of
/// the call, its id, its name and its arguments.
pub proof fn law_calls_are_read_by_their_members(items: Seq<JsonV>, i: int)
    requires
        read_calls(items) is Some,
        0 <= i < items.len(),
        items[i] is Object,
        items[i].at("function"@) is Object,
    ensures
        ({
            let c = read_calls(items)->0[i];
            &&& Some(c.index) == items[i].u64_at("index"@)
            &&& c.id == items[i].str_at("id"@)
            &&& c.name == items[i].at("function"@).str_at("name"@)
            &&& c.arguments == items[i].at("function"@).str_at("arguments"@)
        }),
{
    lemma_calls_read(items, i);
}

/// The usage of a chunk that is written as an object is read by its members.
pub proof fn law_usage_is_read_by_its_members(v: JsonV)
    requires
        v is Object,
        read_usage(Some(v)) is Some,
    ensures
        ({
            let u = read_usage(Some(v))->0->0;
            let d = v.at("prompt_tokens_details"@);
            &&& u.prompt_tokens == or_zero(v.u64_at("prompt_tokens"@))
            &&& u.completion_tokens == or_zero(v.u64_at("completion_tokens"@))
            &&& (u.cache_read_input_tokens matches Some(n) ==> v.u64_at("cache_read_input_tokens"@) == Some(n as u64))
            &&& (u.cache_read_input_tokens is None ==> v.u64_at("cache_read_input_tokens"@) is None)
            &&& (u.cache_creation_input_tokens matches Some(n) ==> v.u64_at("cache_creation_input_tokens"@) == Some(
                n as u64,
            ))
            &&& (u.cache_creation_input_tokens is None ==> v.u64_at("cache_creation_input_tokens"@) is None)
            &&& d is Object ==> (u.prompt_tokens_details matches Some(x) && x.cached_tokens == or_zero(
                d.u64_at("cached_tokens"@),
            ) && x.cache_write_tokens == or_zero(d.u64_at("cache_write_tokens"@)))
        }),
{
}

/// A chunk with one choice whose members are of their types is read.
pub proof fn law_plain_chunk_is_read(id: Seq<char>, t: Seq<char>)
    ensures
        read_chunk(
            JsonV::Object(
                map![
                    "id"@ => JsonV::Text(id),
                    "choices"@ => JsonV::Array(
                        seq![
                            JsonV::Object(
                                map![
                                    "delta"@ => JsonV::Object(map!["content"@ => JsonV::Text(t)]),
                                    "finish_reason"@ => JsonV::Null,
                                ],
                            ),
                        ],
                    ),
                ],
            ),
        ) == Some(
            ChunkV {
                id,
                choices: seq![ChoiceV { content: Some(t), reasoning: None, calls: None, finish_reason: None }],
                usage: None,
            },
        ),
{
    lemma_chunk_keys();
    let choice = JsonV::Object(
        map![
            "delta"@ => JsonV::Object(map!["content"@ => JsonV::Text(t)]),
            "finish_reason"@ => JsonV::Null,
        ],
    );
    let read = ChoiceV { content: Some(t), reasoning: None, calls: None, finish_reason: None };
    assert(read_choice(choice) == Some(read));
    reveal_with_fuel(read_choices, 2);
    assert(seq![choice].drop_last() =~= Seq::empty());
    assert(Seq::<ChoiceV>::empty().push(read) =~= seq![read]);
}

/// The keys of a chunk are all different.
proof fn lemma_chunk_keys()
    ensures
        "id"@ != "choices"@,
        "id"@ != "usage"@,
        "id"@ != "delta"@,
        "id"@ != "finish_reason"@,
        "id"@ != "content"@,
        "id"@ != "reasoning"@,
        "id"@ != "reasoning_content"@,
        "id"@ != "tool_calls"@,
        "id"@ != "role"@,
        "choices"@ != "usage"@,
        "choices"@ != "delta"@,
        "choices"@ != "finish_reason"@,
        "choices"@ != "content"@,
        "choices"@ != "reasoning"@,
        "choices"@ != "reasoning_content"@,
        "choices"@ != "tool_calls"@,
        "choices"@ != "role"@,
        "usage"@ != "delta"@,
        "usage"@ != "finish_reason"@,
        "usage"@ != "content"@,
        "usage"@ != "reasoning"@,
        "usage"@ != "reasoning_content"@,
        "usage"@ != "tool_calls"@,
        "usage"@ != "role"@,
        "delta"@ != "finish_reason"@,
        "delta"@ != "content"@,
        "delta"@ != "reasoning"@,
        "delta"@ != "reasoning_content"@,
        "delta"@ != "tool_calls"@,
        "delta"@ != "role"@,
        "finish_reason"@ != "content"@,
        "finish_reason"@ != "reasoning"@,
        "finish_reason"@ != "reasoning_content"@,
        "finish_reason"@ != "tool_calls"@,
        "finish_reason"@ != "role"@,
        "content"@ != "reasoning"@,
        "content"@ != "reasoning_content"@,
        "content"@ != "tool_calls"@,
        "content"@ != "role"@,
        "reasoning"@ != "reasoning_content"@,
        "reasoning"@ != "tool_calls"@,
        "reasoning"@ != "role"@,
        "reasoning_content"@ != "tool_calls"@,
        "reasoning_content"@ != "role"@,
        "tool_calls"@ != "role"@,
{
    reveal_strlit("id");
    reveal_strlit("choices");
    reveal_strlit("usage");
    reveal_strlit("delta");
    reveal_strlit("finish_reason");
    reveal_strlit("content");
    reveal_strlit("reasoning");
    reveal_strlit("reasoning_content");
    reveal_strlit("tool_calls");
    reveal_strlit("role");
    assert("id"@.len() == 2 && "choices"@.len() == 7 && "usage"@.len() == 5 && "delta"@.len() == 5 && "finish_reason"@.len() == 13 && "content"@.len() == 7 && "reasoning"@.len() == 9 && "reasoning_content"@.len() == 17 && "tool_calls"@.len() == 10 && "role"@.len() == 4);
    assert("choices"@[1] == 'h' && "content"@[1] == 'o');
    assert("usage"@[0] == 'u' && "delta"@[0] == 'd');
}

/// A blank line may be written with carriage returns: where a text has none without, a
/// block is taken off with the four characters behind it.
pub proof fn law_blocks_end_at_blank_lines_with_returns(block: Seq<char>, rest: Seq<char>)
    requires
        !has_infix(block + "\r\n\r\n"@ + rest, "\n\n"@),
        !has_infix(block + "\r\n\r"@, "\r\n\r\n"@),
    ensures
        blocks(block + "\r\n\r\n"@ + rest).0 == seq![block] + blocks(rest).0,
        blocks(block + "\r\n\r\n"@ + rest).1 == blocks(rest).1,
{
    let s = block + "\r\n\r\n"@ + rest;
    let p = "\r\n\r\n"@;
    reveal_strlit("\r\n\r\n");
    reveal_strlit("\r\n\r");
    assert(s.subrange(block.len() as int, block.len() as int + 4) =~= p);
    assert(occurs_at(s, p, block.len() as int));
    assert forall|j: int| 0 <= j < block.len() implies !#[trigger] occurs_at(s, p, j) by {
        if occurs_at(s, p, j) {
            let t = block + "\r\n\r"@;
            assert(t.subrange(j, j + 4) =~= s.subrange(j, j + 4));
            assert(occurs_at(t, p, j));
        }
    }
    assert(is_first(s, p, block.len() as int));
    lemma_first_at(s, p, block.len() as int);
    assert(has_infix(s, p));
    assert(first_at(s, "\n\n"@) is None);
    assert(s.take(block.len() as int) =~= block);
    assert(s.skip(block.len() as int + 4) =~= rest);
}

/// A byte that begins no character is told by one replacement character, and what
/// follows it is read as if it stood alone.
pub proof fn law_bad_bytes_are_marked(bad: u8, rest: Seq<u8>)
    requires
        bad >= 0xf5 || 0x80 <= bad <= 0xc1,
    ensures
        decoded(seq![bad] + rest).text == seq!['\u{FFFD}'] + decoded(rest).text,
        decoded(seq![bad] + rest).rest == decoded(rest).rest,
{
    let b = seq![bad] + rest;
    assert(b[0] == bad);
    assert(b.skip(1) =~= rest);
}

/// The start of a character whose other bytes are still to come is kept back.
pub proof fn law_cut_characters_wait(lead: u8)
    requires
        0xc2 <= lead <= 0xf4,
    ensures
        decoded(seq![lead]).text.len() == 0,
        decoded(seq![lead]).rest == seq![lead],
{
}

} // verus!
