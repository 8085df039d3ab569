//! What becomes of the less common parts of a message: reasoning that is kept, images in
//! the results of tools, several system messages, and older forms.

use vstd::prelude::*;
use vstd::utf8::encode_utf8;
use crate::chunk_text::{Part, member_part};
use crate::convert::{char_bytes, clean, clean_values, clipped, is_system, other_messages, part_texts, system_messages, system_text, system_texts, with_leading_system, with_summary};
use crate::convert_message::{add_tool_result, message_parts, openai_messages};
use crate::convert_reverse::{anthropic_turn_of, base64_image, chat_part_blocks, chat_parts_blocks, data_url_parts, image_blocks, keys_held, past_call_blocks, unsupported_chat_fields};
use crate::edge_laws::{law_images_are_known_in_each_form, shown_at};
use crate::items_told::lemma_item_types;
use crate::json::{JsonV, text_block};
use crate::json_text::json_parse;
use crate::message_told::{lemma_block_names, lemma_message_keys, lemma_parts_agree, pieces_in, uses_in};
use crate::request_fields::{choice_of, lemma_choices, lemma_setting_keys, lemma_tool_keys};
use crate::request_order::{block_message, text_message, text_part};
use crate::requests_told::{lemma_part_types, lemma_past_calls, lemma_roles};
use crate::responses_response::tool_input;
use crate::responses_reverse::{input_part_blocks, request_of_responses};
use crate::text::{has_prefix, join, pieces, trim};
use crate::text_laws::{is_without, lemma_index_at};
use crate::tool_media::{media_note, moved, rewrite, rewrite_items, slot_part};
use crate::transform_responses::without_orphans;

verus! {

/// The thinking of blocks that carry no signature, in order.
pub open spec fn plain_thinking(blocks: Seq<JsonV>) -> Seq<Seq<char>>
    decreases blocks.len(),
{
    if blocks.len() == 0 {
        Seq::empty()
    } else {
        let b = blocks.last();
        let t = b.str_or("thinking"@, Seq::empty());
        if b.str_at("type"@) == Some("thinking"@) && t.len() > 0 {
            plain_thinking(blocks.drop_last()).push(t)
        } else {
            plain_thinking(blocks.drop_last())
        }
    }
}

proof fn lemma_plain_thinking(blocks: Seq<JsonV>, preserve: bool)
    requires
        forall|i: int|
            0 <= i < blocks.len() ==> (#[trigger] blocks[i]).get("signature"@) is None && blocks[i].str_at("type"@)
                != Some("redacted_thinking"@),
    ensures
        message_parts(blocks, preserve).reasoning == plain_thinking(blocks),
    decreases blocks.len(),
{
    lemma_block_names();
    if blocks.len() > 0 {
        let front = blocks.drop_last();
        let b = blocks.last();
        assert forall|i: int| 0 <= i < front.len() implies (#[trigger] front[i]).get("signature"@) is None
            && front[i].str_at("type"@) != Some("redacted_thinking"@) by {
            assert(front[i] == blocks[i]);
        }
        lemma_plain_thinking(front, preserve);
        assert(blocks[blocks.len() - 1].get("signature"@) is None);
        let acc = message_parts(front, preserve);
        assert(add_tool_result(acc, b).reasoning == acc.reasoning);
        reveal_strlit("thinking");
        reveal_strlit("redacted_thinking");
        assert("thinking"@.len() == 8 && "redacted_thinking"@.len() == 17);
        let kind = b.str_or("type"@, Seq::empty());
        if b.str_at("type"@) is Some {
            assert(b.str_at("type"@) == Some(kind));
        }
    }
}

/// An assistant that called tools keeps its thinking where it is to be kept, one thought
/// to a line, and says that it called where it had none. No other message has any.
pub proof fn law_thinking_is_kept_with_calls(role: Seq<char>, blocks: Seq<JsonV>, preserve: bool)
    requires
        forall|i: int|
            0 <= i < blocks.len() ==> (#[trigger] blocks[i]).get("signature"@) is None && blocks[i].str_at("type"@)
                != Some("redacted_thinking"@),
        pieces_in(blocks).len() > 0 || uses_in(blocks).len() > 0,
    ensures
        ({
            let m = openai_messages(role, Some(JsonV::Array(blocks)), preserve).last();
            let thoughts = plain_thinking(blocks);
            if preserve && role == "assistant"@ && uses_in(blocks).len() > 0 {
                m.str_at("reasoning_content"@) == Some(
                    if thoughts.len() == 0 {
                        "tool call"@
                    } else {
                        join(thoughts, "\n"@)
                    },
                )
            } else {
                m.get("reasoning_content"@) is None
            }
        }),
{
    lemma_message_keys();
    lemma_plain_thinking(blocks, preserve);
    lemma_parts_agree(blocks, preserve);
    let acc = message_parts(blocks, preserve);
    assert(acc.content.len() == pieces_in(blocks).len());
    assert(acc.calls.len() == uses_in(blocks).len());
}

/// The images in the result of a tool come in a message of the user right after the
/// results, behind a note that names the call; in the result itself a marker stands in
/// their place.
pub proof fn law_images_of_results_are_moved(role: Seq<char>, id: Seq<char>, kind: Seq<char>, data: Seq<char>)
    ensures
        ({
            let image = JsonV::Object(
                map![
                    "type"@ => JsonV::Text("image"@),
                    "source"@ => JsonV::Object(
                        map![
                            "type"@ => JsonV::Text("base64"@),
                            "media_type"@ => JsonV::Text(kind),
                            "data"@ => JsonV::Text(data),
                        ],
                    ),
                ],
            );
            let result = JsonV::Object(
                map![
                    "type"@ => JsonV::Text("tool_result"@),
                    "tool_use_id"@ => JsonV::Text(id),
                    "content"@ => JsonV::Array(seq![image]),
                ],
            );
            let ms = openai_messages(role, Some(JsonV::Array(seq![result])), false);
            &&& ms.len() == 2
            &&& ms[0].str_at("role"@) == Some("tool"@)
            &&& ms[0].str_at("tool_call_id"@) == Some(id)
            &&& ms[1].str_at("role"@) == Some("user"@)
            &&& ms[1].items_at("content"@).len() == 2
            &&& ms[1].items_at("content"@)[0] == text_part("[Images from tool result "@ + id + "]"@)
            &&& ms[1].items_at("content"@)[1] == shown_at("data:"@ + kind + ";base64,"@ + data)
        }),
{
    let source = JsonV::Object(
        map![
            "type"@ => JsonV::Text("base64"@),
            "media_type"@ => JsonV::Text(kind),
            "data"@ => JsonV::Text(data),
        ],
    );
    let image = JsonV::Object(map!["type"@ => JsonV::Text("image"@), "source"@ => source]);
    let result = JsonV::Object(
        map![
            "type"@ => JsonV::Text("tool_result"@),
            "tool_use_id"@ => JsonV::Text(id),
            "content"@ => JsonV::Array(seq![image]),
        ],
    );
    lemma_block_names();
    lemma_message_keys();
    law_images_are_known_in_each_form(kind, data, data);
    let whole = "data:"@ + kind + ";base64,"@ + data;
    assert(slot_part(image, false) == Some(shown_at(whole)));
    let items = seq![image];
    assert(items.drop_last() =~= Seq::empty());
    assert(items.last() == image);
    let how = moved();
    let one = rewrite(image, 1, false, how, 0);
    assert(one.parts =~= seq![shown_at(whole)]);
    assert(rewrite_items(items.drop_last(), 0, false, how, 0).1 =~= Seq::empty());
    assert(rewrite_items(items, 0, false, how, 0).1 =~= seq![shown_at(whole)]);
    let found = rewrite(JsonV::Array(items), 0, false, how, 0);
    assert(found.parts == rewrite_items(items, 0, false, how, 0).1);
    let blocks = seq![result];
    reveal_with_fuel(message_parts, 2);
    assert(blocks.drop_last() =~= Seq::empty());
    lemma_result_keys();
    assert(result.str_at("type"@) == Some("tool_result"@));
    assert(result.get("content"@) == Some(JsonV::Array(items)));
    let acc = message_parts(blocks, false);
    assert(acc.media =~= seq![text_block(media_note(id)), shown_at(whole)]);
    assert(acc.results.len() == 1);
}

/// The keys of a result are all different.
proof fn lemma_result_keys()
    ensures
        "type"@ != "tool_use_id"@,
        "type"@ != "content"@,
        "tool_use_id"@ != "content"@,
{
    reveal_strlit("type");
    reveal_strlit("tool_use_id");
    reveal_strlit("content");
    assert("type"@.len() == 4 && "tool_use_id"@.len() == 11 && "content"@.len() == 7);
}

/// Several system messages come to one at the head, one text to a line; a single one is
/// moved there as it is; where there is none, nothing changes.
pub proof fn law_system_messages_are_joined(a: Seq<char>, b: Seq<char>, m: JsonV)
    requires
        m.str_at("role"@) != Some("system"@),
        a.len() > 0,
        b.len() > 0,
    ensures
        with_leading_system(seq![m]) == seq![m],
        with_leading_system(seq![m, text_message("system"@, a)]) == seq![text_message("system"@, a), m],
        with_leading_system(seq![text_message("system"@, a), m, text_message("system"@, b)]) == seq![
            text_message("system"@, a + "\n"@ + b),
            m,
        ],
{
    reveal_strlit("role");
    reveal_strlit("content");
    assert("role"@.len() == 4 && "content"@.len() == 7);
    let x = text_message("system"@, a);
    let y = text_message("system"@, b);
    assert(is_system(x) && is_system(y) && !is_system(m));
    let none = Seq::<JsonV>::empty();
    reveal_with_fuel(system_messages, 4);
    reveal_with_fuel(other_messages, 4);
    reveal_with_fuel(system_texts, 3);
    reveal_with_fuel(join, 3);
    let p = seq![m];
    assert(p.drop_last() =~= none);
    let q = seq![m, x];
    assert(q.drop_last() =~= p);
    assert(other_messages(p) =~= p);
    assert(system_messages(q) =~= seq![x]);
    assert(other_messages(q) =~= seq![m]);
    assert(seq![x] + seq![m] =~= seq![x, m]);
    let r = seq![x, m, y];
    assert(r.drop_last() =~= seq![x, m]);
    assert(seq![x, m].drop_last() =~= seq![x]);
    assert(seq![x].drop_last() =~= none);
    assert(system_messages(r) =~= seq![x, y]);
    assert(other_messages(r) =~= seq![m]);
    assert(seq![x, y].drop_last() =~= seq![x]);
    assert(x.get("content"@) == Some(JsonV::Text(a)));
    assert(y.get("content"@) == Some(JsonV::Text(b)));
    assert(system_text(x) == a && system_text(y) == b);
    assert(system_texts(seq![x, y]) =~= seq![a, b]);
    assert(seq![a, b].drop_last() =~= seq![a]);
    assert(join(seq![a, b], "\n"@) == a + "\n"@ + b);
    assert(seq![text_message("system"@, a + "\n"@ + b)] + seq![m] =~= seq![text_message("system"@, a + "\n"@ + b), m]);
}

/// A base64 data URL is read as its media type and its data, and makes an image of them;
/// any other address makes an image at that address, but a data URL of another kind makes
/// none.
pub proof fn law_image_addresses_are_read(kind: Seq<char>, data: Seq<char>, url: Seq<char>)
    requires
        is_without(kind, ';'),
        is_without(kind, ','),
        !has_prefix(url, "data:"@),
    ensures
        data_url_parts("data:"@ + kind + ";base64,"@ + data) == Some((trim(kind), data)),
        image_blocks("data:"@ + kind + ";base64,"@ + data) == seq![
            JsonV::Object(
                map![
                    "type"@ => JsonV::Text("image"@),
                    "source"@ => JsonV::Object(
                        map![
                            "type"@ => JsonV::Text("base64"@),
                            "media_type"@ => JsonV::Text(trim(kind)),
                            "data"@ => JsonV::Text(data),
                        ],
                    ),
                ],
            ),
        ],
        image_blocks(url) == seq![
            JsonV::Object(
                map![
                    "type"@ => JsonV::Text("image"@),
                    "source"@ => JsonV::Object(map!["type"@ => JsonV::Text("url"@), "url"@ => JsonV::Text(url)]),
                ],
            ),
        ],
        data_url_parts(url) is None,
        data_url_parts("data:"@ + kind + ","@ + data) == if kind == "base64"@ {
            Some((trim(kind), data))
        } else {
            None
        },
{
    reveal_strlit("data:");
    reveal_strlit(";base64,");
    reveal_strlit("base64");
    reveal_strlit(",");
    let whole = "data:"@ + kind + ";base64,"@ + data;
    let rest = kind + ";base64,"@ + data;
    assert(whole.take(5) =~= "data:"@);
    assert(whole.skip(5) =~= rest);
    let head = kind + seq![';'] + "base64"@;
    assert(rest =~= head + seq![','] + data);
    assert forall|i: int| 0 <= i < head.len() implies #[trigger] head[i] != ',' by {
        if i < kind.len() {
            assert(head[i] == kind[i]);
        } else if i > kind.len() {
            assert(head[i] == "base64"@[i - kind.len() - 1]);
        }
    }
    lemma_index_at(head, ',', data);
    assert(rest.take(head.len() as int) =~= head);
    assert(rest.skip(head.len() as int + 1) =~= data);
    lemma_index_at(kind, ';', "base64"@);
    assert(head.take(kind.len() as int) =~= kind);
    assert(head.skip(kind.len() as int + 1) =~= "base64"@);
    assert(is_without("base64"@, ';'));
    lemma_index_at("base64"@, ';', Seq::empty());
    assert(pieces("base64"@, ';') =~= seq!["base64"@]);
    assert(pieces(head, ';') =~= seq![kind, "base64"@]);
    let other = "data:"@ + kind + ","@ + data;
    let tail = kind + seq![','] + data;
    assert(other.take(5) =~= "data:"@);
    assert(other.skip(5) =~= tail);
    lemma_index_at(kind, ',', data);
    assert(tail.take(kind.len() as int) =~= kind);
    assert(tail.skip(kind.len() as int + 1) =~= data);
    lemma_index_at(kind, ';', Seq::empty());
    assert(pieces(kind, ';') =~= seq![kind]);
}

/// Of a list of members, those that a request has are reported, and no other.
pub proof fn law_dropped_members_are_reported(body: JsonV, keys: Seq<Seq<char>>, key: Seq<char>)
    ensures
        keys_held(body, keys).contains(key) <==> keys.contains(key) && body.get(key) is Some,
    decreases keys.len(),
{
    let all = keys_held(body, keys);
    if keys.len() > 0 {
        let less = keys.drop_last();
        law_dropped_members_are_reported(body, less, key);
        let front = keys_held(body, less);
        if front.contains(key) {
            let j = choose|j: int| 0 <= j < front.len() && front[j] == key;
            assert(all[j] == key);
        }
        if all.contains(key) {
            let j = choose|j: int| 0 <= j < all.len() && all[j] == key;
            if j < front.len() {
                assert(front[j] == key);
            }
        }
        if less.contains(key) {
            let j = choose|j: int| 0 <= j < less.len() && less[j] == key;
            assert(keys[j] == key);
        }
        if keys.contains(key) {
            let j = choose|j: int| 0 <= j < keys.len() && keys[j] == key;
            if j < less.len() {
                assert(less[j] == key);
            } else if body.get(key) is Some {
                assert(all[front.len() as int] == key);
            }
        }
        if body.get(keys.last()) is Some && keys.last() == key {
            assert(all[front.len() as int] == key);
            assert(keys[keys.len() - 1] == key);
        }
    }
}

/// A message to another agent gets a summary: the one that it has, or else the message
/// itself, cut after 47 bytes where it takes more than 50, or that it is a message. All
/// else in it stays.
pub proof fn law_messages_to_agents_are_summed_up(input: JsonV, t: Seq<char>, key: Seq<char>)
    requires
        input is Object,
    ensures
        input.get("summary"@) is Some ==> with_summary(input) == input,
        input.get("summary"@) is None && input.str_at("message"@) == Some(t) && encode_utf8(t).len() <= 50
            ==> with_summary(input).str_at("summary"@) == Some(t),
        input.get("summary"@) is None && input.str_at("message"@) == Some(t) && encode_utf8(t).len() > 50
            ==> with_summary(input).str_at("summary"@) == Some(clipped(t, 47) + "..."@),
        input.get("summary"@) is None && input.str_at("message"@) is None ==> with_summary(input).str_at("summary"@)
            == Some("Agent communication"@),
        key != "summary"@ ==> with_summary(input).get(key) == input.get(key),
{
}

/// A text that is cut keeps its start, takes up no more bytes than it may, and is no
/// shorter than it must be.
pub proof fn law_cut_text_keeps_its_start(s: Seq<char>, limit: nat)
    ensures
        clipped(s, limit).len() <= s.len(),
        s.take(clipped(s, limit).len() as int) == clipped(s, limit),
        bytes_of(clipped(s, limit)) <= limit,
        clipped(s, limit).len() < s.len() ==> bytes_of(clipped(s, limit)) + char_bytes(
            s[clipped(s, limit).len() as int],
        ) > limit,
    decreases s.len(),
{
    let c = clipped(s, limit);
    if s.len() > 0 && char_bytes(s[0]) <= limit {
        let rest = s.drop_first();
        let less = (limit - char_bytes(s[0])) as nat;
        law_cut_text_keeps_its_start(rest, less);
        let d = clipped(rest, less);
        assert(c.drop_first() =~= d);
        assert(s.take(c.len() as int) =~= seq![s[0]] + rest.take(d.len() as int));
        if c.len() < s.len() {
            assert(rest[d.len() as int] == s[c.len() as int]);
        }
    } else {
        assert(s.take(0) =~= Seq::empty());
    }
}

/// The bytes that a text takes up.
pub open spec fn bytes_of(s: Seq<char>) -> nat
    decreases s.len(),
{
    if s.len() == 0 {
        0
    } else {
        char_bytes(s[0]) + bytes_of(s.drop_first())
    }
}

/// The empty list of pages is taken out of the input of `Read`, and nothing else is.
pub proof fn law_empty_pages_are_taken_out(name: Seq<char>, input: JsonV, key: Seq<char>)
    requires
        input is Object,
    ensures
        name == "Read"@ && input.str_at("pages"@) == Some(Seq::<char>::empty()) ==> tool_input(name, input).get(
            "pages"@,
        ) is None && (key != "pages"@ ==> tool_input(name, input).get(key) == input.get(key)),
        name != "Read"@ || input.str_at("pages"@) != Some(Seq::<char>::empty()) ==> tool_input(name, input) == input,
{
}

/// A schema gets the type of an object and properties where it lacks a type at its root,
/// loses the format of an address, and keeps every other member that holds no schema.
pub proof fn law_schema_keeps_its_members(m: Map<Seq<char>, JsonV>, root: bool, key: Seq<char>)
    requires
        key != "type"@,
        key != "format"@,
        key != "properties"@,
        key != "items"@,
    ensures
        ({
            let v = JsonV::Object(m);
            let r = clean(v, root);
            &&& r.get(key) == v.get(key)
            &&& root && v.get("type"@) is None ==> r.str_at("type"@) == Some("object"@)
            &&& v.get("type"@) is Some || !root ==> r.get("type"@) == v.get("type"@)
            &&& v.str_at("format"@) == Some("uri"@) ==> r.get("format"@) is None
            &&& v.str_at("format"@) != Some("uri"@) ==> r.get("format"@) == v.get("format"@)
            &&& root && v.get("type"@) is None && v.get("properties"@) is None ==> r.get("properties"@) == Some(
                JsonV::Object(Map::empty()),
            )
            &&& v.get("items"@) is Some ==> r.get("items"@) == Some(clean(v.at("items"@), false))
            &&& v.get("items"@) is None ==> r.get("items"@) is None
        }),
{
    lemma_schema_keys();
    let v = JsonV::Object(m);
    assert(v.get(key) == (if m.contains_key(key) { Some(m[key]) } else { None }));
}

/// The keys of a schema are all different.
proof fn lemma_schema_keys()
    ensures
        "type"@ != "format"@,
        "type"@ != "properties"@,
        "type"@ != "items"@,
        "format"@ != "properties"@,
        "format"@ != "items"@,
        "properties"@ != "items"@,
{
    reveal_strlit("type");
    reveal_strlit("format");
    reveal_strlit("properties");
    reveal_strlit("items");
    assert("type"@.len() == 4 && "format"@.len() == 6 && "properties"@.len() == 10 && "items"@.len() == 5);
}

/// Each property of a schema is cleaned as a schema by itself, and none is lost.
pub proof fn law_properties_are_cleaned(m: Map<Seq<char>, JsonV>, p: Map<Seq<char>, JsonV>, root: bool, key: Seq<char>)
    requires
        m.contains_key("properties"@),
        m["properties"@] == JsonV::Object(p),
        p.dom().finite(),
    ensures
        ({
            let r = clean(JsonV::Object(m), root).at("properties"@);
            r.get(key) == match JsonV::Object(p).get(key) {
                Some(v) => Some(clean(v, false)),
                None => None,
            }
        }),
{
    lemma_schema_keys();
    let q = clean_values(p);
    assert(clean(JsonV::Object(m), root).get("properties"@) == Some(JsonV::Object(q)));
}

/// A message without content comes to one with no content, and one whose content is no
/// list comes to one with that content.
pub proof fn law_other_contents_are_kept(role: Seq<char>, v: JsonV, preserve: bool)
    requires
        !(v is Array),
    ensures
        openai_messages(role, None, preserve) == seq![
            JsonV::Object(map!["role"@ => JsonV::Text(role), "content"@ => JsonV::Null]),
        ],
        openai_messages(role, Some(v), preserve) == seq![
            JsonV::Object(map!["role"@ => JsonV::Text(role), "content"@ => v]),
        ],
{
}

/// A message of a role that is not known comes to a message of the user with its text.
pub proof fn law_unknown_roles_speak_as_users(msg: JsonV, role: Seq<char>)
    requires
        msg.str_at("role"@) == Some(role),
        role != "user"@,
        role != "assistant"@,
        role != "developer"@,
        role != "tool"@,
        role != "system"@,
    ensures
        anthropic_turn_of(msg) == block_message("user"@, seq![text_part(msg.str_or("content"@, Seq::empty()))]),
{
    lemma_roles();
}

/// The parts of the content of a Chat message come to blocks by their type: an image by
/// its address or its data, and a call by its id, its name and its arguments.
pub proof fn law_parts_come_to_blocks(p: JsonV, url: Seq<char>, data: Seq<char>, kind: Seq<char>, v: JsonV)
    ensures
        p.str_at("type"@) == Some("image_url"@) && p.at("image_url"@).str_at("url"@) == Some(url) ==> chat_part_blocks(p)
            == image_blocks(url),
        p.str_at("type"@) == Some("input_image"@) && p.str_at("image_url"@) == Some(url) ==> chat_part_blocks(p)
            == image_blocks(url) && input_part_blocks(p) == image_blocks(url),
        p.str_at("type"@) == Some("input_image"@) && p.get("image_url"@) is None && p.str_at("data"@) == Some(data)
            && p.str_at("media_type"@) == Some(kind) ==> chat_part_blocks(p) == seq![base64_image(kind, data)]
            && input_part_blocks(p) == seq![base64_image(kind, data)],
        p.str_at("type"@) == Some("tool_call"@) && p.str_at("id"@) == Some(url) && p.str_at("name"@) == Some(data)
            && p.get("arguments"@) == Some(v) ==> chat_part_blocks(p) == seq![
            JsonV::Object(
                map![
                    "type"@ => JsonV::Text("tool_use"@),
                    "id"@ => JsonV::Text(url),
                    "name"@ => JsonV::Text(data),
                    "input"@ => v,
                ],
            ),
        ],
        p.str_at("type"@) == Some("function_call"@) && p.str_at("call_id"@) == Some(url) && p.str_at("name"@) == Some(data)
            && p.str_at("arguments"@) == Some(kind) && json_parse(kind) == Ok::<JsonV, Seq<char>>(v)
            ==> input_part_blocks(p) == seq![
            JsonV::Object(
                map![
                    "type"@ => JsonV::Text("tool_use"@),
                    "id"@ => JsonV::Text(url),
                    "name"@ => JsonV::Text(data),
                    "input"@ => v,
                ],
            ),
        ],
{
    lemma_part_types();
}

/// What an assistant said stands before the calls that it made, also where it is a list of
/// parts.
pub proof fn law_assistant_speaks_before_it_calls(msg: JsonV, parts: Seq<JsonV>)
    requires
        msg.str_at("role"@) == Some("assistant"@),
        msg.get("content"@) == Some(JsonV::Array(parts)),
        msg.items_at("tool_calls"@).len() > 0,
    ensures
        anthropic_turn_of(msg).items_at("content"@) == chat_parts_blocks(parts) + past_call_blocks(
            msg.items_at("tool_calls"@),
        ),
        past_call_blocks(msg.items_at("tool_calls"@)).len() == msg.items_at("tool_calls"@).len(),
{
    lemma_roles();
    lemma_result_keys();
    lemma_message_keys();
    let calls = msg.items_at("tool_calls"@);
    lemma_past_calls(calls, 0);
}

/// The texts of the instructions of a Responses request in parts come to a prompt with an
/// empty line between them.
pub proof fn law_instructions_in_parts_are_joined(body: JsonV, t: Seq<char>, u: Seq<char>)
    requires
        body.get("instructions"@) == Some(JsonV::Array(seq![text_part(t), text_part(u)])),
    ensures
        request_of_responses(body).str_at("system"@) == Some(t + "\n\n"@ + u),
{
    lemma_setting_keys();
    reveal_strlit("type");
    reveal_strlit("text");
    reveal_strlit("\n\n");
    assert("type"@[1] == 'y' && "text"@[1] == 'e');
    let parts = seq![text_part(t), text_part(u)];
    reveal_with_fuel(part_texts, 3);
    assert(parts.drop_last() =~= seq![text_part(t)]);
    assert(parts.drop_last().drop_last() =~= Seq::empty());
    assert(part_texts(parts) =~= seq![t, u]);
    reveal_with_fuel(join, 3);
    assert(seq![t, u].drop_last() =~= seq![t]);
}

/// A ban on parallel calls in a Responses request is kept with the choice of tools.
pub proof fn law_ban_on_parallel_calls_is_kept(body: JsonV)
    requires
        body.get("parallel_tool_calls"@) == Some(JsonV::Bool(false)),
    ensures
        ({
            let a = request_of_responses(body).at("tool_choice"@);
            &&& a.get("disable_parallel_tool_use"@) == Some(JsonV::Bool(true))
            &&& body.get("tool_choice"@) is None ==> a.str_at("type"@) == Some("auto"@)
            &&& body.get("tool_choice"@) == Some(choice_of("required"@)) ==> a.str_at("type"@) == Some("any"@)
        }),
{
    lemma_setting_keys();
    lemma_tool_keys();
    lemma_choices();
    assert(choice_of("required"@).str_at("type"@) == Some("required"@));
}

/// Reasoning that something generated follows stays, and reasoning that nothing follows
/// goes.
pub proof fn law_followed_reasoning_stays(r: JsonV, item: JsonV)
    requires
        r.str_at("type"@) == Some("reasoning"@),
        item.str_at("type"@) == Some("function_call"@),
    ensures
        without_orphans(seq![r, item], false) == seq![r, item],
        without_orphans(seq![item, r], false) == seq![item],
{
    lemma_item_types();
    reveal_with_fuel(without_orphans, 3);
    let a = seq![r, item];
    let b = seq![item, r];
    assert(a.drop_last() =~= seq![r]);
    assert(seq![r].drop_last() =~= Seq::empty());
    assert(b.drop_last() =~= seq![item]);
    assert(seq![item].drop_last() =~= Seq::empty());
    assert(without_orphans(a, false) =~= a);
    assert(without_orphans(b, false) =~= seq![item]);
}

/// The members of a chunk that count, and what they are.
pub proof fn law_members_of_a_chunk_count()
    ensures
        member_part(Part::Chunk, "id"@) == Some(Part::Leaf),
        member_part(Part::Chunk, "choices"@) == Some(Part::Choices),
        member_part(Part::Chunk, "usage"@) == Some(Part::Usage),
        member_part(Part::Choice, "delta"@) == Some(Part::Delta),
        member_part(Part::Choice, "finish_reason"@) == Some(Part::Leaf),
        member_part(Part::Delta, "content"@) == Some(Part::Leaf),
        member_part(Part::Delta, "reasoning"@) == Some(Part::Leaf),
        member_part(Part::Delta, "reasoning_content"@) == Some(Part::Leaf),
        member_part(Part::Delta, "tool_calls"@) == Some(Part::Calls),
        member_part(Part::Call, "index"@) == Some(Part::Leaf),
        member_part(Part::Call, "id"@) == Some(Part::Leaf),
        member_part(Part::Call, "function"@) == Some(Part::Function),
        member_part(Part::Function, "name"@) == Some(Part::Leaf),
        member_part(Part::Function, "arguments"@) == Some(Part::Leaf),
        member_part(Part::Usage, "prompt_tokens"@) == Some(Part::Leaf),
        member_part(Part::Usage, "completion_tokens"@) == Some(Part::Leaf),
        member_part(Part::Usage, "prompt_tokens_details"@) == Some(Part::Details),
        member_part(Part::Usage, "cache_read_input_tokens"@) == Some(Part::Leaf),
        member_part(Part::Usage, "cache_creation_input_tokens"@) == Some(Part::Leaf),
        member_part(Part::Details, "cached_tokens"@) == Some(Part::Leaf),
        member_part(Part::Details, "cache_write_tokens"@) == Some(Part::Leaf),
{
    lemma_counted_members();
    reveal_strlit("prompt_tokens_details");
    reveal_strlit("prompt_tokens");
    reveal_strlit("completion_tokens");
    reveal_strlit("cache_read_input_tokens");
    reveal_strlit("cache_creation_input_tokens");
    assert("prompt_tokens_details"@.len() == 21 && "prompt_tokens"@.len() == 13 && "completion_tokens"@.len() == 17);
    assert("cache_read_input_tokens"@.len() == 23 && "cache_creation_input_tokens"@.len() == 27);
}

/// The members that count are all different.
proof fn lemma_counted_members()
    ensures
        "id"@ != "choices"@,
        "id"@ != "usage"@,
        "id"@ != "delta"@,
        "id"@ != "finish_reason"@,
        "id"@ != "content"@,
        "id"@ != "reasoning"@,
        "id"@ != "reasoning_content"@,
        "id"@ != "tool_calls"@,
        "id"@ != "role"@,
        "id"@ != "index"@,
        "id"@ != "function"@,
        "id"@ != "type"@,
        "id"@ != "name"@,
        "id"@ != "arguments"@,
        "id"@ != "prompt_tokens_details"@,
        "choices"@ != "usage"@,
        "choices"@ != "delta"@,
        "choices"@ != "finish_reason"@,
        "choices"@ != "content"@,
        "choices"@ != "reasoning"@,
        "choices"@ != "reasoning_content"@,
        "choices"@ != "tool_calls"@,
        "choices"@ != "role"@,
        "choices"@ != "index"@,
        "choices"@ != "function"@,
        "choices"@ != "type"@,
        "choices"@ != "name"@,
        "choices"@ != "arguments"@,
        "choices"@ != "prompt_tokens_details"@,
        "usage"@ != "delta"@,
        "usage"@ != "finish_reason"@,
        "usage"@ != "content"@,
        "usage"@ != "reasoning"@,
        "usage"@ != "reasoning_content"@,
        "usage"@ != "tool_calls"@,
        "usage"@ != "role"@,
        "usage"@ != "index"@,
        "usage"@ != "function"@,
        "usage"@ != "type"@,
        "usage"@ != "name"@,
        "usage"@ != "arguments"@,
        "usage"@ != "prompt_tokens_details"@,
        "delta"@ != "finish_reason"@,
        "delta"@ != "content"@,
        "delta"@ != "reasoning"@,
        "delta"@ != "reasoning_content"@,
        "delta"@ != "tool_calls"@,
        "delta"@ != "role"@,
        "delta"@ != "index"@,
        "delta"@ != "function"@,
        "delta"@ != "type"@,
        "delta"@ != "name"@,
        "delta"@ != "arguments"@,
        "delta"@ != "prompt_tokens_details"@,
        "finish_reason"@ != "content"@,
        "finish_reason"@ != "reasoning"@,
        "finish_reason"@ != "reasoning_content"@,
        "finish_reason"@ != "tool_calls"@,
        "finish_reason"@ != "role"@,
        "finish_reason"@ != "index"@,
        "finish_reason"@ != "function"@,
        "finish_reason"@ != "type"@,
        "finish_reason"@ != "name"@,
        "finish_reason"@ != "arguments"@,
        "finish_reason"@ != "prompt_tokens_details"@,
        "content"@ != "reasoning"@,
        "content"@ != "reasoning_content"@,
        "content"@ != "tool_calls"@,
        "content"@ != "role"@,
        "content"@ != "index"@,
        "content"@ != "function"@,
        "content"@ != "type"@,
        "content"@ != "name"@,
        "content"@ != "arguments"@,
        "content"@ != "prompt_tokens_details"@,
        "reasoning"@ != "reasoning_content"@,
        "reasoning"@ != "tool_calls"@,
        "reasoning"@ != "role"@,
        "reasoning"@ != "index"@,
        "reasoning"@ != "function"@,
        "reasoning"@ != "type"@,
        "reasoning"@ != "name"@,
        "reasoning"@ != "arguments"@,
        "reasoning"@ != "prompt_tokens_details"@,
        "reasoning_content"@ != "tool_calls"@,
        "reasoning_content"@ != "role"@,
        "reasoning_content"@ != "index"@,
        "reasoning_content"@ != "function"@,
        "reasoning_content"@ != "type"@,
        "reasoning_content"@ != "name"@,
        "reasoning_content"@ != "arguments"@,
        "reasoning_content"@ != "prompt_tokens_details"@,
        "tool_calls"@ != "role"@,
        "tool_calls"@ != "index"@,
        "tool_calls"@ != "function"@,
        "tool_calls"@ != "type"@,
        "tool_calls"@ != "name"@,
        "tool_calls"@ != "arguments"@,
        "tool_calls"@ != "prompt_tokens_details"@,
        "role"@ != "index"@,
        "role"@ != "function"@,
        "role"@ != "type"@,
        "role"@ != "name"@,
        "role"@ != "arguments"@,
        "role"@ != "prompt_tokens_details"@,
        "index"@ != "function"@,
        "index"@ != "type"@,
        "index"@ != "name"@,
        "index"@ != "arguments"@,
        "index"@ != "prompt_tokens_details"@,
        "function"@ != "type"@,
        "function"@ != "name"@,
        "function"@ != "arguments"@,
        "function"@ != "prompt_tokens_details"@,
        "type"@ != "name"@,
        "type"@ != "arguments"@,
        "type"@ != "prompt_tokens_details"@,
        "name"@ != "arguments"@,
        "name"@ != "prompt_tokens_details"@,
        "arguments"@ != "prompt_tokens_details"@,
{
    reveal_strlit("id");
    reveal_strlit("choices");
    reveal_strlit("usage");
    reveal_strlit("delta");
    reveal_strlit("finish_reason");
    reveal_strlit("content");
    reveal_strlit("reasoning");
    reveal_strlit("reasoning_content");
    reveal_strlit("tool_calls");
    reveal_strlit("role");
    reveal_strlit("index");
    reveal_strlit("function");
    reveal_strlit("type");
    reveal_strlit("name");
    reveal_strlit("arguments");
    reveal_strlit("prompt_tokens_details");
    assert("id"@.len() == 2 && "choices"@.len() == 7 && "usage"@.len() == 5 && "delta"@.len() == 5 && "finish_reason"@.len() == 13 && "content"@.len() == 7 && "reasoning"@.len() == 9 && "reasoning_content"@.len() == 17 && "tool_calls"@.len() == 10 && "role"@.len() == 4 && "index"@.len() == 5 && "function"@.len() == 8 && "type"@.len() == 4 && "name"@.len() == 4 && "arguments"@.len() == 9 && "prompt_tokens_details"@.len() == 21);
    assert("choices"@[1] == 'h' && "content"@[1] == 'o');
    assert("usage"@[0] == 'u' && "delta"@[0] == 'd');
    assert("usage"@[0] == 'u' && "index"@[0] == 'i');
    assert("delta"@[0] == 'd' && "index"@[0] == 'i');
    assert("reasoning"@[0] == 'r' && "arguments"@[0] == 'a');
    assert("role"@[0] == 'r' && "type"@[0] == 't');
    assert("role"@[0] == 'r' && "name"@[0] == 'n');
    assert("type"@[0] == 't' && "name"@[0] == 'n');
}

/// The members of a Chat request that the other format does not know.
pub proof fn law_members_that_are_dropped()
    ensures
        unsupported_chat_fields().contains("logprobs"@),
        unsupported_chat_fields().contains("top_logprobs"@),
        unsupported_chat_fields().contains("response_format"@),
        unsupported_chat_fields().contains("seed"@),
        unsupported_chat_fields().contains("frequency_penalty"@),
        unsupported_chat_fields().contains("presence_penalty"@),
        unsupported_chat_fields().len() == 6,
{
    let l = unsupported_chat_fields();
    assert(l[0] == "logprobs"@);
    assert(l[1] == "top_logprobs"@);
    assert(l[2] == "response_format"@);
    assert(l[3] == "seed"@);
    assert(l[4] == "frequency_penalty"@);
    assert(l[5] == "presence_penalty"@);
}

} // verus!
