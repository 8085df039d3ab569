//! What the log says, how images are described, and which models take text only.

use vstd::prelude::*;
use crate::chunk_text::{split, top_pieces};
use crate::edge_laws::{law_images_are_known_in_each_form, marker, shown_at};
use crate::error::LocalEntry;
use crate::json::{JsonV, NumV};
use crate::json_canonical::{array_texts, compact_text, quoted};
use crate::media_sanitizer::{is_text_only, model_id, text_only_tails, without_prefixes};
use crate::passthrough_log::tool_marker;
use crate::reqlog::ReqLogV;
use crate::request_order::{text_message, text_part};
use crate::requests_told::lemma_roles;
use crate::server::{block_log_text, block_log_texts, content_log_text, openai_log_text, part_log_texts, system_log_texts, system_prompt_text};
use crate::stream_data::is_blank;
use crate::stream_out::{OutV, tool_note};
use crate::text::{ascii_lower, decimal, has_prefix, has_suffix, is_white_space, join, pieces, trim, trim_end, trim_start};
use crate::text_laws::{is_without, law_trim_takes_off_white_space_alone, lemma_index_at};
use crate::tool_media::ReplacementV;
use crate::vision::described_block;

verus! {

/// The types of blocks and parts are all different.
proof fn lemma_log_types()
    ensures
        "text"@ != "thinking"@,
        "text"@ != "tool_use"@,
        "text"@ != "tool_result"@,
        "text"@ != "input_text"@,
        "text"@ != "output_text"@,
        "text"@ != "image_url"@,
        "text"@ != "input_image"@,
        "thinking"@ != "tool_use"@,
        "thinking"@ != "tool_result"@,
        "thinking"@ != "input_text"@,
        "thinking"@ != "output_text"@,
        "thinking"@ != "image_url"@,
        "thinking"@ != "input_image"@,
        "tool_use"@ != "tool_result"@,
        "tool_use"@ != "input_text"@,
        "tool_use"@ != "output_text"@,
        "tool_use"@ != "image_url"@,
        "tool_use"@ != "input_image"@,
        "tool_result"@ != "input_text"@,
        "tool_result"@ != "output_text"@,
        "tool_result"@ != "image_url"@,
        "tool_result"@ != "input_image"@,
        "input_text"@ != "output_text"@,
        "input_text"@ != "image_url"@,
        "input_text"@ != "input_image"@,
        "output_text"@ != "image_url"@,
        "output_text"@ != "input_image"@,
        "image_url"@ != "input_image"@,
{
    reveal_strlit("text");
    reveal_strlit("thinking");
    reveal_strlit("tool_use");
    reveal_strlit("tool_result");
    reveal_strlit("input_text");
    reveal_strlit("output_text");
    reveal_strlit("image_url");
    reveal_strlit("input_image");
    assert("text"@.len() == 4 && "thinking"@.len() == 8 && "tool_use"@.len() == 8 && "tool_result"@.len() == 11 && "input_text"@.len() == 10 && "output_text"@.len() == 11 && "image_url"@.len() == 9 && "input_image"@.len() == 11);
    assert("thinking"@[1] == 'h' && "tool_use"@[1] == 'o');
    assert("tool_result"@[0] == 't' && "output_text"@[0] == 'o');
    assert("tool_result"@[0] == 't' && "input_image"@[0] == 'i');
    assert("output_text"@[0] == 'o' && "input_image"@[0] == 'i');
}

/// A block stands in the log by its kind: a text as it is, thinking with a mark, a call
/// with its name and its input, and the result of a call with its id and what it holds.
pub proof fn law_blocks_stand_in_the_log(b: JsonV, t: Seq<char>, v: JsonV)
    ensures
        b.str_at("type"@) == Some("text"@) && b.str_at("text"@) == Some(t) ==> block_log_text(b) == Some(t),
        b.str_at("type"@) == Some("thinking"@) && b.str_at("thinking"@) == Some(t) ==> block_log_text(b) == Some(
            t + " (thinking)"@,
        ),
        b.str_at("type"@) == Some("tool_use"@) && b.str_at("name"@) == Some(t) && b.get("input"@) == Some(v)
            ==> block_log_text(b) == Some("[tool_use: "@ + t + "]"@ + " "@ + compact_text(v)),
        b.str_at("type"@) == Some("tool_use"@) && b.str_at("name"@) == Some(t) && b.get("input"@) is None
            ==> block_log_text(b) == Some("[tool_use: "@ + t + "]"@),
        b.str_at("type"@) == Some("tool_result"@) && b.str_at("tool_use_id"@) == Some(t) && b.str_at("content"@) is Some
            && b.str_at("content"@)->0.len() > 0 ==> block_log_text(b) == Some(
            "[tool_result: "@ + t + "]"@ + " "@ + b.str_at("content"@)->0,
        ),
        b.str_at("type"@) is None ==> block_log_text(b) == Some("[unknown]"@),
{
    lemma_log_types();
}

/// The texts of a message stand in the log in order, with a space between them; its
/// images are only named.
pub proof fn law_messages_stand_in_the_log(t: Seq<char>, u: Seq<char>, image: JsonV)
    requires
        image.str_at("type"@) == Some("image_url"@) || image.str_at("type"@) == Some("input_image"@),
    ensures
        content_log_text(Some(JsonV::Text(t))) == t,
        content_log_text(Some(JsonV::Array(seq![text_part(t), text_part(u)]))) == t + " "@ + u,
        openai_log_text(Some(JsonV::Text(t))) == t,
        openai_log_text(Some(JsonV::Array(seq![text_part(t), image]))) == t + " "@ + "[image]"@,
        openai_log_text(None) == "(no content)"@,
{
    lemma_log_types();
    reveal_strlit("type");
    reveal_strlit("text");
    assert("type"@[1] == 'y' && "text"@[1] == 'e');
    let a = text_part(t);
    let b = text_part(u);
    assert(a.str_at("type"@) == Some("text"@) && a.str_at("text"@) == Some(t));
    assert(b.str_at("type"@) == Some("text"@) && b.str_at("text"@) == Some(u));
    let two = seq![a, b];
    let one = seq![a];
    assert(two.drop_last() =~= one);
    assert(one.drop_last() =~= Seq::empty());
    assert(block_log_texts(Seq::empty()) =~= Seq::empty());
    law_blocks_stand_in_the_log(a, t, a);
    law_blocks_stand_in_the_log(b, u, b);
    reveal_with_fuel(block_log_texts, 2);
    assert(one.last() == a && two.last() == b);
    assert(block_log_texts(one) =~= seq![t]);
    assert(block_log_texts(two) =~= seq![t, u]);
    reveal_with_fuel(join, 3);
    assert(seq![t, u].drop_last() =~= seq![t]);
    let with_image = seq![a, image];
    assert(with_image.drop_last() =~= one);
    reveal_with_fuel(part_log_texts, 3);
    assert(part_log_texts(with_image) =~= seq![t, "[image]"@]);
    assert(seq![t, "[image]"@].drop_last() =~= seq![t]);
}

/// The system prompt in the log is the one at the top of the request, where it is not
/// blank, and those of its system messages after it, with a bar between them.
pub proof fn law_prompts_stand_in_the_log(body: JsonV, t: Seq<char>, u: Seq<char>)
    requires
        !is_blank(t),
        !is_blank(u),
    ensures
        body.str_at("system"@) == Some(t) && body.items_at("messages"@).len() == 0 ==> system_prompt_text(
            body,
            LocalEntry::AnthropicMessages,
        ) == Some(t),
        body.str_at("instructions"@) == Some(t) && body.items_at("input"@).len() == 0 ==> system_prompt_text(
            body,
            LocalEntry::OaiResponses,
        ) == Some(t),
        body.items_at("messages"@) == seq![text_message("system"@, t), text_message("system"@, u)]
            ==> system_prompt_text(body, LocalEntry::OaiChat) == Some(t + " | "@ + u),
        body.items_at("messages"@) == seq![text_message("user"@, t)] ==> system_prompt_text(body, LocalEntry::OaiChat)
            is None,
{
    law_trim_takes_off_white_space_alone(t);
    law_trim_takes_off_white_space_alone(u);
    lemma_roles();
    reveal_strlit("role");
    reveal_strlit("content");
    assert("role"@.len() == 4 && "content"@.len() == 7);
    let none = Seq::<JsonV>::empty();
    assert(seq![t] + Seq::<Seq<char>>::empty() =~= seq![t]);
    if body.str_at("system"@) == Some(t) {
        assert(body.get("system"@) == Some(JsonV::Text(t)));
    }
    let a = text_message("system"@, t);
    let b = text_message("system"@, u);
    let c = text_message("user"@, t);
    assert(a.str_at("role"@) == Some("system"@) && a.get("content"@) == Some(JsonV::Text(t)));
    assert(b.str_at("role"@) == Some("system"@) && b.get("content"@) == Some(JsonV::Text(u)));
    assert(c.str_at("role"@) == Some("user"@));
    let two = seq![a, b];
    let one = seq![a];
    assert(two.drop_last() =~= one);
    assert(one.drop_last() =~= none);
    assert(seq![c].drop_last() =~= none);
    reveal_with_fuel(system_log_texts, 3);
    let entry = LocalEntry::OaiChat;
    assert(system_log_texts(entry, one) =~= seq![t]);
    assert(system_log_texts(entry, two) =~= seq![t, u]);
    assert(system_log_texts(entry, seq![c]) =~= Seq::empty());
    assert(Seq::<Seq<char>>::empty() + seq![t, u] =~= seq![t, u]);
    reveal_with_fuel(join, 3);
    assert(seq![t, u].drop_last() =~= seq![t]);
}

/// A line of the log stands by itself, with its tag and the id of the request before it.
/// The response is begun once and ended once.
pub proof fn law_lines_of_the_log(id: Seq<char>, tag: Seq<char>, t: Seq<char>)
    ensures
        ({
            let fresh = ReqLogV { id, header_printed: false, done: false };
            let begun = ReqLogV { id, header_printed: true, done: false };
            let over = ReqLogV { id, header_printed: true, done: true };
            &&& fresh.line(tag, t) == "\n\n["@ + tag + " #"@ + id + "]: "@ + t
            &&& fresh.header_text(t) == "\n\n["@ + "RESP"@ + " #"@ + id + "]: "@ + t
            &&& begun.header_text(t).len() == 0
            &&& begun.done_text() == "\n"@
            &&& over.done_text().len() == 0
            &&& !fresh.is_open() && begun.is_open() && !over.is_open()
        }),
{
}

/// A tool is named in the log between brackets.
pub proof fn law_tools_are_named_between_brackets(name: Seq<char>)
    ensures
        tool_marker(name) == "[tool_use: "@ + name + "]"@,
        tool_note(name) == OutV::Log("[tool_use: "@ + name + "]"@),
{
}

/// An image in a message gives way to its description, by its place among all images of
/// the request, or to a mark where it has none; the image itself is what the vision model
/// is shown.
pub proof fn law_images_give_way_to_descriptions(
    kind: Seq<char>,
    data: Seq<char>,
    url: Seq<char>,
    d: Seq<Option<Seq<char>>>,
    n: nat,
    t: Seq<char>,
)
    ensures
        ({
            let by_data = JsonV::Object(
                map![
                    "type"@ => JsonV::Text("image"@),
                    "source"@ => JsonV::Object(
                        map![
                            "type"@ => JsonV::Text("base64"@),
                            "media_type"@ => JsonV::Text(kind),
                            "data"@ => JsonV::Text(data),
                        ],
                    ),
                ],
            );
            let a = described_block(by_data, ReplacementV::Described(d), n);
            let b = described_block(shown_at(url), ReplacementV::Described(d), n);
            &&& a.parts == seq![shown_at("data:"@ + kind + ";base64,"@ + data)]
            &&& b.parts == seq![shown_at(url)]
            &&& n < d.len() && d[n as int] == Some(t) ==> a.value == text_part(t) && b.value == text_part(t)
            &&& n >= d.len() || d[n as int] is None ==> a.value == marker() && b.value == marker()
        }),
{
    law_images_are_known_in_each_form(kind, data, url);
    let source = JsonV::Object(
        map![
            "type"@ => JsonV::Text("base64"@),
            "media_type"@ => JsonV::Text(kind),
            "data"@ => JsonV::Text(data),
        ],
    );
    let by_data = JsonV::Object(map!["type"@ => JsonV::Text("image"@), "source"@ => source]);
    lemma_described_kinds();
    assert(by_data.str_at("type"@) == Some("image"@));
    assert(shown_at(url).str_at("type"@) == Some("image_url"@));
}

/// The keys and types of images are all different.
proof fn lemma_described_kinds()
    ensures
        "type"@ != "source"@,
        "type"@ != "image_url"@,
        "type"@ != "image"@,
        "type"@ != "tool_result"@,
        "source"@ != "image_url"@,
        "source"@ != "image"@,
        "source"@ != "tool_result"@,
        "image_url"@ != "image"@,
        "image_url"@ != "tool_result"@,
        "image"@ != "tool_result"@,
{
    reveal_strlit("type");
    reveal_strlit("source");
    reveal_strlit("image_url");
    reveal_strlit("image");
    reveal_strlit("tool_result");
    assert("type"@.len() == 4 && "source"@.len() == 6 && "image_url"@.len() == 9 && "image"@.len() == 5 && "tool_result"@.len() == 11);
}

/// A block that is no image and holds no content stays as it is when images are described.
pub proof fn law_texts_are_not_described(t: Seq<char>, how: ReplacementV, n: nat)
    ensures
        described_block(text_part(t), how, n).value == text_part(t),
        described_block(text_part(t), how, n).parts.len() == 0,
{
    reveal_strlit("type");
    reveal_strlit("text");
    reveal_strlit("image");
    reveal_strlit("image_url");
    reveal_strlit("input_image");
    reveal_strlit("tool_result");
    reveal_strlit("content");
    assert("type"@[1] == 'y' && "text"@[1] == 'e');
    assert("text"@.len() == 4 && "image"@.len() == 5 && "image_url"@.len() == 9 && "input_image"@.len() == 11
        && "tool_result"@.len() == 11 && "content"@.len() == 7);
    assert(text_part(t).str_at("type"@) == Some("text"@));
}

/// The plain values and the small containers of JSON in their compact form.
pub proof fn law_compact_text(k: Seq<char>, v: JsonV, w: JsonV, n: nat)
    ensures
        compact_text(JsonV::Null) == "null"@,
        compact_text(JsonV::Bool(true)) == "true"@,
        compact_text(JsonV::Bool(false)) == "false"@,
        compact_text(JsonV::Number(NumV::Int(n as int))) == decimal(n),
        n > 0 ==> compact_text(JsonV::Number(NumV::Int(-(n as int)))) == "-"@ + decimal(n),
        compact_text(JsonV::Array(seq![v, w])) == "["@ + compact_text(v) + ","@ + compact_text(w) + "]"@,
        compact_text(JsonV::Array(Seq::empty())) == "[]"@,
        compact_text(JsonV::Text(k)) == quoted(k),
{
    reveal_strlit("-");
    reveal_strlit("[");
    reveal_strlit("]");
    reveal_strlit("[]");
    assert("-"@ =~= seq!['-']);
    assert("["@ =~= seq!['[']);
    assert("]"@ =~= seq![']']);
    reveal_with_fuel(join, 3);
    let a = seq![v, w];
    assert(array_texts(a) =~= seq![compact_text(v), compact_text(w)]);
    assert(seq![compact_text(v), compact_text(w)].drop_last() =~= seq![compact_text(v)]);
    assert(compact_text(JsonV::Array(a)) =~= "["@ + compact_text(v) + ","@ + compact_text(w) + "]"@);
    assert(array_texts(Seq::empty()) =~= Seq::empty());
    assert(compact_text(JsonV::Array(Seq::empty())) =~= "[]"@);
}

proof fn lemma_join_push(list: Seq<Seq<char>>, a: Seq<char>, c: char, sep: Seq<char>)
    ensures
        join(list.push(a.push(c)), sep) == join(list.push(a), sep).push(c),
        join(list.push(a).push(Seq::empty()), sep) == join(list.push(a), sep) + sep,
{
    let x = list.push(a.push(c));
    let y = list.push(a);
    let z = y.push(Seq::empty());
    assert(x.drop_last() =~= list);
    assert(y.drop_last() =~= list);
    assert(z.drop_last() =~= y);
    assert(join(x, sep) =~= join(y, sep).push(c));
    assert(join(z, sep) =~= join(y, sep) + sep);
}

/// The pieces of a text between separators at its top level are the text again once they
/// are joined by the separator.
pub proof fn law_top_pieces_make_up_the_text(s: Seq<char>, sep: char)
    ensures
        join(top_pieces(s, sep), seq![sep]) == s,
        top_pieces(s, sep).len() > 0,
{
    lemma_split_makes_up(s, sep);
}

proof fn lemma_split_makes_up(s: Seq<char>, sep: char)
    ensures
        join(split(s, sep).done.push(split(s, sep).current), seq![sep]) == s,
    decreases s.len(),
{
    if s.len() == 0 {
        assert(join(split(s, sep).done.push(split(s, sep).current), seq![sep]) =~= s);
    } else {
        let front = s.drop_last();
        lemma_split_makes_up(front, sep);
        let a = split(front, sep);
        let b = split(s, sep);
        let c = s.last();
        lemma_join_push(a.done, a.current, c, seq![sep]);
        assert(front.push(c) =~= s);
        assert(front + seq![sep] =~= front.push(sep));
    }
}

/// The models that are known to take text only.
pub proof fn law_models_that_take_text_only()
    ensures
        text_only_tails().contains("ark-code-latest"@),
        text_only_tails().contains("deepseek-chat"@),
        text_only_tails().contains("deepseek-reasoner"@),
        text_only_tails().contains("deepseek-v4-flash"@),
        text_only_tails().contains("deepseek-v4-flash-free"@),
        text_only_tails().contains("deepseek-v4-pro"@),
        text_only_tails().contains("glm-5.1"@),
        text_only_tails().contains("glm-5.2"@),
        text_only_tails().contains("kat-coder"@),
        text_only_tails().contains("kat-coder-pro"@),
        text_only_tails().contains("kat-coder-pro v1"@),
        text_only_tails().contains("kat-coder-pro v2"@),
        text_only_tails().contains("kat-coder-pro-v1"@),
        text_only_tails().contains("kat-coder-pro-v2"@),
        text_only_tails().contains("ling-2.5-1t"@),
        text_only_tails().contains("longcat-2.0"@),
        text_only_tails().contains("longcat-flash-chat"@),
        text_only_tails().contains("minimax-m2.7"@),
        text_only_tails().contains("minimax-m2.7-highspeed"@),
        text_only_tails().contains("mimo-v2.5-pro"@),
        text_only_tails().contains("qwen3-coder-480b"@),
        text_only_tails().contains("qwen3-coder-480b-a35b-instruct"@),
        text_only_tails().contains("qwen3-coder-flash"@),
        text_only_tails().contains("qwen3-coder-next"@),
        text_only_tails().contains("qwen3-coder-plus"@),
        text_only_tails().contains("step-3.5-flash"@),
        text_only_tails().contains("step-3.5-flash-2603"@),
        text_only_tails().contains("us.deepseek.r1-v1"@),
{
    let l = text_only_tails();
    assert(l[0] == "ark-code-latest"@);
    assert(l[1] == "deepseek-chat"@);
    assert(l[2] == "deepseek-reasoner"@);
    assert(l[3] == "deepseek-v4-flash"@);
    assert(l[4] == "deepseek-v4-flash-free"@);
    assert(l[5] == "deepseek-v4-pro"@);
    assert(l[6] == "glm-5.1"@);
    assert(l[7] == "glm-5.2"@);
    assert(l[8] == "kat-coder"@);
    assert(l[9] == "kat-coder-pro"@);
    assert(l[10] == "kat-coder-pro v1"@);
    assert(l[11] == "kat-coder-pro v2"@);
    assert(l[12] == "kat-coder-pro-v1"@);
    assert(l[13] == "kat-coder-pro-v2"@);
    assert(l[14] == "ling-2.5-1t"@);
    assert(l[15] == "longcat-2.0"@);
    assert(l[16] == "longcat-flash-chat"@);
    assert(l[17] == "minimax-m2.7"@);
    assert(l[18] == "minimax-m2.7-highspeed"@);
    assert(l[19] == "mimo-v2.5-pro"@);
    assert(l[20] == "qwen3-coder-480b"@);
    assert(l[21] == "qwen3-coder-480b-a35b-instruct"@);
    assert(l[22] == "qwen3-coder-flash"@);
    assert(l[23] == "qwen3-coder-next"@);
    assert(l[24] == "qwen3-coder-plus"@);
    assert(l[25] == "step-3.5-flash"@);
    assert(l[26] == "step-3.5-flash-2603"@);
    assert(l[27] == "us.deepseek.r1-v1"@);
}

/// Whether a text is made of small letters, digits, dots and hyphens.
pub open spec fn is_plain_model(s: Seq<char>) -> bool {
    s.len() > 0 && forall|i: int|
        0 <= i < s.len() ==> ('a' <= #[trigger] s[i] <= 'z' || '0' <= s[i] <= '9' || s[i] == '.' || s[i] == '-')
}

proof fn lemma_plain_trim(s: Seq<char>)
    requires
        s.len() > 0,
        !is_white_space(s[0]),
        !is_white_space(s.last()),
    ensures
        trim(s) == s,
{
    assert(trim_start(s) == s);
    assert(trim_end(s) == s);
}

proof fn lemma_plain_lower(s: Seq<char>)
    requires
        forall|i: int| 0 <= i < s.len() ==> !('A' <= #[trigger] s[i] <= 'Z'),
    ensures
        ascii_lower(s) == s,
{
    assert(ascii_lower(s) =~= s);
}

proof fn lemma_plain_model(s: Seq<char>)
    requires
        is_plain_model(s),
    ensures
        model_id(s) == s,
        pieces(s, '/') == seq![s],
{
    reveal_strlit("models/");
    reveal_strlit("[1m]");
    lemma_plain_trim(s);
    lemma_plain_lower(s);
    if has_prefix(s, "models/"@) {
        assert(s.take(7)[6] == '/');
        assert(s[6] == '/');
    }
    if has_suffix(s, "[1m]"@) {
        assert(s.skip(s.len() - 4)[0] == '[');
        assert(s[s.len() - 4] == '[');
    }
    assert(is_without(s, '/'));
    lemma_index_at(s, '/', Seq::empty());
}

/// A model is known by its name alone: with or without the word for models before it, the
/// name of its maker, and the mark of a long context behind it.
pub proof fn law_models_are_known_by_name(name: Seq<char>, maker: Seq<char>)
    requires
        is_plain_model(name),
        is_plain_model(maker),
        maker != "models"@,
    ensures
        is_text_only(name) <==> text_only_tails().contains(name),
        is_text_only("models/"@ + name) == is_text_only(name),
        is_text_only(maker + "/"@ + name) == is_text_only(name),
        is_text_only(name + "[1m]"@) == is_text_only(name),
{
    reveal_strlit("models/");
    reveal_strlit("models");
    reveal_strlit("/");
    reveal_strlit("[1m]");
    lemma_plain_model(name);
    let a = "models/"@ + name;
    assert(a.last() == name.last());
    lemma_plain_trim(a);
    assert(a.take(7) =~= "models/"@);
    assert(a.skip(7) =~= name);
    assert(!has_prefix(name, "models/"@)) by {
        if has_prefix(name, "models/"@) {
            assert(name.take(7)[6] == '/');
            assert(name[6] == '/');
        }
    }
    assert(without_prefixes(a, "models/"@) == name);
    lemma_plain_trim(name);
    lemma_plain_lower(name);
    assert(model_id(a) == model_id(name));
    let b = maker + "/"@ + name;
    assert(b[0] == maker[0] && b.last() == name.last());
    lemma_plain_trim(b);
    assert forall|i: int| 0 <= i < b.len() implies !('A' <= #[trigger] b[i] <= 'Z') by {
        if i < maker.len() {
            assert(b[i] == maker[i]);
        } else if i > maker.len() {
            assert(b[i] == name[i - maker.len() - 1]);
        }
    }
    lemma_plain_lower(b);
    assert(!has_prefix(b, "models/"@)) by {
        if has_prefix(b, "models/"@) {
            let p = b.take(7);
            if maker.len() < 6 {
                assert(p[maker.len() as int] == b[maker.len() as int]);
                assert(b[maker.len() as int] == '/');
                assert("models/"@[maker.len() as int] != '/');
            } else if maker.len() > 6 {
                assert(p[6] == b[6]);
                assert(b[6] == maker[6]);
            } else {
                assert forall|i: int| 0 <= i < 6 implies #[trigger] maker[i] == "models"@[i] by {
                    assert(p[i] == b[i]);
                    assert(b[i] == maker[i]);
                }
                assert(maker =~= "models"@);
            }
        }
    }
    assert(!has_suffix(b, "[1m]"@)) by {
        if has_suffix(b, "[1m]"@) {
            assert(b.skip(b.len() - 4)[3] == ']');
            assert(b.last() == ']');
        }
    }
    assert(model_id(b) == b);
    assert("/"@ =~= seq!['/']);
    assert(is_without(maker, '/'));
    lemma_index_at(maker, '/', name);
    assert(b.take(maker.len() as int) =~= maker);
    assert(b.skip(maker.len() as int + 1) =~= name);
    assert(pieces(b, '/') =~= seq![maker, name]);
    let c = name + "[1m]"@;
    assert(c[0] == name[0] && c.last() == ']');
    lemma_plain_trim(c);
    assert forall|i: int| 0 <= i < c.len() implies !('A' <= #[trigger] c[i] <= 'Z') by {
        if i < name.len() {
            assert(c[i] == name[i]);
        } else {
            assert(c[i] == "[1m]"@[i - name.len()]);
        }
    }
    lemma_plain_lower(c);
    assert(!has_prefix(c, "models/"@)) by {
        if has_prefix(c, "models/"@) {
            assert(c.take(7)[6] == '/');
            if name.len() > 6 {
                assert(c[6] == name[6]);
            } else {
                assert(c[6] == "[1m]"@[6 - name.len()]);
            }
        }
    }
    assert(c.skip(c.len() - 4) =~= "[1m]"@);
    assert(c.take(c.len() - 4) =~= name);
}

} // verus!
