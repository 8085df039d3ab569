//! Anthropic Messages and OpenAI Chat Completions: requests and whole responses.

use vstd::prelude::*;
use vstd::string::*;
use vstd::utf8::*;
use crate::convert_message::{convert_message_to_openai, copy_or_empty_object, openai_messages, or_empty_object};
use crate::error::Error;
use crate::json::{Json, JsonObject, JsonV, empty_object, field_is, group_models, insert_some, lemma_step, lemma_whole, models, opt_text};
use crate::text::{ascii_lower, cat, chars_of, contains, has_infix, has_prefix, is_ascii_text, join, join_texts, lemma_texts_push, lowercase, starts_with, texts, to_lowercase};

verus! {

/// How the attribution line begins.
pub const ANTHROPIC_BILLING_HEADER_PREFIX: &'static str = "x-anthropic-billing-header:";

/// Whether a character is a decimal digit.
pub open spec fn is_digit(c: char) -> bool {
    '0' <= c <= '9'
}

/// Whether a model is of the OpenAI o-series: an `o` and a digit.
pub open spec fn o_series(model: Seq<char>) -> bool {
    model.len() > 1 && model[0] == 'o' && is_digit(model[1])
}

/// Whether a model, named in lower case, takes `reasoning_effort`.
pub open spec fn takes_effort(name: Seq<char>) -> bool {
    ||| o_series(name)
    ||| has_prefix(name, "gpt-"@) && name.len() > 4 && '5' <= name[4] <= '9'
    ||| name == "grok-4.5"@
    ||| has_prefix(name, "grok-4.5-"@)
    ||| has_prefix(name, "grok-build-"@)
    ||| has_infix(name, "deepseek"@)
}

/// The effort that an Anthropic request asks for, in the terms of OpenAI.
pub open spec fn requested_effort(body: JsonV) -> Option<Seq<char>> {
    match body.path2("output_config"@, "effort"@) {
        Some(JsonV::Text(effort)) => if effort == "low"@ || effort == "medium"@ || effort == "high"@ {
            Some(effort)
        } else if effort == "max"@ {
            Some("xhigh"@)
        } else {
            None
        },
        _ => {
            let thinking = body.at("thinking"@);
            if thinking.str_at("type"@) == Some("adaptive"@) {
                Some("xhigh"@)
            } else if thinking.str_at("type"@) == Some("enabled"@) {
                match thinking.u64_at("budget_tokens"@) {
                    Some(b) => if b < 4_000 {
                        Some("low"@)
                    } else if b < 16_000 {
                        Some("medium"@)
                    } else {
                        Some("high"@)
                    },
                    None => Some("high"@),
                }
            } else {
                None
            }
        },
    }
}

/// An effort within the values that DeepSeek accepts.
pub open spec fn deepseek_effort(effort: Seq<char>) -> Seq<char> {
    if effort == "max"@ || effort == "xhigh"@ {
        "max"@
    } else if effort == "low"@ {
        "low"@
    } else {
        "high"@
    }
}

/// The effort that goes out to an upstream model.
pub open spec fn upstream_effort(body: JsonV, model: Seq<char>) -> Option<Seq<char>> {
    if takes_effort(lowercase(model)) {
        match requested_effort(body) {
            Some(e) => Some(
                if has_infix(model, "deepseek"@) {
                    deepseek_effort(e)
                } else {
                    e
                },
            ),
            None => None,
        }
    } else {
        None
    }
}

/// The length of the line break at the start of a text.
pub open spec fn break_len(s: Seq<char>) -> int {
    if s.len() > 1 && s[0] == '\r' && s[1] == '\n' {
        2
    } else if s.len() > 0 && (s[0] == '\n' || s[0] == '\r') {
        1
    } else {
        0
    }
}

/// The number of characters before the first line break.
pub open spec fn line_len(s: Seq<char>) -> int
    decreases s.len(),
{
    if s.len() == 0 || s[0] == '\n' || s[0] == '\r' {
        0
    } else {
        1 + line_len(s.drop_first())
    }
}

/// System text without the attribution line at its start, and without one line
/// break after that line.
pub open spec fn without_billing_header(s: Seq<char>) -> Seq<char> {
    if !has_prefix(s, ANTHROPIC_BILLING_HEADER_PREFIX@) {
        s
    } else {
        let tail = s.skip(line_len(s));
        let rest = tail.skip(break_len(tail));
        rest.skip(break_len(rest))
    }
}

/// Detect OpenAI o-series reasoning models (o1, o3, o4-mini, etc.).
pub fn is_openai_o_series(model: &str) -> (r: bool)
    ensures
        r == o_series(model@),
{
    let v = chars_of(model);
    v.len() > 1 && v[0] == 'o' && '0' <= v[1] && v[1] <= '9'
}

/// Whether a model, named in lower case, takes `reasoning_effort`.
pub fn lowercase_model_takes_effort(name: &str) -> (r: bool)
    ensures
        r == takes_effort(name@),
{
    if is_openai_o_series(name) {
        return true;
    }
    proof {
        reveal_strlit("gpt-");
    }
    if starts_with(name, "gpt-") {
        let v = chars_of(name);
        if v.len() > 4 && '5' <= v[4] && v[4] <= '9' {
            return true;
        }
    }
    name.eq("grok-4.5") || starts_with(name, "grok-4.5-") || starts_with(name, "grok-build-") || contains(
        name,
        "deepseek",
    )
}

/// Detect models that support `reasoning_effort`.
///
/// In addition to the OpenAI o-series, GPT-5+ and Grok families, DeepSeek models
/// expose a top-level `reasoning_effort` field whose legal values are `low`,
/// `high` and `max` (clamped via [`clamp_reasoning_effort_for_deepseek`]).
///
/// The case in which the ASCII letters of a name are written does not matter.
pub fn supports_reasoning_effort(model: &str) -> (r: bool)
    ensures
        r == takes_effort(lowercase(model@)),
        r == takes_effort(lowercase(ascii_lower(model@))),
        is_ascii_text(model@) ==> r == takes_effort(ascii_lower(model@)),
{
    let normalized = to_lowercase(model);
    lowercase_model_takes_effort(normalized.as_str())
}

/// A text with its ASCII letters in capitals.
pub open spec fn ascii_upper(s: Seq<char>) -> Seq<char> {
    s.map_values(
        |c: char|
            if 'a' <= c <= 'z' {
                ((c as u32 - 32) as u32) as char
            } else {
                c
            },
    )
}

/// A model takes an effort whether its name is written in capitals or not.
pub proof fn law_case_of_a_model_does_not_matter(model: Seq<char>)
    ensures
        ascii_lower(ascii_upper(model)) == ascii_lower(model),
        takes_effort(lowercase(ascii_lower(ascii_upper(model)))) == takes_effort(lowercase(ascii_lower(model))),
{
    assert(ascii_lower(ascii_upper(model)) =~= ascii_lower(model));
}

/// Resolve the appropriate OpenAI `reasoning_effort` from an Anthropic request body.
pub fn resolve_reasoning_effort(body: &Json) -> (r: Option<&'static str>)
    ensures
        opt_text(r) == requested_effort(body@),
{
    if let Some(value) = body.path2("output_config", "effort") {
        if let Some(effort) = value.as_str() {
            return if effort.eq("low") {
                Some("low")
            } else if effort.eq("medium") {
                Some("medium")
            } else if effort.eq("high") {
                Some("high")
            } else if effort.eq("max") {
                Some("xhigh")
            } else {
                None
            };
        }
    }
    let thinking = match body.get("thinking") {
        Some(thinking) => thinking,
        None => {
            return None;
        },
    };
    if field_is(thinking, "type", "adaptive") {
        Some("xhigh")
    } else if field_is(thinking, "type", "enabled") {
        match thinking.u64_at("budget_tokens") {
            Some(b) => if b < 4_000 {
                Some("low")
            } else if b < 16_000 {
                Some("medium")
            } else {
                Some("high")
            },
            None => Some("high"),
        }
    } else {
        None
    }
}

/// Clamp a resolved OpenAI `reasoning_effort` value to the legal DeepSeek values:
/// `max` and `xhigh` become `max`, `low` stays `low`, and all else becomes `high`.
pub fn clamp_reasoning_effort_for_deepseek(effort: &str) -> (r: &'static str)
    ensures
        r@ == deepseek_effort(effort@),
{
    if effort.eq("max") || effort.eq("xhigh") {
        "max"
    } else if effort.eq("low") {
        "low"
    } else {
        "high"
    }
}

/// The effort that goes out to an upstream model.
pub(crate) fn effort_for_upstream(body: &Json, model: &str) -> (r: Option<&'static str>)
    ensures
        opt_text(r) == upstream_effort(body@, model@),
{
    if supports_reasoning_effort(model) {
        match resolve_reasoning_effort(body) {
            Some(effort) => if contains(model, "deepseek") {
                Some(clamp_reasoning_effort_for_deepseek(effort))
            } else {
                Some(effort)
            },
            None => None,
        }
    } else {
        None
    }
}

fn break_at(v: &Vec<char>, i: usize) -> (r: usize)
    requires
        i <= v@.len(),
    ensures
        r == break_len(v@.skip(i as int)),
        i + r <= v@.len(),
{
    let n: usize = v.len();
    if n - i > 1 && v[i] == '\r' && v[i + 1] == '\n' {
        2
    } else if n - i > 0 && (v[i] == '\n' || v[i] == '\r') {
        1
    } else {
        0
    }
}

/// Strip only a leading attribution line from system text.
pub fn strip_leading_anthropic_billing_header(text: &str) -> (r: &str)
    ensures
        r@ == without_billing_header(text@),
{
    if !starts_with(text, ANTHROPIC_BILLING_HEADER_PREFIX) {
        return text;
    }
    let v = chars_of(text);
    let n: usize = v.len();
    let mut i: usize = 0;
    assert(v@.skip(0) =~= v@);
    while i < n && v[i] != '\n' && v[i] != '\r'
        invariant
            i <= n,
            n == v@.len(),
            line_len(v@) == i + line_len(v@.skip(i as int)),
        decreases n - i,
    {
        assert(v@.skip(i as int).drop_first() =~= v@.skip(i + 1));
        i += 1;
    }
    let first: usize = i + break_at(&v, i);
    let second: usize = first + break_at(&v, first);
    proof {
        let tail = text@.skip(i as int);
        assert(tail.skip(first - i) =~= text@.skip(first as int));
        assert(text@.skip(first as int).skip(second - first) =~= text@.subrange(second as int, n as int));
    }
    text.substring_char(second, n)
}

/// `stream_options.include_usage` for a streaming request.
pub open spec fn with_stream_usage(v: JsonV) -> JsonV {
    if opt_bool(v.get("stream"@)) != Some(true) {
        v
    } else {
        let options = match v.get("stream_options"@) {
            Some(JsonV::Object(m)) => m,
            _ => Map::empty(),
        };
        v.set("stream_options"@, JsonV::Object(options.insert("include_usage"@, JsonV::Bool(true))))
    }
}

/// The truth value that an optional document is.
pub open spec fn opt_bool(o: Option<JsonV>) -> Option<bool> {
    match o {
        Some(v) => v.as_bool(),
        None => None,
    }
}

/// The truth value under `key`, where there is one.
pub(crate) fn bool_at(v: &Json, key: &str) -> (r: Option<bool>)
    ensures
        r == opt_bool(v@.get(key@)),
{
    match v.get(key) {
        Some(b) => b.as_bool(),
        None => None,
    }
}

/// Inject `stream_options.include_usage` for streaming requests.
pub fn inject_openai_stream_include_usage(result: Json) -> (r: Json)
    ensures
        r@ == with_stream_usage(result@),
{
    if bool_at(&result, "stream") != Some(true) {
        return result;
    }
    let options = match result.get("stream_options") {
        Some(Json::Object(o)) => o.copy(),
        _ => JsonObject::new(),
    };
    result.set("stream_options", Json::Object(options.with("include_usage", Json::Bool(true))))
}

/// A Chat tool choice that names one function.
pub open spec fn function_choice(name: Seq<char>) -> JsonV {
    JsonV::Object(
        map![
            "type"@ => JsonV::Text("function"@),
            "function"@ => JsonV::Object(map!["name"@ => JsonV::Text(name)]),
        ],
    )
}

/// An Anthropic tool choice in the Chat format.
pub open spec fn chat_tool_choice(choice: JsonV) -> JsonV {
    match choice {
        JsonV::Text(s) => if s == "any"@ {
            JsonV::Text("required"@)
        } else {
            choice
        },
        JsonV::Object(_) => match choice.str_at("type"@) {
            Some(t) => if t == "any"@ {
                JsonV::Text("required"@)
            } else if t == "auto"@ || t == "none"@ {
                JsonV::Text(t)
            } else if t == "tool"@ {
                function_choice(choice.str_or("name"@, Seq::empty()))
            } else {
                choice
            },
            None => choice,
        },
        _ => choice,
    }
}

/// An Anthropic tool choice in the Chat format.
pub fn map_tool_choice_to_chat(tool_choice: &Json) -> (r: Json)
    ensures
        r@ == chat_tool_choice(tool_choice@),
{
    match tool_choice {
        Json::Text(s) => if s.as_str().eq("any") {
            Json::text("required")
        } else {
            tool_choice.copy()
        },
        Json::Object(_) => match tool_choice.str_at("type") {
            Some(t) => if t.eq("any") {
                Json::text("required")
            } else if t.eq("auto") || t.eq("none") {
                Json::text(t)
            } else if t.eq("tool") {
                Json::Object(
                    JsonObject::new().with("type", Json::text("function")).with(
                        "function",
                        Json::Object(
                            JsonObject::new().with("name", Json::text(tool_choice.str_or_empty("name"))),
                        ),
                    ),
                )
            } else {
                tool_choice.copy()
            },
            None => tool_choice.copy(),
        },
        _ => tool_choice.copy(),
    }
}

/// Whether a Chat message is a system message.
pub open spec fn is_system(message: JsonV) -> bool {
    message.str_at("role"@) == Some("system"@)
}

/// The system messages among a list, in order.
pub open spec fn system_messages(ms: Seq<JsonV>) -> Seq<JsonV>
    decreases ms.len(),
{
    if ms.len() == 0 {
        Seq::empty()
    } else if is_system(ms.last()) {
        system_messages(ms.drop_last()).push(ms.last())
    } else {
        system_messages(ms.drop_last())
    }
}

/// The messages that are no system messages, in order.
pub open spec fn other_messages(ms: Seq<JsonV>) -> Seq<JsonV>
    decreases ms.len(),
{
    if ms.len() == 0 {
        Seq::empty()
    } else if is_system(ms.last()) {
        other_messages(ms.drop_last())
    } else {
        other_messages(ms.drop_last()).push(ms.last())
    }
}

/// The strings under `text` of a list of parts, in order.
pub open spec fn part_texts(parts: Seq<JsonV>) -> Seq<Seq<char>>
    decreases parts.len(),
{
    if parts.len() == 0 {
        Seq::empty()
    } else {
        match parts.last().str_at("text"@) {
            Some(t) => part_texts(parts.drop_last()).push(t),
            None => part_texts(parts.drop_last()),
        }
    }
}

/// The text of a system message.
pub open spec fn system_text(message: JsonV) -> Seq<char> {
    match message.get("content"@) {
        Some(JsonV::Text(t)) => t,
        Some(JsonV::Array(parts)) => join(part_texts(parts), "\n"@),
        _ => Seq::empty(),
    }
}

/// The texts of a list of system messages, without the empty ones.
pub open spec fn system_texts(ms: Seq<JsonV>) -> Seq<Seq<char>>
    decreases ms.len(),
{
    if ms.len() == 0 {
        Seq::empty()
    } else if system_text(ms.last()).len() > 0 {
        system_texts(ms.drop_last()).push(system_text(ms.last()))
    } else {
        system_texts(ms.drop_last())
    }
}

/// A Chat message of plain text.
pub open spec fn chat_message(role: Seq<char>, text: Seq<char>) -> JsonV {
    JsonV::Object(map!["role"@ => JsonV::Text(role), "content"@ => JsonV::Text(text)])
}

/// Messages with one system message at most, at the front. One is moved there;
/// several are joined.
pub open spec fn with_leading_system(ms: Seq<JsonV>) -> Seq<JsonV> {
    let systems = system_messages(ms);
    let texts = system_texts(systems);
    if systems.len() == 0 {
        ms
    } else if systems.len() == 1 {
        systems + other_messages(ms)
    } else if texts.len() > 0 {
        seq![chat_message("system"@, join(texts, "\n"@))] + other_messages(ms)
    } else {
        other_messages(ms)
    }
}

/// A Chat message of plain text.
pub(crate) fn make_chat_message(role: &str, text: &str) -> (r: Json)
    ensures
        r@ == chat_message(role@, text@),
{
    Json::Object(JsonObject::new().with("role", Json::text(role)).with("content", Json::text(text)))
}

/// The strings under `text` of a list of parts, in order.
pub(crate) fn collect_part_texts(parts: &Vec<Json>) -> (r: Vec<String>)
    ensures
        texts(r@) == part_texts(models(parts@)),
{
    broadcast use lemma_texts_push;

    let ghost all = models(parts@);
    let mut out: Vec<String> = Vec::new();
    let mut i: usize = 0;
    assert(texts(out@) =~= Seq::empty());
    while i < parts.len()
        invariant
            i <= parts@.len(),
            all == models(parts@),
            texts(out@) == part_texts(all.take(i as int)),
        decreases parts@.len() - i,
    {
        proof {
            lemma_step(all, i as int);
        }
        if let Some(t) = parts[i].str_at("text") {
            out.push(t.to_owned());
        }
        i += 1;
    }
    proof {
        lemma_whole(all);
    }
    out
}

fn make_system_text(message: &Json) -> (r: String)
    ensures
        r@ == system_text(message@),
{
    match message.get("content") {
        Some(content) => match content.as_str() {
            Some(t) => t.to_owned(),
            None => match content.as_array() {
                Some(parts) => join_texts(&collect_part_texts(parts), "\n"),
                None => String::new(),
            },
        },
        None => String::new(),
    }
}

/// Messages with one system message at most, at the front.
pub fn normalize_openai_system_messages(messages: Vec<Json>) -> (r: Vec<Json>)
    ensures
        models(r@) == with_leading_system(models(messages@)),
{
    broadcast use {lemma_texts_push, group_models};

    let ghost all = models(messages@);
    let mut systems: Vec<Json> = Vec::new();
    let mut others: Vec<Json> = Vec::new();
    let mut parts: Vec<String> = Vec::new();
    let mut i: usize = 0;
    assert(texts(parts@) =~= Seq::empty());
    assert(system_texts(Seq::empty()) =~= Seq::empty());
    while i < messages.len()
        invariant
            i <= messages@.len(),
            all == models(messages@),
            models(systems@) == system_messages(all.take(i as int)),
            models(others@) == other_messages(all.take(i as int)),
            texts(parts@) == system_texts(models(systems@)),
        decreases messages@.len() - i,
    {
        proof {
            lemma_step(all, i as int);
        }
        let message = &messages[i];
        if field_is(message, "role", "system") {
            let ghost before = models(systems@);
            systems.push(message.copy());
            let text = make_system_text(message);
            assert(models(systems@) == before.push(message@));
            assert(before.push(message@).drop_last() =~= before);
            assert(before.push(message@).last() == message@);
            if !text.as_str().is_empty() {
                parts.push(text);
            }
        } else {
            others.push(message.copy());
        }
        i += 1;
    }
    proof {
        lemma_whole(all);
        assert(models(systems@).len() == systems@.len());
        assert(texts(parts@).len() == parts@.len());
    }
    if systems.len() == 0 {
        return messages;
    }
    let ghost rest = others@;
    if systems.len() == 1 {
        let ghost lead = systems@;
        let mut out = systems;
        out.append(&mut others);
        assert(out@ == lead + rest);
        assert(models(out@) =~= models(lead) + models(rest));
        return out;
    }
    if parts.len() > 0 {
        let mut out: Vec<Json> = Vec::new();
        out.push(make_chat_message("system", join_texts(&parts, "\n").as_str()));
        let ghost lead = out@;
        out.append(&mut others);
        assert(out@ == lead + rest);
        assert(models(out@) =~= models(lead) + models(rest));
        assert(models(lead) =~= seq![lead[0]@]);
        return out;
    }
    others
}

/// A tool input schema as OpenAI accepts it: the root has a type and properties,
/// and no value has the format `uri`. Properties and items are cleaned in turn.
pub open spec fn clean(v: JsonV, root: bool) -> JsonV
    decreases v,
{
    match v {
        JsonV::Object(m) => {
            let m1 = if root && !m.contains_key("type"@) {
                let typed = m.insert("type"@, JsonV::Text("object"@));
                if m.contains_key("properties"@) {
                    typed
                } else {
                    typed.insert("properties"@, empty_object())
                }
            } else {
                m
            };
            let m2 = if v.str_at("format"@) == Some("uri"@) {
                m1.remove("format"@)
            } else {
                m1
            };
            let m3 = if m.contains_key("properties"@) {
                match m["properties"@] {
                    JsonV::Object(p) => m2.insert("properties"@, JsonV::Object(clean_values(p))),
                    _ => m2,
                }
            } else {
                m2
            };
            let m4 = if m.contains_key("items"@) {
                m3.insert("items"@, clean(m["items"@], false))
            } else {
                m3
            };
            JsonV::Object(m4)
        },
        _ => v,
    }
}

/// The members of an object, each cleaned as a schema.
pub open spec fn clean_values(p: Map<Seq<char>, JsonV>) -> Map<Seq<char>, JsonV>
    decreases p,
{
    Map::new(
        |k: Seq<char>| p.contains_key(k),
        |k: Seq<char>|
            if p.dom().finite() && p.contains_key(k) {
                clean(p[k], false)
            } else {
                JsonV::Null
            },
    )
}

/// Clean tool input schema for OpenAI compatibility.
pub fn clean_schema(schema: &Json) -> (r: Json)
    ensures
        r@ == clean(schema@, true),
{
    clean_schema_inner(schema, true)
}

fn clean_schema_inner(schema: &Json, is_root: bool) -> (r: Json)
    ensures
        r@ == clean(schema@, is_root),
    decreases schema,
{
    match schema {
        Json::Object(o) => {
            let mut m = o.copy();
            if is_root && !o.contains_key("type") {
                m = m.with("type", Json::text("object"));
                if !o.contains_key("properties") {
                    m = m.with("properties", Json::Object(JsonObject::new()));
                }
            }
            if field_is(schema, "format", "uri") {
                m = m.without("format");
            }
            if let Some(Json::Object(p)) = o.get("properties") {
                m = m.with("properties", Json::Object(clean_members(p)));
            }
            if let Some(items) = o.get("items") {
                m = m.with("items", clean_schema_inner(items, false));
            }
            Json::Object(m)
        },
        _ => schema.copy(),
    }
}

fn clean_members(p: &JsonObject) -> (r: JsonObject)
    ensures
        r@ == clean_values(p@),
    decreases p,
{
    let n = p.len();
    let ghost ks = p.keys();
    let mut out = JsonObject::new();
    let mut i: usize = 0;
    while i < n
        invariant
            i <= n,
            n == ks.len(),
            ks == p.keys(),
            ks.no_duplicates(),
            ks.to_set() == p@.dom(),
            p@.dom().finite(),
            forall|k: Seq<char>| #[trigger] out@.contains_key(k) <==> ks.take(i as int).contains(k),
            forall|k: Seq<char>| #[trigger] out@.contains_key(k) ==> out@[k] == clean(p@[k], false),
        decreases n - i,
    {
        let ghost before = out@;
        let key = p.key_at(i);
        out = out.with(key, clean_schema_inner(p.value_at(i), false));
        proof {
            assert forall|k: Seq<char>| #[trigger] out@.contains_key(k) <==> ks.take(i + 1).contains(k) by {
                if out@.contains_key(k) {
                    if k == key@ {
                        assert(ks.take(i + 1)[i as int] == k);
                    } else {
                        assert(before.contains_key(k));
                        let j = choose|j: int| 0 <= j < i && ks.take(i as int)[j] == k;
                        assert(ks.take(i + 1)[j] == k);
                    }
                }
                if ks.take(i + 1).contains(k) {
                    let t = ks.take(i + 1);
                    let j = choose|j: int| 0 <= j < t.len() && t[j] == k;
                    if j < i {
                        assert(ks.take(i as int)[j] == k);
                        assert(before.contains_key(k));
                    }
                }
            }
        }
        i += 1;
    }
    proof {
        lemma_whole(ks);
        assert forall|k: Seq<char>| #[trigger] out@.contains_key(k) <==> clean_values(p@).contains_key(k) by {
            if p@.contains_key(k) {
                assert(ks.to_set().contains(k));
                assert(ks.contains(k));
            }
            if ks.contains(k) {
                assert(ks.to_set().contains(k));
            }
        }
        assert(out@ =~= clean_values(p@));
    }
    out
}

/// The number of bytes of a character in UTF-8.
pub open spec fn char_bytes(c: char) -> nat {
    let n = c as u32;
    if n < 0x80 {
        1
    } else if n < 0x800 {
        2
    } else if n < 0x10000 {
        3
    } else {
        4
    }
}

/// The longest start of a text that takes up at most `limit` bytes in UTF-8.
pub open spec fn clipped(s: Seq<char>, limit: nat) -> Seq<char>
    decreases s.len(),
{
    if s.len() == 0 || char_bytes(s[0]) > limit {
        Seq::empty()
    } else {
        seq![s[0]] + clipped(s.drop_first(), (limit - char_bytes(s[0])) as nat)
    }
}

/// The summary of a message: the message, or its start where it is long.
pub open spec fn message_summary(message: Seq<char>) -> Seq<char> {
    if encode_utf8(message).len() > 50 {
        clipped(message, 47) + "..."@
    } else {
        message
    }
}

/// The input of a `SendMessage` call with a summary in it.
pub open spec fn with_summary(input: JsonV) -> JsonV {
    match input {
        JsonV::Object(m) => if m.contains_key("summary"@) {
            input
        } else {
            JsonV::Object(
                m.insert(
                    "summary"@,
                    JsonV::Text(
                        match input.str_at("message"@) {
                            Some(t) => message_summary(t),
                            None => "Agent communication"@,
                        },
                    ),
                ),
            )
        },
        _ => input,
    }
}

/// The number of bytes of a character in UTF-8.
pub(crate) fn char_len(c: char) -> (r: usize)
    ensures
        r == char_bytes(c),
{
    let n: u32 = c as u32;
    if n < 0x80 {
        1
    } else if n < 0x800 {
        2
    } else if n < 0x10000 {
        3
    } else {
        4
    }
}

fn clip(text: &str, limit: usize) -> (r: String)
    ensures
        r@ == clipped(text@, limit as nat),
{
    let v = chars_of(text);
    let mut out = String::new();
    let mut left: usize = limit;
    let mut i: usize = 0;
    proof {
        assert(v@.skip(0) =~= v@);
        assert(out@ + clipped(v@, limit as nat) =~= clipped(v@, limit as nat));
    }
    while i < v.len() && char_len(v[i]) <= left
        invariant
            i <= v@.len(),
            out@ + clipped(v@.skip(i as int), left as nat) == clipped(v@, limit as nat),
        decreases v@.len() - i,
    {
        let ghost before = out@;
        let ghost rest = v@.skip(i as int);
        let ghost room = left as nat;
        out.push(v[i]);
        left = left - char_len(v[i]);
        proof {
            assert(rest.drop_first() =~= v@.skip(i + 1));
            assert(clipped(rest, room) == seq![rest[0]] + clipped(v@.skip(i + 1), left as nat));
            assert(out@ + clipped(v@.skip(i + 1), left as nat) =~= before + clipped(rest, room));
        }
        i += 1;
    }
    assert(out@ + Seq::<char>::empty() =~= out@);
    out
}

/// Ensure `SendMessage` tool calls include a `summary` field in `input`.
///
/// The upstream model often omits the required `summary` parameter when calling
/// `SendMessage`. It is filled from the start of `message`, or with a default.
pub fn ensure_send_message_summary(input: Json) -> (r: Json)
    ensures
        r@ == with_summary(input@),
{
    let summary = match input.str_at("message") {
        Some(t) => if t.as_bytes().len() > 50 {
            cat(clip(t, 47).as_str(), "...")
        } else {
            t.to_owned()
        },
        None => "Agent communication".to_owned(),
    };
    match input {
        Json::Object(m) => if m.contains_key("summary") {
            Json::Object(m)
        } else {
            Json::Object(m.with("summary", Json::Text(summary)))
        },
        other => other,
    }
}

/// The system messages for the system prompt of an Anthropic request: one for its
/// text, or one for each of its parts, none of them empty.
pub open spec fn system_prompt_messages(system: JsonV) -> Seq<JsonV> {
    match system {
        JsonV::Text(t) => prompt_message(t),
        JsonV::Array(parts) => system_part_messages(parts),
        _ => Seq::empty(),
    }
}

/// The system message for one text of a system prompt.
pub open spec fn prompt_message(t: Seq<char>) -> Seq<JsonV> {
    let text = without_billing_header(t);
    if text.len() > 0 {
        seq![chat_message("system"@, text)]
    } else {
        Seq::empty()
    }
}

/// The system messages for the parts of a system prompt.
pub open spec fn system_part_messages(parts: Seq<JsonV>) -> Seq<JsonV>
    decreases parts.len(),
{
    if parts.len() == 0 {
        Seq::empty()
    } else {
        system_part_messages(parts.drop_last()) + match parts.last().str_at("text"@) {
            Some(t) => prompt_message(t),
            None => Seq::empty(),
        }
    }
}

/// The Chat messages for a list of Anthropic messages.
pub open spec fn converted_messages(ms: Seq<JsonV>, preserve: bool) -> Seq<JsonV>
    decreases ms.len(),
{
    if ms.len() == 0 {
        Seq::empty()
    } else {
        converted_messages(ms.drop_last(), preserve) + openai_messages(
            ms.last().str_or("role"@, "user"@),
            ms.last().get("content"@),
            preserve,
        )
    }
}

/// Whether a tool of an Anthropic request goes out to the upstream.
pub open spec fn is_forwarded_tool(tool: JsonV) -> bool {
    tool.str_at("type"@) != Some("BatchTool"@) && tool.str_at("name"@) != Some("SendMessage"@)
}

/// An Anthropic tool as a Chat function.
pub open spec fn chat_tool(tool: JsonV) -> JsonV {
    JsonV::Object(
        map![
            "type"@ => JsonV::Text("function"@),
            "function"@ => JsonV::Object(
                map![
                    "name"@ => JsonV::Text(tool.str_or("name"@, Seq::empty())),
                    "description"@ => tool.at("description"@),
                    "parameters"@ => clean(or_empty_object(tool.get("input_schema"@)), true),
                ],
            ),
        ],
    )
}

/// The Chat functions for the tools of an Anthropic request.
pub open spec fn chat_tools(tools: Seq<JsonV>) -> Seq<JsonV>
    decreases tools.len(),
{
    if tools.len() == 0 {
        Seq::empty()
    } else if is_forwarded_tool(tools.last()) {
        chat_tools(tools.drop_last()).push(chat_tool(tools.last()))
    } else {
        chat_tools(tools.drop_last())
    }
}

/// The messages of the Chat request for an Anthropic request.
pub open spec fn chat_request_messages(body: JsonV, preserve: bool) -> Seq<JsonV> {
    with_leading_system(
        system_prompt_messages(body.at("system"@)) + converted_messages(body.items_at("messages"@), preserve),
    )
}

/// The Chat request for an Anthropic request.
pub open spec fn chat_request(body: JsonV, preserve: bool) -> JsonV {
    let model = body.str_or("model"@, Seq::empty());
    let m = insert_some(Map::empty(), "model"@, opt_as_text(body.str_at("model"@)));
    let m = m.insert("messages"@, JsonV::Array(chat_request_messages(body, preserve)));
    let m = insert_some(
        m,
        if o_series(model) {
            "max_completion_tokens"@
        } else {
            "max_tokens"@
        },
        body.get("max_tokens"@),
    );
    let m = insert_some(m, "temperature"@, body.get("temperature"@));
    let m = insert_some(m, "top_p"@, body.get("top_p"@));
    let m = insert_some(m, "stop"@, body.get("stop_sequences"@));
    let m = insert_some(m, "stream"@, body.get("stream"@));
    let m = insert_some(m, "reasoning_effort"@, opt_as_text(upstream_effort(body, model)));
    let tools = chat_tools(body.items_at("tools"@));
    let m = if tools.len() > 0 {
        m.insert("tools"@, JsonV::Array(tools))
    } else {
        m
    };
    let m = match body.get("tool_choice"@) {
        Some(choice) => m.insert("tool_choice"@, chat_tool_choice(choice)),
        None => m,
    };
    JsonV::Object(m)
}

/// An optional text as an optional document.
pub open spec fn opt_as_text(o: Option<Seq<char>>) -> Option<JsonV> {
    match o {
        Some(t) => Some(JsonV::Text(t)),
        None => None,
    }
}

/// The object with a text under `key`, where there is one.
pub(crate) fn with_text(o: JsonObject, key: &str, text: Option<&str>) -> (r: JsonObject)
    ensures
        r@ == insert_some(o@, key@, opt_as_text(opt_text(text))),
{
    match text {
        Some(t) => o.with(key, Json::text(t)),
        None => o,
    }
}

/// Adds the documents of `more` at the end of `list`.
pub(crate) fn extend(list: &mut Vec<Json>, more: Vec<Json>)
    ensures
        models(final(list)@) == models(old(list)@) + models(more@),
{
    let ghost before = list@;
    let ghost added = more@;
    let mut rest = more;
    list.append(&mut rest);
    assert(list@ == before + added);
    assert(models(list@) =~= models(before) + models(added));
}

fn push_prompt_message(list: &mut Vec<Json>, t: &str)
    ensures
        models(final(list)@) == models(old(list)@) + prompt_message(t@),
{
    broadcast use group_models;

    let ghost before = models(list@);
    let text = strip_leading_anthropic_billing_header(t);
    if !text.is_empty() {
        list.push(make_chat_message("system", text));
        assert(models(list@) =~= before + prompt_message(t@));
    } else {
        assert(before + Seq::<JsonV>::empty() =~= before);
    }
}

fn make_system_prompt_messages(body: &Json) -> (r: Vec<Json>)
    ensures
        models(r@) == system_prompt_messages(body@.at("system"@)),
{
    broadcast use group_models;

    let mut out: Vec<Json> = Vec::new();
    if let Some(system) = body.get("system") {
        if let Some(t) = system.as_str() {
            push_prompt_message(&mut out, t);
            assert(models(out@) =~= prompt_message(t@));
        } else if let Some(parts) = system.as_array() {
            let ghost all = models(parts@);
            let mut i: usize = 0;
            while i < parts.len()
                invariant
                    i <= parts@.len(),
                    all == models(parts@),
                    models(out@) == system_part_messages(all.take(i as int)),
                decreases parts@.len() - i,
            {
                proof {
                    lemma_step(all, i as int);
                    assert(models(out@) + Seq::<JsonV>::empty() =~= models(out@));
                }
                if let Some(t) = parts[i].str_at("text") {
                    push_prompt_message(&mut out, t);
                }
                i += 1;
            }
            proof {
                lemma_whole(all);
            }
        }
    }
    out
}

fn convert_messages(ms: &Vec<Json>, preserve: bool) -> (r: Vec<Json>)
    ensures
        models(r@) == converted_messages(models(ms@), preserve),
{
    broadcast use group_models;

    let ghost all = models(ms@);
    let mut out: Vec<Json> = Vec::new();
    let mut i: usize = 0;
    while i < ms.len()
        invariant
            i <= ms@.len(),
            all == models(ms@),
            models(out@) == converted_messages(all.take(i as int), preserve),
        decreases ms@.len() - i,
    {
        proof {
            lemma_step(all, i as int);
        }
        let role = ms[i].str_or("role", "user");
        extend(&mut out, convert_message_to_openai(role, ms[i].get("content"), preserve));
        i += 1;
    }
    proof {
        lemma_whole(all);
    }
    out
}

fn make_chat_tool(tool: &Json) -> (r: Json)
    ensures
        r@ == chat_tool(tool@),
{
    let schema = copy_or_empty_object(tool, "input_schema");
    Json::Object(
        JsonObject::new().with("type", Json::text("function")).with(
            "function",
            Json::Object(
                JsonObject::new().with("name", Json::text(tool.str_or_empty("name"))).with(
                    "description",
                    tool.copy_at("description"),
                ).with("parameters", clean_schema(&schema)),
            ),
        ),
    )
}

fn make_chat_tools(tools: &Vec<Json>) -> (r: Vec<Json>)
    ensures
        models(r@) == chat_tools(models(tools@)),
{
    broadcast use group_models;

    let ghost all = models(tools@);
    let mut out: Vec<Json> = Vec::new();
    let mut i: usize = 0;
    while i < tools.len()
        invariant
            i <= tools@.len(),
            all == models(tools@),
            models(out@) == chat_tools(all.take(i as int)),
        decreases tools@.len() - i,
    {
        proof {
            lemma_step(all, i as int);
        }
        let tool = &tools[i];
        if !field_is(tool, "type", "BatchTool") && !field_is(tool, "name", "SendMessage") {
            out.push(make_chat_tool(tool));
        }
        i += 1;
    }
    proof {
        lemma_whole(all);
    }
    out
}

/// Anthropic request to OpenAI Chat Completions request.
pub fn anthropic_to_openai(body: &Json) -> (r: Result<Json, Error>)
    ensures
        r is Ok,
        r->Ok_0@ == chat_request(body@, false),
{
    anthropic_to_openai_with_reasoning_content(body, false)
}

/// Anthropic request to OpenAI Chat Completions request.
///
/// `preserve_reasoning_content` is for DeepSeek-compatible models that
/// understand `reasoning_content` on assistant tool-call messages.
pub fn anthropic_to_openai_with_reasoning_content(body: &Json, preserve_reasoning_content: bool) -> (r: Result<
    Json,
    Error,
>)
    ensures
        r is Ok,
        r->Ok_0@ == chat_request(body@, preserve_reasoning_content),
{
    broadcast use group_models;

    let model = body.str_or_empty("model");
    let mut m = with_text(JsonObject::new(), "model", body.str_at("model"));
    let mut messages = make_system_prompt_messages(body);
    let ghost prompts = models(messages@);
    if let Some(ms) = body.array_at("messages") {
        extend(&mut messages, convert_messages(ms, preserve_reasoning_content));
    } else {
        assert(converted_messages(Seq::empty(), preserve_reasoning_content) =~= Seq::empty());
        assert(prompts + Seq::<JsonV>::empty() =~= prompts);
    }
    m = m.with("messages", Json::array(normalize_openai_system_messages(messages)));
    let limit_key = if is_openai_o_series(model) {
        "max_completion_tokens"
    } else {
        "max_tokens"
    };
    m = m.with_some(limit_key, body.get("max_tokens"));
    m = m.with_some("temperature", body.get("temperature"));
    m = m.with_some("top_p", body.get("top_p"));
    m = m.with_some("stop", body.get("stop_sequences"));
    m = m.with_some("stream", body.get("stream"));
    m = with_text(m, "reasoning_effort", effort_for_upstream(body, model));
    if let Some(tools) = body.array_at("tools") {
        let out = make_chat_tools(tools);
        assert(models(out@).len() == out@.len());
        if out.len() > 0 {
            m = m.with("tools", Json::array(out));
        }
    } else {
        assert(chat_tools(Seq::empty()) =~= Seq::empty());
    }
    if let Some(choice) = body.get("tool_choice") {
        m = m.with("tool_choice", map_tool_choice_to_chat(choice));
    }
    Ok(Json::Object(m))
}

/// Messages have one system message at most, and it is the first.
pub proof fn law_system_message_leads(ms: Seq<JsonV>)
    ensures
        forall|i: int|
            0 < i < with_leading_system(ms).len() ==> !is_system(#[trigger] with_leading_system(ms)[i]),
{
    lemma_system_split(ms);
    let systems = system_messages(ms);
    let others = other_messages(ms);
    if systems.len() == 0 {
        assert(ms =~= others);
    } else {
        let out = with_leading_system(ms);
        assert forall|i: int| 0 < i < out.len() implies !is_system(#[trigger] out[i]) by {
            if systems.len() == 1 || system_texts(systems).len() > 0 {
                assert(out[i] == others[i - 1]);
            } else {
                assert(out[i] == others[i]);
            }
        }
    }
}

/// The other messages stay as they are and in their order.
pub proof fn law_other_messages_are_kept(ms: Seq<JsonV>)
    ensures
        other_messages(with_leading_system(ms)) == other_messages(ms),
{
    lemma_system_split(ms);
    let systems = system_messages(ms);
    let others = other_messages(ms);
    lemma_others_of_others(others);
    if systems.len() > 0 {
        let out = with_leading_system(ms);
        if systems.len() == 1 || system_texts(systems).len() > 0 {
            let lead = out[0];
            assert(out =~= seq![lead] + others);
            assert(is_system(lead)) by {
                if systems.len() != 1 {
                    reveal_strlit("role");
                    reveal_strlit("content");
                    assert("role"@.len() != "content"@.len());
                }
            }
            lemma_others_behind_system(lead, others);
        }
    }
}

proof fn lemma_system_split(ms: Seq<JsonV>)
    ensures
        system_messages(ms).len() + other_messages(ms).len() == ms.len(),
        system_messages(ms).len() == 0 ==> other_messages(ms) == ms,
        forall|i: int| 0 <= i < system_messages(ms).len() ==> is_system(#[trigger] system_messages(ms)[i]),
        forall|i: int| 0 <= i < other_messages(ms).len() ==> !is_system(#[trigger] other_messages(ms)[i]),
    decreases ms.len(),
{
    if ms.len() > 0 {
        lemma_system_split(ms.drop_last());
        assert(ms.drop_last().push(ms.last()) =~= ms);
    } else {
        assert(other_messages(ms) =~= ms);
    }
}

proof fn lemma_others_of_others(others: Seq<JsonV>)
    requires
        forall|i: int| 0 <= i < others.len() ==> !is_system(#[trigger] others[i]),
    ensures
        other_messages(others) == others,
    decreases others.len(),
{
    if others.len() > 0 {
        let front = others.drop_last();
        assert forall|i: int| 0 <= i < front.len() implies !is_system(#[trigger] front[i]) by {
            assert(front[i] == others[i]);
        }
        lemma_others_of_others(front);
        assert(!is_system(others[others.len() - 1]));
        assert(front.push(others.last()) =~= others);
    } else {
        assert(other_messages(others) =~= others);
    }
}

proof fn lemma_others_behind_system(lead: JsonV, others: Seq<JsonV>)
    requires
        is_system(lead),
        forall|i: int| 0 <= i < others.len() ==> !is_system(#[trigger] others[i]),
    ensures
        other_messages(seq![lead] + others) == others,
    decreases others.len(),
{
    let all = seq![lead] + others;
    if others.len() > 0 {
        let front = others.drop_last();
        assert forall|i: int| 0 <= i < front.len() implies !is_system(#[trigger] front[i]) by {
            assert(front[i] == others[i]);
        }
        lemma_others_behind_system(lead, front);
        assert(all.drop_last() =~= seq![lead] + front);
        assert(all.last() == others[others.len() - 1]);
        assert(front.push(others.last()) =~= others);
    } else {
        assert(all.drop_last() =~= Seq::<JsonV>::empty());
        assert(all.last() == lead);
        assert(other_messages(Seq::<JsonV>::empty()) =~= Seq::<JsonV>::empty());
        assert(others =~= Seq::<JsonV>::empty());
    }
}

} // verus!
