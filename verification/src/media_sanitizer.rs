//! Proactive image stripping for confirmed text-only upstream models.
//!
//! Text-only models reject any image part of a request, and since the image
//! stays in the history of the conversation, every later request fails too. So
//! image blocks are replaced by a text marker before the request is converted.

use vstd::prelude::*;
use vstd::string::*;
use crate::error::LocalEntry;
use crate::json::{Json, JsonV, field_is, group_models, lemma_step, lemma_whole, make_text_block, models, text_block};
use crate::json_text::json_parse;
use crate::server::{key_of_messages, messages_key};
use crate::text::{ascii_lower, chars_of, has_prefix, has_suffix, matches_at, pieces, split_pieces, string_of, strip_prefix, texts, to_ascii_lower, trim, trimmed};
use crate::tool_media::{MAX_MEDIA_TRAVERSAL_DEPTH, Replacement, ReplacementV, UNSUPPORTED_IMAGE_MARKER, law_images_do_not_depend_on_replacement, law_no_image_is_left, moved, rewrite, rewrite_images, rewrite_items, strings_hold_no_image};

verus! {

/// The models that are known to take text only.
pub open spec fn text_only_tails() -> Seq<Seq<char>> {
    seq![
        "ark-code-latest"@,
        "deepseek-chat"@,
        "deepseek-reasoner"@,
        "deepseek-v4-flash"@,
        "deepseek-v4-flash-free"@,
        "deepseek-v4-pro"@,
        "glm-5.1"@,
        "glm-5.2"@,
        "kat-coder"@,
        "kat-coder-pro"@,
        "kat-coder-pro v1"@,
        "kat-coder-pro v2"@,
        "kat-coder-pro-v1"@,
        "kat-coder-pro-v2"@,
        "ling-2.5-1t"@,
        "longcat-2.0"@,
        "longcat-flash-chat"@,
        "minimax-m2.7"@,
        "minimax-m2.7-highspeed"@,
        "mimo-v2.5-pro"@,
        "qwen3-coder-480b"@,
        "qwen3-coder-480b-a35b-instruct"@,
        "qwen3-coder-flash"@,
        "qwen3-coder-next"@,
        "qwen3-coder-plus"@,
        "step-3.5-flash"@,
        "step-3.5-flash-2603"@,
        "us.deepseek.r1-v1"@,
    ]
}

/// A text without the prefix `p`, however often it is repeated.
pub open spec fn without_prefixes(s: Seq<char>, p: Seq<char>) -> Seq<char>
    decreases s.len(),
{
    if p.len() > 0 && has_prefix(s, p) {
        without_prefixes(s.skip(p.len() as int), p)
    } else {
        s
    }
}

/// A model name in the form in which it is looked up: without the prefix
/// `models/` and the marker of a long context, in lower case.
pub open spec fn model_id(name: Seq<char>) -> Seq<char> {
    let id = ascii_lower(trim(without_prefixes(trim(name), "models/"@)));
    if has_suffix(id, "[1m]"@) {
        trim(id.take(id.len() - "[1m]"@.len()))
    } else {
        id
    }
}

/// Whether a model is known to take text only.
pub open spec fn is_text_only(name: Seq<char>) -> bool {
    text_only_tails().contains(pieces(model_id(name), '/').last())
}

/// Whether a block is an image of any of the formats.
pub open spec fn is_image_block(block: JsonV) -> bool {
    ||| block.str_at("type"@) == Some("image"@)
    ||| block.str_at("type"@) == Some("image_url"@)
    ||| block.str_at("type"@) == Some("input_image"@)
}

/// The block that takes the place of an image; a cache breakpoint is kept.
pub open spec fn marker_block(block: JsonV) -> JsonV {
    match block.get("cache_control"@) {
        Some(c) => text_block(UNSUPPORTED_IMAGE_MARKER@).set("cache_control"@, c),
        None => text_block(UNSUPPORTED_IMAGE_MARKER@),
    }
}

/// How images in tool results are replaced.
pub open spec fn unsupported() -> ReplacementV {
    ReplacementV::Fixed(text_block(UNSUPPORTED_IMAGE_MARKER@), UNSUPPORTED_IMAGE_MARKER@)
}

/// A block without images, and the number of images that were in it.
pub open spec fn sanitized_block(block: JsonV) -> (JsonV, nat) {
    if is_image_block(block) {
        (marker_block(block), 1)
    } else if block.str_at("type"@) == Some("tool_result"@) && block.get("content"@) is Some {
        let r = rewrite(block.get("content"@)->0, 0, false, unsupported(), 0);
        (block.set("content"@, r.value), r.parts.len())
    } else {
        (block, 0)
    }
}

/// Blocks without images, and the number of images that were in them.
pub open spec fn sanitized_blocks(blocks: Seq<JsonV>) -> (Seq<JsonV>, nat)
    decreases blocks.len(),
{
    if blocks.len() == 0 {
        (Seq::empty(), 0)
    } else {
        let (front, n) = sanitized_blocks(blocks.drop_last());
        let (last, m) = sanitized_block(blocks.last());
        (front.push(last), n + m)
    }
}

/// A message without images, and the number of images that were in it.
pub open spec fn sanitized_message(message: JsonV) -> (JsonV, nat) {
    match message.array_at("content"@) {
        Some(blocks) => {
            let (out, n) = sanitized_blocks(blocks);
            (message.set("content"@, JsonV::Array(out)), n)
        },
        None => (message, 0),
    }
}

/// Messages without images, and the number of images that were in them.
pub open spec fn sanitized_messages(ms: Seq<JsonV>) -> (Seq<JsonV>, nat)
    decreases ms.len(),
{
    if ms.len() == 0 {
        (Seq::empty(), 0)
    } else {
        let (front, n) = sanitized_messages(ms.drop_last());
        let (last, m) = sanitized_message(ms.last());
        (front.push(last), n + m)
    }
}

/// A request without images, and the number of images that were in it.
pub open spec fn sanitized_body(body: JsonV, entry: LocalEntry, model: Seq<char>) -> (JsonV, nat) {
    match body.array_at(messages_key(entry)) {
        Some(ms) => if is_text_only(model) {
            let (out, n) = sanitized_messages(ms);
            (body.set(messages_key(entry), JsonV::Array(out)), n)
        } else {
            (body, 0)
        },
        None => (body, 0),
    }
}

fn strip_prefixes(s: &str) -> (r: String)
    ensures
        r@ == without_prefixes(s@, "models/"@),
{
    proof {
        reveal_strlit("models/");
    }
    let mut rest = s.to_owned();
    loop
        invariant
            "models/"@.len() > 0,
            without_prefixes(s@, "models/"@) == without_prefixes(rest@, "models/"@),
        decreases rest@.len(),
    {
        let next = match strip_prefix(rest.as_str(), "models/") {
            Some(t) => t.to_owned(),
            None => {
                return rest;
            },
        };
        rest = next;
    }
}

fn normalize_model_id(value: &str) -> (r: String)
    ensures
        r@ == model_id(value@),
{
    proof {
        reveal_strlit("[1m]");
    }
    let stripped = strip_prefixes(trimmed(value));
    let id = to_ascii_lower(trimmed(stripped.as_str()));
    let v = chars_of(id.as_str());
    let mark = chars_of("[1m]");
    let n: usize = v.len();
    if n >= 4 && matches_at(&v, &mark, n - 4) {
        proof {
            assert(v@.subrange(n - 4, n as int) =~= v@.skip(n - 4));
        }
        let head = string_of(&v, 0, n - 4);
        assert(head@ =~= v@.take(n - 4));
        trimmed(head.as_str()).to_owned()
    } else {
        assert(n >= 4 ==> v@.subrange(n - 4, n as int) =~= v@.skip(n - 4));
        id
    }
}

fn is_listed(tail: &str) -> (r: bool)
    ensures
        r == text_only_tails().contains(tail@),
{
    let list: [&str; 28] = [
        "ark-code-latest",
        "deepseek-chat",
        "deepseek-reasoner",
        "deepseek-v4-flash",
        "deepseek-v4-flash-free",
        "deepseek-v4-pro",
        "glm-5.1",
        "glm-5.2",
        "kat-coder",
        "kat-coder-pro",
        "kat-coder-pro v1",
        "kat-coder-pro v2",
        "kat-coder-pro-v1",
        "kat-coder-pro-v2",
        "ling-2.5-1t",
        "longcat-2.0",
        "longcat-flash-chat",
        "minimax-m2.7",
        "minimax-m2.7-highspeed",
        "mimo-v2.5-pro",
        "qwen3-coder-480b",
        "qwen3-coder-480b-a35b-instruct",
        "qwen3-coder-flash",
        "qwen3-coder-next",
        "qwen3-coder-plus",
        "step-3.5-flash",
        "step-3.5-flash-2603",
        "us.deepseek.r1-v1",
    ];
    let ghost all = text_only_tails();
    assert(Seq::new(28, |i: int| list@[i]@) =~= all);
    assert(forall|i: int| 0 <= i < 28 ==> #[trigger] list@[i]@ == Seq::new(28, |i: int| list@[i]@)[i]);
    let mut i: usize = 0;
    while i < 28
        invariant
            i <= 28,
            all.len() == 28,
            all == text_only_tails(),
            forall|j: int| 0 <= j < 28 ==> #[trigger] list@[j]@ == all[j],
            forall|j: int| 0 <= j < i ==> #[trigger] all[j] != tail@,
        decreases 28 - i,
    {
        assert(list@[i as int]@ == all[i as int]);
        if list[i].eq(tail) {
            return true;
        }
        i += 1;
    }
    false
}

/// Whether a model is known to take text only.
///
/// The registry is deliberately exact and fails open: an unlisted model (or an
/// unconfirmed variant of a listed family) keeps its images. Visual models of a
/// listed family have a name of their own (such as glm-5.2v).
pub fn is_confirmed_text_only_model(model: &str) -> (r: bool)
    ensures
        r == is_text_only(model@),
{
    let id = normalize_model_id(model);
    let parts = split_pieces(id.as_str(), '/');
    let n: usize = parts.len();
    assert(texts(parts@).last() == parts@[n - 1]@);
    is_listed(parts[n - 1].as_str())
}

/// Replace an image block with the text marker, carrying over any
/// `cache_control` breakpoint so prompt caching is not disrupted.
fn replace_block_with_text_marker(block: &Json) -> (r: Json)
    ensures
        r@ == marker_block(block@),
{
    let marker = make_text_block(UNSUPPORTED_IMAGE_MARKER);
    match block.get("cache_control") {
        Some(c) => marker.set("cache_control", c.copy()),
        None => marker,
    }
}

/// The block without images. Each image is added to `removed`.
fn sanitize_block(block: &Json, removed: &mut Vec<Json>) -> (r: Json)
    ensures
        r@ == sanitized_block(block@).0,
        final(removed)@.len() == old(removed)@.len() + sanitized_block(block@).1,
{
    if field_is(block, "type", "image") || field_is(block, "type", "image_url") || field_is(
        block,
        "type",
        "input_image",
    ) {
        removed.push(block.copy());
        return replace_block_with_text_marker(block);
    }
    if field_is(block, "type", "tool_result") {
        if let Some(content) = block.get("content") {
            let marker = make_text_block(UNSUPPORTED_IMAGE_MARKER);
            let how = Replacement::Fixed(&marker, UNSUPPORTED_IMAGE_MARKER);
            let ghost n = removed@.len();
            let ghost before = models(removed@);
            let cleaned = rewrite_images(content, 0, false, &how, removed);
            proof {
                law_images_do_not_depend_on_replacement(content@, 0, false, how@, n, unsupported(), 0);
                lemma_fixed_ignores_number(content@, 0, false, how@, n, 0);
                assert(models(removed@).len() == removed@.len());
                assert(before.len() == n);
            }
            return block.copy().set("content", cleaned);
        }
    }
    block.copy()
}

/// A fixed replacement gives the same value whatever the number of the first
/// image is.
proof fn lemma_fixed_ignores_number(v: JsonV, depth: nat, typed: bool, how: ReplacementV, m: nat, n: nat)
    requires
        how is Fixed,
    ensures
        rewrite(v, depth, typed, how, m) == rewrite(v, depth, typed, how, n),
    decreases 2 * (MAX_MEDIA_TRAVERSAL_DEPTH + 1 - depth) + 1, 0int,
{
    if depth <= MAX_MEDIA_TRAVERSAL_DEPTH {
        match v {
            JsonV::Text(t) => {
                if let Ok(inner) = json_parse(trim(t)) {
                    lemma_fixed_ignores_number(inner, depth + 1, typed, how, m, n);
                }
            },
            JsonV::Array(items) => {
                lemma_fixed_items_ignore_number(items, depth, typed, how, m, n);
            },
            JsonV::Object(o) => {
                if o.contains_key("content"@) {
                    lemma_fixed_ignores_number(o["content"@], depth + 1, typed, how, m, n);
                }
            },
            _ => {},
        }
    }
}

proof fn lemma_fixed_items_ignore_number(
    items: Seq<JsonV>,
    depth: nat,
    typed: bool,
    how: ReplacementV,
    m: nat,
    n: nat,
)
    requires
        how is Fixed,
    ensures
        rewrite_items(items, depth, typed, how, m) == rewrite_items(items, depth, typed, how, n),
    decreases 2 * (MAX_MEDIA_TRAVERSAL_DEPTH + 1 - depth), items.len() as int,
{
    if items.len() > 0 && depth <= MAX_MEDIA_TRAVERSAL_DEPTH {
        let front = items.drop_last();
        lemma_fixed_items_ignore_number(front, depth, typed, how, m, n);
        let k = rewrite_items(front, depth, typed, how, m).1.len();
        lemma_fixed_ignores_number(items.last(), depth + 1, typed, how, m + k, n + k);
    }
}

fn replace_images_in_message(message: &Json, removed: &mut Vec<Json>) -> (r: Json)
    ensures
        r@ == sanitized_message(message@).0,
        final(removed)@.len() == old(removed)@.len() + sanitized_message(message@).1,
{
    broadcast use group_models;

    let blocks = match message.array_at("content") {
        Some(blocks) => blocks,
        None => {
            return message.copy();
        },
    };
    let ghost all = models(blocks@);
    let ghost n = removed@.len();
    let mut out: Vec<Json> = Vec::new();
    let mut i: usize = 0;
    while i < blocks.len()
        invariant
            i <= blocks@.len(),
            all == models(blocks@),
            models(out@) == sanitized_blocks(all.take(i as int)).0,
            removed@.len() == n + sanitized_blocks(all.take(i as int)).1,
        decreases blocks@.len() - i,
    {
        proof {
            lemma_step(all, i as int);
        }
        out.push(sanitize_block(&blocks[i], removed));
        i += 1;
    }
    proof {
        lemma_whole(all);
    }
    message.copy().set("content", Json::array(out))
}

/// Replace every image block in the messages of `body` with `[Unsupported Image]`
/// when `model` is a confirmed text-only model. Returns the body and the number
/// of images replaced.
///
/// The decision is driven by the upstream model that will actually receive the
/// request, not the model the client asked for.
pub fn replace_images_for_text_only_model(body: &Json, model: &str) -> (r: (Json, usize))
    ensures
        r.0@ == sanitized_body(body@, LocalEntry::AnthropicMessages, model@).0,
        r.1 == sanitized_body(body@, LocalEntry::AnthropicMessages, model@).1,
{
    strip_images_for_text_only_model(body, LocalEntry::AnthropicMessages, model)
}

/// Replace every image block in a request of any entry with `[Unsupported Image]`
/// when `model` is a confirmed text-only model. Returns the body and the number
/// of images replaced.
pub fn strip_images_for_text_only_model(body: &Json, entry: LocalEntry, model: &str) -> (r: (Json, usize))
    ensures
        r.0@ == sanitized_body(body@, entry, model@).0,
        r.1 == sanitized_body(body@, entry, model@).1,
{
    broadcast use group_models;

    if !is_confirmed_text_only_model(model) {
        return (body.copy(), 0);
    }
    let key = key_of_messages(entry);
    let ms = match body.array_at(key) {
        Some(ms) => ms,
        None => {
            return (body.copy(), 0);
        },
    };
    let ghost all = models(ms@);
    let mut removed: Vec<Json> = Vec::new();
    let mut out: Vec<Json> = Vec::new();
    let mut i: usize = 0;
    while i < ms.len()
        invariant
            i <= ms@.len(),
            all == models(ms@),
            models(out@) == sanitized_messages(all.take(i as int)).0,
            removed@.len() == sanitized_messages(all.take(i as int)).1,
        decreases ms@.len() - i,
    {
        proof {
            lemma_step(all, i as int);
        }
        out.push(replace_images_in_message(&ms[i], &mut removed));
        i += 1;
    }
    proof {
        lemma_whole(all);
    }
    (body.copy().set(key, Json::array(out)), removed.len())
}

/// No block that is typed as an image is left in the messages of a request to a
/// model that takes text only.
pub proof fn law_no_image_block_is_left(body: JsonV, entry: LocalEntry, model: Seq<char>, i: int, k: int)
    requires
        is_text_only(model),
        0 <= i < sanitized_body(body, entry, model).0.items_at(messages_key(entry)).len(),
        0 <= k < sanitized_body(body, entry, model).0.items_at(messages_key(entry))[i].items_at("content"@).len(),
    ensures
        !is_image_block(
            sanitized_body(body, entry, model).0.items_at(messages_key(entry))[i].items_at("content"@)[k],
        ),
{
    let ms = body.items_at(messages_key(entry));
    lemma_sanitized_messages(ms);
    let m = ms[i];
    assert(sanitized_messages(ms).0[i] == sanitized_message(m).0);
    let blocks = m.items_at("content"@);
    lemma_sanitized_blocks(blocks);
    let b = blocks[k];
    assert(sanitized_blocks(blocks).0[k] == sanitized_block(b).0);
    lemma_sanitized_block(b);
}

/// Once a tool result was made fit for a model that takes text only, a conversion
/// finds no image to move out of it, as far as images stood there as blocks.
pub proof fn law_no_image_is_left_in_tool_result(block: JsonV, content: JsonV)
    requires
        block.str_at("type"@) == Some("tool_result"@),
        block.get("content"@) == Some(content),
        strings_hold_no_image(content, 0, false),
    ensures
        sanitized_block(block).0.get("content"@) matches Some(left) && rewrite(left, 0, false, moved(), 0).parts.len()
            == 0,
{
    reveal_strlit("tool_result");
    reveal_strlit("image");
    reveal_strlit("image_url");
    reveal_strlit("input_image");
    assert("tool_result"@.len() == 11 && "image"@.len() == 5 && "image_url"@.len() == 9);
    assert("tool_result"@[0] != "input_image"@[0]);
    assert(!is_image_block(block));
    law_no_image_is_left(content, 0, false, unsupported(), 0, false, moved(), 0);
}

proof fn lemma_sanitized_messages(ms: Seq<JsonV>)
    ensures
        sanitized_messages(ms).0.len() == ms.len(),
        forall|i: int|
            0 <= i < ms.len() ==> #[trigger] sanitized_messages(ms).0[i] == sanitized_message(ms[i]).0,
    decreases ms.len(),
{
    if ms.len() > 0 {
        lemma_sanitized_messages(ms.drop_last());
    }
}

proof fn lemma_sanitized_blocks(blocks: Seq<JsonV>)
    ensures
        sanitized_blocks(blocks).0.len() == blocks.len(),
        forall|i: int|
            0 <= i < blocks.len() ==> #[trigger] sanitized_blocks(blocks).0[i] == sanitized_block(blocks[i]).0,
    decreases blocks.len(),
{
    if blocks.len() > 0 {
        lemma_sanitized_blocks(blocks.drop_last());
    }
}

proof fn lemma_sanitized_block(block: JsonV)
    ensures
        !is_image_block(sanitized_block(block).0),
{
    reveal_strlit("type");
    reveal_strlit("text");
    reveal_strlit("content");
    reveal_strlit("cache_control");
    reveal_strlit("image");
    reveal_strlit("image_url");
    reveal_strlit("input_image");
    reveal_strlit("tool_result");
    assert("type"@.len() == 4 && "content"@.len() == 7 && "cache_control"@.len() == 13);
    assert("type"@[1] != "text"@[1]);
    assert("text"@.len() == 4 && "image"@.len() == 5 && "image_url"@.len() == 9 && "input_image"@.len() == 11);
    assert("tool_result"@.len() == 11 && "tool_result"@[0] != "input_image"@[0]);
}

} // verus!
