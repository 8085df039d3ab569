//! Images in the results of tools: how they are recognised, taken out and
//! presented to an upstream whose tool messages hold plain text only.

use vstd::prelude::*;
use vstd::string::*;
use vstd::utf8::*;
use crate::json::{Json, JsonObject, JsonV, empty_object, field_is, group_models, lemma_step, lemma_whole, make_text_block, models, opt_json, opt_string, text_block};
use crate::json_canonical::{canonical_json_string, compact_text};
use crate::json_text::{json_parse, parse_json};
use crate::text::{cat3, contains, has_infix, has_prefix, starts_with, trim, trimmed};

verus! {

/// How deep a tool result is searched for images.
pub const MAX_MEDIA_TRAVERSAL_DEPTH: usize = 32;

/// A string that is an image data URL as a whole counts as an image from this
/// length in bytes on.
pub const MIN_IMAGE_STRING_BYTES: usize = 8192;

/// What stands in a tool result in place of an image that was moved out of it.
pub const TOOL_RESULT_MEDIA_MOVED_MARKER: &'static str = "[Image moved to the following user message]";

/// What stands in place of an image that the upstream model cannot see.
pub const UNSUPPORTED_IMAGE_MARKER: &'static str = "[Unsupported Image]";

/// A Chat content part that shows the image at `url`.
pub open spec fn url_part(url: Seq<char>) -> JsonV {
    JsonV::Object(
        map![
            "type"@ => JsonV::Text("image_url"@),
            "image_url"@ => JsonV::Object(map!["url"@ => JsonV::Text(url)]),
        ],
    )
}

/// The data URL of base64 data.
pub open spec fn data_url(media_type: Seq<char>, data: Seq<char>) -> Seq<char> {
    "data:"@ + media_type + ";base64,"@ + data
}

/// Whether a text is the data URL of an image.
pub open spec fn is_image_data_url(t: Seq<char>) -> bool {
    has_prefix(t, "data:image/"@) && has_infix(t, ";base64,"@)
}

/// The image that a string is as a whole.
pub open spec fn string_image(t: Seq<char>) -> Option<JsonV> {
    let u = trim(t);
    if encode_utf8(u).len() >= MIN_IMAGE_STRING_BYTES && is_image_data_url(u) {
        Some(url_part(u))
    } else {
        None
    }
}

/// The Chat image part for an Anthropic or MCP image.
pub open spec fn source_image(v: JsonV) -> Option<JsonV> {
    match v.get("source"@) {
        Some(source) => if source.str_at("type"@) == Some("base64"@) {
            match source.str_at("data"@) {
                Some(data) => Some(url_part(data_url(source.str_or("media_type"@, "image/png"@), data))),
                None => None,
            }
        } else if source.str_at("type"@) == Some("url"@) {
            match source.str_at("url"@) {
                Some(url) => Some(url_part(url)),
                None => None,
            }
        } else {
            None
        },
        None => match v.str_at("data"@) {
            Some(data) => Some(url_part(data_url(v.str_or("mimeType"@, "image/png"@), data))),
            None => None,
        },
    }
}

/// The Chat image part for a value with an `image_url` member.
pub open spec fn linked_image(v: JsonV) -> Option<JsonV> {
    match v.get("image_url"@) {
        Some(JsonV::Text(url)) => Some(url_part(url)),
        Some(target) => if target.str_at("url"@) is Some {
            Some(JsonV::Object(map!["type"@ => JsonV::Text("image_url"@), "image_url"@ => target]))
        } else {
            None
        },
        None => None,
    }
}

/// The Chat image part for an image in a tool result.
pub open spec fn chat_media_part(v: JsonV) -> Option<JsonV> {
    match v.get("type"@) {
        None => if v.str_or("image_url"@, Seq::empty()).len() > 0 && !has_prefix(
            v.str_or("image_url"@, Seq::empty()),
            "data:image/"@,
        ) {
            None
        } else {
            linked_image(v)
        },
        Some(JsonV::Text(t)) => if t == "image"@ {
            source_image(v)
        } else if t == "image_url"@ || t == "input_image"@ {
            linked_image(v)
        } else {
            None
        },
        Some(_) => None,
    }
}

/// The Chat image part for a typed image block of any of the formats.
pub open spec fn content_part(block: JsonV) -> Option<JsonV> {
    let t = block.str_or("type"@, Seq::empty());
    if t == "image"@ {
        let source = match block.get("source"@) {
            Some(s) => s,
            None => empty_object(),
        };
        let kind = source.str_or("type"@, Seq::empty());
        if kind == "base64"@ {
            Some(
                url_part(
                    data_url(source.str_or("media_type"@, "image/jpeg"@), source.str_or("data"@, Seq::empty())),
                ),
            )
        } else if kind == "url"@ {
            Some(url_part(source.str_or("url"@, Seq::empty())))
        } else {
            None
        }
    } else if t == "image_url"@ {
        Some(block)
    } else if t == "input_image"@ {
        match block.str_at("image_url"@) {
            Some(url) => Some(url_part(url)),
            None => match block.str_at("data"@) {
                Some(data) => Some(url_part(data_url(block.str_or("media_type"@, "image/jpeg"@), data))),
                None => None,
            },
        }
    } else {
        None
    }
}

/// The image part that an object stands for. With `typed`, blocks that are typed
/// as images count also where a conversion would not take them out.
pub open spec fn slot_part(v: JsonV, typed: bool) -> Option<JsonV> {
    match chat_media_part(v) {
        Some(p) => Some(p),
        None => if typed {
            content_part(v)
        } else {
            None
        },
    }
}

/// What takes the place of the images.
pub enum Replacement<'a> {
    /// One block for each object, and one text for each string.
    Fixed(&'a Json, &'a str),
    /// The description of the image, by its place among all images.
    Described(&'a Vec<Option<String>>),
}

/// The model of what takes the place of the images.
pub enum ReplacementV {
    Fixed(JsonV, Seq<char>),
    Described(Seq<Option<Seq<char>>>),
}

impl<'a> View for Replacement<'a> {
    type V = ReplacementV;

    open spec fn view(&self) -> ReplacementV {
        match self {
            Replacement::Fixed(b, t) => ReplacementV::Fixed(b@, t@),
            Replacement::Described(d) => ReplacementV::Described(
                Seq::new(d@.len(), |i: int| opt_string(d@[i])),
            ),
        }
    }
}

impl ReplacementV {
    /// The text in place of the image number `n`.
    pub open spec fn text(self, n: nat) -> Seq<char> {
        match self {
            ReplacementV::Fixed(_, t) => t,
            ReplacementV::Described(d) => if n < d.len() && d[n as int] is Some {
                d[n as int]->0
            } else {
                UNSUPPORTED_IMAGE_MARKER@
            },
        }
    }

    /// The block in place of the image number `n`.
    pub open spec fn block(self, n: nat) -> JsonV {
        match self {
            ReplacementV::Fixed(b, _) => b,
            ReplacementV::Described(_) => text_block(self.text(n)),
        }
    }
}

/// A value whose images were replaced, and the images.
pub struct Rewritten {
    pub value: JsonV,
    pub parts: Seq<JsonV>,
}

/// `v` with its images replaced, the first of them being number `n`. Images are
/// looked for in arrays, in the `content` of objects, and in strings that are
/// JSON text, down to a fixed depth.
pub open spec fn rewrite(v: JsonV, depth: nat, typed: bool, how: ReplacementV, n: nat) -> Rewritten
    decreases 2 * (MAX_MEDIA_TRAVERSAL_DEPTH + 1 - depth) + 1, 0int,
{
    if depth > MAX_MEDIA_TRAVERSAL_DEPTH {
        Rewritten { value: v, parts: Seq::empty() }
    } else {
        match v {
            JsonV::Text(t) => match string_image(t) {
                Some(p) => Rewritten { value: JsonV::Text(how.text(n)), parts: seq![p] },
                None => if trim(t).len() == 0 {
                    Rewritten { value: v, parts: Seq::empty() }
                } else {
                    match json_parse(trim(t)) {
                        Ok(inner) => {
                            let r = rewrite(inner, depth + 1, typed, how, n);
                            if r.parts.len() > 0 {
                                Rewritten { value: JsonV::Text(compact_text(r.value)), parts: r.parts }
                            } else {
                                Rewritten { value: v, parts: Seq::empty() }
                            }
                        },
                        Err(_) => Rewritten { value: v, parts: Seq::empty() },
                    }
                },
            },
            JsonV::Array(items) => {
                let r = rewrite_items(items, depth, typed, how, n);
                Rewritten { value: JsonV::Array(r.0), parts: r.1 }
            },
            JsonV::Object(m) => match slot_part(v, typed) {
                Some(p) => Rewritten { value: how.block(n), parts: seq![p] },
                None => if m.contains_key("content"@) {
                    let r = rewrite(m["content"@], depth + 1, typed, how, n);
                    Rewritten { value: JsonV::Object(m.insert("content"@, r.value)), parts: r.parts }
                } else {
                    Rewritten { value: v, parts: Seq::empty() }
                },
            },
            _ => Rewritten { value: v, parts: Seq::empty() },
        }
    }
}

/// The items of an array at `depth` with their images replaced, and the images.
pub open spec fn rewrite_items(
    items: Seq<JsonV>,
    depth: nat,
    typed: bool,
    how: ReplacementV,
    n: nat,
) -> (Seq<JsonV>, Seq<JsonV>)
    decreases 2 * (MAX_MEDIA_TRAVERSAL_DEPTH + 1 - depth), items.len() as int,
{
    if items.len() == 0 || depth > MAX_MEDIA_TRAVERSAL_DEPTH {
        (Seq::empty(), Seq::empty())
    } else {
        let (values, parts) = rewrite_items(items.drop_last(), depth, typed, how, n);
        let r = rewrite(items.last(), depth + 1, typed, how, n + parts.len());
        (values.push(r.value), parts + r.parts)
    }
}

/// A Chat content part that shows the image at `url`.
pub(crate) fn make_url_part(url: &str) -> (r: Json)
    ensures
        r@ == url_part(url@),
{
    Json::Object(
        JsonObject::new().with("type", Json::text("image_url")).with(
            "image_url",
            Json::Object(JsonObject::new().with("url", Json::text(url))),
        ),
    )
}

/// The data URL of base64 data.
pub(crate) fn make_data_url(media_type: &str, data: &str) -> (r: String)
    ensures
        r@ == data_url(media_type@, data@),
{
    let mut s = cat3("data:", media_type, ";base64,");
    s.append(data);
    s
}

/// The image that a string is as a whole.
pub fn whole_string_image_data_url(text: &str) -> (r: Option<Json>)
    ensures
        opt_json(r) == string_image(text@),
{
    let url = trimmed(text);
    if url.as_bytes().len() >= MIN_IMAGE_STRING_BYTES && starts_with(url, "data:image/") && contains(
        url,
        ";base64,",
    ) {
        Some(make_url_part(url))
    } else {
        None
    }
}

fn source_image_part(v: &Json) -> (r: Option<Json>)
    ensures
        opt_json(r) == source_image(v@),
{
    match v.get("source") {
        Some(source) => if field_is(source, "type", "base64") {
            match source.str_at("data") {
                Some(data) => Some(
                    make_url_part(make_data_url(source.str_or("media_type", "image/png"), data).as_str()),
                ),
                None => None,
            }
        } else if field_is(source, "type", "url") {
            match source.str_at("url") {
                Some(url) => Some(make_url_part(url)),
                None => None,
            }
        } else {
            None
        },
        None => match v.str_at("data") {
            Some(data) => Some(
                make_url_part(make_data_url(v.str_or("mimeType", "image/png"), data).as_str()),
            ),
            None => None,
        },
    }
}

fn linked_image_part(v: &Json) -> (r: Option<Json>)
    ensures
        opt_json(r) == linked_image(v@),
{
    match v.get("image_url") {
        Some(target) => match target.as_str() {
            Some(url) => Some(make_url_part(url)),
            None => if target.str_at("url").is_some() {
                Some(
                    Json::Object(
                        JsonObject::new().with("type", Json::text("image_url")).with("image_url", target.copy()),
                    ),
                )
            } else {
                None
            },
        },
        None => None,
    }
}

/// The Chat image part for an image in a tool result.
pub fn chat_media_part_from_tool_part(v: &Json) -> (r: Option<Json>)
    ensures
        opt_json(r) == chat_media_part(v@),
{
    match v.get("type") {
        None => {
            let url = v.str_or_empty("image_url");
            if !url.is_empty() && !starts_with(url, "data:image/") {
                None
            } else {
                linked_image_part(v)
            }
        },
        Some(t) => match t.as_str() {
            Some(t) => if t.eq("image") {
                source_image_part(v)
            } else if t.eq("image_url") || t.eq("input_image") {
                linked_image_part(v)
            } else {
                None
            },
            None => None,
        },
    }
}

/// The Chat image part for a typed image block of any of the formats.
pub fn image_to_content_part(block: &Json) -> (r: Option<Json>)
    ensures
        opt_json(r) == content_part(block@),
{
    let t = block.str_or_empty("type");
    if t.eq("image") {
        let nothing = Json::Object(JsonObject::new());
        let source = match block.get("source") {
            Some(s) => s,
            None => &nothing,
        };
        let kind = source.str_or_empty("type");
        if kind.eq("base64") {
            let url = make_data_url(source.str_or("media_type", "image/jpeg"), source.str_or_empty("data"));
            Some(make_url_part(url.as_str()))
        } else if kind.eq("url") {
            Some(make_url_part(source.str_or_empty("url")))
        } else {
            None
        }
    } else if t.eq("image_url") {
        Some(block.copy())
    } else if t.eq("input_image") {
        match block.str_at("image_url") {
            Some(url) => Some(make_url_part(url)),
            None => match block.str_at("data") {
                Some(data) => Some(
                    make_url_part(make_data_url(block.str_or("media_type", "image/jpeg"), data).as_str()),
                ),
                None => None,
            },
        }
    } else {
        None
    }
}

fn image_slot_part(v: &Json, typed: bool) -> (r: Option<Json>)
    ensures
        opt_json(r) == slot_part(v@, typed),
{
    match chat_media_part_from_tool_part(v) {
        Some(p) => Some(p),
        None => if typed {
            image_to_content_part(v)
        } else {
            None
        },
    }
}

impl<'a> Replacement<'a> {
    fn text(&self, n: usize) -> (r: String)
        ensures
            r@ == self@.text(n as nat),
    {
        match self {
            Replacement::Fixed(_, t) => (*t).to_owned(),
            Replacement::Described(d) => {
                if n < d.len() {
                    if let Some(t) = &d[n] {
                        return t.clone();
                    }
                }
                UNSUPPORTED_IMAGE_MARKER.to_owned()
            },
        }
    }

    fn block(&self, n: usize) -> (r: Json)
        ensures
            r@ == self@.block(n as nat),
    {
        match self {
            Replacement::Fixed(b, _) => (*b).copy(),
            Replacement::Described(_) => make_text_block(self.text(n).as_str()),
        }
    }
}

/// `v` with its images replaced. The images are added to `parts`, and are
/// numbered by their places there.
pub fn rewrite_images(v: &Json, depth: usize, typed: bool, how: &Replacement, parts: &mut Vec<Json>) -> (r: Json)
    requires
        depth <= MAX_MEDIA_TRAVERSAL_DEPTH + 1,
    ensures
        r@ == rewrite(v@, depth as nat, typed, how@, old(parts)@.len()).value,
        models(final(parts)@) == models(old(parts)@) + rewrite(
            v@,
            depth as nat,
            typed,
            how@,
            old(parts)@.len(),
        ).parts,
    decreases 2 * (MAX_MEDIA_TRAVERSAL_DEPTH + 1 - depth) + 1, 0int,
{
    broadcast use group_models;

    let n: usize = parts.len();
    let ghost before = models(parts@);
    if depth > MAX_MEDIA_TRAVERSAL_DEPTH {
        assert(before + Seq::<JsonV>::empty() =~= before);
        return v.copy();
    }
    match v {
        Json::Text(t) => {
            if let Some(p) = whole_string_image_data_url(t.as_str()) {
                parts.push(p);
                assert(models(parts@) =~= before + seq![p@]);
                return Json::Text(how.text(n));
            }
            let body = trimmed(t.as_str());
            if body.is_empty() {
                assert(before + Seq::<JsonV>::empty() =~= before);
                return v.copy();
            }
            match parse_json(body) {
                Ok(inner) => {
                    let r = rewrite_images(&inner, depth + 1, typed, how, parts);
                    assert(models(parts@).len() == parts@.len() && before.len() == n);
                    if parts.len() > n {
                        Json::Text(canonical_json_string(&r))
                    } else {
                        let ghost found = rewrite(inner@, (depth + 1) as nat, typed, how@, n as nat).parts;
                        assert(found =~= Seq::<JsonV>::empty());
                        v.copy()
                    }
                },
                Err(_) => {
                    assert(before + Seq::<JsonV>::empty() =~= before);
                    v.copy()
                },
            }
        },
        Json::Array(items) => {
            assert(v@->Array_0 =~= models(items@));
            let out = rewrite_image_items(items, depth, typed, how, parts);
            Json::array(out)
        },
        Json::Object(o) => {
            if let Some(p) = image_slot_part(v, typed) {
                parts.push(p);
                assert(models(parts@) =~= before + seq![p@]);
                return how.block(n);
            }
            match o.get("content") {
                Some(content) => {
                    let r = rewrite_images(content, depth + 1, typed, how, parts);
                    Json::Object(o.copy().with("content", r))
                },
                None => {
                    assert(before + Seq::<JsonV>::empty() =~= before);
                    v.copy()
                },
            }
        },
        _ => {
            assert(before + Seq::<JsonV>::empty() =~= before);
            v.copy()
        },
    }
}

fn rewrite_image_items(items: &Vec<Json>, depth: usize, typed: bool, how: &Replacement, parts: &mut Vec<Json>) -> (r:
    Vec<Json>)
    requires
        depth <= MAX_MEDIA_TRAVERSAL_DEPTH,
    ensures
        models(r@) == rewrite_items(models(items@), depth as nat, typed, how@, old(parts)@.len()).0,
        models(final(parts)@) == models(old(parts)@) + rewrite_items(
            models(items@),
            depth as nat,
            typed,
            how@,
            old(parts)@.len(),
        ).1,
    decreases 2 * (MAX_MEDIA_TRAVERSAL_DEPTH + 1 - depth), items@.len() as int,
{
    broadcast use group_models;

    let ghost all = models(items@);
    let ghost before = models(parts@);
    let ghost n = parts@.len();
    let mut out: Vec<Json> = Vec::new();
    let mut i: usize = 0;
    proof {
        assert(before + Seq::<JsonV>::empty() =~= before);
        assert(all.take(0) =~= Seq::empty());
    }
    while i < items.len()
        invariant
            i <= items@.len(),
            depth <= MAX_MEDIA_TRAVERSAL_DEPTH,
            all == models(items@),
            models(out@) == rewrite_items(all.take(i as int), depth as nat, typed, how@, n).0,
            models(parts@) == before + rewrite_items(all.take(i as int), depth as nat, typed, how@, n).1,
            before.len() == n,
        decreases items@.len() - i,
    {
        let ghost so_far = models(parts@);
        let r = rewrite_images(&items[i], depth + 1, typed, how, parts);
        proof {
            lemma_step(all, i as int);
            assert(models(parts@) =~= before + rewrite_items(all.take(i + 1), depth as nat, typed, how@, n).1);
        }
        out.push(r);
        i += 1;
    }
    proof {
        lemma_whole(all);
    }
    out
}

/// How images that were moved out of a tool result are announced.
pub open spec fn media_note(tool_use_id: Seq<char>) -> Seq<char> {
    "[Images from tool result "@ + tool_use_id + "]"@
}

/// A tool result whose images go into a message of their own.
pub struct ToolMediaPlan {
    /// The images as Chat content parts.
    pub media_parts: Vec<Json>,
    /// The tool result as text, with a marker in place of each image.
    pub tool_content: String,
}

/// How images that are moved out of a tool result are replaced there.
pub open spec fn moved() -> ReplacementV {
    ReplacementV::Fixed(text_block(TOOL_RESULT_MEDIA_MOVED_MARKER@), TOOL_RESULT_MEDIA_MOVED_MARKER@)
}

/// A tool result as the text of a Chat message.
pub open spec fn result_text(v: JsonV) -> Seq<char> {
    match v {
        JsonV::Text(t) => t,
        _ => compact_text(v),
    }
}

/// A tool result as the text of a Chat message.
pub(crate) fn make_result_text(v: &Json) -> (r: String)
    ensures
        r@ == result_text(v@),
{
    match v {
        Json::Text(t) => t.clone(),
        _ => canonical_json_string(v),
    }
}

/// Takes the images out of a tool result; none where it holds none.
pub fn plan_chat_tool_output_media(value: &Json) -> (r: Option<ToolMediaPlan>)
    ensures
        ({
            let found = rewrite(value@, 0, false, moved(), 0);
            match r {
                Some(plan) => found.parts.len() > 0 && models(plan.media_parts@) == found.parts
                    && plan.tool_content@ == result_text(found.value),
                None => found.parts.len() == 0,
            }
        }),
{
    broadcast use group_models;

    let block = make_text_block(TOOL_RESULT_MEDIA_MOVED_MARKER);
    let mut media_parts: Vec<Json> = Vec::new();
    let how = Replacement::Fixed(&block, TOOL_RESULT_MEDIA_MOVED_MARKER);
    let cleaned = rewrite_images(value, 0, false, &how, &mut media_parts);
    let ghost found = rewrite(value@, 0, false, moved(), 0);
    assert(models(media_parts@) =~= found.parts);
    assert(models(media_parts@).len() == media_parts@.len());
    if media_parts.len() == 0 {
        None
    } else {
        Some(ToolMediaPlan { media_parts, tool_content: make_result_text(&cleaned) })
    }
}

/// Adds the images of one tool result to those that wait to be presented.
pub(crate) fn queue_chat_tool_output_media(pending: &mut Vec<Json>, tool_use_id: &str, media_parts: Vec<Json>)
    ensures
        models(final(pending)@) == models(old(pending)@).push(text_block(media_note(tool_use_id@))) + models(
            media_parts@,
        ),
{
    broadcast use group_models;

    let note = cat3("[Images from tool result ", tool_use_id, "]");
    pending.push(make_text_block(note.as_str()));
    let ghost before = pending@;
    let ghost added = media_parts@;
    let mut rest = media_parts;
    pending.append(&mut rest);
    assert(pending@ == before + added);
    assert(models(pending@) =~= models(before) + models(added));
}

/// Replacing images does not change which images there are: neither the
/// replacement nor the number of the first image has a part in it.
pub proof fn law_images_do_not_depend_on_replacement(
    v: JsonV,
    depth: nat,
    typed: bool,
    a: ReplacementV,
    m: nat,
    b: ReplacementV,
    n: nat,
)
    ensures
        rewrite(v, depth, typed, a, m).parts == rewrite(v, depth, typed, b, n).parts,
    decreases 2 * (MAX_MEDIA_TRAVERSAL_DEPTH + 1 - depth) + 1, 0int,
{
    if depth <= MAX_MEDIA_TRAVERSAL_DEPTH {
        match v {
            JsonV::Text(t) => {
                if let Ok(inner) = json_parse(trim(t)) {
                    law_images_do_not_depend_on_replacement(inner, depth + 1, typed, a, m, b, n);
                }
            },
            JsonV::Array(items) => {
                lemma_items_do_not_depend_on_replacement(items, depth, typed, a, m, b, n);
            },
            JsonV::Object(o) => {
                if o.contains_key("content"@) {
                    law_images_do_not_depend_on_replacement(o["content"@], depth + 1, typed, a, m, b, n);
                }
            },
            _ => {},
        }
    }
}

proof fn lemma_items_do_not_depend_on_replacement(
    items: Seq<JsonV>,
    depth: nat,
    typed: bool,
    a: ReplacementV,
    m: nat,
    b: ReplacementV,
    n: nat,
)
    ensures
        rewrite_items(items, depth, typed, a, m).1 == rewrite_items(items, depth, typed, b, n).1,
    decreases 2 * (MAX_MEDIA_TRAVERSAL_DEPTH + 1 - depth), items.len() as int,
{
    if items.len() > 0 && depth <= MAX_MEDIA_TRAVERSAL_DEPTH {
        let front = items.drop_last();
        lemma_items_do_not_depend_on_replacement(front, depth, typed, a, m, b, n);
        let k = rewrite_items(front, depth, typed, a, m).1.len();
        law_images_do_not_depend_on_replacement(items.last(), depth + 1, typed, a, m + k, b, n + k);
    }
}

/// A value without images is left as it is.
pub proof fn law_without_images_unchanged(v: JsonV, depth: nat, typed: bool, how: ReplacementV, n: nat)
    requires
        rewrite(v, depth, typed, how, n).parts.len() == 0,
    ensures
        rewrite(v, depth, typed, how, n).value == v,
    decreases 2 * (MAX_MEDIA_TRAVERSAL_DEPTH + 1 - depth) + 1, 0int,
{
    if depth <= MAX_MEDIA_TRAVERSAL_DEPTH {
        match v {
            JsonV::Array(items) => {
                lemma_items_without_images_unchanged(items, depth, typed, how, n);
            },
            JsonV::Object(o) => {
                if slot_part(v, typed) is None && o.contains_key("content"@) {
                    law_without_images_unchanged(o["content"@], depth + 1, typed, how, n);
                    assert(o.insert("content"@, o["content"@]) =~= o);
                }
            },
            _ => {},
        }
    }
}

proof fn lemma_items_without_images_unchanged(
    items: Seq<JsonV>,
    depth: nat,
    typed: bool,
    how: ReplacementV,
    n: nat,
)
    requires
        rewrite_items(items, depth, typed, how, n).1.len() == 0,
        depth <= MAX_MEDIA_TRAVERSAL_DEPTH,
    ensures
        rewrite_items(items, depth, typed, how, n).0 == items,
    decreases 2 * (MAX_MEDIA_TRAVERSAL_DEPTH + 1 - depth), items.len() as int,
{
    if items.len() > 0 {
        let front = items.drop_last();
        let parts = rewrite_items(front, depth, typed, how, n).1;
        assert(parts.len() == 0);
        lemma_items_without_images_unchanged(front, depth, typed, how, n);
        law_without_images_unchanged(items.last(), depth + 1, typed, how, n);
        assert(front.push(items.last()) =~= items);
    } else {
        assert(items =~= Seq::empty());
    }
}

/// Whether no string that is looked into holds an image.
pub open spec fn strings_hold_no_image(v: JsonV, depth: nat, typed: bool) -> bool
    decreases 2 * (MAX_MEDIA_TRAVERSAL_DEPTH + 1 - depth) + 1,
{
    if depth > MAX_MEDIA_TRAVERSAL_DEPTH {
        true
    } else {
        match v {
            JsonV::Text(_) => rewrite(v, depth, typed, moved(), 0).parts.len() == 0,
            JsonV::Array(items) => forall|i: int|
                0 <= i < items.len() ==> strings_hold_no_image(#[trigger] items[i], depth + 1, typed),
            JsonV::Object(m) => m.contains_key("content"@) ==> strings_hold_no_image(
                m["content"@],
                depth + 1,
                typed,
            ),
            _ => true,
        }
    }
}

/// Whether blocks of text take the place of images that are blocks.
pub open spec fn replaces_by_text(how: ReplacementV) -> bool {
    forall|n: nat| #[trigger] how.block(n) == text_block(how.text(n))
}

proof fn lemma_text_block_is_no_image(t: Seq<char>, depth: nat, typed: bool, how: ReplacementV, n: nat)
    ensures
        rewrite(text_block(t), depth, typed, how, n).parts.len() == 0,
{
    reveal_strlit("type");
    reveal_strlit("text");
    reveal_strlit("content");
    reveal_strlit("image");
    reveal_strlit("image_url");
    reveal_strlit("input_image");
    assert("type"@[1] != "text"@[1]);
    assert("content"@.len() != "type"@.len() && "content"@.len() != "text"@.len());
    assert("text"@.len() == 4 && "image"@.len() == 5 && "image_url"@.len() == 9 && "input_image"@.len() == 11);
    let block = text_block(t);
    assert(block.get("type"@) == Some(JsonV::Text("text"@)));
    assert(slot_part(block, typed) is None);
}

/// The members of an object other than `content` decide whether it is an image.
proof fn lemma_content_decides_nothing(m: Map<Seq<char>, JsonV>, content: JsonV, typed: bool)
    requires
        slot_part(JsonV::Object(m), typed) is None,
    ensures
        slot_part(JsonV::Object(m.insert("content"@, content)), typed) is None,
{
    reveal_strlit("content");
    reveal_strlit("type");
    reveal_strlit("image_url");
    reveal_strlit("source");
    reveal_strlit("data");
    reveal_strlit("mimeType");
    reveal_strlit("media_type");
    assert("content"@.len() == 7 && "type"@.len() == 4 && "image_url"@.len() == 9 && "source"@.len() == 6);
    assert("data"@.len() == 4 && "mimeType"@.len() == 8 && "media_type"@.len() == 10);
    let a = JsonV::Object(m);
    let b = JsonV::Object(m.insert("content"@, content));
    assert(a.get("type"@) == b.get("type"@));
    assert(a.get("image_url"@) == b.get("image_url"@));
    assert(a.get("source"@) == b.get("source"@));
    assert(a.get("data"@) == b.get("data"@));
    assert(a.get("mimeType"@) == b.get("mimeType"@));
    assert(a.get("media_type"@) == b.get("media_type"@));
}

/// Once the images that are blocks were replaced, none is left: neither the same
/// search nor the narrower one of a conversion finds any.
pub proof fn law_no_image_is_left(
    v: JsonV,
    depth: nat,
    typed: bool,
    how: ReplacementV,
    n: nat,
    again: bool,
    then_how: ReplacementV,
    k: nat,
)
    requires
        strings_hold_no_image(v, depth, typed),
        replaces_by_text(how),
        again ==> typed,
    ensures
        rewrite(rewrite(v, depth, typed, how, n).value, depth, again, then_how, k).parts.len() == 0,
    decreases 2 * (MAX_MEDIA_TRAVERSAL_DEPTH + 1 - depth) + 1, 0int,
{
    if depth <= MAX_MEDIA_TRAVERSAL_DEPTH {
        match v {
            JsonV::Text(t) => {
                law_images_do_not_depend_on_replacement(v, depth, typed, how, n, moved(), 0);
                law_without_images_unchanged(v, depth, typed, how, n);
                lemma_narrower_search(v, depth, typed, again, then_how, k);
            },
            JsonV::Array(items) => {
                lemma_no_image_is_left_in_items(items, depth, typed, how, n, again, then_how, k);
            },
            JsonV::Object(m) => {
                if slot_part(v, typed) is Some {
                    assert(how.block(n) == text_block(how.text(n)));
                    lemma_text_block_is_no_image(how.text(n), depth, again, then_how, k);
                } else if m.contains_key("content"@) {
                    let content = rewrite(m["content"@], depth + 1, typed, how, n).value;
                    law_no_image_is_left(m["content"@], depth + 1, typed, how, n, again, then_how, k);
                    lemma_content_decides_nothing(m, content, typed);
                    let left = m.insert("content"@, content);
                    assert(left["content"@] == content);
                }
            },
            _ => {},
        }
    }
}

proof fn lemma_no_image_is_left_in_items(
    items: Seq<JsonV>,
    depth: nat,
    typed: bool,
    how: ReplacementV,
    n: nat,
    again: bool,
    then_how: ReplacementV,
    k: nat,
)
    requires
        depth <= MAX_MEDIA_TRAVERSAL_DEPTH,
        forall|i: int| 0 <= i < items.len() ==> strings_hold_no_image(#[trigger] items[i], depth + 1, typed),
        replaces_by_text(how),
        again ==> typed,
    ensures
        rewrite_items(rewrite_items(items, depth, typed, how, n).0, depth, again, then_how, k).1.len() == 0,
    decreases 2 * (MAX_MEDIA_TRAVERSAL_DEPTH + 1 - depth), items.len() as int,
{
    if items.len() > 0 {
        let front = items.drop_last();
        assert forall|i: int| 0 <= i < front.len() implies strings_hold_no_image(
            #[trigger] front[i],
            depth + 1,
            typed,
        ) by {
            assert(front[i] == items[i]);
        }
        lemma_no_image_is_left_in_items(front, depth, typed, how, n, again, then_how, k);
        let (values, parts) = rewrite_items(front, depth, typed, how, n);
        assert(items.last() == items[items.len() - 1]);
        law_no_image_is_left(items.last(), depth + 1, typed, how, n + parts.len(), again, then_how, k);
        let out = rewrite_items(items, depth, typed, how, n).0;
        assert(out.drop_last() =~= values);
    }
}

/// What a wider search does not find, a narrower one does not find either.
proof fn lemma_narrower_search(v: JsonV, depth: nat, typed: bool, again: bool, how: ReplacementV, n: nat)
    requires
        again ==> typed,
        rewrite(v, depth, typed, moved(), 0).parts.len() == 0,
    ensures
        rewrite(v, depth, again, how, n).parts.len() == 0,
    decreases 2 * (MAX_MEDIA_TRAVERSAL_DEPTH + 1 - depth) + 1, 0int,
{
    if depth <= MAX_MEDIA_TRAVERSAL_DEPTH {
        match v {
            JsonV::Text(t) => {
                if let Ok(inner) = json_parse(trim(t)) {
                    if string_image(t) is None && trim(t).len() > 0 {
                        lemma_narrower_search(inner, depth + 1, typed, again, how, n);
                    }
                }
            },
            JsonV::Array(items) => {
                lemma_narrower_search_of_items(items, depth, typed, again, how, n);
            },
            JsonV::Object(m) => {
                if m.contains_key("content"@) {
                    lemma_narrower_search(m["content"@], depth + 1, typed, again, how, n);
                }
            },
            _ => {},
        }
    }
}

proof fn lemma_narrower_search_of_items(
    items: Seq<JsonV>,
    depth: nat,
    typed: bool,
    again: bool,
    how: ReplacementV,
    n: nat,
)
    requires
        depth <= MAX_MEDIA_TRAVERSAL_DEPTH,
        again ==> typed,
        rewrite_items(items, depth, typed, moved(), 0).1.len() == 0,
    ensures
        rewrite_items(items, depth, again, how, n).1.len() == 0,
    decreases 2 * (MAX_MEDIA_TRAVERSAL_DEPTH + 1 - depth), items.len() as int,
{
    if items.len() > 0 {
        lemma_narrower_search_of_items(items.drop_last(), depth, typed, again, how, n);
        lemma_narrower_search(items.last(), depth + 1, typed, again, how, n);
    }
}

} // verus!
