//! Image description for text-only upstreams.
//!
//! When a request carries images and the upstream model takes text only, a
//! separately configured vision model describes the images, and the descriptions
//! take their place. All images of a request go into one call; descriptions are
//! kept for a while by the fingerprint of the image; and where the vision model
//! fails, a marker takes the place of the images.

use std::collections::HashMap;
use vstd::prelude::*;
use vstd::string::*;
use crate::convert::{collect_part_texts, part_texts};
use crate::convert_response::transform_error;
use crate::error::{Error, ErrorV, LocalEntry};
use crate::forward::UpstreamType;
use crate::json::{Json, JsonObject, JsonV, field_is, group_models, lemma_step, lemma_whole, make_text_block, models, num, opt_string, opt_text, or_zero, text_block};
use crate::passthrough_log::{element_zero, first_element};
use crate::responses_reverse::single;
use crate::server::{key_of_messages, messages_key};
use crate::text::{ascii_lower, cat3, decimal, decimal_text, join, join_texts, texts, to_ascii_lower, trim, trimmed};
use crate::tool_media::{Replacement, ReplacementV, Rewritten, content_part, image_to_content_part, law_images_do_not_depend_on_replacement, law_no_image_is_left, law_without_images_unchanged, linked_image, replaces_by_text, rewrite, rewrite_images, string_image, strings_hold_no_image};

verus! {

/// How long a description is kept, in seconds.
pub const CACHE_TTL_SECONDS: u64 = 3600;

/// What the vision model is asked for images of any kind.
pub const GENERAL_PROMPT: &'static str = "Describe each of these images concisely. For each image, describe its content, any visible text, and how the images relate to each other. Prefix each description with [Image N].";

/// What the vision model is asked for the screens of programs.
pub const UI_PROMPT: &'static str = "Each of these images is a screenshot of a user interface. Describe each one so that the interface can be rebuilt from the text: its layout from top to bottom, its components with their state, all visible text word for word, its colors and spacing, and any error that it shows. Prefix each description with [Image N].";

/// What the vision model is asked for short descriptions.
pub const COMPACT_PROMPT: &'static str = "Describe each of these images in at most three sentences, with any visible text that matters. Prefix each description with [Image N].";

/// What the vision model is asked where it is to tell the kinds of images apart.
pub const AUTO_PROMPT: &'static str = "For each of these images, first decide whether it is a screenshot of a user interface. If it is, describe it so that the interface can be rebuilt from the text: its layout from top to bottom, its components with their state, all visible text word for word, its colors and spacing, and any error that it shows. If it is not, describe its content, any visible text, and how the images relate to each other. Prefix each description with [Image N].";

/// The kind of description that is asked for.
#[derive(Debug, Clone, Copy, PartialEq, Eq, Structural)]
pub enum PromptMode {
    /// By the kind of image.
    Auto,
    General,
    /// For the screens of programs.
    Ui,
    Compact,
}

/// The mode that a text names, in whatever case it is written. Anything else, or
/// nothing, is `Auto`.
pub open spec fn mode_named(name: Option<Seq<char>>) -> PromptMode {
    match name {
        Some(t) => {
            let n = ascii_lower(trim(t));
            if n == "general"@ {
                PromptMode::General
            } else if n == "ui"@ {
                PromptMode::Ui
            } else if n == "compact"@ {
                PromptMode::Compact
            } else {
                PromptMode::Auto
            }
        },
        None => PromptMode::Auto,
    }
}

impl PromptMode {
    /// The mode that a text names; anything else, or nothing, is `Auto`.
    pub fn parse(name: Option<&str>) -> (r: PromptMode)
        ensures
            r == mode_named(opt_text(name)),
    {
        match name {
            Some(t) => {
                let lower = to_ascii_lower(trimmed(t));
                let n = lower.as_str();
                if n.eq("general") {
                    PromptMode::General
                } else if n.eq("ui") {
                    PromptMode::Ui
                } else if n.eq("compact") {
                    PromptMode::Compact
                } else {
                    PromptMode::Auto
                }
            },
            None => PromptMode::Auto,
        }
    }
}

/// The vision model that is configured.
pub struct VisionConfig {
    pub url: String,
    pub api_key: String,
    pub model: String,
    pub upstream_type: UpstreamType,
    /// The kind of description that is asked for, where no prompt of one's own is
    /// set.
    pub prompt_mode: PromptMode,
    /// A prompt that takes the place of the one for the mode.
    pub custom_prompt: Option<String>,
    /// The limit of the description in tokens, where there is one.
    pub max_tokens: Option<u32>,
}

/// A description that is kept.
pub struct CacheEntry {
    /// The second at which it was stored.
    pub stored_at: u64,
    pub description: String,
}

/// The model of a description that is kept.
pub struct CachedV {
    pub stored_at: u64,
    pub text: Seq<char>,
}

/// The descriptions that are kept, by the fingerprint of the image.
pub struct VisionCache {
    pub entries: HashMap<u64, CacheEntry>,
}

impl View for VisionCache {
    type V = Map<u64, CachedV>;

    open spec fn view(&self) -> Map<u64, CachedV> {
        Map::new(
            |k: u64| self.entries@.contains_key(k),
            |k: u64|
                CachedV { stored_at: self.entries@[k].stored_at, text: self.entries@[k].description@ },
        )
    }
}

/// The description that is kept for a fingerprint at a time.
pub open spec fn kept(c: Map<u64, CachedV>, fingerprint: u64, now: u64) -> Option<Seq<char>> {
    if c.contains_key(fingerprint) && now < c[fingerprint].stored_at + CACHE_TTL_SECONDS {
        Some(c[fingerprint].text)
    } else {
        None
    }
}

/// What is kept once a fingerprint was looked up: a description that has expired
/// is dropped.
pub open spec fn after_lookup(c: Map<u64, CachedV>, fingerprint: u64, now: u64) -> Map<u64, CachedV> {
    if kept(c, fingerprint, now) is Some {
        c
    } else {
        c.remove(fingerprint)
    }
}

/// What is kept once a description was stored.
pub open spec fn after_store(c: Map<u64, CachedV>, fingerprint: u64, text: Seq<char>, now: u64) -> Map<u64, CachedV> {
    c.insert(fingerprint, CachedV { stored_at: now, text })
}

/// A description that was stored is found until its time is over and not after, and
/// it has no part in what is found of other images.
pub proof fn law_description_is_found_until_it_expires(
    c: Map<u64, CachedV>,
    fingerprint: u64,
    text: Seq<char>,
    now: u64,
    later: u64,
    other: u64,
)
    ensures
        later < now + CACHE_TTL_SECONDS ==> kept(after_store(c, fingerprint, text, now), fingerprint, later) == Some(
            text,
        ),
        later >= now + CACHE_TTL_SECONDS ==> kept(after_store(c, fingerprint, text, now), fingerprint, later) is None,
        other != fingerprint ==> kept(after_store(c, fingerprint, text, now), other, later) == kept(
            c,
            other,
            later,
        ),
{
}

impl VisionCache {
    /// A cache with nothing in it.
    pub fn new() -> (r: VisionCache)
        ensures
            r@ == Map::<u64, CachedV>::empty(),
    {
        let r = VisionCache { entries: HashMap::new() };
        assert(r@ =~= Map::<u64, CachedV>::empty());
        r
    }

    /// The description for a fingerprint, where one is kept and has not expired.
    pub fn cache_get(&mut self, fingerprint: u64, now: u64) -> (r: Option<String>)
        ensures
            opt_string(r) == kept(old(self)@, fingerprint, now),
            final(self)@ == after_lookup(old(self)@, fingerprint, now),
    {
        if let Some(entry) = self.entries.get(&fingerprint) {
            if now < entry.stored_at || now - entry.stored_at < CACHE_TTL_SECONDS {
                return Some(entry.description.clone());
            }
        }
        self.entries.remove(&fingerprint);
        assert(self@ =~= old(self)@.remove(fingerprint));
        None
    }

    /// Keeps a description for a fingerprint.
    pub fn cache_put(&mut self, fingerprint: u64, description: String, now: u64)
        ensures
            final(self)@ == after_store(old(self)@, fingerprint, description@, now),
    {
        self.entries.insert(fingerprint, CacheEntry { stored_at: now, description });
        assert(self@ =~= after_store(old(self)@, fingerprint, description@, now));
    }
}

/// One step of the 64-bit FNV-1a hash.
pub open spec fn hash_step(h: u64, b: u8) -> u64 {
    (((h ^ (b as u64)) as int * 0x100000001b3int) % 0x1_0000_0000_0000_0000int) as u64
}

/// The 64-bit FNV-1a hash of some bytes.
pub open spec fn fnv_hash(bytes: Seq<u8>) -> u64
    decreases bytes.len(),
{
    if bytes.len() == 0 {
        0xcbf29ce484222325
    } else {
        hash_step(fnv_hash(bytes.drop_last()), bytes.last())
    }
}

/// The data by which an image is told apart: those in it, or its URL.
pub open spec fn image_data(block: JsonV) -> Option<Seq<char>> {
    let data = match block.path2("source"@, "data"@) {
        Some(v) => v.as_str(),
        None => None,
    };
    match data {
        Some(t) => Some(t),
        None => match block.path2("image_url"@, "url"@) {
            Some(v) => v.as_str(),
            None => None,
        },
    }
}

/// The fingerprint of an image.
pub open spec fn fingerprint_of(block: JsonV) -> Option<u64> {
    match image_data(block) {
        Some(t) => Some(fnv_hash(vstd::utf8::encode_utf8(t))),
        None => None,
    }
}

fn hash_bytes(bytes: &[u8]) -> (r: u64)
    ensures
        r == fnv_hash(bytes@),
{
    let mut h: u64 = 0xcbf29ce484222325;
    let mut i: usize = 0;
    while i < bytes.len()
        invariant
            i <= bytes@.len(),
            h == fnv_hash(bytes@.take(i as int)),
        decreases bytes@.len() - i,
    {
        proof {
            lemma_step(bytes@, i as int);
        }
        h = (h ^ (bytes[i] as u64)).wrapping_mul(0x100000001b3);
        i += 1;
    }
    proof {
        lemma_whole(bytes@);
    }
    h
}

/// Fingerprint an image block for the cache.
pub fn image_fingerprint(block: &Json) -> (r: Option<u64>)
    ensures
        r == fingerprint_of(block@),
{
    let data = match block.path2("source", "data") {
        Some(v) => v.as_str(),
        None => None,
    };
    let found = match data {
        Some(t) => Some(t),
        None => match block.path2("image_url", "url") {
            Some(v) => v.as_str(),
            None => None,
        },
    };
    match found {
        Some(t) => Some(hash_bytes(t.as_bytes())),
        None => None,
    }
}

/// A block with its images replaced.
pub open spec fn described_block(block: JsonV, how: ReplacementV, n: nat) -> Rewritten {
    if block.str_at("type"@) == Some("tool_result"@) {
        match block.get("content"@) {
            Some(content) => {
                let r = rewrite(content, 0, true, how, n);
                Rewritten { value: block.set("content"@, r.value), parts: r.parts }
            },
            None => Rewritten { value: block, parts: Seq::empty() },
        }
    } else {
        rewrite(block, 0, true, how, n)
    }
}

/// Blocks with their images replaced, and the images.
pub open spec fn described_blocks(blocks: Seq<JsonV>, how: ReplacementV, n: nat) -> (Seq<JsonV>, Seq<JsonV>)
    decreases blocks.len(),
{
    if blocks.len() == 0 {
        (Seq::empty(), Seq::empty())
    } else {
        let (values, parts) = described_blocks(blocks.drop_last(), how, n);
        let r = described_block(blocks.last(), how, n + parts.len());
        (values.push(r.value), parts + r.parts)
    }
}

/// A message with its images replaced.
pub open spec fn described_message(message: JsonV, how: ReplacementV, n: nat) -> Rewritten {
    match message.array_at("content"@) {
        Some(blocks) => {
            let (values, parts) = described_blocks(blocks, how, n);
            Rewritten { value: message.set("content"@, JsonV::Array(values)), parts }
        },
        None => Rewritten { value: message, parts: Seq::empty() },
    }
}

/// Messages with their images replaced, and the images.
pub open spec fn described_messages(ms: Seq<JsonV>, how: ReplacementV) -> (Seq<JsonV>, Seq<JsonV>)
    decreases ms.len(),
{
    if ms.len() == 0 {
        (Seq::empty(), Seq::empty())
    } else {
        let (values, parts) = described_messages(ms.drop_last(), how);
        let r = described_message(ms.last(), how, parts.len());
        (values.push(r.value), parts + r.parts)
    }
}

/// A request with its images replaced, and the images in the order of the
/// document.
pub open spec fn described_body(body: JsonV, entry: LocalEntry, how: ReplacementV) -> Rewritten {
    match body.array_at(messages_key(entry)) {
        Some(ms) => {
            let (values, parts) = described_messages(ms, how);
            Rewritten { value: body.set(messages_key(entry), JsonV::Array(values)), parts }
        },
        None => Rewritten { value: body, parts: Seq::empty() },
    }
}

/// How images are replaced by their descriptions.
pub open spec fn by_descriptions(d: Seq<Option<Seq<char>>>) -> ReplacementV {
    ReplacementV::Described(d)
}

/// The images of a request.
pub open spec fn images_of(body: JsonV, entry: LocalEntry) -> Seq<JsonV> {
    described_body(body, entry, by_descriptions(Seq::empty())).parts
}

/// The texts of optional strings.
pub open spec fn opt_texts(v: Seq<Option<String>>) -> Seq<Option<Seq<char>>> {
    Seq::new(v.len(), |i: int| opt_string(v[i]))
}

fn describe_block(block: &Json, how: &Replacement, parts: &mut Vec<Json>) -> (r: Json)
    ensures
        r@ == described_block(block@, how@, old(parts)@.len()).value,
        models(final(parts)@) == models(old(parts)@) + described_block(block@, how@, old(parts)@.len()).parts,
{
    if field_is(block, "type", "tool_result") {
        match block.get("content") {
            Some(content) => {
                let cleaned = rewrite_images(content, 0, true, how, parts);
                block.copy().set("content", cleaned)
            },
            None => {
                assert(models(parts@) + Seq::<JsonV>::empty() =~= models(parts@));
                block.copy()
            },
        }
    } else {
        rewrite_images(block, 0, true, how, parts)
    }
}

fn describe_message(message: &Json, how: &Replacement, parts: &mut Vec<Json>) -> (r: Json)
    ensures
        r@ == described_message(message@, how@, old(parts)@.len()).value,
        models(final(parts)@) == models(old(parts)@) + described_message(message@, how@, old(parts)@.len()).parts,
{
    broadcast use group_models;

    let blocks = match message.array_at("content") {
        Some(blocks) => blocks,
        None => {
            assert(models(parts@) + Seq::<JsonV>::empty() =~= models(parts@));
            return message.copy();
        },
    };
    let ghost all = models(blocks@);
    let ghost before = models(parts@);
    let ghost n = parts@.len();
    let mut out: Vec<Json> = Vec::new();
    let mut i: usize = 0;
    assert(before + described_blocks(all.take(0), how@, n).1 =~= before);
    while i < blocks.len()
        invariant
            i <= blocks@.len(),
            all == models(blocks@),
            before.len() == n,
            models(out@) == described_blocks(all.take(i as int), how@, n).0,
            models(parts@) == before + described_blocks(all.take(i as int), how@, n).1,
        decreases blocks@.len() - i,
    {
        proof {
            lemma_step(all, i as int);
            assert(models(parts@).len() == parts@.len());
        }
        out.push(describe_block(&blocks[i], how, parts));
        assert(models(parts@) =~= before + described_blocks(all.take(i + 1), how@, n).1);
        i += 1;
    }
    proof {
        lemma_whole(all);
    }
    message.copy().set("content", Json::array(out))
}

fn describe_body(body: &Json, entry: LocalEntry, how: &Replacement) -> (r: (Json, Vec<Json>))
    ensures
        r.0@ == described_body(body@, entry, how@).value,
        models(r.1@) == described_body(body@, entry, how@).parts,
{
    broadcast use group_models;

    let mut parts: Vec<Json> = Vec::new();
    let ms = match body.array_at(key_of_messages(entry)) {
        Some(ms) => ms,
        None => {
            return (body.copy(), parts);
        },
    };
    let ghost all = models(ms@);
    let mut out: Vec<Json> = Vec::new();
    let mut i: usize = 0;
    while i < ms.len()
        invariant
            i <= ms@.len(),
            all == models(ms@),
            models(out@) == described_messages(all.take(i as int), how@).0,
            models(parts@) == described_messages(all.take(i as int), how@).1,
        decreases ms@.len() - i,
    {
        proof {
            lemma_step(all, i as int);
            assert(models(parts@).len() == parts@.len());
        }
        out.push(describe_message(&ms[i], how, &mut parts));
        i += 1;
    }
    proof {
        lemma_whole(all);
    }
    (body.copy().set(key_of_messages(entry), Json::array(out)), parts)
}

/// Collect every image of the request as a Chat `image_url` part plus its
/// fingerprint, in the order of the document.
pub fn collect_image_slots(body: &Json, entry: LocalEntry) -> (r: (Vec<Json>, Vec<Option<u64>>))
    ensures
        models(r.0@) == images_of(body@, entry),
        r.1@ == Seq::new(r.0@.len(), |i: int| fingerprint_of(r.0@[i]@)),
{
    let none: Vec<Option<String>> = Vec::new();
    let how = Replacement::Described(&none);
    assert(how@ == by_descriptions(Seq::empty())) by {
        assert(Seq::new(none@.len(), |i: int| opt_string(none@[i])) =~= Seq::<Option<Seq<char>>>::empty());
    }
    let (_, images) = describe_body(body, entry, &how);
    let mut fingerprints: Vec<Option<u64>> = Vec::new();
    let mut i: usize = 0;
    while i < images.len()
        invariant
            i <= images@.len(),
            fingerprints@.len() == i,
            forall|j: int| 0 <= j < i ==> #[trigger] fingerprints@[j] == fingerprint_of(images@[j]@),
        decreases images@.len() - i,
    {
        fingerprints.push(image_fingerprint(&images[i]));
        i += 1;
    }
    assert(fingerprints@ =~= Seq::new(images@.len(), |i: int| fingerprint_of(images@[i]@)));
    (images, fingerprints)
}

/// Replace every image of the request with its description, or with the marker
/// where there is none. Returns the request and the number of images.
pub fn replace_images_with_descriptions(body: &Json, entry: LocalEntry, descriptions: &Vec<Option<String>>) -> (r: (
    Json,
    usize,
))
    ensures
        r.0@ == described_body(body@, entry, by_descriptions(opt_texts(descriptions@))).value,
        r.1 == described_body(body@, entry, by_descriptions(opt_texts(descriptions@))).parts.len(),
{
    let how = Replacement::Described(descriptions);
    assert(how@ == by_descriptions(opt_texts(descriptions@))) by {
        assert(Seq::new(descriptions@.len(), |i: int| opt_string(descriptions@[i])) =~= opt_texts(
            descriptions@,
        ));
    }
    let (out, parts) = describe_body(body, entry, &how);
    assert(models(parts@).len() == parts@.len());
    (out, parts.len())
}

/// An image that has no description yet: its place among all images, and its
/// fingerprint or zero.
pub struct Uncached {
    pub place: usize,
    pub fingerprint: u64,
}

/// What is known of the images of a request: those that are described, and those
/// that the vision model is to describe.
pub struct VisionPlan {
    pub images: Vec<Json>,
    pub descriptions: Vec<Option<String>>,
    pub uncached: Vec<Uncached>,
}

/// The fingerprint of an image, or zero where it has none.
pub open spec fn key_of(image: JsonV) -> u64 {
    or_zero(fingerprint_of(image))
}

/// The description that is kept for an image.
pub open spec fn kept_for(c: Map<u64, CachedV>, image: JsonV, now: u64) -> Option<Seq<char>> {
    match fingerprint_of(image) {
        Some(f) => kept(c, f, now),
        None => None,
    }
}

/// What is kept once the images of a request were looked up.
pub open spec fn after_lookups(c: Map<u64, CachedV>, images: Seq<JsonV>, now: u64) -> Map<u64, CachedV>
    decreases images.len(),
{
    if images.len() == 0 {
        c
    } else {
        let d = after_lookups(c, images.drop_last(), now);
        match fingerprint_of(images.last()) {
            Some(f) => after_lookup(d, f, now),
            None => d,
        }
    }
}

/// The places of the images that have no description yet.
pub open spec fn uncached_places(c: Map<u64, CachedV>, images: Seq<JsonV>, now: u64) -> Seq<int>
    decreases images.len(),
{
    if images.len() == 0 {
        Seq::empty()
    } else {
        let front = uncached_places(c, images.drop_last(), now);
        if kept_for(c, images.last(), now) is None {
            front.push(images.len() - 1)
        } else {
            front
        }
    }
}

/// Dropping what has expired does not change what is found.
proof fn lemma_lookups_keep(c: Map<u64, CachedV>, images: Seq<JsonV>, now: u64, f: u64)
    ensures
        kept(after_lookups(c, images, now), f, now) == kept(c, f, now),
    decreases images.len(),
{
    if images.len() > 0 {
        lemma_lookups_keep(c, images.drop_last(), now, f);
    }
}

/// Looks up the images of a request: those that are described already keep their
/// descriptions, and the others are listed.
pub fn plan_descriptions(body: &Json, entry: LocalEntry, cache: &mut VisionCache, now: u64) -> (r: VisionPlan)
    ensures
        models(r.images@) == images_of(body@, entry),
        opt_texts(r.descriptions@) == Seq::new(
            r.images@.len(),
            |i: int| kept_for(old(cache)@, r.images@[i]@, now),
        ),
        r.uncached@.len() == uncached_places(old(cache)@, models(r.images@), now).len(),
        forall|i: int|
            0 <= i < r.uncached@.len() ==> (#[trigger] r.uncached@[i]).place == uncached_places(
                old(cache)@,
                models(r.images@),
                now,
            )[i] && r.uncached@[i].place < r.images@.len() && r.uncached@[i].fingerprint == key_of(
                r.images@[r.uncached@[i].place as int]@,
            ),
        final(cache)@ == after_lookups(old(cache)@, models(r.images@), now),
{
    let (images, fingerprints) = collect_image_slots(body, entry);
    let ghost all = models(images@);
    let mut descriptions: Vec<Option<String>> = Vec::new();
    let mut uncached: Vec<Uncached> = Vec::new();
    let mut i: usize = 0;
    while i < images.len()
        invariant
            i <= images@.len(),
            all == models(images@),
            fingerprints@.len() == images@.len(),
            forall|j: int| 0 <= j < images@.len() ==> #[trigger] fingerprints@[j] == fingerprint_of(all[j]),
            descriptions@.len() == i,
            forall|j: int|
                0 <= j < i ==> opt_string(#[trigger] descriptions@[j]) == kept_for(old(cache)@, all[j], now),
            uncached@.len() == uncached_places(old(cache)@, all.take(i as int), now).len(),
            forall|j: int|
                0 <= j < uncached@.len() ==> (#[trigger] uncached@[j]).place == uncached_places(
                    old(cache)@,
                    all.take(i as int),
                    now,
                )[j] && uncached@[j].place < i && uncached@[j].fingerprint == key_of(
                    all[uncached@[j].place as int],
                ),
            cache@ == after_lookups(old(cache)@, all.take(i as int), now),
        decreases images@.len() - i,
    {
        proof {
            lemma_step(all, i as int);
        }
        let mut found: Option<String> = None;
        if let Some(f) = fingerprints[i] {
            proof {
                lemma_lookups_keep(old(cache)@, all.take(i as int), now, f);
            }
            found = cache.cache_get(f, now);
        }
        if found.is_none() {
            let fingerprint: u64 = match fingerprints[i] {
                Some(f) => f,
                None => 0,
            };
            uncached.push(Uncached { place: i, fingerprint });
        }
        descriptions.push(found);
        i += 1;
    }
    proof {
        lemma_whole(all);
        assert(opt_texts(descriptions@) =~= Seq::new(
            images@.len(),
            |i: int| kept_for(old(cache)@, images@[i]@, now),
        ));
    }
    VisionPlan { images, descriptions, uncached }
}

/// The label of an image by its place in the document.
pub open spec fn image_label(place: nat) -> JsonV {
    text_block("[Image "@ + decimal((place + 1) as nat) + "]"@)
}

/// The parts of the vision request for images that have no description yet.
pub open spec fn labelled_parts(images: Seq<JsonV>, places: Seq<int>) -> Seq<JsonV>
    decreases places.len(),
{
    if places.len() == 0 {
        Seq::empty()
    } else {
        let front = labelled_parts(images, places.drop_last());
        let place = places.last();
        match content_part(images[place]) {
            Some(part) => front.push(image_label(place as nat)).push(part),
            None => front,
        }
    }
}

/// The places of images in a list.
pub open spec fn places_of(v: Seq<Uncached>) -> Seq<int> {
    Seq::new(v.len(), |i: int| v[i].place as int)
}

/// The one message of the vision request.
pub open spec fn vision_message(prompt: Seq<char>, parts: Seq<JsonV>) -> JsonV {
    JsonV::Object(
        map![
            "role"@ => JsonV::Text("user"@),
            "content"@ => JsonV::Array(seq![text_block(prompt)] + parts),
        ],
    )
}

/// The vision request: the model, one message, and the limit where there is one.
/// Only OpenAI formats are told that no stream is wanted.
pub open spec fn vision_request(
    model: Seq<char>,
    upstream_type: UpstreamType,
    max_tokens: Option<u32>,
    message: JsonV,
) -> JsonV {
    let m = map!["model"@ => JsonV::Text(model), "messages"@ => JsonV::Array(seq![message])];
    let m = match max_tokens {
        Some(n) => m.insert("max_tokens"@, num(n as u64)),
        None => m,
    };
    JsonV::Object(
        if upstream_type == UpstreamType::AnthropicMessages {
            m
        } else {
            m.insert("stream"@, JsonV::Bool(false))
        },
    )
}

/// The built-in prompt for a mode.
pub open spec fn prompt_of_mode(mode: PromptMode) -> Seq<char> {
    match mode {
        PromptMode::Auto => AUTO_PROMPT@,
        PromptMode::General => GENERAL_PROMPT@,
        PromptMode::Ui => UI_PROMPT@,
        PromptMode::Compact => COMPACT_PROMPT@,
    }
}

/// The prompt of a vision request: the one that is set, or else the built-in one for
/// the mode.
pub open spec fn vision_prompt(mode: PromptMode, custom: Option<Seq<char>>) -> Seq<char> {
    match custom {
        Some(p) => p,
        None => prompt_of_mode(mode),
    }
}

/// Build one vision request that describes all images without a description.
pub fn build_vision_request(plan: &VisionPlan, vision: &VisionConfig) -> (r: Json)
    requires
        forall|i: int|
            0 <= i < plan.uncached@.len() ==> (#[trigger] plan.uncached@[i]).place < plan.images@.len(),
    ensures
        r@ == vision_request(
            vision.model@,
            vision.upstream_type,
            vision.max_tokens,
            vision_message(
                vision_prompt(vision.prompt_mode, opt_string(vision.custom_prompt)),
                labelled_parts(models(plan.images@), places_of(plan.uncached@)),
            ),
        ),
{
    broadcast use group_models;

    let prompt = match &vision.custom_prompt {
        Some(p) => p.as_str(),
        None => match vision.prompt_mode {
            PromptMode::Auto => AUTO_PROMPT,
            PromptMode::General => GENERAL_PROMPT,
            PromptMode::Ui => UI_PROMPT,
            PromptMode::Compact => COMPACT_PROMPT,
        },
    };
    let ghost images = models(plan.images@);
    let ghost places = places_of(plan.uncached@);
    let ghost lead = seq![text_block(prompt@)];
    let mut content = single(make_text_block(prompt));
    let mut i: usize = 0;
    assert(lead + labelled_parts(images, places.take(0)) =~= lead);
    while i < plan.uncached.len()
        invariant
            i <= plan.uncached@.len(),
            images == models(plan.images@),
            places == places_of(plan.uncached@),
            forall|j: int|
                0 <= j < plan.uncached@.len() ==> (#[trigger] plan.uncached@[j]).place < plan.images@.len(),
            models(content@) == lead + labelled_parts(images, places.take(i as int)),
        decreases plan.uncached@.len() - i,
    {
        let place: usize = plan.uncached[i].place;
        let ghost front = labelled_parts(images, places.take(i as int));
        proof {
            lemma_step(places, i as int);
            assert(images[place as int] == plan.images@[place as int]@);
        }
        if let Some(part) = image_to_content_part(&plan.images[place]) {
            let count: usize = plan.images.len();
            assert(place < count);
            let label = cat3("[Image ", decimal_text((place + 1) as u64).as_str(), "]");
            let ghost model = part@;
            let block = make_text_block(label.as_str());
            assert(block@ == image_label(place as nat));
            let ghost so_far = models(content@);
            content.push(block);
            content.push(part);
            assert(models(content@) == so_far.push(image_label(place as nat)).push(model));
            assert(models(content@) =~= lead + front.push(image_label(place as nat)).push(model));
        }
        i += 1;
    }
    proof {
        lemma_whole(places);
    }
    let message = Json::Object(
        JsonObject::new().with("role", Json::text("user")).with("content", Json::array(content)),
    );
    let mut m = JsonObject::new().with("model", Json::text(vision.model.as_str())).with(
        "messages",
        Json::array(single(message)),
    );
    if let Some(n) = vision.max_tokens {
        m = m.with("max_tokens", Json::number(n as u64));
    }
    if vision.upstream_type != UpstreamType::AnthropicMessages {
        m = m.with("stream", Json::Bool(false));
    }
    Json::Object(m)
}

/// The text of a response of a Chat vision model.
pub open spec fn chat_vision_text(v: JsonV) -> Option<Seq<char>> {
    let content = match v.get("choices"@) {
        Some(choices) => match first_element(choices) {
            Some(choice) => choice.path2("message"@, "content"@),
            None => None,
        },
        None => None,
    };
    match content {
        Some(JsonV::Text(t)) => Some(t),
        Some(c) => match first_element(c) {
            Some(part) => part.str_at("text"@),
            None => None,
        },
        None => None,
    }
}

/// The text of the response of a vision model.
pub open spec fn vision_text(v: JsonV, upstream_type: UpstreamType) -> Option<Seq<char>> {
    if upstream_type == UpstreamType::AnthropicMessages {
        let found = part_texts(v.items_at("content"@));
        if found.len() > 0 {
            Some(join(found, "\n"@))
        } else {
            None
        }
    } else {
        chat_vision_text(v)
    }
}

/// Extract the text from the response of the vision model.
pub fn extract_vision_text(response: &Json, upstream_type: UpstreamType) -> (r: Result<String, Error>)
    ensures
        match r {
            Ok(t) => vision_text(response@, upstream_type) == Some(t@),
            Err(e) => vision_text(response@, upstream_type) is None && e@ == ErrorV::Transform(
                "Vision model returned no text"@,
            ),
        },
{
    if upstream_type == UpstreamType::AnthropicMessages {
        if let Some(blocks) = response.array_at("content") {
            let found = collect_part_texts(blocks);
            assert(texts(found@).len() == found@.len());
            if found.len() > 0 {
                return Ok(join_texts(&found, "\n"));
            }
        } else {
            assert(part_texts(Seq::empty()) =~= Seq::empty());
        }
    } else if let Some(choices) = response.get("choices") {
        if let Some(choice) = element_zero(choices) {
            if let Some(content) = choice.path2("message", "content") {
                if let Some(t) = content.as_str() {
                    return Ok(t.to_owned());
                }
                if let Some(part) = element_zero(content) {
                    if let Some(t) = part.str_at("text") {
                        return Ok(t.to_owned());
                    }
                }
            }
        }
    }
    Err(transform_error("Vision model returned no text"))
}

/// The descriptions once the vision model has answered: a text that is not blank
/// describes every image that had no description.
pub open spec fn answered(
    d: Seq<Option<Seq<char>>>,
    places: Seq<int>,
    text: Option<Seq<char>>,
) -> Seq<Option<Seq<char>>> {
    Seq::new(
        d.len(),
        |i: int|
            if text is Some && trim(text->0).len() > 0 && places.contains(i) {
                text
            } else {
                d[i]
            },
    )
}

/// What is kept once the vision model has answered.
pub open spec fn after_answer(c: Map<u64, CachedV>, v: Seq<Uncached>, text: Option<Seq<char>>, now: u64) -> Map<
    u64,
    CachedV,
>
    decreases v.len(),
{
    if v.len() == 0 || text is None || trim(text->0).len() == 0 {
        c
    } else {
        let d = after_answer(c, v.drop_last(), text, now);
        if v.last().fingerprint != 0 {
            after_store(d, v.last().fingerprint, text->0, now)
        } else {
            d
        }
    }
}

/// Replaces the images of a request by their descriptions, once the vision model
/// has answered: `reply` is its text, or none where it failed or was not asked.
/// Returns the request and the number of images handled. A failure leaves the
/// marker in place of the images and does not stop the request.
pub fn describe_images_in_body(
    body: &Json,
    entry: LocalEntry,
    plan: VisionPlan,
    reply: Option<&str>,
    cache: &mut VisionCache,
    now: u64,
) -> (r: (Json, usize))
    requires
        forall|i: int|
            0 <= i < plan.uncached@.len() ==> (#[trigger] plan.uncached@[i]).place < plan.descriptions@.len(),
    ensures
        ({
            let d = answered(opt_texts(plan.descriptions@), places_of(plan.uncached@), opt_text(reply));
            let out = described_body(body@, entry, by_descriptions(d));
            r.0@ == out.value && r.1 == out.parts.len()
        }),
        final(cache)@ == after_answer(old(cache)@, plan.uncached@, opt_text(reply), now),
{
    let VisionPlan { images: _, descriptions, uncached } = plan;
    let ghost before = opt_texts(descriptions@);
    let ghost places = places_of(uncached@);
    let mut list = descriptions;
    let told = match reply {
        Some(t) => !trimmed(t).is_empty(),
        None => false,
    };
    if told {
        if let Some(text) = reply {
            let mut i: usize = 0;
            assert(after_answer(old(cache)@, uncached@.take(0), opt_text(reply), now) == cache@);
            while i < uncached.len()
                invariant
                    i <= uncached@.len(),
                    reply == Some(text),
                    trim(text@).len() > 0,
                    before.len() == list@.len(),
                    places == places_of(uncached@),
                    forall|j: int|
                        0 <= j < uncached@.len() ==> (#[trigger] uncached@[j]).place < list@.len(),
                    forall|j: int|
                        0 <= j < list@.len() ==> opt_string(#[trigger] list@[j]) == if places.take(
                            i as int,
                        ).contains(j) {
                            Some(text@)
                        } else {
                            before[j]
                        },
                    cache@ == after_answer(old(cache)@, uncached@.take(i as int), opt_text(reply), now),
                decreases uncached@.len() - i,
            {
                proof {
                    lemma_step(uncached@, i as int);
                    lemma_step(places, i as int);
                }
                let place: usize = uncached[i].place;
                let fingerprint: u64 = uncached[i].fingerprint;
                list[place] = Some(text.to_owned());
                if fingerprint != 0 {
                    cache.cache_put(fingerprint, text.to_owned(), now);
                }
                proof {
                    let old_places = places.take(i as int);
                    let new_places = places.take(i + 1);
                    assert(new_places =~= old_places.push(place as int));
                    assert(new_places[i as int] == place);
                    assert forall|j: int| 0 <= j < list@.len() implies opt_string(#[trigger] list@[j])
                        == if new_places.contains(j) {
                        Some(text@)
                    } else {
                        before[j]
                    } by {
                        if j != place {
                            if old_places.contains(j) {
                                let k = choose|k: int| 0 <= k < old_places.len() && old_places[k] == j;
                                assert(new_places[k] == j);
                            }
                            if new_places.contains(j) {
                                let k = choose|k: int| 0 <= k < new_places.len() && new_places[k] == j;
                                assert(old_places[k] == j);
                            }
                        }
                    }
                }
                i += 1;
            }
            proof {
                lemma_whole(uncached@);
                lemma_whole(places);
            }
        }
    }
    assert(opt_texts(list@) =~= answered(before, places, opt_text(reply)));
    replace_images_with_descriptions(body, entry, &list)
}

/// Collecting the images and replacing them goes by the same order: whatever they
/// are replaced by, the images are the same.
pub proof fn law_collected_and_replaced_images_agree(body: JsonV, entry: LocalEntry, how: ReplacementV)
    ensures
        described_body(body, entry, how).parts == images_of(body, entry),
{
    if let Some(ms) = body.array_at(messages_key(entry)) {
        lemma_messages_agree(ms, how, by_descriptions(Seq::empty()));
    }
}

proof fn lemma_messages_agree(ms: Seq<JsonV>, a: ReplacementV, b: ReplacementV)
    ensures
        described_messages(ms, a).1 == described_messages(ms, b).1,
    decreases ms.len(),
{
    if ms.len() > 0 {
        lemma_messages_agree(ms.drop_last(), a, b);
        let n = described_messages(ms.drop_last(), a).1.len();
        if let Some(blocks) = ms.last().array_at("content"@) {
            lemma_blocks_agree(blocks, a, b, n);
        }
    }
}

proof fn lemma_blocks_agree(blocks: Seq<JsonV>, a: ReplacementV, b: ReplacementV, n: nat)
    ensures
        described_blocks(blocks, a, n).1 == described_blocks(blocks, b, n).1,
    decreases blocks.len(),
{
    if blocks.len() > 0 {
        lemma_blocks_agree(blocks.drop_last(), a, b, n);
        let k = n + described_blocks(blocks.drop_last(), a, n).1.len();
        let block = blocks.last();
        law_images_do_not_depend_on_replacement(block, 0, true, a, k, b, k);
        if let Some(content) = block.get("content"@) {
            law_images_do_not_depend_on_replacement(content, 0, true, a, k, b, k);
        }
    }
}

/// A request without images goes on as it is.
pub proof fn law_request_without_images_unchanged(body: JsonV, entry: LocalEntry, how: ReplacementV)
    requires
        images_of(body, entry).len() == 0,
    ensures
        described_body(body, entry, how).value == body,
{
    law_collected_and_replaced_images_agree(body, entry, how);
    if let Some(ms) = body.array_at(messages_key(entry)) {
        lemma_messages_unchanged(ms, how);
        if let JsonV::Object(m) = body {
            assert(m.insert(messages_key(entry), m[messages_key(entry)]) =~= m);
        }
    }
}

proof fn lemma_messages_unchanged(ms: Seq<JsonV>, how: ReplacementV)
    requires
        described_messages(ms, how).1.len() == 0,
    ensures
        described_messages(ms, how).0 == ms,
    decreases ms.len(),
{
    if ms.len() > 0 {
        let front = ms.drop_last();
        assert(described_messages(front, how).1.len() == 0);
        lemma_messages_unchanged(front, how);
        let last = ms.last();
        if let Some(blocks) = last.array_at("content"@) {
            lemma_blocks_unchanged(blocks, how, 0);
            if let JsonV::Object(m) = last {
                assert(m.insert("content"@, m["content"@]) =~= m);
            }
        }
        assert(front.push(last) =~= ms);
    } else {
        assert(ms =~= Seq::empty());
    }
}

proof fn lemma_blocks_unchanged(blocks: Seq<JsonV>, how: ReplacementV, n: nat)
    requires
        described_blocks(blocks, how, n).1.len() == 0,
    ensures
        described_blocks(blocks, how, n).0 == blocks,
    decreases blocks.len(),
{
    if blocks.len() > 0 {
        let front = blocks.drop_last();
        assert(described_blocks(front, how, n).1.len() == 0);
        lemma_blocks_unchanged(front, how, n);
        let block = blocks.last();
        if block.str_at("type"@) == Some("tool_result"@) {
            if let Some(content) = block.get("content"@) {
                law_without_images_unchanged(content, 0, true, how, n);
                if let JsonV::Object(m) = block {
                    assert(m.insert("content"@, m["content"@]) =~= m);
                }
            }
        } else {
            law_without_images_unchanged(block, 0, true, how, n);
        }
        assert(front.push(block) =~= blocks);
    } else {
        assert(blocks =~= Seq::empty());
    }
}

/// Whether no string in a block that is looked into holds an image.
pub open spec fn block_strings_hold_no_image(block: JsonV) -> bool {
    if block.str_at("type"@) == Some("tool_result"@) {
        block.get("content"@) matches Some(content) ==> strings_hold_no_image(content, 0, true)
    } else {
        strings_hold_no_image(block, 0, true)
    }
}

/// Whether no string in a request that is looked into holds an image: neither a
/// data URL as a whole nor JSON text with an image in it.
pub open spec fn request_strings_hold_no_image(body: JsonV, entry: LocalEntry) -> bool {
    forall|i: int, k: int|
        0 <= i < body.items_at(messages_key(entry)).len() && 0 <= k < body.items_at(
            messages_key(entry),
        )[i].items_at("content"@).len() ==> block_strings_hold_no_image(
            #[trigger] body.items_at(messages_key(entry))[i].items_at("content"@)[k],
        )
}

/// Once the images that are blocks were replaced by their descriptions, or by the
/// marker, the request holds no image.
pub proof fn law_no_image_is_left_in_request(body: JsonV, entry: LocalEntry, d: Seq<Option<Seq<char>>>)
    requires
        request_strings_hold_no_image(body, entry),
    ensures
        images_of(described_body(body, entry, by_descriptions(d)).value, entry).len() == 0,
{
    if let Some(ms) = body.array_at(messages_key(entry)) {
        assert(ms == body.items_at(messages_key(entry)));
        lemma_no_image_is_left_in_messages(ms, by_descriptions(d), by_descriptions(Seq::empty()));
        let out = described_body(body, entry, by_descriptions(d)).value;
        assert(out.array_at(messages_key(entry)) == Some(described_messages(ms, by_descriptions(d)).0));
    }
}

proof fn lemma_no_image_is_left_in_messages(ms: Seq<JsonV>, how: ReplacementV, again: ReplacementV)
    requires
        replaces_by_text(how),
        forall|i: int, k: int|
            0 <= i < ms.len() && 0 <= k < ms[i].items_at("content"@).len() ==> block_strings_hold_no_image(
                #[trigger] ms[i].items_at("content"@)[k],
            ),
    ensures
        described_messages(described_messages(ms, how).0, again).1.len() == 0,
    decreases ms.len(),
{
    if ms.len() > 0 {
        let front = ms.drop_last();
        let last = ms.last();
        assert forall|i: int, k: int|
            0 <= i < front.len() && 0 <= k < front[i].items_at(
                "content"@,
            ).len() implies block_strings_hold_no_image(#[trigger] front[i].items_at("content"@)[k]) by {
            assert(front[i] == ms[i]);
        }
        lemma_no_image_is_left_in_messages(front, how, again);
        let n = described_messages(front, how).1.len();
        let out = described_messages(ms, how).0;
        assert(out.drop_last() =~= described_messages(front, how).0);
        if let Some(blocks) = last.array_at("content"@) {
            assert(blocks == last.items_at("content"@));
            assert forall|k: int| 0 <= k < blocks.len() implies block_strings_hold_no_image(
                #[trigger] blocks[k],
            ) by {
                assert(ms[ms.len() - 1].items_at("content"@)[k] == blocks[k]);
            }
            lemma_no_image_is_left_in_blocks(blocks, how, n, again, 0);
            let message = described_message(last, how, n).value;
            assert(message.array_at("content"@) == Some(described_blocks(blocks, how, n).0));
        }
    }
}

proof fn lemma_no_image_is_left_in_blocks(
    blocks: Seq<JsonV>,
    how: ReplacementV,
    n: nat,
    again: ReplacementV,
    k: nat,
)
    requires
        replaces_by_text(how),
        forall|i: int| 0 <= i < blocks.len() ==> block_strings_hold_no_image(#[trigger] blocks[i]),
    ensures
        described_blocks(described_blocks(blocks, how, n).0, again, k).1.len() == 0,
    decreases blocks.len(),
{
    if blocks.len() > 0 {
        let front = blocks.drop_last();
        let last = blocks.last();
        assert forall|i: int| 0 <= i < front.len() implies block_strings_hold_no_image(#[trigger] front[i]) by {
            assert(front[i] == blocks[i]);
        }
        lemma_no_image_is_left_in_blocks(front, how, n, again, k);
        let m = n + described_blocks(front, how, n).1.len();
        let out = described_blocks(blocks, how, n).0;
        assert(out.drop_last() =~= described_blocks(front, how, n).0);
        assert(last == blocks[blocks.len() - 1]);
        reveal_strlit("type");
        reveal_strlit("text");
        reveal_strlit("content");
        reveal_strlit("tool_result");
        assert("type"@.len() == 4 && "content"@.len() == 7);
        assert("type"@[1] != "text"@[1]);
        assert("text"@.len() != "tool_result"@.len());
        if last.str_at("type"@) == Some("tool_result"@) {
            if let Some(content) = last.get("content"@) {
                law_no_image_is_left(content, 0, true, how, m, true, again, k);
            }
        } else {
            law_no_image_is_left(last, 0, true, how, m, true, again, k);
            let value = rewrite(last, 0, true, how, m).value;
            assert(value.str_at("type"@) != Some("tool_result"@)) by {
                assert(how.block(m) == text_block(how.text(m)));
            }
        }
    }
}

/// An image is kept under one fingerprint whether it stands as a string or as an
/// object with that URL.
pub proof fn law_forms_of_an_image_share_a_fingerprint(t: Seq<char>, v: JsonV)
    requires
        string_image(t) is Some,
        v.get("image_url"@) == Some(JsonV::Text(trim(t))) || v.path2("image_url"@, "url"@) == Some(
            JsonV::Text(trim(t)),
        ),
    ensures
        linked_image(v) is Some,
        fingerprint_of(string_image(t)->0) is Some,
        fingerprint_of(string_image(t)->0) == fingerprint_of(linked_image(v)->0),
{
    reveal_strlit("type");
    reveal_strlit("image_url");
    reveal_strlit("source");
    assert("type"@.len() == 4 && "image_url"@.len() == 9 && "source"@.len() == 6);
    let a = string_image(t)->0;
    let b = linked_image(v)->0;
    assert(a.get("source"@) is None);
    assert(b.get("source"@) is None);
    assert(a.path2("image_url"@, "url"@) == Some(JsonV::Text(trim(t))));
    assert(b.path2("image_url"@, "url"@) == Some(JsonV::Text(trim(t))));
}

} // verus!
