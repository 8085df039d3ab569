//! Opaque reasoning transport shared by the Messages and Responses formats.
//!
//! The Anthropic Messages protocol has no field for an OpenAI Responses
//! `reasoning` item. To keep stateless tool loops lossless, the complete item is
//! carried in a versioned thinking signature or redacted-thinking payload and
//! restored when the client replays the assistant message.

use base64::engine::general_purpose::URL_SAFE_NO_PAD;
use base64::Engine;
use vstd::prelude::*;
use vstd::string::*;
use vstd::utf8::*;
use crate::json::{Json, JsonObject, JsonV, field_is, models, opt_json, opt_string};
use crate::json_canonical::{canonical_json_string, compact_text};
use crate::json_text::{MAX_DEPTH, json_parse_bytes, parse_json_bytes, storable};
use crate::text::{cat, has_prefix, strip_prefix};

verus! {

/// What a carried reasoning item begins with.
pub const OPENAI_REASONING_ITEM_PREFIX: &'static str = "ccswitch-openai-reasoning-v1:";

/// The text that the URL-safe base64 engine without padding gives for bytes.
pub uninterp spec fn base64_text(bytes: Seq<u8>) -> Seq<char>;

/// The bytes that the URL-safe base64 engine without padding gives for a text,
/// where it accepts it.
pub uninterp spec fn base64_bytes(text: Seq<char>) -> Option<Seq<u8>>;

/// Calls `URL_SAFE_NO_PAD.encode`, whose result depends on the bytes alone.
#[verifier::external_body]
fn base64_encode(bytes: &[u8]) -> (r: String)
    ensures
        r@ == base64_text(bytes@),
{
    URL_SAFE_NO_PAD.encode(bytes)
}

/// Calls `URL_SAFE_NO_PAD.decode`, whose result depends on the text alone. What
/// `encode` gave for some bytes is decoded to those bytes.
#[verifier::external_body]
fn base64_decode(text: &str) -> (r: Option<Vec<u8>>)
    ensures
        match r {
            Some(v) => base64_bytes(text@) == Some(v@),
            None => base64_bytes(text@) is None,
        },
        forall|b: Seq<u8>| text@ == #[trigger] base64_text(b) ==> r is Some && r->0@ == b,
{
    URL_SAFE_NO_PAD.decode(text).ok()
}

/// The text that one part of a summary adds.
pub open spec fn summary_part_text(part: JsonV) -> Seq<char> {
    if part.str_at("type"@) == Some("summary_text"@) || part.str_at("type"@) == Some("reasoning_text"@) {
        part.str_or("text"@, Seq::empty())
    } else {
        Seq::empty()
    }
}

/// The texts of the parts of a summary, one after another.
pub open spec fn summary_text(parts: Seq<JsonV>) -> Seq<char>
    decreases parts.len(),
{
    if parts.len() == 0 {
        Seq::empty()
    } else {
        summary_text(parts.drop_last()) + summary_part_text(parts.last())
    }
}

/// The readable text of a reasoning item.
pub open spec fn item_text(item: JsonV) -> Seq<char> {
    summary_text(item.items_at("summary"@))
}

/// Whether a document is a reasoning item.
pub open spec fn is_reasoning(item: JsonV) -> bool {
    item.str_at("type"@) == Some("reasoning"@)
}

/// The text that carries a reasoning item.
pub open spec fn envelope(item: JsonV) -> Seq<char> {
    OPENAI_REASONING_ITEM_PREFIX@ + base64_text(encode_utf8(compact_text(item)))
}

/// A document, where it is a reasoning item.
pub open spec fn only_reasoning(document: Option<JsonV>) -> Option<JsonV> {
    match document {
        Some(item) => if is_reasoning(item) {
            Some(item)
        } else {
            None
        },
        None => None,
    }
}

/// The reasoning item that a text carries.
pub open spec fn opened(encoded: Seq<char>) -> Option<JsonV> {
    if has_prefix(encoded, OPENAI_REASONING_ITEM_PREFIX@) {
        match base64_bytes(encoded.skip(OPENAI_REASONING_ITEM_PREFIX@.len() as int)) {
            Some(bytes) => only_reasoning(json_parse_bytes(bytes)),
            None => None,
        }
    } else {
        None
    }
}

/// The Anthropic block that stands for a reasoning item and carries it: a thinking
/// block that it signs, or a redacted one where it has no readable text.
pub open spec fn reasoning_block(item: JsonV) -> Option<JsonV> {
    if !is_reasoning(item) {
        None
    } else if item_text(item).len() == 0 {
        Some(
            JsonV::Object(
                map!["type"@ => JsonV::Text("redacted_thinking"@), "data"@ => JsonV::Text(envelope(item))],
            ),
        )
    } else {
        Some(
            JsonV::Object(
                map![
                    "type"@ => JsonV::Text("thinking"@),
                    "thinking"@ => JsonV::Text(item_text(item)),
                    "signature"@ => JsonV::Text(envelope(item)),
                ],
            ),
        )
    }
}

/// The reasoning item that an Anthropic block carries.
pub open spec fn block_reasoning_item(block: JsonV) -> Option<JsonV> {
    if block.str_at("type"@) == Some("thinking"@) {
        match block.str_at("signature"@) {
            Some(s) => opened(s),
            None => None,
        }
    } else if block.str_at("type"@) == Some("redacted_thinking"@) {
        match block.str_at("data"@) {
            Some(s) => opened(s),
            None => None,
        }
    } else {
        None
    }
}

/// The readable text of a reasoning item.
pub fn reasoning_summary_text(item: &Json) -> (r: String)
    ensures
        r@ == item_text(item@),
{
    let mut out = String::new();
    if let Some(parts) = item.array_at("summary") {
        let ghost all = models(parts@);
        let mut i: usize = 0;
        while i < parts.len()
            invariant
                i <= parts@.len(),
                all == models(parts@),
                out@ == summary_text(all.take(i as int)),
            decreases parts@.len() - i,
        {
            let part = &parts[i];
            proof {
                assert(all.take(i + 1).drop_last() =~= all.take(i as int));
                assert(all.take(i + 1).last() == part@);
            }
            let wanted = match part.str_at("type") {
                Some(t) => t.eq("summary_text") || t.eq("reasoning_text"),
                None => false,
            };
            if wanted {
                if let Some(t) = part.str_at("text") {
                    out.append(t);
                }
            }
            assert(out@ =~= summary_text(all.take(i + 1)));
            i += 1;
        }
        assert(all.take(i as int) =~= all);
    }
    out
}

/// The text that carries a reasoning item; none for any other document.
pub fn encode_openai_reasoning_item(item: &Json) -> (r: Option<String>)
    ensures
        opt_string(r) == if is_reasoning(item@) {
            Some(envelope(item@))
        } else {
            None
        },
{
    if !field_is(item, "type", "reasoning") {
        return None;
    }
    let text = canonical_json_string(item);
    Some(cat(OPENAI_REASONING_ITEM_PREFIX, base64_encode(text.as_str().as_bytes()).as_str()))
}

/// A document, where it is a reasoning item.
pub fn keep_reasoning_item(document: Option<Json>) -> (r: Option<Json>)
    ensures
        opt_json(r) == only_reasoning(opt_json(document)),
{
    match document {
        Some(item) => if field_is(&item, "type", "reasoning") {
            Some(item)
        } else {
            None
        },
        None => None,
    }
}

/// The reasoning item that a text carries. What was encoded from an item is
/// decoded to that item.
pub fn decode_openai_reasoning_item(encoded: &str) -> (r: Option<Json>)
    ensures
        opt_json(r) == opened(encoded@),
        forall|d: JsonV|
            is_reasoning(d) && storable(d, MAX_DEPTH as nat) && encoded@ == #[trigger] envelope(d) ==> opt_json(r)
                == Some(d),
{
    let ghost prefix = OPENAI_REASONING_ITEM_PREFIX@;
    proof {
        assert forall|d: JsonV| encoded@ == #[trigger] envelope(d) implies has_prefix(encoded@, prefix) && encoded@.skip(
            prefix.len() as int,
        ) == base64_text(encode_utf8(compact_text(d))) by {
            assert(encoded@.take(prefix.len() as int) =~= prefix);
            assert(encoded@.skip(prefix.len() as int) =~= base64_text(encode_utf8(compact_text(d))));
        }
    }
    let payload = match strip_prefix(encoded, OPENAI_REASONING_ITEM_PREFIX) {
        Some(payload) => payload,
        None => {
            return None;
        },
    };
    let bytes = match base64_decode(payload) {
        Some(bytes) => bytes,
        None => {
            return None;
        },
    };
    keep_reasoning_item(parse_json_bytes(bytes.as_slice()))
}

/// The Anthropic block that stands for a reasoning item and carries it.
pub fn anthropic_block_from_openai_reasoning_item(item: &Json) -> (r: Option<Json>)
    ensures
        opt_json(r) == reasoning_block(item@),
{
    let envelope = match encode_openai_reasoning_item(item) {
        Some(envelope) => envelope,
        None => {
            return None;
        },
    };
    let text = reasoning_summary_text(item);
    if text.as_str().is_empty() {
        Some(
            Json::Object(
                JsonObject::new().with("type", Json::text("redacted_thinking")).with("data", Json::Text(envelope)),
            ),
        )
    } else {
        Some(
            Json::Object(
                JsonObject::new().with("type", Json::text("thinking")).with("thinking", Json::Text(text)).with(
                    "signature",
                    Json::Text(envelope),
                ),
            ),
        )
    }
}

/// The reasoning item that an Anthropic block carries. A block that was made from
/// an item gives that item back.
pub fn openai_reasoning_item_from_anthropic_block(block: &Json) -> (r: Option<Json>)
    ensures
        opt_json(r) == block_reasoning_item(block@),
        forall|d: JsonV|
            storable(d, MAX_DEPTH as nat) && Some(block@) == #[trigger] reasoning_block(d) ==> opt_json(r) == Some(
                d,
            ),
{
    proof {
        assert forall|d: JsonV| Some(block@) == #[trigger] reasoning_block(d) implies {
            ||| block@.str_at("type"@) == Some("thinking"@) && block@.str_at("signature"@) == Some(envelope(d))
            ||| block@.str_at("type"@) == Some("redacted_thinking"@) && block@.str_at("data"@) == Some(envelope(d))
        } by {
            reveal_strlit("type");
            reveal_strlit("data");
            reveal_strlit("thinking");
            reveal_strlit("signature");
            assert("type"@[0] != "data"@[0]);
            assert("type"@.len() != "thinking"@.len());
            assert("type"@.len() != "signature"@.len());
        }
        reveal_strlit("thinking");
        reveal_strlit("redacted_thinking");
        assert("thinking"@.len() != "redacted_thinking"@.len());
    }
    if field_is(block, "type", "thinking") {
        match block.str_at("signature") {
            Some(s) => decode_openai_reasoning_item(s),
            None => None,
        }
    } else if field_is(block, "type", "redacted_thinking") {
        match block.str_at("data") {
            Some(s) => decode_openai_reasoning_item(s),
            None => None,
        }
    } else {
        None
    }
}

} // verus!
