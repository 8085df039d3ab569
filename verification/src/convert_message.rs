//! One Anthropic message as Chat messages.

use vstd::prelude::*;
use vstd::string::*;
use crate::json::{Json, JsonObject, JsonV, empty_object, group_models, lemma_step, lemma_whole, make_text_block, models, opt_model, opt_string, opt_text, text_block};
use crate::json_canonical::{canonical_json_string, compact_text};
use crate::json_text::{MAX_DEPTH, storable};
use crate::reasoning_bridge::{decode_openai_reasoning_item, envelope, is_reasoning, item_text, opened, reasoning_summary_text};
use crate::stream_out::{law_signed_reasoning_can_be_read_back, reasoning_item};
use crate::text::{join, join_texts, lemma_texts_push, texts};
use crate::tool_media::{data_url, make_data_url, make_result_text, make_url_part, media_note, moved, plan_chat_tool_output_media, queue_chat_tool_output_media, result_text, rewrite, url_part};

verus! {

/// What the blocks of one Anthropic message come to.
pub struct MessagePartsV {
    /// The content parts of the Chat message.
    pub content: Seq<JsonV>,
    /// Its tool calls.
    pub calls: Seq<JsonV>,
    /// The tool messages that stand before it.
    pub results: Seq<JsonV>,
    /// The images that were moved out of tool results.
    pub media: Seq<JsonV>,
    /// The texts of its reasoning.
    pub reasoning: Seq<Seq<char>>,
}

/// What the blocks of one Anthropic message come to.
pub struct MessageParts {
    pub content: Vec<Json>,
    pub calls: Vec<Json>,
    pub results: Vec<Json>,
    pub media: Vec<Json>,
    pub reasoning: Vec<String>,
}

impl View for MessageParts {
    type V = MessagePartsV;

    open spec fn view(&self) -> MessagePartsV {
        MessagePartsV {
            content: models(self.content@),
            calls: models(self.calls@),
            results: models(self.results@),
            media: models(self.media@),
            reasoning: texts(self.reasoning@),
        }
    }
}

/// A Chat tool call.
pub open spec fn chat_tool_call(id: Seq<char>, name: Seq<char>, arguments: Seq<char>) -> JsonV {
    JsonV::Object(
        map![
            "id"@ => JsonV::Text(id),
            "type"@ => JsonV::Text("function"@),
            "function"@ => JsonV::Object(
                map!["name"@ => JsonV::Text(name), "arguments"@ => JsonV::Text(arguments)],
            ),
        ],
    )
}

/// A Chat message with the result of a tool.
pub open spec fn chat_tool_message(id: Seq<char>, text: Seq<char>) -> JsonV {
    JsonV::Object(
        map![
            "role"@ => JsonV::Text("tool"@),
            "tool_call_id"@ => JsonV::Text(id),
            "content"@ => JsonV::Text(text),
        ],
    )
}

/// The readable text of the reasoning item that a field carries.
pub open spec fn recovered_text(field: Option<Seq<char>>) -> Option<Seq<char>> {
    match field {
        Some(s) => match opened(s) {
            Some(item) => if item_text(item).len() > 0 {
                Some(item_text(item))
            } else {
                None
            },
            None => None,
        },
        None => None,
    }
}

/// The reasoning text of a thinking block: the text that its signature carries,
/// else its own text.
pub open spec fn thinking_text(block: JsonV) -> Option<Seq<char>> {
    match recovered_text(block.str_at("signature"@)) {
        Some(t) => Some(t),
        None => if block.str_or("thinking"@, Seq::empty()).len() > 0 {
            Some(block.str_or("thinking"@, Seq::empty()))
        } else {
            None
        },
    }
}

/// The reasoning text of a redacted thinking block.
pub open spec fn redacted_text(block: JsonV) -> Seq<char> {
    match recovered_text(block.str_at("data"@)) {
        Some(t) => t,
        None => "[redacted thinking]"@,
    }
}

/// A document, or the empty object where there is none.
pub open spec fn or_empty_object(o: Option<JsonV>) -> JsonV {
    match o {
        Some(v) => v,
        None => empty_object(),
    }
}

/// What a tool result comes to, after those before it.
pub open spec fn add_tool_result(acc: MessagePartsV, block: JsonV) -> MessagePartsV {
    let id = block.str_or("tool_use_id"@, Seq::empty());
    match block.get("content"@) {
        Some(v) => {
            let found = rewrite(v, 0, false, moved(), 0);
            if found.parts.len() > 0 {
                MessagePartsV {
                    media: acc.media.push(text_block(media_note(id))) + found.parts,
                    results: acc.results.push(chat_tool_message(id, result_text(found.value))),
                    ..acc
                }
            } else {
                MessagePartsV { results: acc.results.push(chat_tool_message(id, result_text(v))), ..acc }
            }
        },
        None => MessagePartsV { results: acc.results.push(chat_tool_message(id, Seq::empty())), ..acc },
    }
}

/// What the blocks come to, with one more block.
pub open spec fn add_block(acc: MessagePartsV, block: JsonV, preserve: bool) -> MessagePartsV {
    let kind = block.str_or("type"@, Seq::empty());
    if kind == "text"@ {
        match block.str_at("text"@) {
            Some(t) => MessagePartsV { content: acc.content.push(text_block(t)), ..acc },
            None => acc,
        }
    } else if kind == "image"@ {
        match block.get("source"@) {
            Some(source) => MessagePartsV {
                content: acc.content.push(
                    url_part(
                        data_url(
                            source.str_or("media_type"@, "image/png"@),
                            source.str_or("data"@, Seq::empty()),
                        ),
                    ),
                ),
                ..acc
            },
            None => acc,
        }
    } else if kind == "tool_use"@ {
        MessagePartsV {
            calls: acc.calls.push(
                chat_tool_call(
                    block.str_or("id"@, Seq::empty()),
                    block.str_or("name"@, Seq::empty()),
                    compact_text(or_empty_object(block.get("input"@))),
                ),
            ),
            ..acc
        }
    } else if kind == "tool_result"@ {
        add_tool_result(acc, block)
    } else if kind == "thinking"@ {
        match thinking_text(block) {
            Some(t) => MessagePartsV { reasoning: acc.reasoning.push(t), ..acc },
            None => acc,
        }
    } else if kind == "redacted_thinking"@ && preserve {
        MessagePartsV { reasoning: acc.reasoning.push(redacted_text(block)), ..acc }
    } else {
        acc
    }
}

/// What a list of blocks comes to.
pub open spec fn message_parts(blocks: Seq<JsonV>, preserve: bool) -> MessagePartsV
    decreases blocks.len(),
{
    if blocks.len() == 0 {
        MessagePartsV {
            content: Seq::empty(),
            calls: Seq::empty(),
            results: Seq::empty(),
            media: Seq::empty(),
            reasoning: Seq::empty(),
        }
    } else {
        add_block(message_parts(blocks.drop_last(), preserve), blocks.last(), preserve)
    }
}

/// A Chat message of any content.
pub open spec fn chat_message_of(role: Seq<char>, content: JsonV) -> JsonV {
    JsonV::Object(map!["role"@ => JsonV::Text(role), "content"@ => content])
}

/// The content of a Chat message from its parts: nothing for none, and the text
/// alone where there is one part with a text.
pub open spec fn folded_content(parts: Seq<JsonV>) -> JsonV {
    if parts.len() == 0 {
        JsonV::Null
    } else if parts.len() == 1 && parts[0].get("text"@) is Some {
        parts[0].get("text"@)->0
    } else {
        JsonV::Array(parts)
    }
}

/// The Chat messages that the parts of a message come to: the tool messages,
/// then one message with the images of their results, then the message itself.
pub open spec fn assembled(role: Seq<char>, acc: MessagePartsV, preserve: bool) -> Seq<JsonV> {
    let shown = if acc.media.len() > 0 {
        acc.results.push(chat_message_of("user"@, JsonV::Array(acc.media)))
    } else {
        acc.results
    };
    if acc.content.len() == 0 && acc.calls.len() == 0 {
        shown
    } else {
        let m = map!["role"@ => JsonV::Text(role), "content"@ => folded_content(acc.content)];
        let m = if acc.calls.len() > 0 {
            m.insert("tool_calls"@, JsonV::Array(acc.calls))
        } else {
            m
        };
        let m = if preserve && role == "assistant"@ && acc.calls.len() > 0 {
            m.insert(
                "reasoning_content"@,
                JsonV::Text(
                    if acc.reasoning.len() == 0 {
                        "tool call"@
                    } else {
                        join(acc.reasoning, "\n"@)
                    },
                ),
            )
        } else {
            m
        };
        shown.push(JsonV::Object(m))
    }
}

/// The Chat messages for one Anthropic message.
pub open spec fn openai_messages(role: Seq<char>, content: Option<JsonV>, preserve: bool) -> Seq<JsonV> {
    match content {
        None => seq![chat_message_of(role, JsonV::Null)],
        Some(JsonV::Array(blocks)) => assembled(role, message_parts(blocks, preserve), preserve),
        Some(v) => seq![chat_message_of(role, v)],
    }
}

/// A Chat tool call.
pub(crate) fn make_chat_tool_call(id: &str, name: &str, arguments: &str) -> (r: Json)
    ensures
        r@ == chat_tool_call(id@, name@, arguments@),
{
    Json::Object(
        JsonObject::new().with("id", Json::text(id)).with("type", Json::text("function")).with(
            "function",
            Json::Object(
                JsonObject::new().with("name", Json::text(name)).with("arguments", Json::text(arguments)),
            ),
        ),
    )
}

/// A Chat message with the result of a tool.
pub(crate) fn make_chat_tool_message(id: &str, text: &str) -> (r: Json)
    ensures
        r@ == chat_tool_message(id@, text@),
{
    Json::Object(
        JsonObject::new().with("role", Json::text("tool")).with("tool_call_id", Json::text(id)).with(
            "content",
            Json::text(text),
        ),
    )
}

/// A Chat message of any content.
pub(crate) fn make_chat_message_of(role: &str, content: Json) -> (r: Json)
    ensures
        r@ == chat_message_of(role@, content@),
{
    Json::Object(JsonObject::new().with("role", Json::text(role)).with("content", content))
}

/// The readable text of the reasoning item that a field carries. The signature of a
/// thinking block that came of streamed reasoning gives that reasoning back.
pub fn recover_text(field: Option<&str>) -> (r: Option<String>)
    ensures
        opt_string(r) == recovered_text(opt_text(field)),
        forall|id: Seq<char>, t: Seq<char>|
            t.len() > 0 && opt_text(field) == Some(#[trigger] envelope(reasoning_item(id, t))) ==> opt_string(r)
                == Some(t),
{
    proof {
        assert forall|id: Seq<char>, t: Seq<char>| opt_text(field) == Some(
            #[trigger] envelope(reasoning_item(id, t)),
        ) implies is_reasoning(reasoning_item(id, t)) && item_text(reasoning_item(id, t)) == t && storable(
            reasoning_item(id, t),
            MAX_DEPTH as nat,
        ) by {
            law_signed_reasoning_can_be_read_back(id, t);
        }
    }
    match field {
        Some(s) => match decode_openai_reasoning_item(s) {
            Some(item) => {
                let text = reasoning_summary_text(&item);
                if text.as_str().is_empty() {
                    None
                } else {
                    Some(text)
                }
            },
            None => None,
        },
        None => None,
    }
}

/// A copy of the member under `key`, or the empty object where there is none.
pub(crate) fn copy_or_empty_object(v: &Json, key: &str) -> (r: Json)
    ensures
        r@ == or_empty_object(v@.get(key@)),
{
    match v.get(key) {
        Some(j) => j.copy(),
        None => Json::Object(JsonObject::new()),
    }
}

impl MessageParts {
    fn new() -> (r: MessageParts)
        ensures
            r@ == message_parts(Seq::empty(), false),
    {
        broadcast use group_models;

        let r = MessageParts {
            content: Vec::new(),
            calls: Vec::new(),
            results: Vec::new(),
            media: Vec::new(),
            reasoning: Vec::new(),
        };
        assert(r@.reasoning =~= Seq::empty());
        r
    }

    fn add_tool_result(&mut self, block: &Json)
        ensures
            final(self)@ == add_tool_result(old(self)@, block@),
    {
        broadcast use group_models;

        let id = block.str_or_empty("tool_use_id");
        match block.get("content") {
            Some(v) => {
                match plan_chat_tool_output_media(v) {
                    Some(plan) => {
                        let text = plan.tool_content;
                        queue_chat_tool_output_media(&mut self.media, id, plan.media_parts);
                        self.results.push(make_chat_tool_message(id, text.as_str()));
                    },
                    None => {
                        let text = make_result_text(v);
                        self.results.push(make_chat_tool_message(id, text.as_str()));
                    },
                }
            },
            None => {
                let text = String::new();
                self.results.push(make_chat_tool_message(id, text.as_str()));
            },
        }
    }

    fn add_block(&mut self, block: &Json, preserve: bool)
        ensures
            final(self)@ == add_block(old(self)@, block@, preserve),
    {
        broadcast use {group_models, lemma_texts_push};

        let kind = block.str_or_empty("type");
        if kind.eq("text") {
            if let Some(t) = block.str_at("text") {
                self.content.push(make_text_block(t));
            }
        } else if kind.eq("image") {
            if let Some(source) = block.get("source") {
                let url = make_data_url(source.str_or("media_type", "image/png"), source.str_or_empty("data"));
                self.content.push(make_url_part(url.as_str()));
            }
        } else if kind.eq("tool_use") {
            let input = copy_or_empty_object(block, "input");
            let arguments = canonical_json_string(&input);
            self.calls.push(
                make_chat_tool_call(block.str_or_empty("id"), block.str_or_empty("name"), arguments.as_str()),
            );
        } else if kind.eq("tool_result") {
            self.add_tool_result(block);
        } else if kind.eq("thinking") {
            match recover_text(block.str_at("signature")) {
                Some(t) => {
                    self.reasoning.push(t);
                },
                None => {
                    let t = block.str_or_empty("thinking");
                    if !t.is_empty() {
                        self.reasoning.push(t.to_owned());
                    }
                },
            }
        } else if kind.eq("redacted_thinking") && preserve {
            match recover_text(block.str_at("data")) {
                Some(t) => {
                    self.reasoning.push(t);
                },
                None => {
                    self.reasoning.push("[redacted thinking]".to_owned());
                },
            }
        }
    }

    fn of_blocks(blocks: &Vec<Json>, preserve: bool) -> (r: MessageParts)
        ensures
            r@ == message_parts(models(blocks@), preserve),
    {
        let ghost all = models(blocks@);
        let mut parts = MessageParts::new();
        let mut i: usize = 0;
        while i < blocks.len()
            invariant
                i <= blocks@.len(),
                all == models(blocks@),
                parts@ == message_parts(all.take(i as int), preserve),
            decreases blocks@.len() - i,
        {
            proof {
                lemma_step(all, i as int);
            }
            parts.add_block(&blocks[i], preserve);
            i += 1;
        }
        proof {
            lemma_whole(all);
        }
        parts
    }

    fn assemble(self, role: &str, preserve: bool) -> (r: Vec<Json>)
        ensures
            models(r@) == assembled(role@, self@, preserve),
    {
        broadcast use group_models;

        let ghost acc = self@;
        proof {
            assert(acc.media.len() == self.media@.len());
            assert(acc.content.len() == self.content@.len());
            assert(acc.calls.len() == self.calls@.len());
            assert(acc.reasoning.len() == self.reasoning@.len());
        }
        let MessageParts { content, calls, results, media, reasoning } = self;
        let mut out = results;
        if media.len() > 0 {
            out.push(make_chat_message_of("user", Json::array(media)));
        }
        if content.len() == 0 && calls.len() == 0 {
            return out;
        }
        let has_calls = calls.len() > 0;
        let body = if content.len() == 0 {
            Json::Null
        } else if content.len() == 1 {
            match content[0].get("text") {
                Some(t) => t.copy(),
                None => Json::array(content),
            }
        } else {
            Json::array(content)
        };
        let mut m = JsonObject::new().with("role", Json::text(role)).with("content", body);
        if has_calls {
            m = m.with("tool_calls", Json::array(calls));
        }
        if preserve && role.eq("assistant") && has_calls {
            let text = if reasoning.len() == 0 {
                "tool call".to_owned()
            } else {
                join_texts(&reasoning, "\n")
            };
            m = m.with("reasoning_content", Json::Text(text));
        }
        out.push(Json::Object(m));
        out
    }
}

/// Convert a single Anthropic message to one or more OpenAI Chat messages.
///
/// Image blocks become `image_url` parts. Images in tool results go into a user
/// message of their own, since tool messages of the Chat format are text only.
pub fn convert_message_to_openai(role: &str, content: Option<&Json>, preserve_reasoning_content: bool) -> (r: Vec<Json>)
    ensures
        models(r@) == openai_messages(role@, opt_model(content), preserve_reasoning_content),
{
    broadcast use group_models;

    match content {
        None => {
            let mut out: Vec<Json> = Vec::new();
            out.push(make_chat_message_of(role, Json::Null));
            assert(models(out@) =~= seq![chat_message_of(role@, JsonV::Null)]);
            out
        },
        Some(v) => match v.as_array() {
            Some(blocks) => MessageParts::of_blocks(blocks, preserve_reasoning_content).assemble(
                role,
                preserve_reasoning_content,
            ),
            None => {
                let mut out: Vec<Json> = Vec::new();
                out.push(make_chat_message_of(role, v.copy()));
                assert(models(out@) =~= seq![chat_message_of(role@, v@)]);
                out
            },
        },
    }
}

} // verus!
