//! The rules of the local entries: what of a request goes to the log, whether it
//! asks for reasoning, and how failures are answered.

use vstd::prelude::*;
use vstd::string::*;
use crate::error::{Error, ErrorV, LocalEntry, error_body};
use crate::forward::{one_line, single_line};
use crate::json::{Json, JsonObject, JsonV, field_is, lemma_step, lemma_whole, models, opt_model, opt_string};
use crate::json_canonical::{canonical_json_string, compact_text};
use crate::text::{ascii_lower, cat, cat3, decimal, decimal_text, join, join_texts, lemma_texts_push, texts, to_ascii_lower, trim, trimmed};
use crate::tool_media::UNSUPPORTED_IMAGE_MARKER;

verus! {

/// A tool use in the log: its name and its input.
pub open spec fn tool_use_text(block: JsonV) -> Seq<char> {
    let head = "[tool_use: "@ + block.str_or("name"@, "?"@) + "]"@;
    match block.get("input"@) {
        Some(input) => head + " "@ + compact_text(input),
        None => head,
    }
}

/// A tool result in the log: its id and its content.
pub open spec fn tool_result_text(id: Seq<char>, content: Seq<char>) -> Seq<char> {
    let head = "[tool_result: "@ + id + "]"@;
    if content.len() == 0 {
        head
    } else {
        head + " "@ + content
    }
}

/// One block of content in the log; none where it is of a known kind and has no
/// text.
pub open spec fn block_log_text(block: JsonV) -> Option<Seq<char>>
    decreases block, 1int,
{
    match block.str_at("type"@) {
        None => Some("[unknown]"@),
        Some(kind) => if kind == "text"@ {
            block.str_at("text"@)
        } else if kind == "thinking"@ {
            match block.str_at("thinking"@) {
                Some(t) => Some(t + " (thinking)"@),
                None => None,
            }
        } else if kind == "tool_use"@ {
            Some(tool_use_text(block))
        } else if kind == "tool_result"@ {
            Some(tool_result_log_text(block))
        } else {
            Some("["@ + kind + "]"@)
        },
    }
}

/// A tool result in the log: its id and what it holds.
pub open spec fn tool_result_log_text(block: JsonV) -> Seq<char>
    decreases block, 0int,
{
    let content = match block {
        JsonV::Object(m) => if m.contains_key("content"@) {
            match m["content"@] {
                JsonV::Text(t) => t,
                JsonV::Array(blocks) => blocks_log_text(blocks),
                _ => "/"@,
            }
        } else {
            "/"@
        },
        _ => "/"@,
    };
    tool_result_text(block.str_or("tool_use_id"@, "?"@), content)
}

/// The texts of blocks of content in the log.
pub open spec fn block_log_texts(blocks: Seq<JsonV>) -> Seq<Seq<char>>
    decreases blocks, 0int,
{
    if blocks.len() == 0 {
        Seq::empty()
    } else {
        match block_log_text(blocks.last()) {
            Some(t) => block_log_texts(blocks.drop_last()).push(t),
            None => block_log_texts(blocks.drop_last()),
        }
    }
}

/// Blocks of content in the log.
pub open spec fn blocks_log_text(blocks: Seq<JsonV>) -> Seq<char>
    decreases blocks, 1int,
{
    if block_log_texts(blocks).len() == 0 {
        "[empty]"@
    } else {
        join(block_log_texts(blocks), " "@)
    }
}

/// The content of an Anthropic message in the log.
pub open spec fn content_log_text(content: Option<JsonV>) -> Seq<char> {
    match content {
        Some(JsonV::Text(t)) => t,
        Some(JsonV::Array(blocks)) => blocks_log_text(blocks),
        Some(JsonV::Null) => "null"@,
        None => "null"@,
        Some(v) => compact_text(v),
    }
}

/// One part of an OpenAI message in the log.
pub open spec fn part_log_text(part: JsonV) -> Option<Seq<char>> {
    let kind = part.str_or("type"@, Seq::empty());
    if kind == "text"@ || kind == "input_text"@ || kind == "output_text"@ {
        part.str_at("text"@)
    } else if kind == "image_url"@ || kind == "input_image"@ {
        Some("[image]"@)
    } else {
        None
    }
}

/// The texts of the parts of an OpenAI message in the log.
pub open spec fn part_log_texts(parts: Seq<JsonV>) -> Seq<Seq<char>>
    decreases parts.len(),
{
    if parts.len() == 0 {
        Seq::empty()
    } else {
        match part_log_text(parts.last()) {
            Some(t) => part_log_texts(parts.drop_last()).push(t),
            None => part_log_texts(parts.drop_last()),
        }
    }
}

/// The content of an OpenAI message in the log.
pub open spec fn openai_log_text(content: Option<JsonV>) -> Seq<char> {
    match content {
        Some(JsonV::Text(t)) => t,
        Some(JsonV::Array(parts)) => join(part_log_texts(parts), " "@),
        _ => "(no content)"@,
    }
}

/// The content of a message in the log, by the format of its entry.
pub open spec fn message_log_text(entry: LocalEntry, message: JsonV) -> Seq<char> {
    if entry == LocalEntry::AnthropicMessages {
        content_log_text(message.get("content"@))
    } else {
        openai_log_text(message.get("content"@))
    }
}

/// Whether an item of a request is a message of a role.
pub open spec fn has_role(entry: LocalEntry, item: JsonV, role: Seq<char>) -> bool {
    &&& item.str_at("role"@) == Some(role)
    &&& entry == LocalEntry::OaiResponses ==> item.str_at("type"@) == Some("message"@)
}

/// The texts of the system messages among the items of a request, without the
/// blank ones.
pub open spec fn system_log_texts(entry: LocalEntry, items: Seq<JsonV>) -> Seq<Seq<char>>
    decreases items.len(),
{
    if items.len() == 0 {
        Seq::empty()
    } else {
        let front = system_log_texts(entry, items.drop_last());
        let text = message_log_text(entry, items.last());
        if has_role(entry, items.last(), "system"@) && trim(text).len() > 0 {
            front.push(text)
        } else {
            front
        }
    }
}

/// A text by itself, where it is not blank.
pub open spec fn unless_blank(t: Option<Seq<char>>) -> Seq<Seq<char>> {
    match t {
        Some(t) => if trim(t).len() > 0 {
            seq![t]
        } else {
            Seq::empty()
        },
        None => Seq::empty(),
    }
}

/// The system prompt that stands at the top of a request.
pub open spec fn top_system_text(body: JsonV, entry: LocalEntry) -> Option<Seq<char>> {
    match entry {
        LocalEntry::AnthropicMessages => match body.get("system"@) {
            Some(v) => Some(content_log_text(Some(v))),
            None => None,
        },
        LocalEntry::OaiChat => None,
        LocalEntry::OaiResponses => body.str_at("instructions"@),
    }
}

/// The key under which a request has its messages.
pub open spec fn messages_key(entry: LocalEntry) -> Seq<char> {
    if entry == LocalEntry::OaiResponses {
        "input"@
    } else {
        "messages"@
    }
}

/// The system prompt of a request, where it has one.
pub open spec fn system_prompt_text(body: JsonV, entry: LocalEntry) -> Option<Seq<char>> {
    let parts = unless_blank(top_system_text(body, entry)) + system_log_texts(
        entry,
        body.items_at(messages_key(entry)),
    );
    if parts.len() == 0 {
        None
    } else {
        Some(join(parts, " | "@))
    }
}

/// The last message of the user among the items of a request.
pub open spec fn last_user(entry: LocalEntry, items: Seq<JsonV>) -> Option<JsonV>
    decreases items.len(),
{
    if items.len() == 0 {
        None
    } else if has_role(entry, items.last(), "user"@) {
        Some(items.last())
    } else {
        last_user(entry, items.drop_last())
    }
}

/// The texts of all messages in the log.
pub open spec fn all_log_texts(entry: LocalEntry, items: Seq<JsonV>) -> Seq<Seq<char>> {
    Seq::new(items.len(), |i: int| message_log_text(entry, items[i]))
}

/// What a request is about: the last message of the user, or else all messages,
/// on one line.
pub open spec fn request_log_text(body: JsonV, entry: LocalEntry) -> Seq<char> {
    match body.array_at(messages_key(entry)) {
        Some(items) => {
            let text = one_line(
                match last_user(entry, items) {
                    Some(m) => message_log_text(entry, m),
                    None => if entry == LocalEntry::OaiResponses {
                        "(no messages)"@
                    } else {
                        join(all_log_texts(entry, items), " | "@)
                    },
                },
            );
            if trim(text).len() == 0 {
                "(no messages)"@
            } else {
                text
            }
        },
        None => "(no messages)"@,
    }
}

/// Whether an effort is anything but an explicit refusal.
pub open spec fn is_wanted_effort(e: Seq<char>) -> bool {
    let w = ascii_lower(e);
    w != "none"@ && w != "disable"@ && w != "disabled"@
}

/// Whether an optional effort is there and is wanted.
pub open spec fn wants_effort(e: Option<JsonV>) -> bool {
    match e {
        Some(JsonV::Text(e)) => is_wanted_effort(e),
        _ => false,
    }
}

/// Whether an Anthropic request asks for thinking: by an effort, or else by
/// thinking that is enabled or adaptive.
pub open spec fn asks_for_thinking(body: JsonV) -> bool {
    match body.path2("output_config"@, "effort"@) {
        Some(JsonV::Text(e)) => is_wanted_effort(e),
        _ => {
            let kind = body.at("thinking"@).str_at("type"@);
            kind == Some("enabled"@) || kind == Some("adaptive"@)
        },
    }
}

/// Whether a request asks for reasoning, by the format of its entry.
pub open spec fn asks_for_reasoning(body: JsonV, entry: LocalEntry) -> bool {
    match entry {
        LocalEntry::AnthropicMessages => asks_for_thinking(body),
        LocalEntry::OaiChat => wants_effort(body.get("reasoning_effort"@)),
        LocalEntry::OaiResponses => wants_effort(body.path2("reasoning"@, "effort"@)),
    }
}

/// The body of the response to a client when the upstream failed.
pub open spec fn upstream_error_body(body: JsonV, entry: LocalEntry) -> JsonV {
    let message = match body.path2("error"@, "message"@) {
        Some(JsonV::Text(t)) => t,
        _ => "Upstream request failed"@,
    };
    if entry == LocalEntry::AnthropicMessages {
        JsonV::Object(
            map![
                "type"@ => JsonV::Text("error"@),
                "error"@ => JsonV::Object(
                    map!["type"@ => JsonV::Text("api_error"@), "message"@ => JsonV::Text(message)],
                ),
            ],
        )
    } else {
        JsonV::Object(
            map![
                "error"@ => JsonV::Object(
                    map!["message"@ => JsonV::Text(message), "type"@ => JsonV::Text("upstream_error"@)],
                ),
            ],
        )
    }
}

/// How a failure to forward a request stands in the log.
pub open spec fn forward_error_text(e: ErrorV) -> Seq<char> {
    match e {
        ErrorV::Upstream { status, reason, .. } => "upstream status "@ + decimal(status as nat) + ": "@ + reason,
        _ => e.display(),
    }
}

/// The body of the response to a client when a request could not be forwarded.
pub open spec fn forward_error_body(e: ErrorV, entry: LocalEntry) -> JsonV {
    match e {
        ErrorV::Upstream { body, .. } => upstream_error_body(body, entry),
        _ => error_body(e.status(), e.message(), entry),
    }
}

/// A tool use in the log: its name and its input.
pub fn tool_use_summary(block: &Json) -> (r: String)
    ensures
        r@ == tool_use_text(block@),
{
    let mut s = cat3("[tool_use: ", block.str_or("name", "?"), "]");
    if let Some(input) = block.get("input") {
        s.append(" ");
        s.append(canonical_json_string(input).as_str());
    }
    s
}

/// A tool result in the log: its id and what it holds.
pub fn tool_result_summary(block: &Json) -> (r: String)
    ensures
        r@ == tool_result_log_text(block@),
    decreases block, 0int,
{
    let content = match block.get("content") {
        Some(v) => match v.as_str() {
            Some(t) => t.to_owned(),
            None => match v.as_array() {
                Some(blocks) => blocks_text(blocks),
                None => "/".to_owned(),
            },
        },
        None => "/".to_owned(),
    };
    let mut s = cat3("[tool_result: ", block.str_or("tool_use_id", "?"), "]");
    if !content.as_str().is_empty() {
        s.append(" ");
        s.append(content.as_str());
    }
    s
}

fn block_text(block: &Json) -> (r: Option<String>)
    ensures
        opt_string(r) == block_log_text(block@),
    decreases block, 1int,
{
    let kind = match block.str_at("type") {
        Some(kind) => kind,
        None => {
            return Some("[unknown]".to_owned());
        },
    };
    if kind.eq("text") {
        match block.str_at("text") {
            Some(t) => Some(t.to_owned()),
            None => None,
        }
    } else if kind.eq("thinking") {
        match block.str_at("thinking") {
            Some(t) => Some(cat(t, " (thinking)")),
            None => None,
        }
    } else if kind.eq("tool_use") {
        Some(tool_use_summary(block))
    } else if kind.eq("tool_result") {
        Some(tool_result_summary(block))
    } else {
        Some(cat3("[", kind, "]"))
    }
}

fn blocks_text(blocks: &Vec<Json>) -> (r: String)
    ensures
        r@ == blocks_log_text(models(blocks@)),
    decreases blocks, 2int,
{
    broadcast use lemma_texts_push;

    let ghost all = models(blocks@);
    let mut found: Vec<String> = Vec::new();
    let mut i: usize = 0;
    assert(texts(found@) =~= block_log_texts(all.take(0)));
    while i < blocks.len()
        invariant
            i <= blocks@.len(),
            all == models(blocks@),
            texts(found@) == block_log_texts(all.take(i as int)),
        decreases blocks@.len() - i,
    {
        proof {
            lemma_step(all, i as int);
            assert(decreases_to!(*blocks => blocks@[i as int]));
        }
        if let Some(t) = block_text(&blocks[i]) {
            found.push(t);
        }
        i += 1;
    }
    proof {
        lemma_whole(all);
        assert(texts(found@).len() == found@.len());
    }
    if found.len() == 0 {
        "[empty]".to_owned()
    } else {
        join_texts(&found, " ")
    }
}

/// Extract plain text from an Anthropic content field. Joins the texts of all
/// blocks, without cutting any.
pub fn extract_text_content(content: Option<&Json>) -> (r: String)
    ensures
        r@ == content_log_text(opt_model(content)),
{
    match content {
        Some(v) => match v {
            Json::Text(t) => t.clone(),
            Json::Array(blocks) => {
                assert(v@->Array_0 =~= models(blocks@));
                blocks_text(blocks)
            },
            Json::Null => "null".to_owned(),
            _ => canonical_json_string(v),
        },
        None => "null".to_owned(),
    }
}

/// Extract the text from an OpenAI message content.
pub fn extract_openai_chat_text(content: Option<&Json>) -> (r: String)
    ensures
        r@ == openai_log_text(opt_model(content)),
{
    broadcast use lemma_texts_push;

    let v = match content {
        Some(v) => v,
        None => {
            return "(no content)".to_owned();
        },
    };
    if let Some(t) = v.as_str() {
        return t.to_owned();
    }
    let parts = match v.as_array() {
        Some(parts) => parts,
        None => {
            return "(no content)".to_owned();
        },
    };
    let ghost all = models(parts@);
    let mut found: Vec<String> = Vec::new();
    let mut i: usize = 0;
    assert(texts(found@) =~= Seq::empty());
    while i < parts.len()
        invariant
            i <= parts@.len(),
            all == models(parts@),
            texts(found@) == part_log_texts(all.take(i as int)),
        decreases parts@.len() - i,
    {
        proof {
            lemma_step(all, i as int);
        }
        let part = &parts[i];
        let kind = part.str_or_empty("type");
        if kind.eq("text") || kind.eq("input_text") || kind.eq("output_text") {
            if let Some(t) = part.str_at("text") {
                found.push(t.to_owned());
            }
        } else if kind.eq("image_url") || kind.eq("input_image") {
            found.push("[image]".to_owned());
        }
        i += 1;
    }
    proof {
        lemma_whole(all);
    }
    join_texts(&found, " ")
}

fn message_text(entry: LocalEntry, message: &Json) -> (r: String)
    ensures
        r@ == message_log_text(entry, message@),
{
    if entry == LocalEntry::AnthropicMessages {
        extract_text_content(message.get("content"))
    } else {
        extract_openai_chat_text(message.get("content"))
    }
}

fn is_of_role(entry: LocalEntry, item: &Json, role: &str) -> (r: bool)
    ensures
        r == has_role(entry, item@, role@),
{
    field_is(item, "role", role) && (entry != LocalEntry::OaiResponses || field_is(item, "type", "message"))
}

/// The key under which a request has its messages.
pub(crate) fn key_of_messages(entry: LocalEntry) -> (r: &'static str)
    ensures
        r@ == messages_key(entry),
{
    if entry == LocalEntry::OaiResponses {
        "input"
    } else {
        "messages"
    }
}

/// Extract the system prompt for the given local entry.
pub fn extract_system_for_entry(body: &Json, entry: LocalEntry) -> (r: Option<String>)
    ensures
        opt_string(r) == system_prompt_text(body@, entry),
{
    broadcast use lemma_texts_push;

    let top = match entry {
        LocalEntry::AnthropicMessages => match body.get("system") {
            Some(v) => Some(extract_text_content(Some(v))),
            None => None,
        },
        LocalEntry::OaiChat => None,
        LocalEntry::OaiResponses => match body.str_at("instructions") {
            Some(t) => Some(t.to_owned()),
            None => None,
        },
    };
    let ghost lead = unless_blank(top_system_text(body@, entry));
    let mut parts: Vec<String> = Vec::new();
    if let Some(t) = top {
        if !trimmed(t.as_str()).is_empty() {
            parts.push(t);
        }
    }
    assert(texts(parts@) =~= lead);
    if let Some(items) = body.array_at(key_of_messages(entry)) {
        let ghost all = models(items@);
        let mut i: usize = 0;
        assert(lead + system_log_texts(entry, all.take(0)) =~= lead);
        while i < items.len()
            invariant
                i <= items@.len(),
                all == models(items@),
                texts(parts@) == lead + system_log_texts(entry, all.take(i as int)),
            decreases items@.len() - i,
        {
            proof {
                lemma_step(all, i as int);
            }
            let ghost before = texts(parts@);
            let ghost item = all[i as int];
            let ghost front = system_log_texts(entry, all.take(i as int));
            assert(items@[i as int]@ == item);
            if is_of_role(entry, &items[i], "system") {
                let t = message_text(entry, &items[i]);
                if !trimmed(t.as_str()).is_empty() {
                    let ghost text = t@;
                    parts.push(t);
                    assert(texts(parts@) == before.push(text));
                    assert(system_log_texts(entry, all.take(i + 1)) == front.push(text));
                }
            }
            assert(texts(parts@) =~= lead + system_log_texts(entry, all.take(i + 1)));
            i += 1;
        }
        proof {
            lemma_whole(all);
        }
    } else {
        assert(lead + system_log_texts(entry, Seq::empty()) =~= lead);
    }
    assert(texts(parts@).len() == parts@.len());
    if parts.len() == 0 {
        None
    } else {
        Some(join_texts(&parts, " | "))
    }
}

fn find_last_user<'a>(entry: LocalEntry, items: &'a Vec<Json>) -> (r: Option<&'a Json>)
    ensures
        opt_model(r) == last_user(entry, models(items@)),
{
    let ghost all = models(items@);
    let mut i: usize = items.len();
    proof {
        lemma_whole(all);
    }
    while i > 0
        invariant
            i <= items@.len(),
            all == models(items@),
            last_user(entry, all) == last_user(entry, all.take(i as int)),
        decreases i,
    {
        proof {
            lemma_step(all, i - 1);
        }
        i -= 1;
        if is_of_role(entry, &items[i], "user") {
            return Some(&items[i]);
        }
    }
    None
}

fn all_texts(entry: LocalEntry, items: &Vec<Json>) -> (r: Vec<String>)
    ensures
        texts(r@) == all_log_texts(entry, models(items@)),
{
    let ghost all = models(items@);
    let mut out: Vec<String> = Vec::new();
    let mut i: usize = 0;
    while i < items.len()
        invariant
            i <= items@.len(),
            all == models(items@),
            out@.len() == i,
            forall|j: int| 0 <= j < i ==> #[trigger] out@[j]@ == message_log_text(entry, all[j]),
        decreases items@.len() - i,
    {
        out.push(message_text(entry, &items[i]));
        i += 1;
    }
    assert(texts(out@) =~= all_log_texts(entry, all));
    out
}

/// Extract what a request is about, for the given local entry: the complete last
/// message of the user.
pub fn request_text_for_entry(body: &Json, entry: LocalEntry) -> (r: String)
    ensures
        r@ == request_log_text(body@, entry),
{
    let items = match body.array_at(key_of_messages(entry)) {
        Some(items) => items,
        None => {
            return "(no messages)".to_owned();
        },
    };
    let user = match find_last_user(entry, items) {
        Some(m) => message_text(entry, m),
        None => if entry == LocalEntry::OaiResponses {
            "(no messages)".to_owned()
        } else {
            join_texts(&all_texts(entry, items), " | ")
        },
    };
    let text = single_line(user.as_str());
    if trimmed(text.as_str()).is_empty() {
        "(no messages)".to_owned()
    } else {
        text
    }
}

fn is_effort_wanted(e: &str) -> (r: bool)
    ensures
        r == is_wanted_effort(e@),
{
    let lower = to_ascii_lower(e);
    let w = lower.as_str();
    !w.eq("none") && !w.eq("disable") && !w.eq("disabled")
}

/// Whether an Anthropic request asks for thinking.
pub fn thinking_requested(body: &Json) -> (r: bool)
    ensures
        r == asks_for_thinking(body@),
{
    if let Some(v) = body.path2("output_config", "effort") {
        if let Some(e) = v.as_str() {
            return is_effort_wanted(e);
        }
    }
    match body.get("thinking") {
        Some(t) => field_is(t, "type", "enabled") || field_is(t, "type", "adaptive"),
        None => false,
    }
}

/// Whether the request asks for reasoning at all: any effort or thinking signal
/// other than an explicit disable.
pub fn reasoning_requested_for_entry(body: &Json, entry: LocalEntry) -> (r: bool)
    ensures
        r == asks_for_reasoning(body@, entry),
{
    let effort = match entry {
        LocalEntry::AnthropicMessages => {
            return thinking_requested(body);
        },
        LocalEntry::OaiChat => body.get("reasoning_effort"),
        LocalEntry::OaiResponses => body.path2("reasoning", "effort"),
    };
    match effort {
        Some(v) => match v.as_str() {
            Some(e) => is_effort_wanted(e),
            None => false,
        },
        None => false,
    }
}

/// The status and body of the response to a client when the upstream failed.
pub fn upstream_error_response(status: u16, body: &Json, entry: LocalEntry) -> (r: (u16, Json))
    ensures
        r.0 == status,
        r.1@ == upstream_error_body(body@, entry),
{
    let message = match body.path2("error", "message") {
        Some(v) => match v.as_str() {
            Some(t) => t,
            None => "Upstream request failed",
        },
        None => "Upstream request failed",
    };
    let shaped = if entry == LocalEntry::AnthropicMessages {
        Json::Object(
            JsonObject::new().with("type", Json::text("error")).with(
                "error",
                Json::Object(
                    JsonObject::new().with("type", Json::text("api_error")).with("message", Json::text(message)),
                ),
            ),
        )
    } else {
        Json::Object(
            JsonObject::new().with(
                "error",
                Json::Object(
                    JsonObject::new().with("message", Json::text(message)).with(
                        "type",
                        Json::text("upstream_error"),
                    ),
                ),
            ),
        )
    };
    (status, shaped)
}

/// What becomes of a failure to forward a request: the text for the log, and the
/// status and body of the response to the client. A failed response of the
/// upstream is relayed with its real status.
pub fn handle_forward_error(e: Error, entry: LocalEntry) -> (r: (String, u16, Json))
    ensures
        r.0@ == forward_error_text(e@),
        r.1 == e@.status(),
        r.2@ == forward_error_body(e@, entry),
{
    match e {
        Error::Upstream { status, reason, body } => {
            let mut line = cat3("upstream status ", decimal_text(status as u64).as_str(), ": ");
            line.append(reason.as_str());
            let (status, body) = upstream_error_response(status, &body, entry);
            (line, status, body)
        },
        other => {
            let line = other.display();
            let (status, body) = other.into_entry_response(entry);
            (line, status, body)
        },
    }
}

/// What the log says of a request: the model that was asked for and the text.
pub fn request_summary(body: &Json, entry: LocalEntry, model: &str) -> (r: String)
    ensures
        r@ == model@ + " "@ + request_log_text(body@, entry),
{
    cat3(model, " ", request_text_for_entry(body, entry).as_str())
}

/// The note in the log about images that were replaced.
pub fn media_note_text(count: usize) -> (r: String)
    ensures
        r@ == " [media: "@ + decimal(count as nat) + " image(s) → "@ + UNSUPPORTED_IMAGE_MARKER@ + "]"@,
{
    let mut s = cat3(" [media: ", decimal_text(count as u64).as_str(), " image(s) → ");
    s.append(UNSUPPORTED_IMAGE_MARKER);
    s.append("]");
    s
}

} // verus!
