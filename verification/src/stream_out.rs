//! What a stream conversion gives out: events for the client, and entries for
//! the log.

use vstd::prelude::*;
use vstd::string::*;
use crate::json::{Json, JsonObject, JsonV, group_models, make_text_or_null, models, num, opt_model, opt_string, opt_text, text_or_null};
use crate::json_canonical::{canonical_json_string, compact_text};
use crate::json_text::{MAX_DEPTH, RAW_VALUE_KEY, storable};
use crate::reasoning_bridge::{encode_openai_reasoning_item, envelope, is_reasoning, item_text, summary_part_text, summary_text};
use crate::text::{cat, cat3};

verus! {

/// One step of output.
pub enum StreamOut {
    /// An event with a name, for the client.
    Event { name: String, data: Json },
    /// A data block without a name, for the client.
    Data(Json),
    /// Text that goes to the client as it is.
    Raw(String),
    /// Text for the log of the response.
    Log(String),
    /// The failure of the response, for the log.
    LogError(String),
    /// The end of the response, for the log.
    LogDone,
}

/// The model of one step of output.
pub enum OutV {
    Event { name: Seq<char>, data: JsonV },
    Data(JsonV),
    Raw(Seq<char>),
    Log(Seq<char>),
    LogError(Seq<char>),
    LogDone,
}

impl View for StreamOut {
    type V = OutV;

    open spec fn view(&self) -> OutV {
        match self {
            StreamOut::Event { name, data } => OutV::Event { name: name@, data: data@ },
            StreamOut::Data(data) => OutV::Data(data@),
            StreamOut::Raw(t) => OutV::Raw(t@),
            StreamOut::Log(t) => OutV::Log(t@),
            StreamOut::LogError(t) => OutV::LogError(t@),
            StreamOut::LogDone => OutV::LogDone,
        }
    }
}

/// One piece of a streamed response: bytes, or the failure of the connection.
pub enum StreamPiece {
    Bytes(Vec<u8>),
    Failure(String),
}

/// The model of a piece.
pub enum PieceV {
    Bytes(Seq<u8>),
    Failure(Seq<char>),
}

impl View for StreamPiece {
    type V = PieceV;

    open spec fn view(&self) -> PieceV {
        match self {
            StreamPiece::Bytes(b) => PieceV::Bytes(b@),
            StreamPiece::Failure(m) => PieceV::Failure(m@),
        }
    }
}

/// The models of a list of pieces.
pub open spec fn stream_pieces(v: Seq<StreamPiece>) -> Seq<PieceV> {
    Seq::new(v.len(), |i: int| v[i]@)
}

/// Adds steps to a list of steps.
pub(crate) fn add_steps(list: &mut Vec<StreamOut>, more: Vec<StreamOut>)
    ensures
        outs(final(list)@) == outs(old(list)@) + outs(more@),
{
    let ghost x = list@;
    let ghost y = more@;
    let mut rest = more;
    list.append(&mut rest);
    assert(list@ == x + y);
    assert(outs(list@) =~= outs(x) + outs(y));
}

/// The models of a list of steps.
pub open spec fn outs(v: Seq<StreamOut>) -> Seq<OutV> {
    Seq::new(v.len(), |i: int| v[i]@)
}

pub broadcast proof fn lemma_outs_push(v: Seq<StreamOut>, o: StreamOut)
    ensures
        #[trigger] outs(v.push(o)) == outs(v).push(o@),
{
    assert(outs(v.push(o)) =~= outs(v).push(o@));
}

pub broadcast proof fn lemma_outs_empty()
    ensures
        #[trigger] outs(Seq::<StreamOut>::empty()) == Seq::<OutV>::empty(),
{
    assert(outs(Seq::<StreamOut>::empty()) =~= Seq::<OutV>::empty());
}

pub broadcast group group_outs {
    lemma_outs_push,
    lemma_outs_empty,
}

impl OutV {
    /// What the client gets of a step.
    pub open spec fn client_text(self) -> Option<Seq<char>> {
        match self {
            OutV::Event { name, data } => Some(
                "event: "@ + name + "\ndata: "@ + compact_text(data) + "\n\n"@,
            ),
            OutV::Data(data) => Some("data: "@ + compact_text(data) + "\n\n"@),
            OutV::Raw(t) => Some(t),
            _ => None,
        }
    }
}

impl StreamOut {
    /// What the client gets of a step.
    pub fn client_text(&self) -> (r: Option<String>)
        ensures
            opt_string(r) == self@.client_text(),
    {
        match self {
            StreamOut::Event { name, data } => {
                let mut s = cat3("event: ", name.as_str(), "\ndata: ");
                s.append(canonical_json_string(data).as_str());
                s.append("\n\n");
                Some(s)
            },
            StreamOut::Data(data) => {
                let mut s = cat("data: ", canonical_json_string(data).as_str());
                s.append("\n\n");
                Some(s)
            },
            StreamOut::Raw(t) => Some(t.clone()),
            _ => None,
        }
    }
}

/// An event with a name.
pub open spec fn event(name: Seq<char>, data: JsonV) -> OutV {
    OutV::Event { name, data }
}

/// An event with a name.
pub(crate) fn make_event(name: &str, data: Json) -> (r: StreamOut)
    ensures
        r@ == event(name@, data@),
{
    StreamOut::Event { name: name.to_owned(), data }
}

/// The event that opens a content block.
pub open spec fn block_start(index: u64, block: JsonV) -> OutV {
    event(
        "content_block_start"@,
        JsonV::Object(
            map![
                "type"@ => JsonV::Text("content_block_start"@),
                "index"@ => num(index),
                "content_block"@ => block,
            ],
        ),
    )
}

/// The event that adds to a content block.
pub open spec fn block_delta(index: u64, delta: JsonV) -> OutV {
    event(
        "content_block_delta"@,
        JsonV::Object(
            map!["type"@ => JsonV::Text("content_block_delta"@), "index"@ => num(index), "delta"@ => delta],
        ),
    )
}

/// The event that closes a content block.
pub open spec fn block_stop(index: u64) -> OutV {
    event(
        "content_block_stop"@,
        JsonV::Object(map!["type"@ => JsonV::Text("content_block_stop"@), "index"@ => num(index)]),
    )
}

/// A delta of one kind with one text in it.
pub open spec fn text_delta(kind: Seq<char>, key: Seq<char>, t: Seq<char>) -> JsonV {
    JsonV::Object(map!["type"@ => JsonV::Text(kind), key => JsonV::Text(t)])
}

/// The event that ends a message.
pub open spec fn message_stop() -> OutV {
    event("message_stop"@, JsonV::Object(map!["type"@ => JsonV::Text("message_stop"@)]))
}

/// The event that reports why a message ended, and its usage.
pub open spec fn message_delta(stop: Option<Seq<char>>, usage: Option<JsonV>) -> OutV {
    let shown = match usage {
        Some(JsonV::Object(m)) => JsonV::Object(m),
        _ => JsonV::Object(map!["input_tokens"@ => num(0), "output_tokens"@ => num(0)]),
    };
    event(
        "message_delta"@,
        JsonV::Object(
            map![
                "type"@ => JsonV::Text("message_delta"@),
                "delta"@ => JsonV::Object(
                    map!["stop_reason"@ => text_or_null(stop), "stop_sequence"@ => JsonV::Null],
                ),
                "usage"@ => shown,
            ],
        ),
    )
}

/// The event that reports a failure of the stream.
pub open spec fn stream_error(kind: Seq<char>, message: Seq<char>) -> OutV {
    event(
        "error"@,
        JsonV::Object(
            map![
                "type"@ => JsonV::Text("error"@),
                "error"@ => JsonV::Object(
                    map!["type"@ => JsonV::Text(kind), "message"@ => JsonV::Text(message)],
                ),
            ],
        ),
    )
}

/// A reasoning item with one text in its summary.
pub open spec fn reasoning_item(id: Seq<char>, t: Seq<char>) -> JsonV {
    JsonV::Object(
        map![
            "type"@ => JsonV::Text("reasoning"@),
            "id"@ => JsonV::Text(id),
            "summary"@ => JsonV::Array(
                seq![
                    JsonV::Object(map!["type"@ => JsonV::Text("summary_text"@), "text"@ => JsonV::Text(t)]),
                ],
            ),
        ],
    )
}

/// The event that signs a thinking block with a reasoning item.
pub open spec fn signature(index: u64, item: JsonV) -> OutV {
    block_delta(index, text_delta("signature_delta"@, "signature"@, envelope(item)))
}

pub(crate) fn make_block_start(index: u64, block: Json) -> (r: StreamOut)
    ensures
        r@ == block_start(index, block@),
{
    make_event(
        "content_block_start",
        Json::Object(
            JsonObject::new().with("type", Json::text("content_block_start")).with("index", Json::number(index)).with(
                "content_block",
                block,
            ),
        ),
    )
}

pub(crate) fn make_block_delta(index: u64, delta: Json) -> (r: StreamOut)
    ensures
        r@ == block_delta(index, delta@),
{
    make_event(
        "content_block_delta",
        Json::Object(
            JsonObject::new().with("type", Json::text("content_block_delta")).with("index", Json::number(index)).with(
                "delta",
                delta,
            ),
        ),
    )
}

pub(crate) fn make_block_stop(index: u64) -> (r: StreamOut)
    ensures
        r@ == block_stop(index),
{
    make_event(
        "content_block_stop",
        Json::Object(
            JsonObject::new().with("type", Json::text("content_block_stop")).with("index", Json::number(index)),
        ),
    )
}

pub(crate) fn make_text_delta(kind: &str, key: &str, t: &str) -> (r: Json)
    ensures
        r@ == text_delta(kind@, key@, t@),
{
    Json::Object(JsonObject::new().with("type", Json::text(kind)).with(key, Json::text(t)))
}

pub(crate) fn make_message_stop() -> (r: StreamOut)
    ensures
        r@ == message_stop(),
{
    make_event("message_stop", Json::Object(JsonObject::new().with("type", Json::text("message_stop"))))
}

pub(crate) fn make_message_delta(stop: Option<&str>, usage: Option<&Json>) -> (r: StreamOut)
    ensures
        r@ == message_delta(opt_text(stop), opt_model(usage)),
{
    let nothing = JsonObject::new().with("input_tokens", Json::number(0)).with("output_tokens", Json::number(0));
    let shown = match usage {
        Some(Json::Object(m)) => m.copy(),
        _ => nothing,
    };
    make_event(
        "message_delta",
        Json::Object(
            JsonObject::new().with("type", Json::text("message_delta")).with(
                "delta",
                Json::Object(
                    JsonObject::new().with("stop_reason", make_text_or_null(stop)).with("stop_sequence", Json::Null),
                ),
            ).with("usage", Json::Object(shown)),
        ),
    )
}

pub(crate) fn make_stream_error(kind: &str, message: &str) -> (r: StreamOut)
    ensures
        r@ == stream_error(kind@, message@),
{
    make_event(
        "error",
        Json::Object(
            JsonObject::new().with("type", Json::text("error")).with(
                "error",
                Json::Object(
                    JsonObject::new().with("type", Json::text(kind)).with("message", Json::text(message)),
                ),
            ),
        ),
    )
}

/// A reasoning item with one text in its summary.
pub(crate) fn make_reasoning_item(id: &str, t: &str) -> (r: Json)
    ensures
        r@ == reasoning_item(id@, t@),
{
    broadcast use group_models;

    let part = Json::Object(
        JsonObject::new().with("type", Json::text("summary_text")).with("text", Json::text(t)),
    );
    let ghost model = part@;
    let mut summary: Vec<Json> = Vec::new();
    summary.push(part);
    assert(models(summary@) =~= seq![model]);
    Json::Object(
        JsonObject::new().with("type", Json::text("reasoning")).with("id", Json::text(id)).with(
            "summary",
            Json::array(summary),
        ),
    )
}

/// The item that signs a thinking block carries the text of the block, and is one
/// that can be read back from the signature.
pub proof fn law_signed_reasoning_can_be_read_back(id: Seq<char>, t: Seq<char>)
    ensures
        is_reasoning(reasoning_item(id, t)),
        item_text(reasoning_item(id, t)) == t,
        storable(reasoning_item(id, t), MAX_DEPTH as nat),
{
    reveal_strlit("type");
    reveal_strlit("id");
    reveal_strlit("summary");
    reveal_strlit("text");
    assert("type"@.len() != "id"@.len());
    assert("type"@.len() != "summary"@.len());
    assert("type"@[1] != "text"@[1]);
    let item = reasoning_item(id, t);
    let parts = item.items_at("summary"@);
    assert(parts.len() == 1);
    assert(parts.drop_last() =~= Seq::empty());
    assert(summary_part_text(parts.last()) == t);
    assert(summary_text(Seq::empty()) =~= Seq::empty());
    assert(summary_text(parts) =~= t);
    reveal_with_fuel(storable, 4);
    reveal_strlit("$serde_json::private::RawValue");
    assert(RAW_VALUE_KEY@.len() == 30 && "type"@.len() == 4 && "id"@.len() == 2);
    assert("summary"@.len() == 7 && "text"@.len() == 4);
    let members = map!["type"@ => JsonV::Text("summary_text"@), "text"@ => JsonV::Text(t)];
    assert(parts[0] == JsonV::Object(members));
    assert(members.dom().finite());
    assert(storable(parts[0], (MAX_DEPTH - 2) as nat));
    assert(storable(JsonV::Array(parts), (MAX_DEPTH - 1) as nat));
}

/// The event that signs a thinking block with a reasoning item.
pub(crate) fn make_signature(index: u64, item: &Json) -> (r: StreamOut)
    requires
        is_reasoning(item@),
    ensures
        r@ == signature(index, item@),
{
    let text = match encode_openai_reasoning_item(item) {
        Some(text) => text,
        None => String::new(),
    };
    make_block_delta(index, make_text_delta("signature_delta", "signature", text.as_str()))
}

/// The next number; after the last comes zero.
pub open spec fn next_number(n: u64) -> u64 {
    if n == u64::MAX {
        0
    } else {
        (n + 1) as u64
    }
}

pub(crate) fn following(n: u64) -> (r: u64)
    ensures
        r == next_number(n),
{
    n.wrapping_add(1)
}

/// The event that opens the message.
pub open spec fn message_start(id: Seq<char>, model: Seq<char>, usage: JsonV) -> OutV {
    event(
        "message_start"@,
        JsonV::Object(
            map![
                "type"@ => JsonV::Text("message_start"@),
                "message"@ => JsonV::Object(
                    map![
                        "id"@ => JsonV::Text(id),
                        "type"@ => JsonV::Text("message"@),
                        "role"@ => JsonV::Text("assistant"@),
                        "model"@ => JsonV::Text(model),
                        "usage"@ => usage,
                    ],
                ),
            ],
        ),
    )
}

/// A tool call at the start of its block.
pub open spec fn tool_start(index: u64, id: Seq<char>, name: Seq<char>) -> OutV {
    block_start(
        index,
        JsonV::Object(
            map!["type"@ => JsonV::Text("tool_use"@), "id"@ => JsonV::Text(id), "name"@ => JsonV::Text(name)],
        ),
    )
}

/// A piece of the arguments of a tool call.
pub open spec fn args_delta(index: u64, args: Seq<char>) -> OutV {
    block_delta(index, text_delta("input_json_delta"@, "partial_json"@, args))
}

/// How the start of a tool call stands in the log.
pub open spec fn tool_note(name: Seq<char>) -> OutV {
    OutV::Log("[tool_use: "@ + name + "]"@)
}

pub(crate) fn make_message_start(id: &str, model: &str, usage: Json) -> (r: StreamOut)
    ensures
        r@ == message_start(id@, model@, usage@),
{
    make_event(
        "message_start",
        Json::Object(
            JsonObject::new().with("type", Json::text("message_start")).with(
                "message",
                Json::Object(
                    JsonObject::new().with("id", Json::text(id)).with("type", Json::text("message")).with(
                        "role",
                        Json::text("assistant"),
                    ).with("model", Json::text(model)).with("usage", usage),
                ),
            ),
        ),
    )
}

pub(crate) fn make_tool_start(index: u64, id: &str, name: &str) -> (r: StreamOut)
    ensures
        r@ == tool_start(index, id@, name@),
{
    make_block_start(
        index,
        Json::Object(
            JsonObject::new().with("type", Json::text("tool_use")).with("id", Json::text(id)).with(
                "name",
                Json::text(name),
            ),
        ),
    )
}

pub(crate) fn make_args_delta(index: u64, args: &str) -> (r: StreamOut)
    ensures
        r@ == args_delta(index, args@),
{
    make_block_delta(index, make_text_delta("input_json_delta", "partial_json", args))
}

/// A slice of an optional string.
pub(crate) fn copy_text(o: &Option<String>) -> (r: Option<&str>)
    ensures
        opt_text(r) == opt_string(*o),
{
    match o {
        Some(s) => Some(s.as_str()),
        None => None,
    }
}

/// What of the steps the client gets.
pub open spec fn shown(list: Seq<OutV>) -> Seq<OutV>
    decreases list.len(),
{
    if list.len() == 0 {
        Seq::empty()
    } else if list.last().client_text() is Some {
        shown(list.drop_last()).push(list.last())
    } else {
        shown(list.drop_last())
    }
}

/// Whether all of the steps go to the client.
pub open spec fn all_shown(list: Seq<OutV>) -> bool {
    forall|i: int| 0 <= i < list.len() ==> (#[trigger] list[i]).client_text() is Some
}

/// What the client gets of two lists one after the other.
pub proof fn lemma_shown_add(a: Seq<OutV>, b: Seq<OutV>)
    ensures
        shown(a + b) == shown(a) + shown(b),
    decreases b.len(),
{
    if b.len() > 0 {
        assert((a + b).drop_last() =~= a + b.drop_last());
        lemma_shown_add(a, b.drop_last());
        assert(shown(a + b) =~= shown(a) + shown(b));
    } else {
        assert(a + b =~= a);
        assert(shown(a) + shown(b) =~= shown(a));
    }
}

/// What the client gets of a list that grew by one step.
pub broadcast proof fn lemma_shown_push(list: Seq<OutV>, o: OutV)
    ensures
        #[trigger] shown(list.push(o)) == if o.client_text() is Some {
            shown(list).push(o)
        } else {
            shown(list)
        },
{
    assert(list.push(o).drop_last() =~= list);
}

} // verus!
