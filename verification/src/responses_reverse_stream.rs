//! A streamed Anthropic response as Responses events.
//!
//! Anthropic streams content as pieces only. Clients of the Responses format put
//! the reply together from the events that end an item and the response, so the
//! text and the arguments are gathered on the way and repeated there.

use vstd::prelude::*;
use vstd::string::*;
use crate::convert::extend;
use crate::convert_response::zero_or;
use crate::json::{Json, JsonObject, JsonV, field_is, group_models, lemma_step, lemma_whole, models, num, opt_json, or_zero};
use crate::json_text::{json_parse, parse_json};
use crate::responses_reverse::{build_responses_usage, make_output_call, make_output_message, map_stop_to_status, output_call, output_message, single, status_of_stop, usage_for_responses};
use crate::sse::{SseReader, SseReaderV, sse_field, strip_sse_field};
use crate::stream_out::{OutV, PieceV, StreamOut, StreamPiece, add_steps, all_shown, event, group_outs, lemma_shown_add, lemma_shown_push, make_event, outs, shown, stream_pieces};
use crate::text::{cat, cat3, decimal, decimal_text, lines, split_lines, texts, trim, trimmed};
use crate::transform_responses::{make_typed_text, typed_text};

verus! {

/// The text of one content block.
pub struct IndexedText {
    pub index: u64,
    pub text: String,
}

/// The model of the text of one content block.
pub struct IndexedTextV {
    pub index: u64,
    pub text: Seq<char>,
}

impl View for IndexedText {
    type V = IndexedTextV;

    open spec fn view(&self) -> IndexedTextV {
        IndexedTextV { index: self.index, text: self.text@ }
    }
}

/// The models of a list of texts.
pub open spec fn indexed_texts(v: Seq<IndexedText>) -> Seq<IndexedTextV> {
    Seq::new(v.len(), |i: int| v[i]@)
}

/// The texts, in the order of their indices, with `t` added to the one of an
/// index.
pub open spec fn text_added(v: Seq<IndexedTextV>, index: u64, t: Seq<char>) -> Seq<IndexedTextV>
    decreases v.len(),
{
    if v.len() == 0 || v.last().index < index {
        v.push(IndexedTextV { index, text: t })
    } else if v.last().index == index {
        v.drop_last().push(IndexedTextV { index, text: v.last().text + t })
    } else {
        text_added(v.drop_last(), index, t).push(v.last())
    }
}

/// The text of an index, or the empty one.
pub open spec fn text_of_index(v: Seq<IndexedTextV>, index: u64) -> Seq<char>
    decreases v.len(),
{
    if v.len() == 0 {
        Seq::empty()
    } else if v.last().index == index {
        v.last().text
    } else {
        text_of_index(v.drop_last(), index)
    }
}

/// All texts, one after another.
pub open spec fn whole_text(v: Seq<IndexedTextV>) -> Seq<char>
    decreases v.len(),
{
    if v.len() == 0 {
        Seq::empty()
    } else {
        whole_text(v.drop_last()) + v.last().text
    }
}

/// A function call of the response.
pub struct CallItem {
    pub call_id: String,
    pub name: String,
    pub arguments: String,
}

/// The model of a function call.
pub struct CallItemV {
    pub call_id: Seq<char>,
    pub name: Seq<char>,
    pub arguments: Seq<char>,
}

impl View for CallItem {
    type V = CallItemV;

    open spec fn view(&self) -> CallItemV {
        CallItemV { call_id: self.call_id@, name: self.name@, arguments: self.arguments@ }
    }
}

/// The models of a list of function calls.
pub open spec fn call_items(v: Seq<CallItem>) -> Seq<CallItemV> {
    Seq::new(v.len(), |i: int| v[i]@)
}

/// What became of a content block: the index of its item, and whether it is a
/// function call.
#[derive(Clone, Copy)]
pub struct BlockPlace {
    pub index: u64,
    pub output: u64,
    pub is_tool: bool,
}

/// The last block of an index.
pub open spec fn place_of(v: Seq<BlockPlace>, index: u64) -> Option<BlockPlace>
    decreases v.len(),
{
    if v.len() == 0 {
        None
    } else if v.last().index == index {
        Some(v.last())
    } else {
        place_of(v.drop_last(), index)
    }
}

/// The state of the conversion.
pub struct AnthropicToResponses {
    pub reader: SseReader,
    pub model: String,
    /// Whether the text of the response goes to the log from here.
    pub log_resp: bool,
    pub has_text: bool,
    pub response_id: String,
    pub content_index: u64,
    pub done: bool,
    pub gathered: Vec<IndexedText>,
    /// The function calls; the first stands at index one of the output.
    pub calls: Vec<CallItem>,
    pub places: Vec<BlockPlace>,
    pub status: String,
    pub usage: Option<Json>,
    /// What is to be given out.
    pub out: Vec<StreamOut>,
}

/// The model of the state.
pub struct ToResponsesV {
    pub reader: SseReaderV,
    pub model: Seq<char>,
    pub log_resp: bool,
    pub has_text: bool,
    pub response_id: Seq<char>,
    pub content_index: u64,
    pub done: bool,
    pub gathered: Seq<IndexedTextV>,
    pub calls: Seq<CallItemV>,
    pub places: Seq<BlockPlace>,
    pub status: Seq<char>,
    pub usage: Option<JsonV>,
    pub out: Seq<OutV>,
}

impl View for AnthropicToResponses {
    type V = ToResponsesV;

    open spec fn view(&self) -> ToResponsesV {
        ToResponsesV {
            reader: self.reader@,
            model: self.model@,
            log_resp: self.log_resp,
            has_text: self.has_text,
            response_id: self.response_id@,
            content_index: self.content_index,
            done: self.done,
            gathered: indexed_texts(self.gathered@),
            calls: call_items(self.calls@),
            places: self.places@,
            status: self.status@,
            usage: opt_json(self.usage),
            out: outs(self.out@),
        }
    }
}

/// An event whose data begin with its name.
pub open spec fn named_event(name: Seq<char>, m: Map<Seq<char>, JsonV>) -> OutV {
    event(name, JsonV::Object(m.insert("type"@, JsonV::Text(name))))
}

/// The response as a whole.
pub open spec fn response_object(id: Seq<char>, status: Seq<char>, model: Seq<char>, output: Seq<JsonV>) -> Map<
    Seq<char>,
    JsonV,
> {
    map![
        "id"@ => JsonV::Text(id),
        "object"@ => JsonV::Text("response"@),
        "created_at"@ => num(0),
        "status"@ => JsonV::Text(status),
        "model"@ => JsonV::Text(model),
        "output"@ => JsonV::Array(output),
    ]
}

/// An event about an item of the output.
pub open spec fn item_event(name: Seq<char>, index: u64, item: JsonV) -> OutV {
    named_event(name, map!["output_index"@ => num(index), "item"@ => item])
}

/// The text of a message, as its content lists it.
pub open spec fn message_content(t: Seq<char>) -> Seq<JsonV> {
    if t.len() == 0 {
        Seq::empty()
    } else {
        seq![
            JsonV::Object(
                map![
                    "type"@ => JsonV::Text("output_text"@),
                    "text"@ => JsonV::Text(t),
                    "annotations"@ => JsonV::Array(Seq::empty()),
                ],
            ),
        ]
    }
}

/// The id of a message by the index of its item.
pub open spec fn msg_id(index: u64) -> JsonV {
    JsonV::Text("msg_"@ + decimal(index as nat))
}

/// The id of a function call by the index of its item.
pub open spec fn fc_id(index: u64) -> JsonV {
    JsonV::Text("fc_"@ + decimal(index as nat))
}

/// The function calls as items of the output, the first `n` of them.
pub open spec fn finished_calls(calls: Seq<CallItemV>, n: nat) -> Seq<JsonV>
    decreases n,
{
    if n == 0 {
        Seq::empty()
    } else {
        let c = calls[n - 1];
        finished_calls(calls, (n - 1) as nat).push(
            output_call(n, c.call_id, c.name, c.arguments, "completed"@),
        )
    }
}

impl ToResponsesV {
    /// The state before any bytes came.
    pub open spec fn initial(model: Seq<char>, log_resp: bool) -> ToResponsesV {
        ToResponsesV {
            reader: SseReaderV::empty(),
            model,
            log_resp,
            has_text: false,
            response_id: Seq::empty(),
            content_index: 0,
            done: false,
            gathered: Seq::empty(),
            calls: Seq::empty(),
            places: Seq::empty(),
            status: "completed"@,
            usage: None,
            out: Seq::empty(),
        }
    }

    pub open spec fn emit(self, o: OutV) -> ToResponsesV {
        ToResponsesV { out: self.out.push(o), ..self }
    }

    /// A text in the log, where the log is written from here.
    pub open spec fn logged(self, t: Seq<char>) -> ToResponsesV {
        if self.log_resp {
            self.emit(OutV::Log(t))
        } else {
            self
        }
    }

    /// The number of function calls so far.
    pub open spec fn call_count(self) -> u64 {
        self.calls.len() as u64
    }

    /// The state after the message began.
    pub open spec fn with_start(self, ev: JsonV) -> ToResponsesV {
        let id = match ev.path2("message"@, "id"@) {
            Some(JsonV::Text(t)) => t,
            _ => "resp_"@,
        };
        ToResponsesV {
            response_id: id,
            ..self.emit(
                named_event(
                    "response.created"@,
                    map![
                        "response"@ => JsonV::Object(
                            response_object(id, "in_progress"@, self.model, Seq::empty()),
                        ),
                    ],
                ),
            )
        }
    }

    /// The state after a content block began.
    pub open spec fn with_block(self, index: u64, block: JsonV) -> ToResponsesV {
        if block.str_at("type"@) == Some("text"@) {
            ToResponsesV {
                content_index: index,
                places: self.places.push(BlockPlace { index, output: index, is_tool: false }),
                ..self.emit(
                    item_event(
                        "response.output_item.added"@,
                        index,
                        output_message(index as nat, Seq::empty(), "in_progress"@),
                    ),
                )
            }
        } else if block.str_at("type"@) == Some("tool_use"@) {
            let id = block.str_or("id"@, Seq::empty());
            let name = block.str_or("name"@, Seq::empty());
            let s = ToResponsesV {
                calls: self.calls.push(CallItemV { call_id: id, name, arguments: Seq::empty() }),
                ..self
            };
            let n = s.call_count();
            let s = ToResponsesV {
                places: self.places.push(BlockPlace { index, output: n, is_tool: true }),
                ..s
            };
            let s = if self.has_text {
                s
            } else {
                s.logged("[tool_use: "@ + name + "]"@)
            };
            s.emit(
                item_event(
                    "response.output_item.added"@,
                    n,
                    output_call(n as nat, id, name, Seq::empty(), "in_progress"@),
                ),
            )
        } else {
            self
        }
    }

    /// The state after a content block was added to.
    pub open spec fn with_delta(self, delta: JsonV) -> ToResponsesV {
        if delta.str_at("type"@) == Some("text_delta"@) {
            let t = delta.str_or("text"@, Seq::empty());
            let s = self.logged(t);
            ToResponsesV {
                gathered: text_added(self.gathered, self.content_index, t),
                has_text: self.has_text || self.log_resp,
                ..s.emit(
                    named_event(
                        "response.output_text.delta"@,
                        map![
                            "item_id"@ => msg_id(self.content_index),
                            "output_index"@ => num(self.content_index),
                            "content_index"@ => num(0),
                            "delta"@ => JsonV::Text(t),
                        ],
                    ),
                )
            }
        } else if delta.str_at("type"@) == Some("input_json_delta"@) {
            let t = delta.str_or("partial_json"@, Seq::empty());
            let n = self.calls.len();
            let calls = if n == 0 {
                self.calls
            } else {
                let c = self.calls[n - 1];
                self.calls.update(n - 1, CallItemV { arguments: c.arguments + t, ..c })
            };
            ToResponsesV {
                calls,
                ..self.emit(
                    named_event(
                        "response.function_call_arguments.delta"@,
                        map![
                            "item_id"@ => fc_id(self.call_count()),
                            "output_index"@ => num(self.call_count()),
                            "delta"@ => JsonV::Text(t),
                        ],
                    ),
                )
            }
        } else {
            self
        }
    }

    /// The function call at an index of the output; an empty one where there is
    /// none.
    pub open spec fn call_at(self, output: u64) -> CallItemV {
        if 0 < output <= self.calls.len() {
            self.calls[output - 1]
        } else {
            CallItemV { call_id: Seq::empty(), name: Seq::empty(), arguments: Seq::empty() }
        }
    }

    /// The state after a content block came to its end.
    pub open spec fn with_block_stop(self, index: u64) -> ToResponsesV {
        let place = place_of(self.places, index);
        let output = match place {
            Some(p) => p.output,
            None => index,
        };
        if place is Some && place->0.is_tool {
            let c = self.call_at(output);
            self.emit(
                named_event(
                    "response.function_call_arguments.done"@,
                    map![
                        "item_id"@ => fc_id(output),
                        "output_index"@ => num(output),
                        "arguments"@ => JsonV::Text(c.arguments),
                    ],
                ),
            ).emit(
                item_event(
                    "response.output_item.done"@,
                    output,
                    output_call(output as nat, c.call_id, c.name, c.arguments, "completed"@),
                ),
            )
        } else {
            self.emit(
                named_event(
                    "response.content_part.done"@,
                    map![
                        "item_id"@ => msg_id(output),
                        "output_index"@ => num(output),
                        "content_index"@ => num(0),
                        "part"@ => typed_text("output_text"@, text_of_index(self.gathered, index)),
                    ],
                ),
            )
        }
    }

    /// The state after why the message ended was reported.
    pub open spec fn with_message_delta(self, ev: JsonV) -> ToResponsesV {
        let stop = match ev.path2("delta"@, "stop_reason"@) {
            Some(v) => v.as_str(),
            None => None,
        };
        let status = status_of_stop(stop);
        ToResponsesV {
            usage: match ev.get("usage"@) {
                Some(u) => Some(u),
                None => self.usage,
            },
            status,
            ..self.emit(
                item_event(
                    "response.output_item.done"@,
                    self.content_index,
                    output_message(
                        self.content_index as nat,
                        message_content(whole_text(self.gathered)),
                        status,
                    ),
                ),
            )
        }
    }

    /// The output of the response: one message with all text, where there is
    /// any, and then the function calls.
    pub open spec fn final_output(self) -> Seq<JsonV> {
        let text = whole_text(self.gathered);
        let calls = finished_calls(self.calls, self.calls.len());
        if text.len() > 0 {
            seq![output_message(self.content_index as nat, message_content(text), self.status)] + calls
        } else {
            calls
        }
    }

    /// The state after the message came to its end.
    pub open spec fn with_message_stop(self) -> ToResponsesV {
        if self.done {
            self
        } else {
            let m = response_object(self.response_id, self.status, self.model, self.final_output()).insert(
                "usage"@,
                usage_for_responses(self.usage),
            );
            ToResponsesV {
                done: true,
                ..self.emit(
                    named_event("response.completed"@, map!["response"@ => JsonV::Object(m)]),
                ).emit(OutV::Raw("data: [DONE]\n\n"@))
            }
        }
    }

    /// The state after an event.
    pub open spec fn with_event(self, ev: JsonV) -> ToResponsesV {
        let kind = ev.str_or("type"@, Seq::empty());
        if kind == "message_start"@ {
            self.with_start(ev)
        } else if kind == "content_block_start"@ {
            match ev.get("content_block"@) {
                Some(block) => self.with_block(or_zero(ev.u64_at("index"@)), block),
                None => self,
            }
        } else if kind == "content_block_delta"@ {
            match ev.get("delta"@) {
                Some(delta) => self.with_delta(delta),
                None => self,
            }
        } else if kind == "content_block_stop"@ {
            self.with_block_stop(or_zero(ev.u64_at("index"@)))
        } else if kind == "message_delta"@ {
            self.with_message_delta(ev)
        } else if kind == "message_stop"@ {
            self.with_message_stop()
        } else {
            self
        }
    }

    /// The state after the data of one line.
    #[verifier::opaque]
    pub open spec fn with_data(self, data: Seq<char>) -> ToResponsesV {
        if trim(data).len() == 0 {
            self
        } else {
            match json_parse(data) {
                Ok(ev) => self.with_event(ev),
                Err(_) => self,
            }
        }
    }

    /// The state after the lines of a block.
    #[verifier::opaque]
    pub open spec fn with_lines(self, lines: Seq<Seq<char>>) -> ToResponsesV
        decreases lines.len(),
    {
        if lines.len() == 0 {
            self
        } else {
            let s = self.with_lines(lines.drop_last());
            match sse_field(lines.last(), "data"@) {
                Some(data) => s.with_data(data),
                None => s,
            }
        }
    }

    /// The state after blocks.
    pub open spec fn with_blocks(self, blocks: Seq<Seq<char>>) -> ToResponsesV
        decreases blocks.len(),
    {
        if blocks.len() == 0 {
            self
        } else {
            let s = self.with_blocks(blocks.drop_last());
            if trim(blocks.last()).len() == 0 {
                s
            } else {
                s.with_lines(lines(blocks.last()))
            }
        }
    }

    /// The state after bytes came.
    pub open spec fn with_bytes(self, bytes: Seq<u8>) -> ToResponsesV {
        ToResponsesV { reader: self.reader.fed(bytes), ..self }.with_blocks(self.reader.fed_blocks(bytes))
    }

    /// The state after the upstream failed.
    pub open spec fn failed(self, message: Seq<char>) -> ToResponsesV {
        let s = if self.log_resp {
            self.emit(OutV::LogError("Stream error: "@ + message))
        } else {
            self
        };
        s.emit(OutV::LogDone)
    }

    /// The state after the upstream came to its end.
    pub open spec fn ended(self) -> ToResponsesV {
        self.emit(OutV::LogDone)
    }

    /// The state once what is to be given out was taken.
    pub open spec fn drained(self) -> ToResponsesV {
        ToResponsesV { out: Seq::empty(), ..self }
    }
}

fn add_indexed_text(v: &mut Vec<IndexedText>, index: u64, t: &str)
    ensures
        indexed_texts(final(v)@) == text_added(indexed_texts(old(v)@), index, t@),
    decreases old(v)@.len(),
{
    let ghost before = indexed_texts(v@);
    let n: usize = v.len();
    if n == 0 || v[n - 1].index < index {
        assert(n > 0 ==> before.last() == v@[n - 1]@);
        let entry = IndexedText { index, text: t.to_owned() };
        v.push(entry);
        assert(indexed_texts(v@) =~= before.push(IndexedTextV { index, text: t@ }));
        return;
    }
    assert(before.last() == v@[n - 1]@);
    if let Some(last) = v.pop() {
        assert(indexed_texts(v@) =~= before.drop_last());
        let ghost front = indexed_texts(v@);
        if last.index == index {
            let entry = IndexedText { index, text: cat(last.text.as_str(), t) };
            v.push(entry);
            assert(indexed_texts(v@) =~= front.push(
                IndexedTextV { index, text: before.last().text + t@ },
            ));
        } else {
            add_indexed_text(v, index, t);
            let ghost grown = indexed_texts(v@);
            let ghost model = last@;
            v.push(last);
            assert(indexed_texts(v@) =~= grown.push(model));
        }
    }
}

fn find_indexed_text(v: &Vec<IndexedText>, index: u64) -> (r: String)
    ensures
        r@ == text_of_index(indexed_texts(v@), index),
{
    let ghost all = indexed_texts(v@);
    let mut i: usize = v.len();
    proof {
        lemma_whole(all);
    }
    while i > 0
        invariant
            i <= v@.len(),
            all == indexed_texts(v@),
            text_of_index(all, index) == text_of_index(all.take(i as int), index),
        decreases i,
    {
        proof {
            lemma_step(all, i - 1);
        }
        i -= 1;
        if v[i].index == index {
            return v[i].text.clone();
        }
    }
    String::new()
}

fn gather_text(v: &Vec<IndexedText>) -> (r: String)
    ensures
        r@ == whole_text(indexed_texts(v@)),
{
    let ghost all = indexed_texts(v@);
    let mut out = String::new();
    let mut i: usize = 0;
    while i < v.len()
        invariant
            i <= v@.len(),
            all == indexed_texts(v@),
            out@ == whole_text(all.take(i as int)),
        decreases v@.len() - i,
    {
        proof {
            lemma_step(all, i as int);
        }
        out.append(v[i].text.as_str());
        i += 1;
    }
    proof {
        lemma_whole(all);
    }
    out
}

fn find_place(v: &Vec<BlockPlace>, index: u64) -> (r: Option<BlockPlace>)
    ensures
        r == place_of(v@, index),
{
    let mut i: usize = v.len();
    proof {
        lemma_whole(v@);
    }
    while i > 0
        invariant
            i <= v@.len(),
            place_of(v@, index) == place_of(v@.take(i as int), index),
        decreases i,
    {
        proof {
            lemma_step(v@, i - 1);
        }
        i -= 1;
        if v[i].index == index {
            return Some(v[i]);
        }
    }
    None
}

fn make_named_event(name: &str, m: JsonObject) -> (r: StreamOut)
    ensures
        r@ == named_event(name@, m@),
{
    make_event(name, Json::Object(m.with("type", Json::text(name))))
}

fn make_item_event(name: &str, index: u64, item: Json) -> (r: StreamOut)
    ensures
        r@ == item_event(name@, index, item@),
{
    make_named_event(name, JsonObject::new().with("output_index", Json::number(index)).with("item", item))
}

fn make_response_object(id: &str, status: &str, model: &str, output: Vec<Json>) -> (r: JsonObject)
    ensures
        r@ == response_object(id@, status@, model@, models(output@)),
{
    JsonObject::new().with("id", Json::text(id)).with("object", Json::text("response")).with(
        "created_at",
        Json::number(0),
    ).with("status", Json::text(status)).with("model", Json::text(model)).with("output", Json::array(output))
}

fn make_message_content(t: &str) -> (r: Vec<Json>)
    ensures
        models(r@) == message_content(t@),
{
    broadcast use group_models;

    if t.is_empty() {
        Vec::new()
    } else {
        single(
            Json::Object(
                JsonObject::new().with("type", Json::text("output_text")).with("text", Json::text(t)).with(
                    "annotations",
                    Json::array(Vec::new()),
                ),
            ),
        )
    }
}

fn make_msg_id(index: u64) -> (r: Json)
    ensures
        r@ == msg_id(index),
{
    Json::Text(cat("msg_", decimal_text(index).as_str()))
}

fn make_fc_id(index: u64) -> (r: Json)
    ensures
        r@ == fc_id(index),
{
    Json::Text(cat("fc_", decimal_text(index).as_str()))
}

impl AnthropicToResponses {
    /// The state before any bytes came. `log_resp` says whether this conversion
    /// is the one that writes the response to the log.
    pub fn new(model: &str, log_resp: bool) -> (r: AnthropicToResponses)
        ensures
            r@ == ToResponsesV::initial(model@, log_resp),
    {
        broadcast use group_outs;

        let r = AnthropicToResponses {
            reader: SseReader::new(),
            model: model.to_owned(),
            log_resp,
            has_text: false,
            response_id: String::new(),
            content_index: 0,
            done: false,
            gathered: Vec::new(),
            calls: Vec::new(),
            places: Vec::new(),
            status: "completed".to_owned(),
            usage: None,
            out: Vec::new(),
        };
        assert(r@.gathered =~= Seq::empty());
        assert(r@.calls =~= Seq::empty());
        assert(r@.places =~= Seq::empty());
        r
    }

    pub(crate) fn give(&mut self, o: StreamOut)
        ensures
            final(self)@ == old(self)@.emit(o@),
    {
        broadcast use group_outs;

        self.out.push(o);
    }

    fn log(&mut self, t: &str)
        ensures
            final(self)@ == old(self)@.logged(t@),
    {
        if self.log_resp {
            self.give(StreamOut::Log(t.to_owned()));
        }
    }

    fn start(&mut self, ev: &Json)
        ensures
            final(self)@ == old(self)@.with_start(ev@),
    {
        broadcast use group_models;

        let id = match ev.path2("message", "id") {
            Some(v) => match v.as_str() {
                Some(t) => t,
                None => "resp_",
            },
            None => "resp_",
        };
        let none: Vec<Json> = Vec::new();
        let response = make_response_object(id, "in_progress", self.model.as_str(), none);
        self.give(
            make_named_event("response.created", JsonObject::new().with("response", Json::Object(response))),
        );
        self.response_id = id.to_owned();
    }

    fn open_block(&mut self, index: u64, block: &Json)
        ensures
            final(self)@ == old(self)@.with_block(index, block@),
    {
        broadcast use group_models;

        proof {
            reveal_strlit("text");
            reveal_strlit("tool_use");
            assert("text"@.len() != "tool_use"@.len());
        }
        if field_is(block, "type", "text") {
            self.content_index = index;
            self.places.push(BlockPlace { index, output: index, is_tool: false });
            let none: Vec<Json> = Vec::new();
            self.give(
                make_item_event(
                    "response.output_item.added",
                    index,
                    make_output_message(index, none, "in_progress"),
                ),
            );
        } else if field_is(block, "type", "tool_use") {
            let id = block.str_or_empty("id");
            let name = block.str_or_empty("name");
            let ghost before = self.calls@;
            let call = CallItem { call_id: id.to_owned(), name: name.to_owned(), arguments: String::new() };
            self.calls.push(call);
            assert(call_items(self.calls@) =~= call_items(before).push(call@));
            let n: u64 = self.calls.len() as u64;
            assert(n == self@.call_count());
            self.places.push(BlockPlace { index, output: n, is_tool: true });
            if !self.has_text {
                self.log(cat3("[tool_use: ", name, "]").as_str());
            }
            let empty = String::new();
            self.give(
                make_item_event(
                    "response.output_item.added",
                    n,
                    make_output_call(n, id, name, empty.as_str(), "in_progress"),
                ),
            );
        }
    }

    fn add_delta(&mut self, delta: &Json)
        ensures
            final(self)@ == old(self)@.with_delta(delta@),
    {
        if field_is(delta, "type", "text_delta") {
            let t = delta.str_or_empty("text");
            let index: u64 = self.content_index;
            self.log(t);
            if self.log_resp {
                self.has_text = true;
            }
            add_indexed_text(&mut self.gathered, index, t);
            self.give(
                make_named_event(
                    "response.output_text.delta",
                    JsonObject::new().with("item_id", make_msg_id(index)).with(
                        "output_index",
                        Json::number(index),
                    ).with("content_index", Json::number(0)).with("delta", Json::text(t)),
                ),
            );
        } else if field_is(delta, "type", "input_json_delta") {
            let t = delta.str_or_empty("partial_json");
            let n: usize = self.calls.len();
            let count: u64 = n as u64;
            assert(self@.calls.len() == n);
            if n > 0 {
                let c = &self.calls[n - 1];
                assert(self@.calls[n - 1] == c@);
                let call = CallItem {
                    call_id: c.call_id.clone(),
                    name: c.name.clone(),
                    arguments: cat(c.arguments.as_str(), t),
                };
                let ghost before = self.calls@;
                self.calls[n - 1] = call;
                assert(call_items(self.calls@) =~= call_items(before).update(n - 1, call@));
            }
            self.give(
                make_named_event(
                    "response.function_call_arguments.delta",
                    JsonObject::new().with("item_id", make_fc_id(count)).with(
                        "output_index",
                        Json::number(count),
                    ).with("delta", Json::text(t)),
                ),
            );
        }
    }

    fn copy_call(&self, output: u64) -> (r: CallItem)
        ensures
            r@ == self@.call_at(output),
    {
        assert(self@.calls.len() == self.calls@.len());
        if 0 < output && output <= self.calls.len() as u64 {
            let c = &self.calls[(output - 1) as usize];
            assert(self@.calls[output - 1] == c@);
            CallItem { call_id: c.call_id.clone(), name: c.name.clone(), arguments: c.arguments.clone() }
        } else {
            CallItem { call_id: String::new(), name: String::new(), arguments: String::new() }
        }
    }

    fn close_block(&mut self, index: u64)
        ensures
            final(self)@ == old(self)@.with_block_stop(index),
    {
        let place = find_place(&self.places, index);
        let (output, is_tool): (u64, bool) = match place {
            Some(p) => (p.output, p.is_tool),
            None => (index, false),
        };
        if is_tool {
            let c = self.copy_call(output);
            self.give(
                make_named_event(
                    "response.function_call_arguments.done",
                    JsonObject::new().with("item_id", make_fc_id(output)).with(
                        "output_index",
                        Json::number(output),
                    ).with("arguments", Json::text(c.arguments.as_str())),
                ),
            );
            self.give(
                make_item_event(
                    "response.output_item.done",
                    output,
                    make_output_call(
                        output,
                        c.call_id.as_str(),
                        c.name.as_str(),
                        c.arguments.as_str(),
                        "completed",
                    ),
                ),
            );
        } else {
            let text = find_indexed_text(&self.gathered, index);
            self.give(
                make_named_event(
                    "response.content_part.done",
                    JsonObject::new().with("item_id", make_msg_id(output)).with(
                        "output_index",
                        Json::number(output),
                    ).with("content_index", Json::number(0)).with(
                        "part",
                        make_typed_text("output_text", text.as_str()),
                    ),
                ),
            );
        }
    }

    fn add_message_delta(&mut self, ev: &Json)
        ensures
            final(self)@ == old(self)@.with_message_delta(ev@),
    {
        if let Some(u) = ev.get("usage") {
            self.usage = Some(u.copy());
        }
        let stop = match ev.path2("delta", "stop_reason") {
            Some(v) => v.as_str(),
            None => None,
        };
        let status = map_stop_to_status(stop);
        self.status = status.to_owned();
        let text = gather_text(&self.gathered);
        let message = make_output_message(self.content_index, make_message_content(text.as_str()), status);
        self.give(make_item_event("response.output_item.done", self.content_index, message));
    }

    fn make_finished_calls(&self) -> (r: Vec<Json>)
        ensures
            models(r@) == finished_calls(self@.calls, self@.calls.len()),
    {
        broadcast use group_models;

        let ghost calls = self@.calls;
        let mut out: Vec<Json> = Vec::new();
        let mut i: usize = 0;
        while i < self.calls.len()
            invariant
                i <= self.calls@.len(),
                calls == call_items(self.calls@),
                models(out@) == finished_calls(calls, i as nat),
            decreases self.calls@.len() - i,
        {
            let c = &self.calls[i];
            assert(calls[i as int] == c@);
            i += 1;
            out.push(
                make_output_call(
                    i as u64,
                    c.call_id.as_str(),
                    c.name.as_str(),
                    c.arguments.as_str(),
                    "completed",
                ),
            );
        }
        out
    }

    fn end_message(&mut self)
        ensures
            final(self)@ == old(self)@.with_message_stop(),
    {
        if self.done {
            return;
        }
        let text = gather_text(&self.gathered);
        let calls = self.make_finished_calls();
        let output = if text.as_str().is_empty() {
            calls
        } else {
            let mut list = single(
                make_output_message(
                    self.content_index,
                    make_message_content(text.as_str()),
                    self.status.as_str(),
                ),
            );
            extend(&mut list, calls);
            list
        };
        let m = make_response_object(
            self.response_id.as_str(),
            self.status.as_str(),
            self.model.as_str(),
            output,
        ).with("usage", build_responses_usage(self.usage.as_ref()));
        self.done = true;
        self.give(make_named_event("response.completed", JsonObject::new().with("response", Json::Object(m))));
        self.give(StreamOut::Raw("data: [DONE]\n\n".to_owned()));
    }

    /// Takes in one event of the Anthropic response.
    pub fn add_event(&mut self, ev: &Json)
        ensures
            final(self)@ == old(self)@.with_event(ev@),
    {
        let kind = ev.str_or_empty("type");
        if kind.eq("message_start") {
            self.start(ev);
        } else if kind.eq("content_block_start") {
            if let Some(block) = ev.get("content_block") {
                self.open_block(zero_or(ev.u64_at("index")), block);
            }
        } else if kind.eq("content_block_delta") {
            if let Some(delta) = ev.get("delta") {
                self.add_delta(delta);
            }
        } else if kind.eq("content_block_stop") {
            self.close_block(zero_or(ev.u64_at("index")));
        } else if kind.eq("message_delta") {
            self.add_message_delta(ev);
        } else if kind.eq("message_stop") {
            self.end_message();
        }
    }

    fn add_data(&mut self, data: &str)
        ensures
            final(self)@ == old(self)@.with_data(data@),
    {
        proof {
            reveal(ToResponsesV::with_data);
        }
        if !trimmed(data).is_empty() {
            if let Ok(ev) = parse_json(data) {
                self.add_event(&ev);
            }
        }
    }

    fn add_lines(&mut self, list: &Vec<String>)
        ensures
            final(self)@ == old(self)@.with_lines(texts(list@)),
    {
        let ghost all = texts(list@);
        let ghost s = self@;
        let mut i: usize = 0;
        proof {
            reveal(ToResponsesV::with_lines);
        }
        while i < list.len()
            invariant
                i <= list@.len(),
                all == texts(list@),
                self@ == s.with_lines(all.take(i as int)),
            decreases list@.len() - i,
        {
            proof {
                reveal(ToResponsesV::with_lines);
                lemma_step(all, i as int);
            }
            if let Some(data) = strip_sse_field(list[i].as_str(), "data") {
                self.add_data(data);
            }
            i += 1;
        }
        proof {
            lemma_whole(all);
        }
    }

    /// Gives out what waits to be given out.
    pub(crate) fn drain(&mut self) -> (r: Vec<StreamOut>)
        ensures
            outs(r@) == old(self)@.out,
            final(self)@ == old(self)@.drained(),
    {
        broadcast use group_outs;

        let mut r: Vec<StreamOut> = Vec::new();
        r.append(&mut self.out);
        assert(self.out@ =~= Seq::empty());
        assert(r@ =~= old(self).out@);
        r
    }

    /// Takes in bytes of the upstream response.
    pub(crate) fn take_in(&mut self, bytes: &[u8])
        ensures
            final(self)@ == old(self)@.with_bytes(bytes@),
    {
        let list = self.reader.feed(bytes);
        let ghost all = texts(list@);
        let ghost s = self@;
        let mut i: usize = 0;
        while i < list.len()
            invariant
                i <= list@.len(),
                all == texts(list@),
                self@ == s.with_blocks(all.take(i as int)),
            decreases list@.len() - i,
        {
            proof {
                lemma_step(all, i as int);
            }
            let block = list[i].as_str();
            if !trimmed(block).is_empty() {
                self.add_lines(&split_lines(block));
            }
            i += 1;
        }
        proof {
            lemma_whole(all);
        }
    }

    /// Takes in bytes of the upstream response, and gives out what they come to.
    pub fn push_bytes(&mut self, bytes: &[u8]) -> (r: Vec<StreamOut>)
        ensures
            outs(r@) == old(self)@.with_bytes(bytes@).out,
            final(self)@ == old(self)@.with_bytes(bytes@).drained(),
    {
        self.take_in(bytes);
        self.drain()
    }

    /// Takes note that the upstream failed.
    pub fn fail(&mut self, message: &str) -> (r: Vec<StreamOut>)
        ensures
            outs(r@) == old(self)@.failed(message@).out,
            final(self)@ == old(self)@.failed(message@).drained(),
    {
        if self.log_resp {
            self.give(StreamOut::LogError(cat("Stream error: ", message)));
        }
        self.give(StreamOut::LogDone);
        self.drain()
    }

    /// Takes note that the upstream came to its end.
    pub fn finish(&mut self) -> (r: Vec<StreamOut>)
        ensures
            outs(r@) == old(self)@.ended().out,
            final(self)@ == old(self)@.ended().drained(),
    {
        self.give(StreamOut::LogDone);
        self.drain()
    }
}

impl ToResponsesV {
    /// Whether the log is not written from here, and nothing for it waits.
    pub open spec fn unlogged(self) -> bool {
        !self.log_resp && all_shown(self.out)
    }

    /// Whether two states give the client the same and go on alike: they may
    /// differ in what goes to the log.
    pub open spec fn like(self, other: ToResponsesV) -> bool {
        &&& self.reader == other.reader
        &&& self.model == other.model
        &&& self.response_id == other.response_id
        &&& self.content_index == other.content_index
        &&& self.done == other.done
        &&& self.gathered == other.gathered
        &&& self.calls == other.calls
        &&& self.places == other.places
        &&& self.status == other.status
        &&& self.usage == other.usage
        &&& shown(self.out) == shown(other.out)
    }
}

/// Whether the response is written to the log has no part in what the client gets
/// of a whole stream, up to its end or its failure.
pub proof fn law_log_flag_does_not_alter_responses_output(model: Seq<char>, stream: Seq<PieceV>)
    ensures
        shown(ToResponsesV::initial(model, true).whole(stream)) == shown(ToResponsesV::initial(model, false).whole(stream)),
{
    lemma_whole_alike(ToResponsesV::initial(model, true), ToResponsesV::initial(model, false), stream);
}

/// Without the flag a whole stream writes nothing to the log but its end: all that
/// comes before the end goes to the client.
pub proof fn law_responses_output_is_not_logged_without_the_flag(model: Seq<char>, stream: Seq<PieceV>)
    ensures
        ({
            let all = ToResponsesV::initial(model, false).whole(stream);
            &&& all.len() > 0
            &&& all.last() == OutV::LogDone
            &&& all_shown(all.drop_last())
        }),
{
    lemma_whole_unlogged(ToResponsesV::initial(model, false), stream);
}

proof fn lemma_whole_unlogged(s: ToResponsesV, stream: Seq<PieceV>)
    requires
        s.unlogged(),
    ensures
        s.whole(stream).len() > 0,
        s.whole(stream).last() == OutV::LogDone,
        all_shown(s.whole(stream).drop_last()),
    decreases stream.len(),
{
    let all = s.whole(stream);
    if stream.len() == 0 {
        assert(all.drop_last() =~= s.out);
    } else {
        match stream[0] {
            PieceV::Bytes(bytes) => {
                let fed = ToResponsesV { reader: s.reader.fed(bytes), ..s };
                lemma_blocks_unlogged(fed, s.reader.fed_blocks(bytes));
                let x = s.with_bytes(bytes);
                let rest = x.drained().whole(stream.drop_first());
                lemma_whole_unlogged(x.drained(), stream.drop_first());
                assert(all.last() == rest.last());
                assert forall|i: int| 0 <= i < all.len() - 1 implies (#[trigger] all.drop_last()[i]).client_text()
                    is Some by {
                    if i < x.out.len() {
                        assert(all[i] == x.out[i]);
                    } else {
                        assert(all[i] == rest.drop_last()[i - x.out.len()]);
                    }
                }
            },
            PieceV::Failure(m) => {
                assert(all.drop_last() =~= s.out);
            },
        }
    }
}

proof fn lemma_blocks_unlogged(s: ToResponsesV, blocks: Seq<Seq<char>>)
    requires
        s.unlogged(),
    ensures
        s.with_blocks(blocks).unlogged(),
    decreases blocks.len(),
{
    if blocks.len() > 0 {
        lemma_blocks_unlogged(s, blocks.drop_last());
        lemma_lines_unlogged(s.with_blocks(blocks.drop_last()), lines(blocks.last()));
    }
}

proof fn lemma_lines_unlogged(s: ToResponsesV, lines: Seq<Seq<char>>)
    requires
        s.unlogged(),
    ensures
        s.with_lines(lines).unlogged(),
    decreases lines.len(),
{
    reveal(ToResponsesV::with_lines);
    reveal(ToResponsesV::with_data);
    if lines.len() > 0 {
        let front = s.with_lines(lines.drop_last());
        lemma_lines_unlogged(s, lines.drop_last());
        if let Some(data) = sse_field(lines.last(), "data"@) {
            if let Ok(ev) = json_parse(data) {
                lemma_event_unlogged(front, ev);
            }
        }
    }
}

proof fn lemma_event_unlogged(s: ToResponsesV, ev: JsonV)
    requires
        s.unlogged(),
    ensures
        s.with_event(ev).unlogged(),
{
}

/// States that are alike give the client the same from there on.
proof fn lemma_whole_alike(a: ToResponsesV, b: ToResponsesV, stream: Seq<PieceV>)
    requires
        a.like(b),
    ensures
        shown(a.whole(stream)) == shown(b.whole(stream)),
    decreases stream.len(),
{
    broadcast use lemma_shown_push;

    if stream.len() > 0 {
        if let PieceV::Bytes(bytes) = stream[0] {
            lemma_bytes_alike(a, b, bytes);
            let x = a.with_bytes(bytes);
            let y = b.with_bytes(bytes);
            let rest = stream.drop_first();
            lemma_whole_alike(x.drained(), y.drained(), rest);
            lemma_shown_add(x.out, x.drained().whole(rest));
            lemma_shown_add(y.out, y.drained().whole(rest));
        }
    }
}

/// States that are alike stay so, whatever bytes come.
proof fn lemma_bytes_alike(a: ToResponsesV, b: ToResponsesV, bytes: Seq<u8>)
    requires
        a.like(b),
    ensures
        a.with_bytes(bytes).like(b.with_bytes(bytes)),
{
    lemma_blocks_alike(
        ToResponsesV { reader: a.reader.fed(bytes), ..a },
        ToResponsesV { reader: b.reader.fed(bytes), ..b },
        a.reader.fed_blocks(bytes),
    );
}

proof fn lemma_blocks_alike(a: ToResponsesV, b: ToResponsesV, blocks: Seq<Seq<char>>)
    requires
        a.like(b),
    ensures
        a.with_blocks(blocks).like(b.with_blocks(blocks)),
    decreases blocks.len(),
{
    if blocks.len() > 0 {
        lemma_blocks_alike(a, b, blocks.drop_last());
        lemma_lines_alike(
            a.with_blocks(blocks.drop_last()),
            b.with_blocks(blocks.drop_last()),
            lines(blocks.last()),
        );
    }
}

proof fn lemma_lines_alike(a: ToResponsesV, b: ToResponsesV, lines: Seq<Seq<char>>)
    requires
        a.like(b),
    ensures
        a.with_lines(lines).like(b.with_lines(lines)),
    decreases lines.len(),
{
    reveal(ToResponsesV::with_lines);
    if lines.len() > 0 {
        lemma_lines_alike(a, b, lines.drop_last());
        if let Some(data) = sse_field(lines.last(), "data"@) {
            lemma_data_alike(a.with_lines(lines.drop_last()), b.with_lines(lines.drop_last()), data);
        }
    }
}

proof fn lemma_data_alike(a: ToResponsesV, b: ToResponsesV, data: Seq<char>)
    requires
        a.like(b),
    ensures
        a.with_data(data).like(b.with_data(data)),
{
    reveal(ToResponsesV::with_data);
    if let Ok(ev) = json_parse(data) {
        lemma_event_alike(a, b, ev);
    }
}

proof fn lemma_event_alike(a: ToResponsesV, b: ToResponsesV, ev: JsonV)
    requires
        a.like(b),
    ensures
        a.with_event(ev).like(b.with_event(ev)),
{
    broadcast use lemma_shown_push;

}

/// Once the response was completed it stays so, whatever event comes, and another
/// end of the message gives nothing out.
pub proof fn law_response_is_completed_once(s: ToResponsesV, ev: JsonV)
    requires
        s.done,
    ensures
        s.with_event(ev).done,
        s.with_message_stop() == s,
{
}

impl ToResponsesV {
    /// All that a stream gives out from here on, up to its end or its failure.
    pub open spec fn whole(self, list: Seq<PieceV>) -> Seq<OutV>
        decreases list.len(),
    {
        if list.len() == 0 {
            self.ended().out
        } else {
            match list[0] {
                PieceV::Bytes(b) => {
                    let s = self.with_bytes(b);
                    s.out + s.drained().whole(list.drop_first())
                },
                PieceV::Failure(m) => self.failed(m).out,
            }
        }
    }
}

/// Convert an Anthropic SSE stream to an OpenAI Responses SSE stream. `log_resp`
/// says whether the text of the response goes to the log from here.
pub fn anthropic_to_responses_sse(stream: &Vec<StreamPiece>, model: &str, log_resp: bool) -> (r: Vec<StreamOut>)
    ensures
        outs(r@) == ToResponsesV::initial(model@, log_resp).whole(stream_pieces(stream@)),
{
    broadcast use group_outs;

    let mut state = AnthropicToResponses::new(model, log_resp);
    let ghost all = stream_pieces(stream@);
    let ghost target = ToResponsesV::initial(model@, log_resp).whole(all);
    let mut list: Vec<StreamOut> = Vec::new();
    let mut i: usize = 0;
    assert(all.skip(0) =~= all);
    assert(outs(list@) + target =~= target);
    while i < stream.len()
        invariant
            i <= stream@.len(),
            all == stream_pieces(stream@),
            target == ToResponsesV::initial(model@, log_resp).whole(all),
            outs(list@) + state@.whole(all.skip(i as int)) == target,
        decreases stream@.len() - i,
    {
        let ghost so_far = outs(list@);
        let ghost s = state@;
        proof {
            assert(all.skip(i as int)[0] == stream@[i as int]@);
            assert(all.skip(i as int).drop_first() =~= all.skip(i + 1));
        }
        match &stream[i] {
            StreamPiece::Bytes(b) => {
                let more = state.push_bytes(b.as_slice());
                add_steps(&mut list, more);
                assert(outs(list@) + state@.whole(all.skip(i + 1)) =~= so_far + s.whole(all.skip(i as int)));
            },
            StreamPiece::Failure(m) => {
                let more = state.fail(m.as_str());
                add_steps(&mut list, more);
                return list;
            },
        }
        i += 1;
    }
    assert(all.skip(i as int) =~= Seq::empty());
    let more = state.finish();
    add_steps(&mut list, more);
    list
}

} // verus!
