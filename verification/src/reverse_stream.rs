//! A streamed Anthropic response as Chat chunks.

use vstd::prelude::*;
use vstd::string::*;
use crate::convert_response::zero_or;
use crate::convert_reverse::{finish_reason, map_stop_reason_to_finish};
use crate::json::{Json, JsonObject, JsonV, field_is, group_models, lemma_step, lemma_whole, models, num, or_zero};
use crate::json_text::{json_parse, parse_json};
use crate::sse::{SseReader, SseReaderV, sse_field, strip_sse_field};
use crate::stream_out::{OutV, PieceV, StreamOut, StreamPiece, add_steps, all_shown, following, group_outs, lemma_shown_add, lemma_shown_push, next_number, outs, shown, stream_pieces};
use crate::text::{cat, cat3, decimal, decimal_text, lines, split_lines, texts, trim, trimmed};

verus! {

/// The state of the conversion.
pub struct AnthropicToChat {
    pub reader: SseReader,
    pub model: String,
    /// Whether the text of the response goes to the log from here.
    pub log_resp: bool,
    pub has_text: bool,
    pub chunk_id: u64,
    pub tool_index: u64,
    /// What is to be given out.
    pub out: Vec<StreamOut>,
}

/// The model of the state.
pub struct ReverseV {
    pub reader: SseReaderV,
    pub model: Seq<char>,
    pub log_resp: bool,
    pub has_text: bool,
    pub chunk_id: u64,
    pub tool_index: u64,
    pub out: Seq<OutV>,
}

impl View for AnthropicToChat {
    type V = ReverseV;

    open spec fn view(&self) -> ReverseV {
        ReverseV {
            reader: self.reader@,
            model: self.model@,
            log_resp: self.log_resp,
            has_text: self.has_text,
            chunk_id: self.chunk_id,
            tool_index: self.tool_index,
            out: outs(self.out@),
        }
    }
}

/// A Chat chunk of one choice.
pub open spec fn chat_chunk(id: u64, model: Seq<char>, delta: Map<Seq<char>, JsonV>, finish: JsonV) -> JsonV {
    JsonV::Object(
        map![
            "id"@ => JsonV::Text("chatcmpl-"@ + decimal(id as nat)),
            "object"@ => JsonV::Text("chat.completion.chunk"@),
            "model"@ => JsonV::Text(model),
            "choices"@ => JsonV::Array(
                seq![
                    JsonV::Object(
                        map!["index"@ => num(0), "delta"@ => JsonV::Object(delta), "finish_reason"@ => finish],
                    ),
                ],
            ),
        ],
    )
}

/// A delta of one text.
pub open spec fn delta_text(key: Seq<char>, t: Seq<char>) -> Map<Seq<char>, JsonV> {
    map![key => JsonV::Text(t)]
}

/// A delta of one tool call.
pub open spec fn delta_call(call: JsonV) -> Map<Seq<char>, JsonV> {
    map!["tool_calls"@ => JsonV::Array(seq![call])]
}

/// The start of a tool call.
pub open spec fn opening_call(index: u64, id: Seq<char>, name: Seq<char>) -> JsonV {
    JsonV::Object(
        map![
            "index"@ => num(index),
            "id"@ => JsonV::Text(id),
            "type"@ => JsonV::Text("function"@),
            "function"@ => JsonV::Object(
                map!["name"@ => JsonV::Text(name), "arguments"@ => JsonV::Text(Seq::empty())],
            ),
        ],
    )
}

/// A piece of the arguments of a tool call.
pub open spec fn more_arguments(index: u64, t: Seq<char>) -> JsonV {
    JsonV::Object(
        map![
            "index"@ => num(index),
            "function"@ => JsonV::Object(map!["arguments"@ => JsonV::Text(t)]),
        ],
    )
}

impl ReverseV {
    /// The state before any bytes came.
    pub open spec fn initial(model: Seq<char>, log_resp: bool) -> ReverseV {
        ReverseV {
            reader: SseReaderV::empty(),
            model,
            log_resp,
            has_text: false,
            chunk_id: 0,
            tool_index: 0,
            out: Seq::empty(),
        }
    }

    pub open spec fn emit(self, o: OutV) -> ReverseV {
        ReverseV { out: self.out.push(o), ..self }
    }

    /// A text in the log, where the log is written from here.
    pub open spec fn logged(self, t: Seq<char>) -> ReverseV {
        if self.log_resp {
            self.emit(OutV::Log(t))
        } else {
            self
        }
    }

    /// One chunk given out.
    pub open spec fn chunk(self, delta: Map<Seq<char>, JsonV>, finish: JsonV) -> ReverseV {
        ReverseV {
            chunk_id: next_number(self.chunk_id),
            ..self.emit(OutV::Data(chat_chunk(self.chunk_id, self.model, delta, finish)))
        }
    }

    /// The state after a content block was opened.
    pub open spec fn with_block(self, index: u64, block: JsonV) -> ReverseV {
        if block.str_at("type"@) == Some("thinking"@) {
            self.chunk(
                delta_text("reasoning_content"@, block.str_or("thinking"@, Seq::empty())),
                JsonV::Null,
            )
        } else if block.str_at("type"@) == Some("tool_use"@) {
            let name = block.str_or("name"@, Seq::empty());
            let s = if self.has_text {
                self
            } else {
                self.logged("[tool_use: "@ + name + "]"@)
            };
            ReverseV { tool_index: index, ..s }.chunk(
                delta_call(opening_call(index, block.str_or("id"@, Seq::empty()), name)),
                JsonV::Null,
            )
        } else {
            self
        }
    }

    /// The state after a content block was added to.
    pub open spec fn with_delta(self, delta: JsonV) -> ReverseV {
        if delta.str_at("type"@) == Some("text_delta"@) {
            let t = delta.str_or("text"@, Seq::empty());
            ReverseV { has_text: self.has_text || self.log_resp, ..self.logged(t) }.chunk(
                delta_text("content"@, t),
                JsonV::Null,
            )
        } else if delta.str_at("type"@) == Some("thinking_delta"@) {
            let t = delta.str_or("thinking"@, Seq::empty());
            self.logged(t).chunk(delta_text("reasoning_content"@, t), JsonV::Null)
        } else if delta.str_at("type"@) == Some("input_json_delta"@) {
            let t = delta.str_or("partial_json"@, Seq::empty());
            self.chunk(delta_call(more_arguments(self.tool_index, t)), JsonV::Null)
        } else {
            self
        }
    }

    /// The state after an event.
    pub open spec fn with_event(self, ev: JsonV) -> ReverseV {
        let kind = ev.str_or("type"@, Seq::empty());
        if kind == "content_block_start"@ {
            match ev.get("content_block"@) {
                Some(block) => self.with_block(or_zero(ev.u64_at("index"@)), block),
                None => self,
            }
        } else if kind == "content_block_delta"@ {
            match ev.get("delta"@) {
                Some(delta) => self.with_delta(delta),
                None => self,
            }
        } else if kind == "message_delta"@ {
            let stop = match ev.path2("delta"@, "stop_reason"@) {
                Some(v) => v.as_str(),
                None => None,
            };
            self.chunk(Map::empty(), JsonV::Text(finish_reason(stop)))
        } else if kind == "message_stop"@ {
            self.emit(OutV::Raw("[DONE]\n\n"@))
        } else {
            self
        }
    }

    /// The state after the data of one line.
    #[verifier::opaque]
    pub open spec fn with_data(self, data: Seq<char>) -> ReverseV {
        if trim(data).len() == 0 {
            self
        } else {
            match json_parse(data) {
                Ok(ev) => self.with_event(ev),
                Err(_) => self,
            }
        }
    }

    /// The state after the lines of a block.
    #[verifier::opaque]
    pub open spec fn with_lines(self, lines: Seq<Seq<char>>) -> ReverseV
        decreases lines.len(),
    {
        if lines.len() == 0 {
            self
        } else {
            let s = self.with_lines(lines.drop_last());
            match sse_field(lines.last(), "data"@) {
                Some(data) => s.with_data(data),
                None => s,
            }
        }
    }

    /// The state after blocks.
    pub open spec fn with_blocks(self, blocks: Seq<Seq<char>>) -> ReverseV
        decreases blocks.len(),
    {
        if blocks.len() == 0 {
            self
        } else {
            let s = self.with_blocks(blocks.drop_last());
            if trim(blocks.last()).len() == 0 {
                s
            } else {
                s.with_lines(lines(blocks.last()))
            }
        }
    }

    /// The state after bytes came.
    pub open spec fn with_bytes(self, bytes: Seq<u8>) -> ReverseV {
        ReverseV { reader: self.reader.fed(bytes), ..self }.with_blocks(self.reader.fed_blocks(bytes))
    }

    /// The state after the upstream failed.
    pub open spec fn failed(self, message: Seq<char>) -> ReverseV {
        let s = if self.log_resp {
            self.emit(OutV::LogError("Stream error: "@ + message))
        } else {
            self
        };
        s.emit(OutV::LogDone)
    }

    /// The state after the upstream came to its end.
    pub open spec fn ended(self) -> ReverseV {
        self.emit(OutV::LogDone)
    }

    /// The state once what is to be given out was taken.
    pub open spec fn drained(self) -> ReverseV {
        ReverseV { out: Seq::empty(), ..self }
    }
}

fn make_chat_chunk(id: u64, model: &str, delta: JsonObject, finish: Json) -> (r: Json)
    ensures
        r@ == chat_chunk(id, model@, delta@, finish@),
{
    broadcast use group_models;

    let choice = Json::Object(
        JsonObject::new().with("index", Json::number(0)).with("delta", Json::Object(delta)).with(
            "finish_reason",
            finish,
        ),
    );
    let ghost chosen = choice@;
    let mut choices: Vec<Json> = Vec::new();
    choices.push(choice);
    assert(models(choices@) =~= seq![chosen]);
    let name = cat("chatcmpl-", decimal_text(id).as_str());
    Json::Object(
        JsonObject::new().with("id", Json::Text(name)).with("object", Json::text("chat.completion.chunk")).with(
            "model",
            Json::text(model),
        ).with("choices", Json::array(choices)),
    )
}

fn make_delta_text(key: &str, t: &str) -> (r: JsonObject)
    ensures
        r@ == delta_text(key@, t@),
{
    JsonObject::new().with(key, Json::text(t))
}

fn make_delta_call(call: Json) -> (r: JsonObject)
    ensures
        r@ == delta_call(call@),
{
    broadcast use group_models;

    let ghost model = call@;
    let mut calls: Vec<Json> = Vec::new();
    calls.push(call);
    assert(models(calls@) =~= seq![model]);
    JsonObject::new().with("tool_calls", Json::array(calls))
}

fn make_opening_call(index: u64, id: &str, name: &str) -> (r: Json)
    ensures
        r@ == opening_call(index, id@, name@),
{
    Json::Object(
        JsonObject::new().with("index", Json::number(index)).with("id", Json::text(id)).with(
            "type",
            Json::text("function"),
        ).with(
            "function",
            Json::Object(
                JsonObject::new().with("name", Json::text(name)).with("arguments", Json::Text(String::new())),
            ),
        ),
    )
}

impl AnthropicToChat {
    /// The state before any bytes came. `log_resp` says whether this conversion
    /// is the one that writes the response to the log.
    pub fn new(model: &str, log_resp: bool) -> (r: AnthropicToChat)
        ensures
            r@ == ReverseV::initial(model@, log_resp),
    {
        broadcast use group_outs;

        AnthropicToChat {
            reader: SseReader::new(),
            model: model.to_owned(),
            log_resp,
            has_text: false,
            chunk_id: 0,
            tool_index: 0,
            out: Vec::new(),
        }
    }

    pub(crate) fn give(&mut self, o: StreamOut)
        ensures
            final(self)@ == old(self)@.emit(o@),
    {
        broadcast use group_outs;

        self.out.push(o);
    }

    fn log(&mut self, t: &str)
        ensures
            final(self)@ == old(self)@.logged(t@),
    {
        if self.log_resp {
            self.give(StreamOut::Log(t.to_owned()));
        }
    }

    fn give_chunk(&mut self, delta: JsonObject, finish: Json)
        ensures
            final(self)@ == old(self)@.chunk(delta@, finish@),
    {
        let chunk = make_chat_chunk(self.chunk_id, self.model.as_str(), delta, finish);
        self.give(StreamOut::Data(chunk));
        self.chunk_id = following(self.chunk_id);
    }

    fn open_block(&mut self, index: u64, block: &Json)
        ensures
            final(self)@ == old(self)@.with_block(index, block@),
    {
        proof {
            reveal_strlit("thinking");
            reveal_strlit("tool_use");
            assert("thinking"@[1] != "tool_use"@[1]);
        }
        if field_is(block, "type", "thinking") {
            self.give_chunk(make_delta_text("reasoning_content", block.str_or_empty("thinking")), Json::Null);
        } else if field_is(block, "type", "tool_use") {
            let name = block.str_or_empty("name");
            if !self.has_text {
                self.log(cat3("[tool_use: ", name, "]").as_str());
            }
            self.tool_index = index;
            self.give_chunk(
                make_delta_call(make_opening_call(index, block.str_or_empty("id"), name)),
                Json::Null,
            );
        }
    }

    fn add_delta(&mut self, delta: &Json)
        ensures
            final(self)@ == old(self)@.with_delta(delta@),
    {
        if field_is(delta, "type", "text_delta") {
            let t = delta.str_or_empty("text");
            self.log(t);
            if self.log_resp {
                self.has_text = true;
            }
            self.give_chunk(make_delta_text("content", t), Json::Null);
        } else if field_is(delta, "type", "thinking_delta") {
            let t = delta.str_or_empty("thinking");
            self.log(t);
            self.give_chunk(make_delta_text("reasoning_content", t), Json::Null);
        } else if field_is(delta, "type", "input_json_delta") {
            let t = delta.str_or_empty("partial_json");
            let call = Json::Object(
                JsonObject::new().with("index", Json::number(self.tool_index)).with(
                    "function",
                    Json::Object(JsonObject::new().with("arguments", Json::text(t))),
                ),
            );
            self.give_chunk(make_delta_call(call), Json::Null);
        }
    }

    /// Takes in one event of the Anthropic response.
    pub fn add_event(&mut self, ev: &Json)
        ensures
            final(self)@ == old(self)@.with_event(ev@),
    {
        let kind = ev.str_or_empty("type");
        if kind.eq("content_block_start") {
            if let Some(block) = ev.get("content_block") {
                self.open_block(zero_or(ev.u64_at("index")), block);
            }
        } else if kind.eq("content_block_delta") {
            if let Some(delta) = ev.get("delta") {
                self.add_delta(delta);
            }
        } else if kind.eq("message_delta") {
            let stop = match ev.path2("delta", "stop_reason") {
                Some(v) => v.as_str(),
                None => None,
            };
            self.give_chunk(JsonObject::new(), Json::text(map_stop_reason_to_finish(stop)));
        } else if kind.eq("message_stop") {
            self.give(StreamOut::Raw("[DONE]\n\n".to_owned()));
        }
    }

    fn add_data(&mut self, data: &str)
        ensures
            final(self)@ == old(self)@.with_data(data@),
    {
        proof {
            reveal(ReverseV::with_data);
        }
        if !trimmed(data).is_empty() {
            if let Ok(ev) = parse_json(data) {
                self.add_event(&ev);
            }
        }
    }

    fn add_lines(&mut self, list: &Vec<String>)
        ensures
            final(self)@ == old(self)@.with_lines(texts(list@)),
    {
        let ghost all = texts(list@);
        let ghost s = self@;
        let mut i: usize = 0;
        proof {
            reveal(ReverseV::with_lines);
        }
        while i < list.len()
            invariant
                i <= list@.len(),
                all == texts(list@),
                self@ == s.with_lines(all.take(i as int)),
            decreases list@.len() - i,
        {
            proof {
                reveal(ReverseV::with_lines);
                lemma_step(all, i as int);
            }
            if let Some(data) = strip_sse_field(list[i].as_str(), "data") {
                self.add_data(data);
            }
            i += 1;
        }
        proof {
            lemma_whole(all);
        }
    }

    /// Gives out what waits to be given out.
    pub(crate) fn drain(&mut self) -> (r: Vec<StreamOut>)
        ensures
            outs(r@) == old(self)@.out,
            final(self)@ == old(self)@.drained(),
    {
        broadcast use group_outs;

        let mut r: Vec<StreamOut> = Vec::new();
        r.append(&mut self.out);
        assert(self.out@ =~= Seq::empty());
        assert(r@ =~= old(self).out@);
        r
    }

    /// Takes in bytes of the upstream response.
    pub(crate) fn take_in(&mut self, bytes: &[u8])
        ensures
            final(self)@ == old(self)@.with_bytes(bytes@),
    {
        let list = self.reader.feed(bytes);
        let ghost all = texts(list@);
        let ghost s = self@;
        let mut i: usize = 0;
        while i < list.len()
            invariant
                i <= list@.len(),
                all == texts(list@),
                self@ == s.with_blocks(all.take(i as int)),
            decreases list@.len() - i,
        {
            proof {
                lemma_step(all, i as int);
            }
            let block = list[i].as_str();
            if !trimmed(block).is_empty() {
                self.add_lines(&split_lines(block));
            }
            i += 1;
        }
        proof {
            lemma_whole(all);
        }
    }

    /// Takes in bytes of the upstream response, and gives out what they come to.
    pub fn push_bytes(&mut self, bytes: &[u8]) -> (r: Vec<StreamOut>)
        ensures
            outs(r@) == old(self)@.with_bytes(bytes@).out,
            final(self)@ == old(self)@.with_bytes(bytes@).drained(),
    {
        self.take_in(bytes);
        self.drain()
    }

    /// Takes note that the upstream failed.
    pub fn fail(&mut self, message: &str) -> (r: Vec<StreamOut>)
        ensures
            outs(r@) == old(self)@.failed(message@).out,
            final(self)@ == old(self)@.failed(message@).drained(),
    {
        if self.log_resp {
            self.give(StreamOut::LogError(cat("Stream error: ", message)));
        }
        self.give(StreamOut::LogDone);
        self.drain()
    }

    /// Takes note that the upstream came to its end.
    pub fn finish(&mut self) -> (r: Vec<StreamOut>)
        ensures
            outs(r@) == old(self)@.ended().out,
            final(self)@ == old(self)@.ended().drained(),
    {
        self.give(StreamOut::LogDone);
        self.drain()
    }
}

impl ReverseV {
    /// Whether the log is not written from here, and nothing for it waits.
    pub open spec fn unlogged(self) -> bool {
        !self.log_resp && all_shown(self.out)
    }

    /// Whether two states give the client the same and go on alike: they may
    /// differ in what goes to the log.
    pub open spec fn like(self, other: ReverseV) -> bool {
        &&& self.reader == other.reader
        &&& self.model == other.model
        &&& self.chunk_id == other.chunk_id
        &&& self.tool_index == other.tool_index
        &&& shown(self.out) == shown(other.out)
    }
}

/// Whether the response is written to the log has no part in what the client gets
/// of a whole stream, up to its end or its failure.
pub proof fn law_log_flag_does_not_alter_chat_output(model: Seq<char>, stream: Seq<PieceV>)
    ensures
        shown(ReverseV::initial(model, true).whole(stream)) == shown(ReverseV::initial(model, false).whole(stream)),
{
    lemma_whole_alike(ReverseV::initial(model, true), ReverseV::initial(model, false), stream);
}

/// Without the flag a whole stream writes nothing to the log but its end: all that
/// comes before the end goes to the client.
pub proof fn law_chat_output_is_not_logged_without_the_flag(model: Seq<char>, stream: Seq<PieceV>)
    ensures
        ({
            let all = ReverseV::initial(model, false).whole(stream);
            &&& all.len() > 0
            &&& all.last() == OutV::LogDone
            &&& all_shown(all.drop_last())
        }),
{
    lemma_whole_unlogged(ReverseV::initial(model, false), stream);
}

proof fn lemma_whole_unlogged(s: ReverseV, stream: Seq<PieceV>)
    requires
        s.unlogged(),
    ensures
        s.whole(stream).len() > 0,
        s.whole(stream).last() == OutV::LogDone,
        all_shown(s.whole(stream).drop_last()),
    decreases stream.len(),
{
    let all = s.whole(stream);
    if stream.len() == 0 {
        assert(all.drop_last() =~= s.out);
    } else {
        match stream[0] {
            PieceV::Bytes(bytes) => {
                let fed = ReverseV { reader: s.reader.fed(bytes), ..s };
                lemma_blocks_unlogged(fed, s.reader.fed_blocks(bytes));
                let x = s.with_bytes(bytes);
                let rest = x.drained().whole(stream.drop_first());
                lemma_whole_unlogged(x.drained(), stream.drop_first());
                assert(all.last() == rest.last());
                assert forall|i: int| 0 <= i < all.len() - 1 implies (#[trigger] all.drop_last()[i]).client_text()
                    is Some by {
                    if i < x.out.len() {
                        assert(all[i] == x.out[i]);
                    } else {
                        assert(all[i] == rest.drop_last()[i - x.out.len()]);
                    }
                }
            },
            PieceV::Failure(m) => {
                assert(all.drop_last() =~= s.out);
            },
        }
    }
}

proof fn lemma_blocks_unlogged(s: ReverseV, blocks: Seq<Seq<char>>)
    requires
        s.unlogged(),
    ensures
        s.with_blocks(blocks).unlogged(),
    decreases blocks.len(),
{
    if blocks.len() > 0 {
        lemma_blocks_unlogged(s, blocks.drop_last());
        lemma_lines_unlogged(s.with_blocks(blocks.drop_last()), lines(blocks.last()));
    }
}

proof fn lemma_lines_unlogged(s: ReverseV, lines: Seq<Seq<char>>)
    requires
        s.unlogged(),
    ensures
        s.with_lines(lines).unlogged(),
    decreases lines.len(),
{
    reveal(ReverseV::with_lines);
    reveal(ReverseV::with_data);
    if lines.len() > 0 {
        let front = s.with_lines(lines.drop_last());
        lemma_lines_unlogged(s, lines.drop_last());
        if let Some(data) = sse_field(lines.last(), "data"@) {
            if let Ok(ev) = json_parse(data) {
                lemma_event_unlogged(front, ev);
            }
        }
    }
}

proof fn lemma_event_unlogged(s: ReverseV, ev: JsonV)
    requires
        s.unlogged(),
    ensures
        s.with_event(ev).unlogged(),
{
}

/// States that are alike give the client the same from there on.
proof fn lemma_whole_alike(a: ReverseV, b: ReverseV, stream: Seq<PieceV>)
    requires
        a.like(b),
    ensures
        shown(a.whole(stream)) == shown(b.whole(stream)),
    decreases stream.len(),
{
    broadcast use lemma_shown_push;

    if stream.len() > 0 {
        if let PieceV::Bytes(bytes) = stream[0] {
            lemma_bytes_alike(a, b, bytes);
            let x = a.with_bytes(bytes);
            let y = b.with_bytes(bytes);
            let rest = stream.drop_first();
            lemma_whole_alike(x.drained(), y.drained(), rest);
            lemma_shown_add(x.out, x.drained().whole(rest));
            lemma_shown_add(y.out, y.drained().whole(rest));
        }
    }
}

/// States that are alike stay so, whatever bytes come.
proof fn lemma_bytes_alike(a: ReverseV, b: ReverseV, bytes: Seq<u8>)
    requires
        a.like(b),
    ensures
        a.with_bytes(bytes).like(b.with_bytes(bytes)),
{
    lemma_blocks_alike(
        ReverseV { reader: a.reader.fed(bytes), ..a },
        ReverseV { reader: b.reader.fed(bytes), ..b },
        a.reader.fed_blocks(bytes),
    );
}

proof fn lemma_blocks_alike(a: ReverseV, b: ReverseV, blocks: Seq<Seq<char>>)
    requires
        a.like(b),
    ensures
        a.with_blocks(blocks).like(b.with_blocks(blocks)),
    decreases blocks.len(),
{
    if blocks.len() > 0 {
        lemma_blocks_alike(a, b, blocks.drop_last());
        lemma_lines_alike(
            a.with_blocks(blocks.drop_last()),
            b.with_blocks(blocks.drop_last()),
            lines(blocks.last()),
        );
    }
}

proof fn lemma_lines_alike(a: ReverseV, b: ReverseV, lines: Seq<Seq<char>>)
    requires
        a.like(b),
    ensures
        a.with_lines(lines).like(b.with_lines(lines)),
    decreases lines.len(),
{
    reveal(ReverseV::with_lines);
    if lines.len() > 0 {
        lemma_lines_alike(a, b, lines.drop_last());
        if let Some(data) = sse_field(lines.last(), "data"@) {
            lemma_data_alike(a.with_lines(lines.drop_last()), b.with_lines(lines.drop_last()), data);
        }
    }
}

proof fn lemma_data_alike(a: ReverseV, b: ReverseV, data: Seq<char>)
    requires
        a.like(b),
    ensures
        a.with_data(data).like(b.with_data(data)),
{
    reveal(ReverseV::with_data);
    if let Ok(ev) = json_parse(data) {
        lemma_event_alike(a, b, ev);
    }
}

proof fn lemma_event_alike(a: ReverseV, b: ReverseV, ev: JsonV)
    requires
        a.like(b),
    ensures
        a.with_event(ev).like(b.with_event(ev)),
{
    broadcast use lemma_shown_push;

}

impl ReverseV {
    /// All that a stream gives out from here on, up to its end or its failure.
    pub open spec fn whole(self, list: Seq<PieceV>) -> Seq<OutV>
        decreases list.len(),
    {
        if list.len() == 0 {
            self.ended().out
        } else {
            match list[0] {
                PieceV::Bytes(b) => {
                    let s = self.with_bytes(b);
                    s.out + s.drained().whole(list.drop_first())
                },
                PieceV::Failure(m) => self.failed(m).out,
            }
        }
    }
}

/// Convert an Anthropic SSE stream to an OpenAI Chat SSE stream. `log_resp` says
/// whether the text of the response goes to the log from here.
pub fn anthropic_to_chat_sse(stream: &Vec<StreamPiece>, model: &str, log_resp: bool) -> (r: Vec<StreamOut>)
    ensures
        outs(r@) == ReverseV::initial(model@, log_resp).whole(stream_pieces(stream@)),
{
    broadcast use group_outs;

    let mut state = AnthropicToChat::new(model, log_resp);
    let ghost all = stream_pieces(stream@);
    let ghost target = ReverseV::initial(model@, log_resp).whole(all);
    let mut list: Vec<StreamOut> = Vec::new();
    let mut i: usize = 0;
    assert(all.skip(0) =~= all);
    assert(outs(list@) + target =~= target);
    while i < stream.len()
        invariant
            i <= stream@.len(),
            all == stream_pieces(stream@),
            target == ReverseV::initial(model@, log_resp).whole(all),
            outs(list@) + state@.whole(all.skip(i as int)) == target,
        decreases stream@.len() - i,
    {
        let ghost so_far = outs(list@);
        let ghost s = state@;
        proof {
            assert(all.skip(i as int)[0] == stream@[i as int]@);
            assert(all.skip(i as int).drop_first() =~= all.skip(i + 1));
        }
        match &stream[i] {
            StreamPiece::Bytes(b) => {
                let more = state.push_bytes(b.as_slice());
                add_steps(&mut list, more);
                assert(outs(list@) + state@.whole(all.skip(i + 1)) =~= so_far + s.whole(all.skip(i as int)));
            },
            StreamPiece::Failure(m) => {
                let more = state.fail(m.as_str());
                add_steps(&mut list, more);
                return list;
            },
        }
        i += 1;
    }
    assert(all.skip(i as int) =~= Seq::empty());
    let more = state.finish();
    add_steps(&mut list, more);
    list
}

} // verus!
