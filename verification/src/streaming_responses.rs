//! A streamed Responses response as Anthropic events: the state between two
//! chunks of bytes, and what each chunk gives out.

use vstd::prelude::*;
use vstd::string::*;
use crate::chat_stream::{PendingDelta, PendingV};
use crate::convert::char_len;
use crate::convert_response::{low_word, make_thinking_block, thinking_block, zero_or};
use crate::json::{Json, JsonV, field_is, group_models, lemma_step, lemma_whole, make_text_block, models, opt_json, or_zero, text_block};
use crate::json_text::{document_in, read_document};
use crate::reasoning_bridge::is_reasoning;
use crate::responses_response::{build_anthropic_usage_from_responses_streaming, is_call, make_no_usage, no_usage, streamed_usage};
use crate::sse::{append_utf8_safe, block_end, byte_len, decoded, law_block_and_rest_make_up_the_text, lemma_byte_len_grows, sse_field, strip_sse_field, take_sse_block};
use crate::stream_out::{OutV, PieceV, StreamOut, StreamPiece, add_steps, args_delta, block_delta, block_start, block_stop, copy_text, following, group_outs, make_args_delta, make_block_delta, make_block_start, make_block_stop, make_message_delta, make_message_start, make_message_stop, make_signature, make_stream_error, make_text_delta, make_tool_start, message_delta, message_start, message_stop, next_number, outs, signature, stream_error, stream_pieces, text_delta, tool_note, tool_start};
use crate::text::{cat, cat3, chars_of, decimal, decimal_text, is_white_space, lines, split_lines, texts, trim, trim_end, trimmed, trimmed_end};

verus! {

/// From more than so many bytes of white space at the end on, the arguments of a
/// function call count as stuck, and no more of them are given out.
pub const MAX_TRAILING_BYTES: usize = 500;

/// An item of the response that stands as a content block.
pub struct ItemEntry {
    pub key: String,
    /// The index of its content block.
    pub index: u64,
    /// The arguments or the reasoning so far.
    pub text: String,
    pub item: Json,
}

/// The model of an item.
pub struct EntryV {
    pub key: Seq<char>,
    pub index: u64,
    pub text: Seq<char>,
    pub item: JsonV,
}

impl View for ItemEntry {
    type V = EntryV;

    open spec fn view(&self) -> EntryV {
        EntryV { key: self.key@, index: self.index, text: self.text@, item: self.item@ }
    }
}

/// The models of a list of items.
pub open spec fn entries_view(v: Seq<ItemEntry>) -> Seq<EntryV> {
    Seq::new(v.len(), |i: int| v[i]@)
}

/// The items without those of a key.
pub open spec fn without_key(v: Seq<EntryV>, key: Seq<char>) -> Seq<EntryV>
    decreases v.len(),
{
    if v.len() == 0 {
        Seq::empty()
    } else if v.last().key == key {
        without_key(v.drop_last(), key)
    } else {
        without_key(v.drop_last(), key).push(v.last())
    }
}

/// The items with one more, in place of any of the same key.
pub open spec fn put_entry(v: Seq<EntryV>, e: EntryV) -> Seq<EntryV> {
    without_key(v, e.key).push(e)
}

/// Where the item of a key is kept; the length where there is none.
pub open spec fn entry_at(v: Seq<EntryV>, key: Seq<char>) -> int
    decreases v.len(),
{
    if v.len() == 0 {
        0
    } else if entry_at(v.drop_last(), key) < v.len() - 1 {
        entry_at(v.drop_last(), key)
    } else if v.last().key == key {
        v.len() - 1
    } else {
        v.len() as int
    }
}

/// The indices without one of them.
pub open spec fn without_index(v: Seq<u64>, index: u64) -> Seq<u64>
    decreases v.len(),
{
    if v.len() == 0 {
        Seq::empty()
    } else if v.last() == index {
        without_index(v.drop_last(), index)
    } else {
        without_index(v.drop_last(), index).push(v.last())
    }
}

/// The bytes of the white space at the end of a text.
pub open spec fn trailing_bytes(s: Seq<char>) -> nat {
    byte_len(s.skip(trim_end(s).len() as int))
}

/// The kind and the data of a block.
pub struct FrameV {
    pub kind: Seq<char>,
    pub data: Seq<char>,
}

/// The kind and the data that the lines of a block give: the last of each.
pub open spec fn frame(lines: Seq<Seq<char>>) -> FrameV
    decreases lines.len(),
{
    if lines.len() == 0 {
        FrameV { kind: Seq::empty(), data: Seq::empty() }
    } else {
        let f = frame(lines.drop_last());
        match sse_field(lines.last(), "event"@) {
            Some(t) => FrameV { kind: trim(t), ..f },
            None => match sse_field(lines.last(), "data"@) {
                Some(t) => FrameV { data: t, ..f },
                None => f,
            },
        }
    }
}

/// The texts of the parts of a summary, one after another.
pub open spec fn joined_texts(parts: Seq<JsonV>) -> Seq<char>
    decreases parts.len(),
{
    if parts.len() == 0 {
        Seq::empty()
    } else {
        joined_texts(parts.drop_last()) + parts.last().str_or("text"@, Seq::empty())
    }
}

/// The key of a part of an item.
pub open spec fn part_key(v: JsonV) -> Seq<char> {
    v.str_or("item_id"@, Seq::empty()) + ":"@ + decimal(low_word(or_zero(v.u64_at("part_index"@))) as nat)
}

/// What went wrong, as an event of failure tells it.
pub open spec fn failure_message(document: Option<JsonV>) -> Seq<char> {
    match document {
        Some(v) => {
            let told = match v.path2("error"@, "message"@) {
                Some(m) => Some(m),
                None => v.get("message"@),
            };
            match told {
                Some(JsonV::Text(t)) => t,
                _ => "Upstream streaming error"@,
            }
        },
        None => "Upstream streaming error"@,
    }
}

/// What was given out of the response so far, and what is still open.
pub struct Progress {
    pub model: String,
    pub has_text: bool,
    pub message_id: String,
    pub sent_start: bool,
    pub sent_delta: bool,
    pub pending: Option<PendingDelta>,
    /// The open block of text.
    pub block: Option<u64>,
    pub next_index: u64,
    pub parts: Vec<ItemEntry>,
    pub open: Vec<u64>,
    pub tools: Vec<ItemEntry>,
    pub reasonings: Vec<ItemEntry>,
    /// Whether the upstream reported a failure.
    pub failed: bool,
    /// What is to be given out.
    pub out: Vec<StreamOut>,
}

/// The model of the progress of a response.
pub struct StreamingV {
    pub model: Seq<char>,
    pub has_text: bool,
    pub message_id: Seq<char>,
    pub sent_start: bool,
    pub sent_delta: bool,
    pub pending: Option<PendingV>,
    pub block: Option<u64>,
    pub next_index: u64,
    pub parts: Seq<EntryV>,
    pub open: Seq<u64>,
    pub tools: Seq<EntryV>,
    pub reasonings: Seq<EntryV>,
    pub failed: bool,
    pub out: Seq<OutV>,
}

impl View for Progress {
    type V = StreamingV;

    open spec fn view(&self) -> StreamingV {
        StreamingV {
            model: self.model@,
            has_text: self.has_text,
            message_id: self.message_id@,
            sent_start: self.sent_start,
            sent_delta: self.sent_delta,
            pending: match self.pending {
                Some(p) => Some(p@),
                None => None,
            },
            block: self.block,
            next_index: self.next_index,
            parts: entries_view(self.parts@),
            open: self.open@,
            tools: entries_view(self.tools@),
            reasonings: entries_view(self.reasonings@),
            failed: self.failed,
            out: outs(self.out@),
        }
    }
}

impl StreamingV {
    /// The state before any bytes came.
    pub open spec fn initial(model: Seq<char>) -> StreamingV {
        StreamingV {
            model,
            has_text: false,
            message_id: Seq::empty(),
            sent_start: false,
            sent_delta: false,
            pending: None,
            block: None,
            next_index: 0,
            parts: Seq::empty(),
            open: Seq::empty(),
            tools: Seq::empty(),
            reasonings: Seq::empty(),
            failed: false,
            out: Seq::empty(),
        }
    }

    pub open spec fn emit(self, o: OutV) -> StreamingV {
        StreamingV { out: self.out.push(o), ..self }
    }

    /// A new content block open.
    pub open spec fn block_opened(self, o: OutV) -> StreamingV {
        StreamingV {
            next_index: next_number(self.next_index),
            open: self.open.push(self.next_index),
            ..self.emit(o)
        }
    }

    /// A content block closed.
    pub open spec fn block_closed(self, index: u64) -> StreamingV {
        StreamingV { open: without_index(self.open, index), ..self.emit(block_stop(index)) }
    }

    /// The first `n` of the open blocks reported as closed.
    pub open spec fn stops(self, n: int) -> StreamingV
        decreases n,
    {
        if n <= 0 {
            self
        } else {
            self.stops(n - 1).emit(block_stop(self.open[n - 1]))
        }
    }

    /// All open blocks closed.
    pub open spec fn all_closed(self) -> StreamingV {
        StreamingV { open: Seq::empty(), ..self.stops(self.open.len() as int) }
    }

    /// The state after the response began.
    pub open spec fn with_created(self, v: JsonV) -> StreamingV {
        if self.sent_start {
            self
        } else {
            let id = if self.message_id.len() == 0 {
                v.str_or("id"@, Seq::empty())
            } else {
                self.message_id
            };
            StreamingV {
                message_id: id,
                sent_start: true,
                ..self.emit(message_start(id, self.model, no_usage()))
            }
        }
    }

    /// The state after a part of a message began.
    pub open spec fn with_part(self, v: JsonV) -> StreamingV {
        if v.str_at("type"@) == Some("output_text"@) {
            let index = self.next_index;
            let s = match self.block {
                Some(previous) => self.emit(block_stop(previous)),
                None => self,
            };
            let s = s.block_opened(block_start(index, text_block(Seq::empty())));
            StreamingV {
                parts: put_entry(
                    s.parts,
                    EntryV { key: part_key(v), index, text: Seq::empty(), item: JsonV::Null },
                ),
                block: Some(index),
                ..s
            }
        } else {
            self
        }
    }

    /// The state after a piece of text.
    pub open spec fn with_text(self, v: JsonV) -> StreamingV {
        match v.str_at("delta"@) {
            Some(t) => {
                let i = entry_at(self.parts, part_key(v));
                if i < self.parts.len() {
                    StreamingV {
                        has_text: true,
                        ..self.emit(OutV::Log(t)).emit(
                            block_delta(self.parts[i].index, text_delta("text_delta"@, "text"@, t)),
                        )
                    }
                } else {
                    self
                }
            },
            None => self,
        }
    }

    /// The state after a text came to its end.
    pub open spec fn with_text_done(self) -> StreamingV {
        match self.block {
            Some(index) => StreamingV { block: None, ..self.block_closed(index) },
            None => self,
        }
    }

    /// The state after a function call began.
    pub open spec fn with_tool(self, v: JsonV) -> StreamingV {
        let index = self.next_index;
        let name = v.str_or("name"@, Seq::empty());
        let s = if self.has_text {
            self
        } else {
            self.emit(tool_note(name))
        };
        let s = s.block_opened(tool_start(index, v.str_or("call_id"@, Seq::empty()), name));
        StreamingV {
            tools: put_entry(
                s.tools,
                EntryV { key: v.str_or("id"@, Seq::empty()), index, text: Seq::empty(), item: JsonV::Null },
            ),
            ..s
        }
    }

    /// The state after a reasoning item began.
    pub open spec fn with_reasoning(self, v: JsonV) -> StreamingV {
        let index = self.next_index;
        let text = joined_texts(v.items_at("summary"@));
        let s = self.block_opened(block_start(index, thinking_block(Seq::empty())));
        let s = StreamingV {
            reasonings: put_entry(
                s.reasonings,
                EntryV { key: v.str_or("id"@, Seq::empty()), index, text, item: v },
            ),
            ..s
        };
        if text.len() > 0 {
            s.emit(OutV::Log(text)).emit(
                block_delta(index, text_delta("thinking_delta"@, "thinking"@, text)),
            )
        } else {
            s
        }
    }

    /// The state after an item began.
    pub open spec fn with_item(self, v: JsonV) -> StreamingV {
        if is_call(v) {
            self.with_tool(v)
        } else if is_reasoning(v) {
            self.with_reasoning(v)
        } else {
            self
        }
    }

    /// The state after a piece of the arguments of a function call.
    pub open spec fn with_arguments(self, v: JsonV) -> StreamingV {
        match v.str_at("delta"@) {
            Some(t) => {
                let i = entry_at(self.tools, v.str_or("item_id"@, Seq::empty()));
                if i < self.tools.len() {
                    let e = self.tools[i];
                    let args = e.text + t;
                    let s = StreamingV { tools: self.tools.update(i, EntryV { text: args, ..e }), ..self };
                    if trailing_bytes(args) > MAX_TRAILING_BYTES {
                        s
                    } else {
                        s.emit(args_delta(e.index, t))
                    }
                } else {
                    self
                }
            },
            None => self,
        }
    }

    /// The state after an item came to its end.
    pub open spec fn with_item_done(self, v: JsonV) -> StreamingV {
        let key = v.str_or("id"@, Seq::empty());
        if is_call(v) {
            let i = entry_at(self.tools, key);
            if i < self.tools.len() {
                StreamingV {
                    tools: without_key(self.tools, key),
                    ..self.block_closed(self.tools[i].index)
                }
            } else {
                self
            }
        } else if is_reasoning(v) {
            let i = entry_at(self.reasonings, key);
            if i < self.reasonings.len() {
                let e = self.reasonings[i];
                let s = if is_reasoning(e.item) && e.text.len() > 0 {
                    self.emit(signature(e.index, e.item))
                } else {
                    self
                };
                StreamingV { reasonings: without_key(self.reasonings, key), ..s.block_closed(e.index) }
            } else {
                self
            }
        } else {
            self
        }
    }

    /// The state after the response came to its end.
    pub open spec fn with_completed(self, document: Option<JsonV>, incomplete: bool) -> StreamingV {
        if self.sent_delta {
            self
        } else {
            let s = StreamingV { sent_delta: true, ..self };
            match document {
                Some(v) => StreamingV {
                    pending: Some(
                        PendingV {
                            stop: if incomplete {
                                Some("max_tokens"@)
                            } else {
                                None
                            },
                            usage: Some(streamed_usage(v.get("usage"@))),
                        },
                    ),
                    ..s.all_closed()
                },
                None => s,
            }
        }
    }

    /// The state after the upstream reported a failure.
    pub open spec fn with_failure(self, document: Option<JsonV>) -> StreamingV {
        let message = failure_message(document);
        StreamingV {
            failed: true,
            ..self.emit(stream_error("api_error"@, message)).emit(OutV::LogError(message))
        }
    }

    /// The state after an event of a kind with a document.
    pub open spec fn with_document(self, kind: Seq<char>, v: JsonV) -> StreamingV {
        if kind == "response.created"@ || kind == "response.in_progress"@ {
            self.with_created(v)
        } else if kind == "response.content_part.added"@ {
            self.with_part(v)
        } else if kind == "response.output_text.delta"@ {
            self.with_text(v)
        } else if kind == "response.output_item.added"@ {
            self.with_item(v)
        } else if kind == "response.function_call_arguments.delta"@ {
            self.with_arguments(v)
        } else if kind == "response.output_item.done"@ {
            self.with_item_done(v)
        } else {
            self
        }
    }

    /// The state after an event of a kind. Its data may be no document.
    #[verifier::opaque]
    pub open spec fn with_event(self, kind: Seq<char>, document: Option<JsonV>) -> StreamingV {
        if kind == "response.output_text.done"@ {
            self.with_text_done()
        } else if kind == "response.completed"@ || kind == "response.incomplete"@ {
            self.with_completed(document, kind == "response.incomplete"@)
        } else if reports_failure_kind(kind) {
            self.with_failure(document)
        } else {
            match document {
                Some(v) => self.with_document(kind, v),
                None => self,
            }
        }
    }

    /// The state after a block.
    pub open spec fn with_frame(self, f: FrameV) -> StreamingV {
        if f.data.len() == 0 {
            self
        } else {
            self.with_event(f.kind, document_in(f.data))
        }
    }

    /// The state after the connection to the upstream failed.
    pub open spec fn broken(self, message: Seq<char>) -> StreamingV {
        let text = "Stream error: "@ + message;
        StreamingV {
            failed: true,
            ..self.emit(stream_error("stream_error"@, text)).emit(OutV::LogError(text))
        }
    }

    /// The state after the upstream came to its end.
    pub open spec fn ended(self) -> StreamingV {
        if self.failed {
            self
        } else {
            let s = self.all_closed();
            let s = match s.pending {
                Some(p) => StreamingV { pending: None, ..s.emit(message_delta(p.stop, p.usage)) },
                None => s,
            };
            s.emit(message_stop()).emit(OutV::LogDone)
        }
    }

    /// The state once what is to be given out was taken.
    pub open spec fn drained(self) -> StreamingV {
        StreamingV { out: Seq::empty(), ..self }
    }
}

/// The progress after the whole blocks of a text, up to a report of failure, and
/// what is left of the text.
pub open spec fn after_text(s: StreamingV, text: Seq<char>) -> (StreamingV, Seq<char>)
    decreases text.len(),
{
    match block_end(text) {
        Some((at, len)) => if 0 <= at && 0 < len && at + len <= text.len() {
            let block = text.take(at);
            let rest = text.skip(at + len);
            let f = frame(lines(block));
            if trim(block).len() == 0 {
                after_text(s, rest)
            } else if is_failure(f) {
                (s.with_frame(f), rest)
            } else {
                after_text(s.with_frame(f), rest)
            }
        } else {
            (s, text)
        },
        None => (s, text),
    }
}

/// The state of the conversion.
pub struct ResponsesToAnthropic {
    pub buffer: String,
    pub remainder: Vec<u8>,
    pub progress: Progress,
}

/// The model of the state.
pub struct ResponsesV {
    pub buffer: Seq<char>,
    pub remainder: Seq<u8>,
    pub progress: StreamingV,
}

impl View for ResponsesToAnthropic {
    type V = ResponsesV;

    open spec fn view(&self) -> ResponsesV {
        ResponsesV { buffer: self.buffer@, remainder: self.remainder@, progress: self.progress@ }
    }
}

impl ResponsesV {
    /// The state before any bytes came.
    pub open spec fn initial(model: Seq<char>) -> ResponsesV {
        ResponsesV { buffer: Seq::empty(), remainder: Seq::empty(), progress: StreamingV::initial(model) }
    }

    /// The state after bytes came.
    pub open spec fn with_bytes(self, bytes: Seq<u8>) -> ResponsesV {
        let d = decoded(self.remainder + bytes);
        let (progress, rest) = after_text(self.progress, self.buffer + d.text);
        ResponsesV { buffer: rest, remainder: d.rest, progress }
    }

    /// The state after the connection to the upstream failed.
    pub open spec fn broken(self, message: Seq<char>) -> ResponsesV {
        ResponsesV { progress: self.progress.broken(message), ..self }
    }

    /// The state after the upstream came to its end.
    pub open spec fn ended(self) -> ResponsesV {
        ResponsesV { progress: self.progress.ended(), ..self }
    }

    /// The state once what is to be given out was taken.
    pub open spec fn drained(self) -> ResponsesV {
        ResponsesV { progress: self.progress.drained(), ..self }
    }
}

/// Whether events of a kind report a failure.
pub open spec fn reports_failure_kind(kind: Seq<char>) -> bool {
    kind == "response.failed"@ || kind == "error"@
}

/// Whether a block reports a failure.
pub open spec fn is_failure(f: FrameV) -> bool {
    f.data.len() > 0 && reports_failure_kind(f.kind)
}

/// Where the item of a key is kept, and that none before it has its key.
pub proof fn lemma_entry_at(v: Seq<EntryV>, key: Seq<char>)
    ensures
        0 <= entry_at(v, key) <= v.len(),
        entry_at(v, key) < v.len() ==> v[entry_at(v, key)].key == key,
        forall|i: int| 0 <= i < entry_at(v, key) ==> (#[trigger] v[i]).key != key,
    decreases v.len(),
{
    if v.len() > 0 {
        let front = v.drop_last();
        lemma_entry_at(front, key);
        assert forall|i: int| 0 <= i < entry_at(v, key) implies (#[trigger] v[i]).key != key by {
            if i < front.len() {
                assert(v[i] == front[i]);
            }
        }
    }
}

fn find_entry(v: &Vec<ItemEntry>, key: &str) -> (r: Option<usize>)
    ensures
        match r {
            Some(i) => i < v@.len() && i == entry_at(entries_view(v@), key@),
            None => entry_at(entries_view(v@), key@) == v@.len(),
        },
{
    let ghost all = entries_view(v@);
    proof {
        lemma_entry_at(all, key@);
    }
    let mut i: usize = 0;
    while i < v.len()
        invariant
            i <= v@.len(),
            all == entries_view(v@),
            i <= entry_at(all, key@) <= v@.len(),
            entry_at(all, key@) < v@.len() ==> all[entry_at(all, key@)].key == key@,
            forall|j: int| 0 <= j < entry_at(all, key@) ==> (#[trigger] all[j]).key != key@,
        decreases v@.len() - i,
    {
        assert(all[i as int].key == v@[i as int].key@);
        if v[i].key.as_str().eq(key) {
            return Some(i);
        }
        i += 1;
    }
    None
}

fn remove_entries(v: Vec<ItemEntry>, key: &str) -> (r: Vec<ItemEntry>)
    ensures
        entries_view(r@) == without_key(entries_view(v@), key@),
{
    let ghost all = entries_view(v@);
    let ghost list = v@;
    let mut out: Vec<ItemEntry> = Vec::new();
    assert(entries_view(out@) =~= without_key(all.take(0), key@));
    for e in it: v
        invariant
            it.seq() == list,
            all == entries_view(list),
            entries_view(out@) == without_key(all.take(it.index() as int), key@),
    {
        let ghost before = entries_view(out@);
        let ghost i = it.index() as int;
        proof {
            lemma_step(all, i);
            assert(all[i] == e@);
        }
        if !e.key.as_str().eq(key) {
            let ghost model = e@;
            out.push(e);
            assert(entries_view(out@) =~= before.push(model));
        }
    }
    proof {
        lemma_whole(all);
    }
    out
}

fn put_item(v: Vec<ItemEntry>, e: ItemEntry) -> (r: Vec<ItemEntry>)
    ensures
        entries_view(r@) == put_entry(entries_view(v@), e@),
{
    let mut out = remove_entries(v, e.key.as_str());
    let ghost before = entries_view(out@);
    let ghost model = e@;
    out.push(e);
    assert(entries_view(out@) =~= before.push(model));
    out
}

fn remove_index(v: &Vec<u64>, index: u64) -> (r: Vec<u64>)
    ensures
        r@ == without_index(v@, index),
{
    let mut out: Vec<u64> = Vec::new();
    let mut i: usize = 0;
    assert(out@ =~= without_index(v@.take(0), index));
    while i < v.len()
        invariant
            i <= v@.len(),
            out@ == without_index(v@.take(i as int), index),
        decreases v@.len() - i,
    {
        proof {
            lemma_step(v@, i as int);
        }
        if v[i] != index {
            out.push(v[i]);
        }
        i += 1;
    }
    proof {
        lemma_whole(v@);
    }
    out
}

fn ends_in_white_space(s: &str) -> (r: bool)
    ensures
        r == (trailing_bytes(s@) > MAX_TRAILING_BYTES),
{
    let v = chars_of(s);
    let t = trimmed_end(s);
    let start = t.unicode_len();
    proof {
        lemma_trim_end_len(s@);
    }
    let ghost tail = s@.skip(start as int);
    let mut sum: usize = 0;
    let mut i: usize = start;
    assert(tail.take(0) =~= Seq::empty());
    while i < v.len()
        invariant
            start <= i <= v@.len(),
            v@ == s@,
            start == trim_end(s@).len(),
            tail == v@.skip(start as int),
            sum == byte_len(tail.take(i - start)),
            sum <= MAX_TRAILING_BYTES,
        decreases v@.len() - i,
    {
        proof {
            lemma_step(tail, i - start);
            assert(tail[i - start] == v@[i as int]);
        }
        sum = sum + char_len(v[i]);
        i += 1;
        if sum > MAX_TRAILING_BYTES {
            proof {
                lemma_byte_len_grows(tail, i - start, tail.len() as int);
                lemma_whole(tail);
            }
            return true;
        }
    }
    proof {
        lemma_whole(tail);
    }
    false
}

proof fn lemma_trim_end_len(s: Seq<char>)
    ensures
        trim_end(s).len() <= s.len(),
    decreases s.len(),
{
    if s.len() > 0 && is_white_space(s.last()) {
        lemma_trim_end_len(s.drop_last());
    }
}

struct Frame {
    kind: String,
    data: String,
}

impl View for Frame {
    type V = FrameV;

    closed spec fn view(&self) -> FrameV {
        FrameV { kind: self.kind@, data: self.data@ }
    }
}

fn read_frame(list: &Vec<String>) -> (r: Frame)
    ensures
        r@ == frame(texts(list@)),
{
    let ghost all = texts(list@);
    let mut f = Frame { kind: String::new(), data: String::new() };
    let mut i: usize = 0;
    while i < list.len()
        invariant
            i <= list@.len(),
            all == texts(list@),
            f@ == frame(all.take(i as int)),
        decreases list@.len() - i,
    {
        proof {
            lemma_step(all, i as int);
        }
        let line = list[i].as_str();
        match strip_sse_field(line, "event") {
            Some(t) => {
                f.kind = trimmed(t).to_owned();
            },
            None => {
                if let Some(t) = strip_sse_field(line, "data") {
                    f.data = t.to_owned();
                }
            },
        }
        i += 1;
    }
    proof {
        lemma_whole(all);
    }
    f
}

fn join_summary(parts: &Vec<Json>) -> (r: String)
    ensures
        r@ == joined_texts(models(parts@)),
{
    let ghost all = models(parts@);
    let mut out = String::new();
    let mut i: usize = 0;
    while i < parts.len()
        invariant
            i <= parts@.len(),
            all == models(parts@),
            out@ == joined_texts(all.take(i as int)),
        decreases parts@.len() - i,
    {
        proof {
            lemma_step(all, i as int);
        }
        out.append(parts[i].str_or_empty("text"));
        i += 1;
    }
    proof {
        lemma_whole(all);
    }
    out
}

fn make_part_key(v: &Json) -> (r: String)
    ensures
        r@ == part_key(v@),
{
    let n: u64 = zero_or(v.u64_at("part_index")) % 0x1_0000_0000;
    cat3(v.str_or_empty("item_id"), ":", decimal_text(n).as_str())
}

fn tell_failure(document: &Option<Json>) -> (r: String)
    ensures
        r@ == failure_message(opt_json(*document)),
{
    if let Some(v) = document {
        let told = match v.path2("error", "message") {
            Some(m) => Some(m),
            None => v.get("message"),
        };
        if let Some(m) = told {
            if let Some(t) = m.as_str() {
                return t.to_owned();
            }
        }
    }
    "Upstream streaming error".to_owned()
}

impl Progress {
    /// The progress before anything came.
    pub fn new(model: &str) -> (r: Progress)
        ensures
            r@ == StreamingV::initial(model@),
    {
        broadcast use group_outs;

        let r = Progress {
            model: model.to_owned(),
            has_text: false,
            message_id: String::new(),
            sent_start: false,
            sent_delta: false,
            pending: None,
            block: None,
            next_index: 0,
            parts: Vec::new(),
            open: Vec::new(),
            tools: Vec::new(),
            reasonings: Vec::new(),
            failed: false,
            out: Vec::new(),
        };
        assert(r@.parts =~= Seq::empty());
        assert(r@.tools =~= Seq::empty());
        assert(r@.reasonings =~= Seq::empty());
        assert(r@.open =~= Seq::empty());
        r
    }

    fn emit(&mut self, o: StreamOut)
        ensures
            final(self)@ == old(self)@.emit(o@),
    {
        broadcast use group_outs;

        self.out.push(o);
    }

    fn log(&mut self, t: &str)
        ensures
            final(self)@ == old(self)@.emit(OutV::Log(t@)),
    {
        self.emit(StreamOut::Log(t.to_owned()));
    }

    fn open_block(&mut self, o: StreamOut)
        ensures
            final(self)@ == old(self)@.block_opened(o@),
    {
        self.emit(o);
        self.open.push(self.next_index);
        self.next_index = following(self.next_index);
    }

    fn close_block(&mut self, index: u64)
        ensures
            final(self)@ == old(self)@.block_closed(index),
    {
        self.emit(make_block_stop(index));
        self.open = remove_index(&self.open, index);
    }

    fn close_all(&mut self)
        ensures
            final(self)@ == old(self)@.all_closed(),
    {
        let ghost s = self@;
        let n: usize = self.open.len();
        let mut i: usize = 0;
        while i < n
            invariant
                i <= n,
                n == s.open.len(),
                self.open@ == s.open,
                self@ == s.stops(i as int),
            decreases n - i,
        {
            let index: u64 = self.open[i];
            self.emit(make_block_stop(index));
            assert(self@ == s.stops(i + 1));
            assert(self@.open == s.open) by {
                lemma_stops_keep_open(s, i + 1);
            }
            i += 1;
        }
        self.open = Vec::new();
        assert(self.open@ =~= Seq::empty());
    }

    fn add_created(&mut self, v: &Json)
        ensures
            final(self)@ == old(self)@.with_created(v@),
    {
        if self.sent_start {
            return;
        }
        if self.message_id.as_str().is_empty() {
            self.message_id = v.str_or_empty("id").to_owned();
        }
        let start = make_message_start(self.message_id.as_str(), self.model.as_str(), make_no_usage());
        self.emit(start);
        self.sent_start = true;
    }

    fn add_part(&mut self, v: &Json)
        ensures
            final(self)@ == old(self)@.with_part(v@),
    {
        if field_is(v, "type", "output_text") {
            let index: u64 = self.next_index;
            if let Some(previous) = self.block {
                self.emit(make_block_stop(previous));
            }
            let empty = String::new();
            self.open_block(make_block_start(index, make_text_block(empty.as_str())));
            let entry = ItemEntry { key: make_part_key(v), index, text: String::new(), item: Json::Null };
            let mut list: Vec<ItemEntry> = Vec::new();
            let ghost before = self@.parts;
            list.append(&mut self.parts);
            assert(entries_view(list@) =~= before);
            self.parts = put_item(list, entry);
            self.block = Some(index);
        }
    }

    fn add_text(&mut self, v: &Json)
        ensures
            final(self)@ == old(self)@.with_text(v@),
    {
        if let Some(t) = v.str_at("delta") {
            if let Some(i) = find_entry(&self.parts, make_part_key(v).as_str()) {
                let index: u64 = self.parts[i].index;
                assert(self@.parts[i as int].index == index);
                self.has_text = true;
                self.log(t);
                self.emit(make_block_delta(index, make_text_delta("text_delta", "text", t)));
            }
        }
    }

    fn end_text(&mut self)
        ensures
            final(self)@ == old(self)@.with_text_done(),
    {
        if let Some(index) = self.block {
            self.close_block(index);
            self.block = None;
        }
    }

    fn add_tool(&mut self, v: &Json)
        ensures
            final(self)@ == old(self)@.with_tool(v@),
    {
        let index: u64 = self.next_index;
        let name = v.str_or_empty("name");
        if !self.has_text {
            self.log(cat3("[tool_use: ", name, "]").as_str());
        }
        self.open_block(make_tool_start(index, v.str_or_empty("call_id"), name));
        let entry = ItemEntry {
            key: v.str_or_empty("id").to_owned(),
            index,
            text: String::new(),
            item: Json::Null,
        };
        let mut list: Vec<ItemEntry> = Vec::new();
        let ghost before = self@.tools;
        list.append(&mut self.tools);
        assert(entries_view(list@) =~= before);
        self.tools = put_item(list, entry);
    }

    fn add_reasoning(&mut self, v: &Json)
        ensures
            final(self)@ == old(self)@.with_reasoning(v@),
    {
        broadcast use group_models;

        let index: u64 = self.next_index;
        let none: Vec<Json> = Vec::new();
        let text = join_summary(
            match v.array_at("summary") {
                Some(parts) => parts,
                None => &none,
            },
        );
        let empty = String::new();
        self.open_block(make_block_start(index, make_thinking_block(empty.as_str())));
        let entry = ItemEntry {
            key: v.str_or_empty("id").to_owned(),
            index,
            text: text.clone(),
            item: v.copy(),
        };
        let mut list: Vec<ItemEntry> = Vec::new();
        let ghost before = self@.reasonings;
        list.append(&mut self.reasonings);
        assert(entries_view(list@) =~= before);
        self.reasonings = put_item(list, entry);
        if !text.as_str().is_empty() {
            self.log(text.as_str());
            self.emit(make_block_delta(index, make_text_delta("thinking_delta", "thinking", text.as_str())));
        }
    }

    fn add_arguments(&mut self, v: &Json)
        ensures
            final(self)@ == old(self)@.with_arguments(v@),
    {
        if let Some(t) = v.str_at("delta") {
            if let Some(i) = find_entry(&self.tools, v.str_or_empty("item_id")) {
                let e = &self.tools[i];
                assert(self@.tools[i as int] == e@);
                let index: u64 = e.index;
                let args = cat(e.text.as_str(), t);
                let stuck = ends_in_white_space(args.as_str());
                let entry = ItemEntry { key: e.key.clone(), index, text: args, item: e.item.copy() };
                let ghost before = self.tools@;
                self.tools[i] = entry;
                assert(entries_view(self.tools@) =~= entries_view(before).update(i as int, entry@));
                if !stuck {
                    self.emit(make_args_delta(index, t));
                }
            }
        }
    }

    fn end_item(&mut self, v: &Json)
        ensures
            final(self)@ == old(self)@.with_item_done(v@),
    {
        proof {
            reveal_strlit("function_call");
            reveal_strlit("reasoning");
            assert("function_call"@.len() != "reasoning"@.len());
        }
        let key = v.str_or_empty("id");
        if field_is(v, "type", "function_call") {
            if let Some(i) = find_entry(&self.tools, key) {
                let index: u64 = self.tools[i].index;
                assert(self@.tools[i as int].index == index);
                self.close_block(index);
                let mut list: Vec<ItemEntry> = Vec::new();
                let ghost before = self@.tools;
                list.append(&mut self.tools);
                assert(entries_view(list@) =~= before);
                self.tools = remove_entries(list, key);
            }
        } else if field_is(v, "type", "reasoning") {
            if let Some(i) = find_entry(&self.reasonings, key) {
                let e = &self.reasonings[i];
                assert(self@.reasonings[i as int] == e@);
                let index: u64 = e.index;
                if field_is(&e.item, "type", "reasoning") && !e.text.as_str().is_empty() {
                    let sign = make_signature(index, &e.item);
                    self.emit(sign);
                }
                self.close_block(index);
                let mut list: Vec<ItemEntry> = Vec::new();
                let ghost before = self@.reasonings;
                list.append(&mut self.reasonings);
                assert(entries_view(list@) =~= before);
                self.reasonings = remove_entries(list, key);
            }
        }
    }

    fn end_response(&mut self, document: &Option<Json>, incomplete: bool)
        ensures
            final(self)@ == old(self)@.with_completed(opt_json(*document), incomplete),
    {
        if self.sent_delta {
            return;
        }
        self.sent_delta = true;
        if let Some(v) = document {
            self.close_all();
            let usage = build_anthropic_usage_from_responses_streaming(v.get("usage"));
            let stop = if incomplete {
                Some("max_tokens".to_owned())
            } else {
                None
            };
            self.pending = Some(PendingDelta { stop, usage: Some(usage) });
        }
    }

    fn add_failure(&mut self, document: &Option<Json>)
        ensures
            final(self)@ == old(self)@.with_failure(opt_json(*document)),
    {
        let message = tell_failure(document);
        self.failed = true;
        self.emit(make_stream_error("api_error", message.as_str()));
        self.emit(StreamOut::LogError(message));
    }

    fn add_document(&mut self, kind: &str, v: &Json)
        ensures
            final(self)@ == old(self)@.with_document(kind@, v@),
    {
        if kind.eq("response.created") || kind.eq("response.in_progress") {
            self.add_created(v);
        } else if kind.eq("response.content_part.added") {
            self.add_part(v);
        } else if kind.eq("response.output_text.delta") {
            self.add_text(v);
        } else if kind.eq("response.output_item.added") {
            if field_is(v, "type", "function_call") {
                self.add_tool(v);
            } else if field_is(v, "type", "reasoning") {
                self.add_reasoning(v);
            }
        } else if kind.eq("response.function_call_arguments.delta") {
            self.add_arguments(v);
        } else if kind.eq("response.output_item.done") {
            self.end_item(v);
        }
    }

    /// Takes in one event of a kind; `document` is what its data are, where they are
    /// a document. Says whether the event reports a failure.
    pub fn add_event(&mut self, kind: &str, document: &Option<Json>) -> (r: bool)
        ensures
            final(self)@ == old(self)@.with_event(kind@, opt_json(*document)),
            r == reports_failure_kind(kind@),
    {
        proof {
            reveal(StreamingV::with_event);
            reveal_strlit("response.output_text.done");
            reveal_strlit("response.completed");
            reveal_strlit("response.incomplete");
            reveal_strlit("response.failed");
            reveal_strlit("error");
            assert("response.failed"@.len() == 15);
            assert("error"@.len() == 5);
            assert("response.output_text.done"@.len() == 25);
            assert("response.completed"@.len() == 18);
            assert("response.incomplete"@.len() == 19);
        }
        if kind.eq("response.output_text.done") {
            self.end_text();
            false
        } else if kind.eq("response.completed") || kind.eq("response.incomplete") {
            self.end_response(document, kind.eq("response.incomplete"));
            false
        } else if kind.eq("response.failed") || kind.eq("error") {
            self.add_failure(document);
            true
        } else {
            if let Some(v) = document {
                self.add_document(kind, v);
            }
            false
        }
    }

    fn add_frame(&mut self, f: &Frame) -> (r: bool)
        ensures
            final(self)@ == old(self)@.with_frame(f@),
            r == is_failure(f@),
    {
        let data = f.data.as_str();
        if data.is_empty() {
            return false;
        }
        let document = read_document(data);
        self.add_event(f.kind.as_str(), &document)
    }

    fn take_out(&mut self) -> (r: Vec<StreamOut>)
        ensures
            outs(r@) == old(self)@.out,
            final(self)@ == old(self)@.drained(),
    {
        broadcast use group_outs;

        let mut r: Vec<StreamOut> = Vec::new();
        r.append(&mut self.out);
        assert(self.out@ =~= Seq::empty());
        assert(r@ =~= old(self).out@);
        r
    }

    fn end(&mut self)
        ensures
            final(self)@ == old(self)@.ended(),
    {
        if !self.failed {
            self.close_all();
            if let Some(p) = self.pending.take() {
                self.emit(make_message_delta(copy_text(&p.stop), p.usage.as_ref()));
            }
            self.emit(make_message_stop());
            self.emit(StreamOut::LogDone);
        }
    }
}

impl ResponsesToAnthropic {
    /// The state before any bytes came. `model` is the model that the client
    /// asked for, which is echoed back to it.
    pub fn new(model: &str) -> (r: ResponsesToAnthropic)
        ensures
            r@ == ResponsesV::initial(model@),
    {
        let r = ResponsesToAnthropic {
            buffer: String::new(),
            remainder: Vec::new(),
            progress: Progress::new(model),
        };
        assert(r@.remainder =~= Seq::empty());
        r
    }

    /// Takes in bytes of the upstream response, and gives out what they come to.
    pub fn push_bytes(&mut self, bytes: &[u8]) -> (r: Vec<StreamOut>)
        ensures
            outs(r@) == old(self)@.with_bytes(bytes@).progress.out,
            final(self)@ == old(self)@.with_bytes(bytes@).drained(),
    {
        append_utf8_safe(&mut self.buffer, &mut self.remainder, bytes);
        let ghost target = old(self)@.with_bytes(bytes@);
        loop
            invariant
                target == old(self)@.with_bytes(bytes@),
                target.remainder == self.remainder@,
                after_text(self.progress@, self.buffer@) == (target.progress, target.buffer),
            decreases self.buffer@.len(),
        {
            proof {
                law_block_and_rest_make_up_the_text(self.buffer@);
            }
            match take_sse_block(&mut self.buffer) {
                Some(block) => {
                    if !trimmed(block.as_str()).is_empty() {
                        let f = read_frame(&split_lines(block.as_str()));
                        if self.progress.add_frame(&f) {
                            return self.progress.take_out();
                        }
                    }
                },
                None => {
                    return self.progress.take_out();
                },
            }
        }
    }

    /// Takes note that the connection to the upstream failed.
    pub fn fail(&mut self, message: &str) -> (r: Vec<StreamOut>)
        ensures
            outs(r@) == old(self)@.broken(message@).progress.out,
            final(self)@ == old(self)@.broken(message@).drained(),
    {
        let text = cat("Stream error: ", message);
        self.progress.failed = true;
        self.progress.emit(make_stream_error("stream_error", text.as_str()));
        self.progress.emit(StreamOut::LogError(text));
        self.progress.take_out()
    }

    /// Takes note that the upstream came to its end.
    pub fn finish(&mut self) -> (r: Vec<StreamOut>)
        ensures
            outs(r@) == old(self)@.ended().progress.out,
            final(self)@ == old(self)@.ended().drained(),
    {
        self.progress.end();
        self.progress.take_out()
    }
}

proof fn lemma_stops_keep_open(s: StreamingV, n: int)
    ensures
        s.stops(n).open == s.open,
    decreases n,
{
    if n > 0 {
        lemma_stops_keep_open(s, n - 1);
    }
}

proof fn lemma_stops(s: StreamingV, n: int)
    requires
        0 <= n <= s.open.len(),
    ensures
        s.stops(n).out.len() == s.out.len() + n,
        s.stops(n).out.take(s.out.len() as int) == s.out,
        forall|k: int| 0 <= k < n ==> #[trigger] s.stops(n).out[s.out.len() + k] == block_stop(s.open[k]),
        s.stops(n).pending == s.pending,
    decreases n,
{
    if n > 0 {
        lemma_stops(s, n - 1);
        let before = s.stops(n - 1).out;
        let after = s.stops(n).out;
        assert(after.take(s.out.len() as int) =~= before.take(s.out.len() as int));
        assert forall|k: int| 0 <= k < n implies #[trigger] after[s.out.len() + k] == block_stop(s.open[k]) by {
            if k < n - 1 {
                assert(after[s.out.len() + k] == before[s.out.len() + k]);
            }
        }
    } else {
        assert(s.out.take(s.out.len() as int) =~= s.out);
    }
}

/// Where no failure was reported, the end of the upstream closes every block that is
/// still open, in the order in which they were opened, and only then ends the
/// message.
pub proof fn law_end_closes_open_blocks(s: StreamingV)
    requires
        !s.failed,
    ensures
        s.ended().open.len() == 0,
        s.ended().out.len() >= s.out.len() + s.open.len() + 2,
        s.ended().out.take(s.out.len() as int) == s.out,
        forall|k: int|
            0 <= k < s.open.len() ==> #[trigger] s.ended().out[s.out.len() + k] == block_stop(s.open[k]),
        s.ended().out[s.ended().out.len() - 2] == message_stop(),
        s.ended().out.last() == OutV::LogDone,
{
    let n = s.open.len() as int;
    lemma_stops(s, n);
    let closed = s.stops(n).out;
    let all = s.ended().out;
    assert(all.take(s.out.len() as int) =~= closed.take(s.out.len() as int));
    assert forall|k: int| 0 <= k < n implies #[trigger] all[s.out.len() + k] == block_stop(s.open[k]) by {
        assert(all[s.out.len() + k] == closed[s.out.len() + k]);
    }
}

impl ResponsesV {
    /// All that a stream gives out from here on, up to its end or its failure.
    pub open spec fn whole(self, list: Seq<PieceV>) -> Seq<OutV>
        decreases list.len(),
    {
        if list.len() == 0 {
            self.ended().progress.out
        } else {
            match list[0] {
                PieceV::Bytes(b) => {
                    let s = self.with_bytes(b);
                    s.progress.out + s.drained().whole(list.drop_first())
                },
                PieceV::Failure(m) => self.broken(m).progress.out,
            }
        }
    }
}

/// Convert a Responses API SSE stream to an Anthropic SSE stream.
///
/// `model` is the model echoed back in `message_start` (the original model the
/// client requested), not the upstream's reported model.
pub fn responses_to_anthropic_sse(stream: &Vec<StreamPiece>, model: &str) -> (r: Vec<StreamOut>)
    ensures
        outs(r@) == ResponsesV::initial(model@).whole(stream_pieces(stream@)),
{
    broadcast use group_outs;

    let mut state = ResponsesToAnthropic::new(model);
    let ghost all = stream_pieces(stream@);
    let ghost target = ResponsesV::initial(model@).whole(all);
    let mut list: Vec<StreamOut> = Vec::new();
    let mut i: usize = 0;
    assert(all.skip(0) =~= all);
    assert(outs(list@) + target =~= target);
    while i < stream.len()
        invariant
            i <= stream@.len(),
            all == stream_pieces(stream@),
            target == ResponsesV::initial(model@).whole(all),
            outs(list@) + state@.whole(all.skip(i as int)) == target,
        decreases stream@.len() - i,
    {
        let ghost so_far = outs(list@);
        let ghost s = state@;
        proof {
            assert(all.skip(i as int)[0] == stream@[i as int]@);
            assert(all.skip(i as int).drop_first() =~= all.skip(i + 1));
        }
        match &stream[i] {
            StreamPiece::Bytes(b) => {
                let more = state.push_bytes(b.as_slice());
                add_steps(&mut list, more);
                assert(outs(list@) + state@.whole(all.skip(i + 1)) =~= so_far + s.whole(all.skip(i as int)));
            },
            StreamPiece::Failure(m) => {
                let more = state.fail(m.as_str());
                add_steps(&mut list, more);
                return list;
            },
        }
        i += 1;
    }
    assert(all.skip(i as int) =~= Seq::empty());
    let more = state.finish();
    add_steps(&mut list, more);
    list
}

} // verus!
