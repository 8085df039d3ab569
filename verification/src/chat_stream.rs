//! A streamed Chat response as Anthropic events: the state between two chunks of
//! bytes, and what each chunk gives out.

use vstd::prelude::*;
use vstd::string::*;
use crate::chat_chunk::{CallV, ChunkV, DeltaToolCall, OpenAIStreamChunk, Usage, calls_view};
use crate::chunk_text::{chunk_from_text, chunk_in};
use crate::convert_response::{beyond, make_thinking_block, map_stop_reason, stop_reason, thinking_block};
use crate::json::{Json, JsonObject, JsonV, lemma_step, lemma_whole, make_text_block, num, opt_json, opt_model, opt_string, opt_text, text_block};
use crate::sse::{SseReader, SseReaderV, sse_field, strip_sse_field};
use crate::stream_out::{OutV, PieceV, StreamOut, StreamPiece, add_steps, args_delta, block_delta, block_start, block_stop, copy_text, following, group_outs, law_signed_reasoning_can_be_read_back, make_args_delta, make_block_delta, make_block_start, make_block_stop, make_message_delta, make_message_start, make_message_stop, make_reasoning_item, make_signature, make_stream_error, make_text_delta, make_tool_start, message_delta, message_start, message_stop, next_number, outs, reasoning_item, signature, stream_error, stream_pieces, text_delta, tool_note, tool_start};
use crate::text::{cat, cat3, chars_of, decimal, decimal_text, hex, hex_text, is_space, is_white_space, lines, split_lines, texts, trim, trimmed};
use crate::thinking_order::Thinking;

verus! {

/// From so many white-space characters in a row on, the arguments of a tool call
/// count as stuck, and the call is dropped.
pub const INFINITE_WHITESPACE_THRESHOLD: u64 = 500;

/// The kind of the last block that is no tool call.
#[derive(Clone, Copy, PartialEq, Eq, Structural)]
pub enum BlockKind {
    Nothing,
    Thinking,
    Text,
}

/// A tool call of the message.
pub struct ToolBlock {
    /// The place of the call among the calls of the Chat message.
    pub key: u64,
    /// The index of its content block.
    pub index: u64,
    pub id: String,
    pub name: String,
    pub started: bool,
    pub open: bool,
    /// Arguments that came before the block could be started.
    pub pending_args: String,
    /// The white space at the end of the arguments so far.
    pub spaces: u64,
    pub aborted: bool,
}

/// The model of a tool call.
pub struct ToolV {
    pub key: u64,
    pub index: u64,
    pub id: Seq<char>,
    pub name: Seq<char>,
    pub started: bool,
    pub open: bool,
    pub pending_args: Seq<char>,
    pub spaces: u64,
    pub aborted: bool,
}

impl View for ToolBlock {
    type V = ToolV;

    open spec fn view(&self) -> ToolV {
        ToolV {
            key: self.key,
            index: self.index,
            id: self.id@,
            name: self.name@,
            started: self.started,
            open: self.open,
            pending_args: self.pending_args@,
            spaces: self.spaces,
            aborted: self.aborted,
        }
    }
}

/// The models of a list of tool calls.
pub open spec fn tools_view(v: Seq<ToolBlock>) -> Seq<ToolV> {
    Seq::new(v.len(), |i: int| v[i]@)
}

/// The end of a message that waits to be sent: why it ended, and its usage.
pub struct PendingDelta {
    pub stop: Option<String>,
    pub usage: Option<Json>,
}

/// The model of the end of a message.
pub struct PendingV {
    pub stop: Option<Seq<char>>,
    pub usage: Option<JsonV>,
}

impl View for PendingDelta {
    type V = PendingV;

    open spec fn view(&self) -> PendingV {
        PendingV { stop: opt_string(self.stop), usage: opt_json(self.usage) }
    }
}

/// The state of the conversion.
pub struct ChatToAnthropic {
    pub reader: SseReader,
    pub model: String,
    pub has_text: bool,
    pub next_index: u64,
    pub message_id: String,
    pub sent_start: bool,
    pub emitted_delta: bool,
    pub pending: Option<PendingDelta>,
    pub latest_usage: Option<Json>,
    pub kind: BlockKind,
    pub block: Option<u64>,
    pub reasoning: String,
    pub sequence: u64,
    pub tools: Vec<ToolBlock>,
    pub sent_stop: bool,
    /// What is to be given out.
    pub out: Vec<StreamOut>,
}

/// The model of the state.
pub struct ChatV {
    pub reader: SseReaderV,
    pub model: Seq<char>,
    pub has_text: bool,
    pub next_index: u64,
    pub message_id: Seq<char>,
    pub sent_start: bool,
    pub emitted_delta: bool,
    pub pending: Option<PendingV>,
    pub latest_usage: Option<JsonV>,
    pub kind: BlockKind,
    pub block: Option<u64>,
    pub reasoning: Seq<char>,
    pub sequence: u64,
    pub tools: Seq<ToolV>,
    pub sent_stop: bool,
    pub out: Seq<OutV>,
}

impl View for ChatToAnthropic {
    type V = ChatV;

    open spec fn view(&self) -> ChatV {
        ChatV {
            reader: self.reader@,
            model: self.model@,
            has_text: self.has_text,
            next_index: self.next_index,
            message_id: self.message_id@,
            sent_start: self.sent_start,
            emitted_delta: self.emitted_delta,
            pending: match self.pending {
                Some(p) => Some(p@),
                None => None,
            },
            latest_usage: opt_json(self.latest_usage),
            kind: self.kind,
            block: self.block,
            reasoning: self.reasoning@,
            sequence: self.sequence,
            tools: tools_view(self.tools@),
            sent_stop: self.sent_stop,
            out: outs(self.out@),
        }
    }
}

/// The id of a reasoning item by its number.
pub open spec fn reasoning_id(n: u64) -> Seq<char> {
    "rs_"@ + hex(n as nat, 4)
}

/// The tokens that a usage counts as read from the cache.
pub open spec fn usage_cached(u: Usage) -> u32 {
    match u.cache_read_input_tokens {
        Some(n) => n,
        None => match u.prompt_tokens_details {
            Some(d) => d.cached_tokens,
            None => 0,
        },
    }
}

/// The tokens that a usage counts as written to the cache.
pub open spec fn usage_created(u: Usage) -> u32 {
    match u.cache_creation_input_tokens {
        Some(n) => n,
        None => match u.prompt_tokens_details {
            Some(d) => d.cache_write_tokens,
            None => 0,
        },
    }
}

/// The tokens that a usage counts as input.
pub open spec fn usage_input(u: Usage) -> u64 {
    beyond(beyond(u.prompt_tokens as u64, usage_cached(u) as u64), usage_created(u) as u64)
}

/// A usage in the Anthropic format, with so many tokens of output.
pub open spec fn usage_json(u: Usage, output: u64) -> JsonV {
    let m = map!["input_tokens"@ => num(usage_input(u)), "output_tokens"@ => num(output)];
    let m = if usage_cached(u) > 0 {
        m.insert("cache_read_input_tokens"@, num(usage_cached(u) as u64))
    } else {
        m
    };
    JsonV::Object(
        if usage_created(u) > 0 {
            m.insert("cache_creation_input_tokens"@, num(usage_created(u) as u64))
        } else {
            m
        },
    )
}

/// The white space at the end of a text, after `n` characters of it before.
pub open spec fn trailing_spaces(s: Seq<char>, n: u64) -> u64
    decreases s.len(),
{
    if s.len() == 0 {
        n
    } else if is_white_space(s.last()) {
        next_number(trailing_spaces(s.drop_last(), n))
    } else {
        0
    }
}

/// Where the call with a key is kept.
pub open spec fn tool_at(tools: Seq<ToolV>, key: u64) -> int
    decreases tools.len(),
{
    if tools.len() == 0 {
        0
    } else if tool_at(tools.drop_last(), key) < tools.len() - 1 {
        tool_at(tools.drop_last(), key)
    } else if tools.last().key == key {
        tools.len() - 1
    } else {
        tools.len() as int
    }
}

/// A call of which nothing is known yet.
pub open spec fn new_tool(key: u64, index: u64) -> ToolV {
    ToolV {
        key,
        index,
        id: Seq::empty(),
        name: Seq::empty(),
        started: false,
        open: false,
        pending_args: Seq::empty(),
        spaces: 0,
        aborted: false,
    }
}

/// A call once its id and its name, where they came, are taken over.
pub open spec fn named(t: ToolV, call: CallV) -> ToolV {
    ToolV {
        id: match call.id {
            Some(id) => id,
            None => t.id,
        },
        name: match call.name {
            Some(name) => name,
            None => t.name,
        },
        ..t
    }
}

/// Whether a call can be started.
pub open spec fn startable(t: ToolV) -> bool {
    !t.started && t.id.len() > 0 && t.name.len() > 0
}

/// A call once it was started, where it could be.
pub open spec fn started(t: ToolV) -> ToolV {
    if startable(t) {
        ToolV { started: true, open: true, pending_args: Seq::empty(), ..t }
    } else {
        t
    }
}

/// A call once a piece of its arguments came.
pub open spec fn fed_args(t: ToolV, args: Seq<char>) -> ToolV {
    let spaces = trailing_spaces(args, t.spaces);
    if spaces >= INFINITE_WHITESPACE_THRESHOLD {
        ToolV { spaces, aborted: true, ..t }
    } else if t.started {
        ToolV { spaces, ..t }
    } else {
        ToolV { spaces, pending_args: t.pending_args + args, ..t }
    }
}

impl ChatV {
    /// The state before any bytes came.
    pub open spec fn initial(model: Seq<char>) -> ChatV {
        ChatV {
            reader: SseReaderV::empty(),
            model,
            has_text: false,
            next_index: 0,
            message_id: Seq::empty(),
            sent_start: false,
            emitted_delta: false,
            pending: None,
            latest_usage: None,
            kind: BlockKind::Nothing,
            block: None,
            reasoning: Seq::empty(),
            sequence: 0,
            tools: Seq::empty(),
            sent_stop: false,
            out: Seq::empty(),
        }
    }

    pub open spec fn emit(self, o: OutV) -> ChatV {
        ChatV { out: self.out.push(o), ..self }
    }

    /// The open block signed, where it is a thinking block with some text.
    pub open spec fn signed(self) -> ChatV {
        match self.block {
            Some(index) => if self.kind == BlockKind::Thinking {
                let n = next_number(self.sequence);
                let s = ChatV { sequence: n, reasoning: Seq::empty(), ..self };
                if self.reasoning.len() > 0 {
                    s.emit(signature(index, reasoning_item(reasoning_id(n), self.reasoning)))
                } else {
                    s
                }
            } else {
                self
            },
            None => self,
        }
    }

    /// The open block closed.
    pub open spec fn closed(self) -> ChatV {
        let s = self.signed();
        match s.block {
            Some(index) => ChatV { block: None, ..s.emit(block_stop(index)) },
            None => s,
        }
    }

    /// A block of a kind open, with the block before it closed.
    pub open spec fn opened(self, kind: BlockKind, block: JsonV) -> ChatV {
        if self.kind == kind && self.block is Some {
            self
        } else {
            let s = self.closed();
            ChatV {
                kind,
                block: Some(s.next_index),
                next_index: next_number(s.next_index),
                reasoning: Seq::empty(),
                ..s.emit(block_start(s.next_index, block))
            }
        }
    }

    /// The message open.
    pub open spec fn begun(self, usage: Option<Usage>) -> ChatV {
        if self.sent_start {
            self
        } else {
            let shown = match usage {
                Some(u) => usage_json(u, 0),
                None => JsonV::Object(map!["input_tokens"@ => num(0), "output_tokens"@ => num(0)]),
            };
            ChatV { sent_start: true, ..self.emit(message_start(self.message_id, self.model, shown)) }
        }
    }

    /// The state after a piece of reasoning.
    pub open spec fn with_reasoning(self, t: Option<Seq<char>>) -> ChatV {
        match t {
            Some(t) => if t.len() > 0 {
                let s = self.opened(BlockKind::Thinking, thinking_block(Seq::empty()));
                let s = ChatV { reasoning: s.reasoning + t, ..s };
                match s.block {
                    Some(index) => s.emit(OutV::Log(t)).emit(
                        block_delta(index, text_delta("thinking_delta"@, "thinking"@, t)),
                    ),
                    None => s,
                }
            } else {
                self
            },
            None => self,
        }
    }

    /// The state after a piece of text.
    pub open spec fn with_text(self, t: Option<Seq<char>>) -> ChatV {
        match t {
            Some(t) => if t.len() > 0 {
                let s = self.opened(BlockKind::Text, text_block(Seq::empty()));
                match s.block {
                    Some(index) => ChatV {
                        has_text: true,
                        ..s.emit(OutV::Log(t)).emit(
                            block_delta(index, text_delta("text_delta"@, "text"@, t)),
                        )
                    },
                    None => s,
                }
            } else {
                self
            },
            None => self,
        }
    }

    /// The start of a tool call given out.
    pub open spec fn tool_started(self, index: u64, id: Seq<char>, name: Seq<char>) -> ChatV {
        let s = if self.has_text {
            self
        } else {
            self.emit(tool_note(name))
        };
        s.emit(tool_start(index, id, name))
    }

    /// The state with the call of a key in it.
    pub open spec fn with_tool(self, key: u64) -> ChatV {
        if tool_at(self.tools, key) < self.tools.len() {
            self
        } else {
            ChatV {
                tools: self.tools.push(new_tool(key, self.next_index)),
                next_index: next_number(self.next_index),
                ..self
            }
        }
    }

    /// The state after a part of a tool call.
    #[verifier::opaque]
    pub open spec fn with_call(self, call: CallV) -> ChatV {
        let s = self.with_tool(call.index);
        let i = tool_at(s.tools, call.index);
        let t = s.tools[i];
        if t.aborted {
            s
        } else {
            let t1 = named(t, call);
            let t2 = started(t1);
            let t3 = match call.arguments {
                Some(args) => fed_args(t2, args),
                None => t2,
            };
            let s = ChatV { tools: s.tools.update(i, t3), ..s };
            let s = if startable(t1) {
                s.tool_started(t1.index, t1.id, t1.name)
            } else {
                s
            };
            let s = if startable(t1) && t1.pending_args.len() > 0 {
                s.emit(args_delta(t1.index, t1.pending_args))
            } else {
                s
            };
            match call.arguments {
                Some(args) => if t3.started && !t3.aborted {
                    s.emit(args_delta(t1.index, args))
                } else {
                    s
                },
                None => s,
            }
        }
    }

    /// The state after parts of tool calls.
    pub open spec fn with_each_call(self, calls: Seq<CallV>) -> ChatV
        decreases calls.len(),
    {
        if calls.len() == 0 {
            self
        } else {
            self.with_each_call(calls.drop_last()).with_call(calls.last())
        }
    }

    /// The state after the tool calls of a chunk.
    pub open spec fn with_calls(self, calls: Option<Seq<CallV>>) -> ChatV {
        match calls {
            Some(calls) => if calls.len() > 0 {
                self.closed().with_each_call(calls)
            } else {
                self
            },
            None => self,
        }
    }

    /// The state once the first `n` tool calls are started, as far as anything
    /// is known of them, and the arguments that waited are given out.
    pub open spec fn late_started(self, n: int) -> ChatV
        decreases n,
    {
        if n <= 0 {
            self
        } else {
            let s = self.late_started(n - 1);
            let t = s.tools[n - 1];
            if t.started || t.pending_args.len() == 0 && t.id.len() == 0 && t.name.len() == 0 {
                s
            } else {
                let id = if t.id.len() == 0 {
                    "tool_call_"@ + decimal(t.key as nat)
                } else {
                    t.id
                };
                let name = if t.name.len() == 0 {
                    "unknown_tool"@
                } else {
                    t.name
                };
                let r = ChatV {
                    tools: s.tools.update(
                        n - 1,
                        ToolV { started: true, open: true, pending_args: Seq::empty(), ..t },
                    ),
                    ..s.tool_started(t.index, id, name)
                };
                if t.pending_args.len() > 0 {
                    r.emit(args_delta(t.index, t.pending_args))
                } else {
                    r
                }
            }
        }
    }

    /// The state once the first `n` tool calls are closed.
    pub open spec fn tools_closed(self, n: int) -> ChatV
        decreases n,
    {
        if n <= 0 {
            self
        } else {
            let s = self.tools_closed(n - 1);
            let t = s.tools[n - 1];
            if t.open {
                ChatV {
                    tools: s.tools.update(n - 1, ToolV { open: false, ..t }),
                    ..s.emit(block_stop(t.index))
                }
            } else {
                s
            }
        }
    }

    /// The state after the end of the message was reported.
    #[verifier::opaque]
    pub open spec fn with_finish(self, reason: Option<Seq<char>>, usage: Option<JsonV>) -> ChatV {
        match reason {
            Some(reason) => {
                let shown = match usage {
                    Some(u) => Some(u),
                    None => self.latest_usage,
                };
                if self.emitted_delta {
                    match self.pending {
                        Some(p) => if shown is Some {
                            ChatV { pending: Some(PendingV { usage: shown, ..p }), ..self }
                        } else {
                            self
                        },
                        None => self,
                    }
                } else {
                    let s = self.closed();
                    let s = s.late_started(s.tools.len() as int);
                    let s = s.tools_closed(s.tools.len() as int);
                    ChatV {
                        emitted_delta: true,
                        pending: Some(PendingV { stop: stop_reason(Some(reason), false), usage: shown }),
                        ..s
                    }
                }
            },
            None => self,
        }
    }

    /// The state after what a chunk tells of the message as a whole.
    pub open spec fn with_header(self, id: Seq<char>, usage: Option<JsonV>) -> ChatV {
        let s = if self.message_id.len() == 0 && id.len() > 0 {
            ChatV { message_id: id, ..self }
        } else {
            self
        };
        match usage {
            Some(u) => ChatV {
                latest_usage: Some(u),
                pending: match s.pending {
                    Some(p) => Some(PendingV { usage: Some(u), ..p }),
                    None => None,
                },
                ..s
            },
            None => s,
        }
    }

    /// The state after a chunk.
    #[verifier::opaque]
    pub open spec fn with_chunk(self, chunk: ChunkV) -> ChatV {
        let usage = match chunk.usage {
            Some(u) => Some(usage_json(u, u.completion_tokens as u64)),
            None => None,
        };
        let s = self.with_header(chunk.id, usage);
        if chunk.choices.len() > 0 {
            let choice = chunk.choices[0];
            s.begun(chunk.usage).with_reasoning(choice.reasoning).with_text(choice.content).with_calls(
                choice.calls,
            ).with_finish(choice.finish_reason, usage)
        } else {
            s
        }
    }

    /// The end of the message given out, where it waits.
    pub open spec fn flushed(self) -> ChatV {
        match self.pending {
            Some(p) => ChatV { pending: None, ..self.emit(message_delta(p.stop, p.usage)) },
            None => self,
        }
    }

    /// The state after the mark that no more chunks come.
    pub open spec fn with_done(self) -> ChatV {
        ChatV { sent_stop: true, ..self.flushed().emit(message_stop()) }
    }

    /// The state after the data of one line.
    #[verifier::opaque]
    pub open spec fn with_data(self, data: Seq<char>) -> ChatV {
        if trim(data) == "[DONE]"@ {
            self.with_done()
        } else {
            match chunk_in(data) {
                Some(chunk) => self.with_chunk(chunk),
                None => self,
            }
        }
    }

    /// The state after the lines of a block.
    #[verifier::opaque]
    pub open spec fn with_lines(self, lines: Seq<Seq<char>>) -> ChatV
        decreases lines.len(),
    {
        if lines.len() == 0 {
            self
        } else {
            let s = self.with_lines(lines.drop_last());
            match sse_field(lines.last(), "data"@) {
                Some(data) => s.with_data(data),
                None => s,
            }
        }
    }

    /// The state after blocks.
    pub open spec fn with_blocks(self, blocks: Seq<Seq<char>>) -> ChatV
        decreases blocks.len(),
    {
        if blocks.len() == 0 {
            self
        } else {
            let s = self.with_blocks(blocks.drop_last());
            if trim(blocks.last()).len() == 0 {
                s
            } else {
                s.with_lines(lines(blocks.last()))
            }
        }
    }

    /// The state after bytes came.
    pub open spec fn with_bytes(self, bytes: Seq<u8>) -> ChatV {
        ChatV { reader: self.reader.fed(bytes), ..self }.with_blocks(self.reader.fed_blocks(bytes))
    }

    /// The state after the upstream failed.
    pub open spec fn failed(self, message: Seq<char>) -> ChatV {
        let text = "Stream error: "@ + message;
        self.emit(stream_error("stream_error"@, text)).emit(OutV::LogError(text))
    }

    /// The state after the upstream came to its end.
    pub open spec fn ended(self) -> ChatV {
        let s = self.closed().flushed();
        let s = if s.sent_stop {
            s
        } else {
            s.emit(message_stop())
        };
        s.emit(OutV::LogDone)
    }

    /// The state once what is to be given out was taken.
    pub open spec fn drained(self) -> ChatV {
        ChatV { out: Seq::empty(), ..self }
    }
}

/// Where a call is kept, and that none before it has its key.
pub proof fn lemma_tool_at(tools: Seq<ToolV>, key: u64)
    ensures
        0 <= tool_at(tools, key) <= tools.len(),
        tool_at(tools, key) < tools.len() ==> tools[tool_at(tools, key)].key == key,
        forall|i: int| 0 <= i < tool_at(tools, key) ==> (#[trigger] tools[i]).key != key,
    decreases tools.len(),
{
    if tools.len() > 0 {
        let front = tools.drop_last();
        lemma_tool_at(front, key);
        assert forall|i: int| 0 <= i < tool_at(tools, key) implies (#[trigger] tools[i]).key != key by {
            if i < front.len() {
                assert(tools[i] == front[i]);
            }
        }
    }
}

proof fn lemma_tools_update(v: Seq<ToolBlock>, i: int, t: ToolBlock)
    requires
        0 <= i < v.len(),
    ensures
        tools_view(v.update(i, t)) == tools_view(v).update(i, t@),
{
    assert(tools_view(v.update(i, t)) =~= tools_view(v).update(i, t@));
}

proof fn lemma_tools_push(v: Seq<ToolBlock>, t: ToolBlock)
    ensures
        tools_view(v.push(t)) == tools_view(v).push(t@),
{
    assert(tools_view(v.push(t)) =~= tools_view(v).push(t@));
}

fn cached_of(u: &Usage) -> (r: u64)
    ensures
        r == usage_cached(*u),
{
    match u.cache_read_input_tokens {
        Some(n) => n as u64,
        None => match u.prompt_tokens_details {
            Some(d) => d.cached_tokens as u64,
            None => 0,
        },
    }
}

fn created_of(u: &Usage) -> (r: u64)
    ensures
        r == usage_created(*u),
{
    match u.cache_creation_input_tokens {
        Some(n) => n as u64,
        None => match u.prompt_tokens_details {
            Some(d) => d.cache_write_tokens as u64,
            None => 0,
        },
    }
}

fn build_anthropic_usage_json(u: &Usage, output: u64) -> (r: Json)
    ensures
        r@ == usage_json(*u, output),
{
    let cached: u64 = cached_of(u);
    let created: u64 = created_of(u);
    let input: u64 = (u.prompt_tokens as u64).saturating_sub(cached).saturating_sub(created);
    let mut m = JsonObject::new().with("input_tokens", Json::number(input)).with(
        "output_tokens",
        Json::number(output),
    );
    if cached > 0 {
        m = m.with("cache_read_input_tokens", Json::number(cached));
    }
    if created > 0 {
        m = m.with("cache_creation_input_tokens", Json::number(created));
    }
    Json::Object(m)
}

fn count_trailing_spaces(s: &str, n: u64) -> (r: u64)
    ensures
        r == trailing_spaces(s@, n),
{
    let v = chars_of(s);
    let mut count: u64 = n;
    let mut i: usize = 0;
    while i < v.len()
        invariant
            i <= v@.len(),
            count == trailing_spaces(v@.take(i as int), n),
        decreases v@.len() - i,
    {
        proof {
            lemma_step(v@, i as int);
        }
        if is_space(v[i]) {
            count = following(count);
        } else {
            count = 0;
        }
        i += 1;
    }
    proof {
        lemma_whole(v@);
    }
    count
}

impl ChatToAnthropic {
    /// The state before any bytes came. `model` is the model that the client
    /// asked for, which is echoed back to it.
    pub fn new(model: &str) -> (r: ChatToAnthropic)
        ensures
            r@ == ChatV::initial(model@),
    {
        broadcast use group_outs;

        let r = ChatToAnthropic {
            reader: SseReader::new(),
            model: model.to_owned(),
            has_text: false,
            next_index: 0,
            message_id: String::new(),
            sent_start: false,
            emitted_delta: false,
            pending: None,
            latest_usage: None,
            kind: BlockKind::Nothing,
            block: None,
            reasoning: String::new(),
            sequence: 0,
            tools: Vec::new(),
            sent_stop: false,
            out: Vec::new(),
        };
        assert(r@.tools =~= Seq::empty());
        r
    }

    fn emit(&mut self, o: StreamOut)
        ensures
            final(self)@ == old(self)@.emit(o@),
    {
        broadcast use group_outs;

        self.out.push(o);
    }

    fn log(&mut self, t: &str)
        ensures
            final(self)@ == old(self)@.emit(OutV::Log(t@)),
    {
        self.emit(StreamOut::Log(t.to_owned()));
    }

    fn sign(&mut self)
        ensures
            final(self)@ == old(self)@.signed(),
    {
        if let Some(index) = self.block {
            if self.kind == BlockKind::Thinking {
                self.sequence = following(self.sequence);
                let id = cat("rs_", hex_text(self.sequence, 4).as_str());
                let text = self.reasoning.clone();
                self.reasoning = String::new();
                if !text.as_str().is_empty() {
                    let item = make_reasoning_item(id.as_str(), text.as_str());
                    proof {
                        law_signed_reasoning_can_be_read_back(id@, text@);
                    }
                    self.emit(make_signature(index, &item));
                }
            }
        }
    }

    fn close(&mut self)
        ensures
            final(self)@ == old(self)@.closed(),
    {
        self.sign();
        if let Some(index) = self.block {
            self.emit(make_block_stop(index));
            self.block = None;
        }
    }

    fn open(&mut self, kind: BlockKind, block: Json)
        ensures
            final(self)@ == old(self)@.opened(kind, block@),
    {
        if self.kind != kind || self.block.is_none() {
            self.close();
            let index: u64 = self.next_index;
            self.next_index = following(index);
            self.emit(make_block_start(index, block));
            self.kind = kind;
            self.block = Some(index);
            self.reasoning = String::new();
        }
    }

    fn begin(&mut self, usage: &Option<Usage>)
        ensures
            final(self)@ == old(self)@.begun(*usage),
    {
        if !self.sent_start {
            let shown = match usage {
                Some(u) => build_anthropic_usage_json(u, 0),
                None => Json::Object(
                    JsonObject::new().with("input_tokens", Json::number(0)).with("output_tokens", Json::number(0)),
                ),
            };
            let start = make_message_start(self.message_id.as_str(), self.model.as_str(), shown);
            self.emit(start);
            self.sent_start = true;
        }
    }

    fn add_reasoning(&mut self, t: Option<&str>)
        ensures
            final(self)@ == old(self)@.with_reasoning(opt_text(t)),
    {
        if let Some(t) = t {
            if !t.is_empty() {
                let empty = String::new();
                self.open(BlockKind::Thinking, make_thinking_block(empty.as_str()));
                self.reasoning.append(t);
                if let Some(index) = self.block {
                    self.log(t);
                    self.emit(make_block_delta(index, make_text_delta("thinking_delta", "thinking", t)));
                }
            }
        }
    }

    fn add_text(&mut self, t: Option<&str>)
        ensures
            final(self)@ == old(self)@.with_text(opt_text(t)),
    {
        if let Some(t) = t {
            if !t.is_empty() {
                let empty = String::new();
                self.open(BlockKind::Text, make_text_block(empty.as_str()));
                if let Some(index) = self.block {
                    self.has_text = true;
                    self.log(t);
                    self.emit(make_block_delta(index, make_text_delta("text_delta", "text", t)));
                }
            }
        }
    }

    fn start_tool(&mut self, index: u64, id: &str, name: &str)
        ensures
            final(self)@ == old(self)@.tool_started(index, id@, name@),
    {
        if !self.has_text {
            self.log(cat3("[tool_use: ", name, "]").as_str());
        }
        self.emit(make_tool_start(index, id, name));
    }

    /// Where the call with a key is kept; a new call is added at the end.
    fn tool_index(&mut self, key: u64) -> (r: usize)
        ensures
            final(self)@ == old(self)@.with_tool(key),
            r < final(self).tools@.len(),
            r == tool_at(final(self)@.tools, key),
    {
        let ghost tools = self@.tools;
        proof {
            lemma_tool_at(tools, key);
        }
        let n: usize = self.tools.len();
        let mut i: usize = 0;
        while i < n
            invariant
                i <= n,
                n == self.tools@.len(),
                self@ == old(self)@,
                tools == tools_view(self.tools@),
                i <= tool_at(tools, key) <= n,
                tool_at(tools, key) < n ==> tools[tool_at(tools, key)].key == key,
                forall|j: int| 0 <= j < tool_at(tools, key) ==> (#[trigger] tools[j]).key != key,
            decreases n - i,
        {
            assert(tools[i as int].key == self.tools@[i as int].key);
            if self.tools[i].key == key {
                return i;
            }
            i += 1;
        }
        let tool = ToolBlock {
            key,
            index: self.next_index,
            id: String::new(),
            name: String::new(),
            started: false,
            open: false,
            pending_args: String::new(),
            spaces: 0,
            aborted: false,
        };
        let ghost before = self.tools@;
        self.next_index = following(self.next_index);
        self.tools.push(tool);
        proof {
            lemma_tools_push(before, tool);
            let now = tools_view(self.tools@);
            assert(now.drop_last() =~= tools);
            assert(tool@ == new_tool(key, old(self)@.next_index));
        }
        n
    }

    fn add_call(&mut self, call: &DeltaToolCall)
        ensures
            final(self)@ == old(self)@.with_call(call@),
    {
        proof {
            reveal(ChatV::with_call);
        }
        let i = self.tool_index(call.index);
        let ghost s = self@;
        let t = &self.tools[i];
        assert(s.tools[i as int] == t@);
        if t.aborted {
            return;
        }
        let index: u64 = t.index;
        let id = match &call.id {
            Some(id) => id.clone(),
            None => t.id.clone(),
        };
        let name = match &call.name {
            Some(name) => name.clone(),
            None => t.name.clone(),
        };
        let start = !t.started && !id.as_str().is_empty() && !name.as_str().is_empty();
        let waiting = t.pending_args.clone();
        let is_started = t.started || start;
        let mut spaces: u64 = t.spaces;
        let mut aborted = false;
        let mut kept = if start {
            String::new()
        } else {
            waiting.clone()
        };
        if let Some(args) = &call.arguments {
            spaces = count_trailing_spaces(args.as_str(), spaces);
            if spaces >= INFINITE_WHITESPACE_THRESHOLD {
                aborted = true;
            } else if !is_started {
                kept.append(args.as_str());
            }
        }
        let tool = ToolBlock {
            key: t.key,
            index,
            id: id.clone(),
            name: name.clone(),
            started: is_started,
            open: t.open || start,
            pending_args: kept,
            spaces,
            aborted,
        };
        let ghost before = self.tools@;
        self.tools[i] = tool;
        proof {
            lemma_tools_update(before, i as int, tool);
        }
        if start {
            self.start_tool(index, id.as_str(), name.as_str());
            if !waiting.as_str().is_empty() {
                self.emit(make_args_delta(index, waiting.as_str()));
            }
        }
        if let Some(args) = &call.arguments {
            if is_started && !aborted {
                self.emit(make_args_delta(index, args.as_str()));
            }
        }
    }

    fn add_calls(&mut self, calls: &Option<Vec<DeltaToolCall>>)
        ensures
            final(self)@ == old(self)@.with_calls(
                match *calls {
                    Some(v) => Some(calls_view(v@)),
                    None => None,
                },
            ),
    {
        if let Some(calls) = calls {
            if calls.len() > 0 {
                self.close();
                let ghost all = calls_view(calls@);
                let ghost s = self@;
                let mut i: usize = 0;
                while i < calls.len()
                    invariant
                        i <= calls@.len(),
                        all == calls_view(calls@),
                        self@ == s.with_each_call(all.take(i as int)),
                    decreases calls@.len() - i,
                {
                    proof {
                        lemma_step(all, i as int);
                    }
                    self.add_call(&calls[i]);
                    i += 1;
                }
                proof {
                    lemma_whole(all);
                }
            }
        }
    }

    fn start_late_tools(&mut self)
        ensures
            final(self)@ == old(self)@.late_started(old(self)@.tools.len() as int),
    {
        let ghost s = self@;
        let n: usize = self.tools.len();
        let mut i: usize = 0;
        while i < n
            invariant
                i <= n,
                n == self.tools@.len(),
                self@ == s.late_started(i as int),
            decreases n - i,
        {
            let t = &self.tools[i];
            assert(self@.tools[i as int] == t@);
            if !(t.started || t.pending_args.as_str().is_empty() && t.id.as_str().is_empty()
                && t.name.as_str().is_empty()) {
                let index: u64 = t.index;
                let args = t.pending_args.clone();
                let id = if t.id.as_str().is_empty() {
                    cat("tool_call_", decimal_text(t.key).as_str())
                } else {
                    t.id.clone()
                };
                let name = if t.name.as_str().is_empty() {
                    "unknown_tool".to_owned()
                } else {
                    t.name.clone()
                };
                let tool = ToolBlock {
                    key: t.key,
                    index,
                    id: t.id.clone(),
                    name: t.name.clone(),
                    started: true,
                    open: true,
                    pending_args: String::new(),
                    spaces: t.spaces,
                    aborted: t.aborted,
                };
                let ghost before = self.tools@;
                self.tools[i] = tool;
                proof {
                    lemma_tools_update(before, i as int, tool);
                }
                self.start_tool(index, id.as_str(), name.as_str());
                if !args.as_str().is_empty() {
                    self.emit(make_args_delta(index, args.as_str()));
                }
                assert(self@.tools.len() == n);
            }
            assert(self@.tools.len() == self.tools@.len());
            i += 1;
        }
    }

    fn close_tools(&mut self)
        ensures
            final(self)@ == old(self)@.tools_closed(old(self)@.tools.len() as int),
    {
        let ghost s = self@;
        let n: usize = self.tools.len();
        let mut i: usize = 0;
        while i < n
            invariant
                i <= n,
                n == self.tools@.len(),
                self@ == s.tools_closed(i as int),
            decreases n - i,
        {
            let t = &self.tools[i];
            assert(self@.tools[i as int] == t@);
            if t.open {
                let index: u64 = t.index;
                let tool = ToolBlock {
                    key: t.key,
                    index,
                    id: t.id.clone(),
                    name: t.name.clone(),
                    started: t.started,
                    open: false,
                    pending_args: t.pending_args.clone(),
                    spaces: t.spaces,
                    aborted: t.aborted,
                };
                let ghost before = self.tools@;
                self.tools[i] = tool;
                proof {
                    lemma_tools_update(before, i as int, tool);
                }
                self.emit(make_block_stop(index));
                assert(self@.tools.len() == n);
            }
            assert(self@.tools.len() == self.tools@.len());
            i += 1;
        }
    }

    fn finish_message(&mut self, reason: Option<&str>, usage: Option<&Json>)
        ensures
            final(self)@ == old(self)@.with_finish(opt_text(reason), opt_model(usage)),
    {
        proof {
            reveal(ChatV::with_finish);
        }
        if let Some(reason) = reason {
            let shown = match usage {
                Some(u) => Some(u.copy()),
                None => match &self.latest_usage {
                    Some(u) => Some(u.copy()),
                    None => None,
                },
            };
            if self.emitted_delta {
                if shown.is_some() {
                    if let Some(p) = self.pending.take() {
                        self.pending = Some(PendingDelta { stop: p.stop, usage: shown });
                    }
                }
                return;
            }
            self.close();
            self.start_late_tools();
            self.close_tools();
            self.emitted_delta = true;
            let stop = match map_stop_reason(Some(reason), false) {
                Some(stop) => Some(stop.to_owned()),
                None => None,
            };
            self.pending = Some(PendingDelta { stop, usage: shown });
        }
    }

    fn add_header(&mut self, id: &str, usage: Option<&Json>)
        ensures
            final(self)@ == old(self)@.with_header(id@, opt_model(usage)),
    {
        if self.message_id.as_str().is_empty() && !id.is_empty() {
            self.message_id = id.to_owned();
        }
        if let Some(u) = usage {
            self.latest_usage = Some(u.copy());
            if let Some(p) = self.pending.take() {
                self.pending = Some(PendingDelta { stop: p.stop, usage: Some(u.copy()) });
            }
        }
    }

    /// Takes in one chunk of the Chat response.
    pub fn add_chunk(&mut self, chunk: &OpenAIStreamChunk)
        ensures
            final(self)@ == old(self)@.with_chunk(chunk@),
    {
        proof {
            reveal(ChatV::with_chunk);
        }
        let usage = match &chunk.usage {
            Some(u) => Some(build_anthropic_usage_json(u, u.completion_tokens as u64)),
            None => None,
        };
        self.add_header(chunk.id.as_str(), usage.as_ref());
        if chunk.choices.len() > 0 {
            let choice = &chunk.choices[0];
            assert(chunk@.choices[0] == choice@);
            self.begin(&chunk.usage);
            self.add_reasoning(copy_text(&choice.delta.reasoning));
            self.add_text(copy_text(&choice.delta.content));
            self.add_calls(&choice.delta.tool_calls);
            self.finish_message(copy_text(&choice.finish_reason), usage.as_ref());
        }
    }

    fn flush(&mut self)
        ensures
            final(self)@ == old(self)@.flushed(),
    {
        if let Some(p) = self.pending.take() {
            self.emit(make_message_delta(copy_text(&p.stop), p.usage.as_ref()));
        }
    }

    fn add_data(&mut self, data: &str)
        ensures
            final(self)@ == old(self)@.with_data(data@),
    {
        proof {
            reveal(ChatV::with_data);
        }
        if trimmed(data).eq("[DONE]") {
            self.flush();
            self.emit(make_message_stop());
            self.sent_stop = true;
            return;
        }
        if let Some(chunk) = chunk_from_text(data) {
            self.add_chunk(&chunk);
        }
    }

    fn add_lines(&mut self, list: &Vec<String>)
        ensures
            final(self)@ == old(self)@.with_lines(texts(list@)),
    {
        proof {
            reveal(ChatV::with_lines);
        }
        let ghost all = texts(list@);
        let ghost s = self@;
        let mut i: usize = 0;
        while i < list.len()
            invariant
                i <= list@.len(),
                all == texts(list@),
                self@ == s.with_lines(all.take(i as int)),
            decreases list@.len() - i,
        {
            proof {
                reveal(ChatV::with_lines);
                lemma_step(all, i as int);
            }
            if let Some(data) = strip_sse_field(list[i].as_str(), "data") {
                self.add_data(data);
            }
            i += 1;
        }
        proof {
            lemma_whole(all);
        }
    }

    fn take_out(&mut self) -> (r: Vec<StreamOut>)
        ensures
            outs(r@) == old(self)@.out,
            final(self)@ == old(self)@.drained(),
    {
        broadcast use group_outs;

        let mut r: Vec<StreamOut> = Vec::new();
        r.append(&mut self.out);
        assert(self.out@ =~= Seq::empty());
        assert(r@ =~= old(self).out@);
        r
    }

    /// Takes in bytes of the upstream response, and gives out what they come to.
    pub fn push_bytes(&mut self, bytes: &[u8]) -> (r: Vec<StreamOut>)
        ensures
            outs(r@) == old(self)@.with_bytes(bytes@).out,
            final(self)@ == old(self)@.with_bytes(bytes@).drained(),
    {
        let list = self.reader.feed(bytes);
        let ghost all = texts(list@);
        let ghost s = self@;
        let mut i: usize = 0;
        while i < list.len()
            invariant
                i <= list@.len(),
                all == texts(list@),
                self@ == s.with_blocks(all.take(i as int)),
            decreases list@.len() - i,
        {
            proof {
                lemma_step(all, i as int);
            }
            let block = list[i].as_str();
            if !trimmed(block).is_empty() {
                self.add_lines(&split_lines(block));
            }
            i += 1;
        }
        proof {
            lemma_whole(all);
        }
        self.take_out()
    }

    /// Takes note that the upstream failed.
    pub fn fail(&mut self, message: &str) -> (r: Vec<StreamOut>)
        ensures
            outs(r@) == old(self)@.failed(message@).out,
            final(self)@ == old(self)@.failed(message@).drained(),
    {
        let text = cat("Stream error: ", message);
        self.emit(make_stream_error("stream_error", text.as_str()));
        self.emit(StreamOut::LogError(text));
        self.take_out()
    }

    /// Takes note that the upstream came to its end.
    pub fn finish(&mut self) -> (r: Vec<StreamOut>)
        ensures
            outs(r@) == old(self)@.ended().out,
            final(self)@ == old(self)@.ended().drained(),
    {
        self.close();
        self.flush();
        if !self.sent_stop {
            self.emit(make_message_stop());
        }
        self.emit(StreamOut::LogDone);
        self.take_out()
    }
}

impl ChatV {
    /// All that a stream gives out from here on, up to its end or its failure.
    pub open spec fn whole(self, list: Seq<PieceV>) -> Seq<OutV>
        decreases list.len(),
    {
        if list.len() == 0 {
            self.ended().out
        } else {
            match list[0] {
                PieceV::Bytes(b) => {
                    let s = self.with_bytes(b);
                    s.out + s.drained().whole(list.drop_first())
                },
                PieceV::Failure(m) => self.failed(m).out,
            }
        }
    }
}

/// Convert an OpenAI Chat SSE stream to an Anthropic SSE stream.
///
/// `model` is the model echoed back in `message_start` (the original model the
/// client requested), not the upstream's reported model.
pub fn chat_to_anthropic_sse(stream: &Vec<StreamPiece>, model: &str) -> (r: Vec<StreamOut>)
    ensures
        outs(r@) == ChatV::initial(model@).whole(stream_pieces(stream@)),
{
    broadcast use group_outs;

    let mut state = ChatToAnthropic::new(model);
    let ghost all = stream_pieces(stream@);
    let ghost target = ChatV::initial(model@).whole(all);
    let mut list: Vec<StreamOut> = Vec::new();
    let mut i: usize = 0;
    assert(all.skip(0) =~= all);
    assert(outs(list@) + target =~= target);
    while i < stream.len()
        invariant
            i <= stream@.len(),
            all == stream_pieces(stream@),
            target == ChatV::initial(model@).whole(all),
            outs(list@) + state@.whole(all.skip(i as int)) == target,
        decreases stream@.len() - i,
    {
        let ghost so_far = outs(list@);
        let ghost s = state@;
        proof {
            assert(all.skip(i as int)[0] == stream@[i as int]@);
            assert(all.skip(i as int).drop_first() =~= all.skip(i + 1));
        }
        match &stream[i] {
            StreamPiece::Bytes(b) => {
                let more = state.push_bytes(b.as_slice());
                add_steps(&mut list, more);
                assert(outs(list@) + state@.whole(all.skip(i + 1)) =~= so_far + s.whole(all.skip(i as int)));
            },
            StreamPiece::Failure(m) => {
                let more = state.fail(m.as_str());
                add_steps(&mut list, more);
                return list;
            },
        }
        i += 1;
    }
    assert(all.skip(i as int) =~= Seq::empty());
    let more = state.finish();
    add_steps(&mut list, more);
    list
}

} // verus!
