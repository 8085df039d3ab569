//! The thinking blocks of a converted Chat stream: each that is closed was signed
//! right before, once, with a signature that carries the thinking of the block; and
//! no other block is signed.

use vstd::prelude::*;
use crate::block_order::{BlockEvent, block_event, lemma_delta_event, lemma_other_events, lemma_start_event, lemma_stop_event, lemma_text_delta_type, lemma_tool_start_event};
use crate::chat_chunk::{CallV, ChunkV};
use crate::chat_stream::{BlockKind, ChatV, ToolV, fed_args, named, reasoning_id, startable, started, tool_at, usage_json};
use crate::chunk_text::chunk_in;
use crate::convert_response::thinking_block;
use crate::json::{JsonV, num, text_block};
use crate::reasoning_bridge::envelope;
use crate::responses_order::lemma_error_event;
use crate::sse::sse_field;
use crate::stream_out::{OutV, PieceV, args_delta, block_delta, block_start, block_stop, message_delta, message_start, message_stop, next_number, reasoning_item, signature, stream_error, text_delta, tool_note, tool_start};
use crate::text::{decimal, lines, trim};

verus! {

/// What is known of the thinking blocks after some steps.
pub struct Thinking {
    /// The open thinking block, and its thinking so far.
    pub current: Option<(u64, Seq<char>)>,
    /// Whether the last step signed it.
    pub signed: bool,
    /// Whether all steps were in order.
    pub ok: bool,
}

/// The text under `key` in the delta of an event.
pub open spec fn text_in_delta(o: OutV, key: Seq<char>) -> Option<Seq<char>> {
    match o {
        OutV::Event { name, data } => match data.path2("delta"@, key) {
            Some(v) => v.as_str(),
            None => None,
        },
        _ => None,
    }
}

/// Whether a step adds thinking to a block.
pub open spec fn is_thought(o: OutV) -> bool {
    text_in_delta(o, "type"@) == Some("thinking_delta"@)
}

/// Whether a step signs a block with a signature that carries a text.
pub open spec fn carries(o: OutV, t: Seq<char>) -> bool {
    t.len() > 0 && exists|id: Seq<char>|
        text_in_delta(o, "signature"@) == Some(#[trigger] envelope(reasoning_item(id, t)))
}

/// What is known after one more step.
pub open spec fn after_step(t: Thinking, o: OutV) -> Thinking {
    match block_event(o) {
        BlockEvent::Start(i, thinking) => Thinking {
            current: if thinking {
                Some((i, Seq::empty()))
            } else {
                None
            },
            signed: false,
            ok: t.ok && t.current is None,
        },
        BlockEvent::Delta(i) => if is_thought(o) {
            match t.current {
                Some((j, so_far)) => Thinking {
                    current: Some(
                        (
                            j,
                            so_far + match text_in_delta(o, "thinking"@) {
                                Some(x) => x,
                                None => Seq::empty(),
                            },
                        ),
                    ),
                    signed: false,
                    ok: t.ok && i == j && !t.signed,
                },
                None => Thinking { ok: false, ..t },
            }
        } else {
            Thinking { ok: t.ok && t.current is None, ..t }
        },
        BlockEvent::Signature(i) => match t.current {
            Some((j, so_far)) => Thinking {
                signed: true,
                ok: t.ok && i == j && !t.signed && carries(o, so_far),
                ..t
            },
            None => Thinking { ok: false, ..t },
        },
        BlockEvent::Stop(i) => match t.current {
            Some((j, _)) => Thinking { current: None, signed: false, ok: t.ok && i == j && t.signed },
            None => t,
        },
        BlockEvent::Other => Thinking { ok: t.ok && !t.signed, ..t },
    }
}

/// What is known after a list of steps.
pub open spec fn after_steps(t: Thinking, list: Seq<OutV>) -> Thinking
    decreases list.len(),
{
    if list.len() == 0 {
        t
    } else {
        after_step(after_steps(t, list.drop_last()), list.last())
    }
}

/// What is known before any step.
pub open spec fn no_thinking() -> Thinking {
    Thinking { current: None, signed: false, ok: true }
}

/// Whether the thinking blocks of a list of steps are in order: a block of any kind
/// is started or added to only while no other thinking block is open, and a thinking
/// block is closed only right after the one step that signed it, whose signature
/// carries all thinking that was added to the block. Nothing else is signed.
pub open spec fn thinking_in_order(list: Seq<OutV>) -> bool {
    after_steps(no_thinking(), list).ok
}

/// The open thinking block that a state knows of.
pub open spec fn open_thinking(s: ChatV) -> Option<(u64, Seq<char>)> {
    match s.block {
        Some(i) => if s.kind == BlockKind::Thinking {
            Some((i, s.reasoning))
        } else {
            None
        },
        None => None,
    }
}

/// Whether what was given out since `t` is in order, and the state agrees with it.
pub open spec fn agrees(t: Thinking, s: ChatV) -> bool {
    after_steps(t, s.out) == (Thinking { current: open_thinking(s), signed: false, ok: true })
}

/// Whether an open thinking block has some text.
pub open spec fn has_thought(s: ChatV) -> bool {
    open_thinking(s) matches Some((_, text)) ==> text.len() > 0
}

/// Whether a step is about no thinking block.
pub open spec fn is_plain(o: OutV) -> bool {
    match block_event(o) {
        BlockEvent::Start(_, thinking) => !thinking,
        BlockEvent::Delta(_) => !is_thought(o),
        BlockEvent::Signature(_) => false,
        _ => true,
    }
}

proof fn lemma_steps_push(t: Thinking, list: Seq<OutV>, o: OutV)
    ensures
        after_steps(t, list.push(o)) == after_step(after_steps(t, list), o),
{
    assert(list.push(o).drop_last() =~= list);
}

proof fn lemma_steps_add(t: Thinking, a: Seq<OutV>, b: Seq<OutV>)
    ensures
        after_steps(t, a + b) == after_steps(after_steps(t, a), b),
    decreases b.len(),
{
    if b.len() > 0 {
        assert((a + b).drop_last() =~= a + b.drop_last());
        lemma_steps_add(t, a, b.drop_last());
    } else {
        assert(a + b =~= a);
    }
}

proof fn lemma_other_step(t: Thinking, s: ChatV, o: OutV)
    requires
        agrees(t, s),
        block_event(o) is Other,
    ensures
        agrees(t, s.emit(o)),
{
    lemma_steps_push(t, s.out, o);
}

proof fn lemma_plain_step(t: Thinking, s: ChatV, o: OutV)
    requires
        agrees(t, s),
        open_thinking(s) is None,
        is_plain(o),
    ensures
        agrees(t, s.emit(o)),
{
    lemma_steps_push(t, s.out, o);
}

/// What the deltas of a kind hold.
proof fn lemma_delta_texts(i: u64, kind: Seq<char>, key: Seq<char>, x: Seq<char>)
    requires
        key != "type"@,
    ensures
        text_in_delta(block_delta(i, text_delta(kind, key, x)), "type"@) == Some(kind),
        text_in_delta(block_delta(i, text_delta(kind, key, x)), key) == Some(x),
        block_event(block_delta(i, text_delta(kind, key, x))) == if kind == "signature_delta"@ {
            BlockEvent::Signature(i)
        } else {
            BlockEvent::Delta(i)
        },
{
    reveal_strlit("index");
    reveal_strlit("type");
    reveal_strlit("delta");
    assert("index"@.len() == 5 && "type"@.len() == 4 && "delta"@.len() == 5);
    assert("index"@[0] != "delta"@[0]);
    let delta = text_delta(kind, key, x);
    let o = block_delta(i, delta);
    assert(o->data.get("delta"@) == Some(delta));
    lemma_text_delta_type(kind, key, x);
    lemma_delta_event(i, delta);
}

proof fn lemma_delta_kinds()
    ensures
        "thinking_delta"@ != "signature_delta"@,
        "text_delta"@ != "signature_delta"@,
        "text_delta"@ != "thinking_delta"@,
        "input_json_delta"@ != "signature_delta"@,
        "input_json_delta"@ != "thinking_delta"@,
        "thinking"@ != "type"@,
        "text"@ != "type"@,
        "signature"@ != "type"@,
        "partial_json"@ != "type"@,
{
    reveal_strlit("thinking_delta");
    reveal_strlit("signature_delta");
    reveal_strlit("text_delta");
    reveal_strlit("input_json_delta");
    reveal_strlit("thinking");
    reveal_strlit("text");
    reveal_strlit("signature");
    reveal_strlit("partial_json");
    reveal_strlit("type");
    assert("thinking_delta"@.len() == 14 && "signature_delta"@.len() == 15 && "text_delta"@.len() == 10);
    assert("input_json_delta"@.len() == 16 && "type"@.len() == 4 && "thinking"@.len() == 8);
    assert("signature"@.len() == 9 && "partial_json"@.len() == 12);
    assert("text"@[1] != "type"@[1]);
}

proof fn lemma_stop_is_plain(i: u64)
    ensures
        is_plain(block_stop(i)),
{
    lemma_stop_event(i);
}

proof fn lemma_args_are_plain(i: u64, args: Seq<char>)
    ensures
        is_plain(args_delta(i, args)),
{
    lemma_delta_kinds();
    lemma_delta_texts(i, "input_json_delta"@, "partial_json"@, args);
}

/// Fields that have no part in the thinking.
proof fn lemma_same_thinking(t: Thinking, a: ChatV, b: ChatV)
    requires
        agrees(t, a),
        b.out == a.out,
        b.block == a.block,
        b.kind == a.kind,
        b.reasoning == a.reasoning,
    ensures
        agrees(t, b),
        has_thought(a) ==> has_thought(b),
{
}

proof fn lemma_closed_thinking(t: Thinking, s: ChatV)
    requires
        agrees(t, s),
        has_thought(s),
    ensures
        agrees(t, s.closed()),
        s.closed().block is None,
        s.closed().tools == s.tools,
        s.closed().kind == s.kind,
{
    if let Some(i) = s.block {
        let g = s.signed();
        if s.kind == BlockKind::Thinking {
            let id = reasoning_id(next_number(s.sequence));
            let item = reasoning_item(id, s.reasoning);
            let o = signature(i, item);
            lemma_delta_kinds();
            lemma_delta_texts(i, "signature_delta"@, "signature"@, envelope(item));
            lemma_steps_push(t, s.out, o);
            assert(g.out == s.out.push(o));
            assert(carries(o, s.reasoning));
        }
        lemma_stop_event(i);
        lemma_steps_push(t, g.out, block_stop(i));
        assert(s.closed().out == g.out.push(block_stop(i)));
    }
}

proof fn lemma_opened_thinking(t: Thinking, s: ChatV, kind: BlockKind, block: JsonV)
    requires
        agrees(t, s),
        has_thought(s),
        kind == BlockKind::Text && block == text_block(Seq::empty()) || kind == BlockKind::Thinking && block
            == thinking_block(Seq::empty()),
    ensures
        agrees(t, s.opened(kind, block)),
        s.opened(kind, block).block is Some,
        s.opened(kind, block).kind == kind,
{
    if s.kind != kind || s.block is None {
        lemma_closed_thinking(t, s);
        let c = s.closed();
        let i = c.next_index;
        reveal_strlit("type");
        reveal_strlit("text");
        reveal_strlit("thinking");
        assert("type"@[1] != "text"@[1]);
        assert("type"@.len() == 4 && "text"@.len() == 4 && "thinking"@.len() == 8);
        lemma_start_event(i, block);
        lemma_steps_push(t, c.out, block_start(i, block));
        assert(s.opened(kind, block).out == c.out.push(block_start(i, block)));
    }
}

proof fn lemma_reasoning_thinking(t: Thinking, s: ChatV, x: Option<Seq<char>>)
    requires
        agrees(t, s),
        has_thought(s),
    ensures
        agrees(t, s.with_reasoning(x)),
        has_thought(s.with_reasoning(x)),
{
    if let Some(x) = x {
        if x.len() > 0 {
            let kind = BlockKind::Thinking;
            lemma_opened_thinking(t, s, kind, thinking_block(Seq::empty()));
            let r = s.opened(kind, thinking_block(Seq::empty()));
            let i = r.block->0;
            let o = block_delta(i, text_delta("thinking_delta"@, "thinking"@, x));
            lemma_delta_kinds();
            lemma_delta_texts(i, "thinking_delta"@, "thinking"@, x);
            lemma_steps_push(t, r.out, OutV::Log(x));
            lemma_steps_push(t, r.out.push(OutV::Log(x)), o);
            assert(s.with_reasoning(Some(x)).out == r.out.push(OutV::Log(x)).push(o));
        }
    }
}

proof fn lemma_text_thinking(t: Thinking, s: ChatV, x: Option<Seq<char>>)
    requires
        agrees(t, s),
        has_thought(s),
    ensures
        agrees(t, s.with_text(x)),
        has_thought(s.with_text(x)),
{
    if let Some(x) = x {
        if x.len() > 0 {
            let kind = BlockKind::Text;
            lemma_opened_thinking(t, s, kind, text_block(Seq::empty()));
            let r = s.opened(kind, text_block(Seq::empty()));
            let i = r.block->0;
            let o = block_delta(i, text_delta("text_delta"@, "text"@, x));
            lemma_delta_kinds();
            lemma_delta_texts(i, "text_delta"@, "text"@, x);
            lemma_other_step(t, r, OutV::Log(x));
            lemma_plain_step(t, r.emit(OutV::Log(x)), o);
            lemma_same_thinking(t, r.emit(OutV::Log(x)).emit(o), s.with_text(Some(x)));
        }
    }
}

proof fn lemma_tool_started_thinking(t: Thinking, s: ChatV, i: u64, id: Seq<char>, name: Seq<char>)
    requires
        agrees(t, s),
        s.block is None,
    ensures
        agrees(t, s.tool_started(i, id, name)),
        s.tool_started(i, id, name).block is None,
{
    lemma_other_step(t, s, tool_note(name));
    let a = if s.has_text {
        s
    } else {
        s.emit(tool_note(name))
    };
    lemma_tool_start_event(i, id, name);
    lemma_plain_step(t, a, tool_start(i, id, name));
}

proof fn lemma_call_thinking(t: Thinking, s: ChatV, call: CallV)
    requires
        agrees(t, s),
        s.block is None,
    ensures
        agrees(t, s.with_call(call)),
        s.with_call(call).block is None,
{
    reveal(ChatV::with_call);
    let s1 = s.with_tool(call.index);
    lemma_same_thinking(t, s, s1);
    let k = tool_at(s1.tools, call.index);
    let tool = s1.tools[k];
    if !tool.aborted {
        let t1 = named(tool, call);
        let t2 = started(t1);
        let t3 = match call.arguments {
            Some(args) => fed_args(t2, args),
            None => t2,
        };
        let s2 = ChatV { tools: s1.tools.update(k, t3), ..s1 };
        lemma_same_thinking(t, s1, s2);
        let s3 = if startable(t1) {
            lemma_tool_started_thinking(t, s2, t1.index, t1.id, t1.name);
            s2.tool_started(t1.index, t1.id, t1.name)
        } else {
            s2
        };
        let s4 = if startable(t1) && t1.pending_args.len() > 0 {
            lemma_args_are_plain(t1.index, t1.pending_args);
            lemma_plain_step(t, s3, args_delta(t1.index, t1.pending_args));
            s3.emit(args_delta(t1.index, t1.pending_args))
        } else {
            s3
        };
        if let Some(args) = call.arguments {
            lemma_args_are_plain(t1.index, args);
            lemma_plain_step(t, s4, args_delta(t1.index, args));
        }
    }
}

proof fn lemma_each_call_thinking(t: Thinking, s: ChatV, calls: Seq<CallV>)
    requires
        agrees(t, s),
        s.block is None,
    ensures
        agrees(t, s.with_each_call(calls)),
        s.with_each_call(calls).block is None,
    decreases calls.len(),
{
    if calls.len() > 0 {
        lemma_each_call_thinking(t, s, calls.drop_last());
        lemma_call_thinking(t, s.with_each_call(calls.drop_last()), calls.last());
    }
}

proof fn lemma_late_thinking(t: Thinking, s: ChatV, n: int)
    requires
        agrees(t, s),
        s.block is None,
    ensures
        agrees(t, s.late_started(n)),
        s.late_started(n).block is None,
    decreases n,
{
    if n > 0 {
        lemma_late_thinking(t, s, n - 1);
        let r = s.late_started(n - 1);
        let tool = r.tools[n - 1];
        if !(tool.started || tool.pending_args.len() == 0 && tool.id.len() == 0 && tool.name.len() == 0) {
            let id = if tool.id.len() == 0 {
                "tool_call_"@ + decimal(tool.key as nat)
            } else {
                tool.id
            };
            let name = if tool.name.len() == 0 {
                "unknown_tool"@
            } else {
                tool.name
            };
            lemma_tool_started_thinking(t, r, tool.index, id, name);
            let u = ToolV { started: true, open: true, pending_args: Seq::empty(), ..tool };
            let a = ChatV { tools: r.tools.update(n - 1, u), ..r.tool_started(tool.index, id, name) };
            lemma_same_thinking(t, r.tool_started(tool.index, id, name), a);
            lemma_args_are_plain(tool.index, tool.pending_args);
            lemma_plain_step(t, a, args_delta(tool.index, tool.pending_args));
        }
    }
}

proof fn lemma_tools_closed_thinking(t: Thinking, s: ChatV, n: int)
    requires
        agrees(t, s),
        s.block is None,
    ensures
        agrees(t, s.tools_closed(n)),
        s.tools_closed(n).block is None,
    decreases n,
{
    if n > 0 {
        lemma_tools_closed_thinking(t, s, n - 1);
        let r = s.tools_closed(n - 1);
        let i = r.tools[n - 1].index;
        lemma_stop_is_plain(i);
        lemma_plain_step(t, r, block_stop(i));
        if r.tools[n - 1].open {
            lemma_same_thinking(t, r.emit(block_stop(i)), s.tools_closed(n));
        }
    }
}

proof fn lemma_finish_thinking(t: Thinking, s: ChatV, reason: Option<Seq<char>>, usage: Option<JsonV>)
    requires
        agrees(t, s),
        has_thought(s),
    ensures
        agrees(t, s.with_finish(reason, usage)),
        has_thought(s.with_finish(reason, usage)),
{
    reveal(ChatV::with_finish);
    let r = s.with_finish(reason, usage);
    if reason is Some && !s.emitted_delta {
        lemma_closed_thinking(t, s);
        let a = s.closed();
        lemma_late_thinking(t, a, a.tools.len() as int);
        let b = a.late_started(a.tools.len() as int);
        lemma_tools_closed_thinking(t, b, b.tools.len() as int);
        lemma_same_thinking(t, b.tools_closed(b.tools.len() as int), r);
    } else {
        lemma_same_thinking(t, s, r);
    }
}

proof fn lemma_chunk_thinking(t: Thinking, s: ChatV, chunk: ChunkV)
    requires
        agrees(t, s),
        has_thought(s),
    ensures
        agrees(t, s.with_chunk(chunk)),
        has_thought(s.with_chunk(chunk)),
{
    reveal(ChatV::with_chunk);
    let usage = match chunk.usage {
        Some(u) => Some(usage_json(u, u.completion_tokens as u64)),
        None => None,
    };
    let h = s.with_header(chunk.id, usage);
    lemma_same_thinking(t, s, h);
    if chunk.choices.len() > 0 {
        let choice = chunk.choices[0];
        let a = h.begun(chunk.usage);
        if !h.sent_start {
            let shown = match chunk.usage {
                Some(u) => usage_json(u, 0),
                None => JsonV::Object(map!["input_tokens"@ => num(0), "output_tokens"@ => num(0)]),
            };
            lemma_other_events(h.message_id, h.model, shown, None, None);
            let o = message_start(h.message_id, h.model, shown);
            lemma_other_step(t, h, o);
            lemma_same_thinking(t, h.emit(o), a);
        }
        lemma_reasoning_thinking(t, a, choice.reasoning);
        let b = a.with_reasoning(choice.reasoning);
        lemma_text_thinking(t, b, choice.content);
        let c = b.with_text(choice.content);
        let d = c.with_calls(choice.calls);
        assert(agrees(t, d) && has_thought(d)) by {
            if let Some(calls) = choice.calls {
                if calls.len() > 0 {
                    lemma_closed_thinking(t, c);
                    lemma_each_call_thinking(t, c.closed(), calls);
                }
            }
        }
        lemma_finish_thinking(t, d, choice.finish_reason, usage);
    }
}

proof fn lemma_flushed_thinking(t: Thinking, s: ChatV)
    requires
        agrees(t, s),
        has_thought(s),
    ensures
        agrees(t, s.flushed()),
        has_thought(s.flushed()),
        s.flushed().block == s.block,
{
    if let Some(p) = s.pending {
        lemma_other_events(Seq::empty(), Seq::empty(), JsonV::Null, p.stop, p.usage);
        let o = message_delta(p.stop, p.usage);
        lemma_other_step(t, s, o);
        lemma_same_thinking(t, s.emit(o), s.flushed());
    }
}

proof fn lemma_lines_thinking(t: Thinking, s: ChatV, lines: Seq<Seq<char>>)
    requires
        agrees(t, s),
        has_thought(s),
    ensures
        agrees(t, s.with_lines(lines)),
        has_thought(s.with_lines(lines)),
    decreases lines.len(),
{
    reveal_with_fuel(ChatV::with_lines, 1);
    reveal(ChatV::with_data);
    if lines.len() > 0 {
        let front = s.with_lines(lines.drop_last());
        lemma_lines_thinking(t, s, lines.drop_last());
        if let Some(data) = sse_field(lines.last(), "data"@) {
            if trim(data) == "[DONE]"@ {
                lemma_flushed_thinking(t, front);
                lemma_other_events(Seq::empty(), Seq::empty(), JsonV::Null, None, None);
                let f = front.flushed();
                lemma_other_step(t, f, message_stop());
                lemma_same_thinking(t, f.emit(message_stop()), front.with_done());
            } else if let Some(chunk) = chunk_in(data) {
                lemma_chunk_thinking(t, front, chunk);
            }
        }
    }
}

proof fn lemma_blocks_thinking(t: Thinking, s: ChatV, blocks: Seq<Seq<char>>)
    requires
        agrees(t, s),
        has_thought(s),
    ensures
        agrees(t, s.with_blocks(blocks)),
        has_thought(s.with_blocks(blocks)),
    decreases blocks.len(),
{
    if blocks.len() > 0 {
        lemma_blocks_thinking(t, s, blocks.drop_last());
        lemma_lines_thinking(t, s.with_blocks(blocks.drop_last()), lines(blocks.last()));
    }
}

proof fn lemma_ended_thinking(t: Thinking, s: ChatV)
    requires
        agrees(t, s),
        has_thought(s),
    ensures
        after_steps(t, s.ended().out).ok,
        after_steps(t, s.ended().out).current is None,
{
    lemma_closed_thinking(t, s);
    let c = s.closed();
    lemma_flushed_thinking(t, c);
    let g = c.flushed();
    lemma_other_events(Seq::empty(), Seq::empty(), JsonV::Null, None, None);
    let h = if g.sent_stop {
        g
    } else {
        lemma_other_step(t, g, message_stop());
        g.emit(message_stop())
    };
    lemma_other_step(t, h, OutV::LogDone);
}

proof fn lemma_whole_thinking(t: Thinking, s: ChatV, list: Seq<PieceV>)
    requires
        agrees(t, s),
        has_thought(s),
        s.out.len() == 0,
    ensures
        after_steps(t, s.whole(list)).ok,
    decreases list.len(),
{
    if list.len() == 0 {
        lemma_ended_thinking(t, s);
    } else {
        match list[0] {
            PieceV::Bytes(b) => {
                let fed = ChatV { reader: s.reader.fed(b), ..s };
                lemma_same_thinking(t, s, fed);
                lemma_blocks_thinking(t, fed, s.reader.fed_blocks(b));
                let next = s.with_bytes(b);
                let u = after_steps(t, next.out);
                assert(after_steps(u, next.drained().out) == u);
                lemma_whole_thinking(u, next.drained(), list.drop_first());
                lemma_steps_add(t, next.out, next.drained().whole(list.drop_first()));
            },
            PieceV::Failure(m) => {
                let text = "Stream error: "@ + m;
                let o = stream_error("stream_error"@, text);
                lemma_error_event("stream_error"@, text);
                lemma_other_step(t, s, o);
                lemma_other_step(t, s.emit(o), OutV::LogError(text));
            },
        }
    }
}

/// Over a whole Chat stream, up to its end or its failure, each thinking block that
/// is closed was signed right before, once, with a signature that carries all of its
/// thinking, and nothing else is signed.
pub proof fn law_thinking_is_signed_with_its_text(model: Seq<char>, stream: Seq<PieceV>)
    ensures
        thinking_in_order(ChatV::initial(model).whole(stream)),
{
    lemma_whole_thinking(no_thinking(), ChatV::initial(model), stream);
}

} // verus!
