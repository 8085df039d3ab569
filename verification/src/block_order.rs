//! The order of the content blocks in a stream of Anthropic events: each block is
//! started once, added to only while it is open, and closed once; and a thinking
//! block is signed right before it is closed.

use vstd::prelude::*;
use crate::chat_chunk::{CallV, ChoiceV, ChunkV, Delta, Usage};
use crate::chat_stream::{BlockKind, ChatV, ToolV, fed_args, lemma_tool_at, named, new_tool, reasoning_id, startable, started, tool_at, usage_json};
use crate::convert_response::thinking_block;
use crate::json::{JsonV, num, or_zero, text_block};
use crate::reasoning_bridge::envelope;
use crate::stream_out::{OutV, args_delta, block_delta, block_start, block_stop, message_delta, message_start, message_stop, next_number, reasoning_item, signature, text_delta, tool_note, tool_start};
use crate::text::decimal;

verus! {

/// What an event does to the content blocks.
pub enum BlockEvent {
    /// The block is started; the flag tells whether it is a thinking block.
    Start(u64, bool),
    /// Something is added to the block.
    Delta(u64),
    /// The block is signed.
    Signature(u64),
    /// The block is closed.
    Stop(u64),
    Other,
}

/// What an event does to the content blocks.
pub open spec fn block_event(o: OutV) -> BlockEvent {
    match o {
        OutV::Event { name, data } => {
            let index = or_zero(data.u64_at("index"@));
            if name == "content_block_start"@ {
                BlockEvent::Start(
                    index,
                    data.path2("content_block"@, "type"@) == Some(JsonV::Text("thinking"@)),
                )
            } else if name == "content_block_delta"@ {
                if data.path2("delta"@, "type"@) == Some(JsonV::Text("signature_delta"@)) {
                    BlockEvent::Signature(index)
                } else {
                    BlockEvent::Delta(index)
                }
            } else if name == "content_block_stop"@ {
                BlockEvent::Stop(index)
            } else {
                BlockEvent::Other
            }
        },
        _ => BlockEvent::Other,
    }
}

/// What is known of the content blocks after some events.
pub struct Trace {
    /// The open blocks, and which of them are thinking blocks.
    pub open: Map<u64, bool>,
    /// The indices that were given to a block.
    pub used: Set<u64>,
    /// The thinking block that was signed last, where nothing came after.
    pub signed: Option<u64>,
    /// Whether all events were in order.
    pub ok: bool,
}

/// What is known after one more event.
pub open spec fn traced(t: Trace, e: BlockEvent) -> Trace {
    match e {
        BlockEvent::Start(i, thinking) => Trace {
            open: t.open.insert(i, thinking),
            used: t.used.insert(i),
            signed: None,
            ok: t.ok && !t.used.contains(i),
        },
        BlockEvent::Delta(i) => Trace { signed: None, ok: t.ok && t.open.contains_key(i), ..t },
        BlockEvent::Signature(i) => Trace {
            signed: Some(i),
            ok: t.ok && t.open.contains_key(i) && t.open[i],
            ..t
        },
        BlockEvent::Stop(i) => Trace {
            open: t.open.remove(i),
            signed: None,
            ok: t.ok && t.open.contains_key(i) && (t.open[i] ==> t.signed == Some(i)),
            ..t
        },
        BlockEvent::Other => t,
    }
}

/// What is known of the content blocks after a list of steps.
pub open spec fn trace(list: Seq<OutV>) -> Trace
    decreases list.len(),
{
    if list.len() == 0 {
        Trace { open: Map::empty(), used: Set::empty(), signed: None, ok: true }
    } else {
        traced(trace(list.drop_last()), block_event(list.last()))
    }
}

/// Whether the content blocks of a list of steps are in order.
pub open spec fn in_order(list: Seq<OutV>) -> bool {
    trace(list).ok
}

proof fn lemma_trace_push(list: Seq<OutV>, o: OutV)
    ensures
        trace(list.push(o)) == traced(trace(list), block_event(o)),
{
    assert(list.push(o).drop_last() =~= list);
}

pub proof fn lemma_start_event(i: u64, block: JsonV)
    ensures
        block_event(block_start(i, block)) == BlockEvent::Start(
            i,
            block.get("type"@) == Some(JsonV::Text("thinking"@)),
        ),
{
    reveal_strlit("index");
    reveal_strlit("type");
    reveal_strlit("content_block");
    assert("index"@.len() == 5 && "type"@.len() == 4 && "content_block"@.len() == 13);
    let o = block_start(i, block);
    let data = o->data;
    assert(data.u64_at("index"@) == Some(i));
    assert(data.get("content_block"@) == Some(block));
}

pub proof fn lemma_delta_event(i: u64, delta: JsonV)
    ensures
        block_event(block_delta(i, delta)) == if delta.get("type"@) == Some(JsonV::Text("signature_delta"@)) {
            BlockEvent::Signature(i)
        } else {
            BlockEvent::Delta(i)
        },
{
    reveal_strlit("index");
    reveal_strlit("type");
    reveal_strlit("delta");
    reveal_strlit("content_block_delta");
    reveal_strlit("content_block_start");
    assert("index"@.len() == 5 && "type"@.len() == 4 && "delta"@.len() == 5);
    assert("index"@[0] != "delta"@[0]);
    assert("content_block_delta"@[14] != "content_block_start"@[14]);
    let o = block_delta(i, delta);
    let data = o->data;
    assert(data.u64_at("index"@) == Some(i));
    assert(data.get("delta"@) == Some(delta));
}

pub proof fn lemma_stop_event(i: u64)
    ensures
        block_event(block_stop(i)) == BlockEvent::Stop(i),
{
    reveal_strlit("index");
    reveal_strlit("type");
    reveal_strlit("content_block_stop");
    reveal_strlit("content_block_delta");
    reveal_strlit("content_block_start");
    assert("index"@.len() == 5 && "type"@.len() == 4);
    assert("content_block_stop"@.len() == 18 && "content_block_delta"@.len() == 19);
    assert("content_block_start"@.len() == 19);
    let data = block_stop(i)->data;
    assert(data.u64_at("index"@) == Some(i));
}

pub proof fn lemma_text_delta_type(kind: Seq<char>, key: Seq<char>, t: Seq<char>)
    requires
        key != "type"@,
    ensures
        text_delta(kind, key, t).get("type"@) == Some(JsonV::Text(kind)),
{
}

pub proof fn lemma_other_events(id: Seq<char>, model: Seq<char>, usage: JsonV, stop: Option<Seq<char>>, u: Option<JsonV>)
    ensures
        block_event(message_start(id, model, usage)) is Other,
        block_event(message_delta(stop, u)) is Other,
        block_event(message_stop()) is Other,
{
    reveal_strlit("content_block_start");
    reveal_strlit("content_block_delta");
    reveal_strlit("content_block_stop");
    reveal_strlit("message_start");
    reveal_strlit("message_delta");
    reveal_strlit("message_stop");
    assert("message_start"@.len() == 13 && "message_delta"@.len() == 13 && "message_stop"@.len() == 12);
    assert("content_block_start"@.len() == 19 && "content_block_delta"@.len() == 19);
    assert("content_block_stop"@.len() == 18);
}

/// What the trace says of a tool call.
pub open spec fn tool_sound(t: Trace, next: u64, tool: ToolV) -> bool {
    &&& tool.index < next
    &&& tool.started <==> t.used.contains(tool.index)
    &&& tool.open ==> tool.started && t.open.contains_key(tool.index) && !t.open[tool.index]
}

/// Whether the events so far are in order, and the state agrees with them.
pub open spec fn sound(s: ChatV) -> bool {
    let t = trace(s.out);
    &&& t.ok
    &&& forall|i: u64| #[trigger] t.used.contains(i) ==> i < s.next_index
    &&& forall|i: u64| #[trigger] t.open.contains_key(i) ==> t.used.contains(i)
    &&& s.block matches Some(i) ==> t.open.contains_key(i) && t.open[i] == (s.kind == BlockKind::Thinking)
        && s.kind != BlockKind::Nothing
    &&& s.block is Some && s.kind == BlockKind::Thinking ==> s.reasoning.len() > 0
    &&& forall|k: int| 0 <= k < s.tools.len() ==> tool_sound(t, s.next_index, #[trigger] s.tools[k])
    &&& forall|k: int, m: int|
        0 <= k < m < s.tools.len() ==> (#[trigger] s.tools[k]).index != (#[trigger] s.tools[m]).index
    &&& forall|k: int| 0 <= k < s.tools.len() ==> s.block != Some((#[trigger] s.tools[k]).index)
}

/// Whether every open block is one that the state knows as open.
pub open spec fn covered(s: ChatV) -> bool {
    forall|i: u64| #[trigger]
        trace(s.out).open.contains_key(i) ==> s.block == Some(i) || has_open_tool(s.tools, i)
}

/// Whether an index is that of an open tool call.
pub open spec fn has_open_tool(tools: Seq<ToolV>, i: u64) -> bool {
    exists|k: int| 0 <= k < tools.len() && (#[trigger] tools[k]).open && tools[k].index == i
}

/// Whether every tool call that was started is still open.
pub open spec fn live(s: ChatV) -> bool {
    forall|k: int| 0 <= k < s.tools.len() && (#[trigger] s.tools[k]).started ==> s.tools[k].open
}

/// Whether `n` more blocks can be given an index.
pub open spec fn has_room(s: ChatV, n: int) -> bool {
    s.next_index + n <= u64::MAX
}

proof fn lemma_emit_other(s: ChatV, o: OutV)
    requires
        sound(s),
        covered(s),
        block_event(o) is Other,
    ensures
        sound(s.emit(o)),
        covered(s.emit(o)),
        trace(s.emit(o).out) == trace(s.out),
{
    lemma_trace_push(s.out, o);
}

proof fn lemma_emit_delta(s: ChatV, i: u64, o: OutV)
    requires
        sound(s),
        covered(s),
        block_event(o) == BlockEvent::Delta(i),
        trace(s.out).open.contains_key(i),
    ensures
        sound(s.emit(o)),
        covered(s.emit(o)),
{
    lemma_trace_push(s.out, o);
}

/// Closing the open block keeps the order; a thinking block is signed first.
proof fn lemma_closed(s: ChatV)
    requires
        sound(s),
        covered(s),
    ensures
        sound(s.closed()),
        covered(s.closed()),
        s.closed().block is None,
        s.closed().next_index == s.next_index,
        s.closed().tools == s.tools,
        s.closed().kind == s.kind,
        s.closed().emitted_delta == s.emitted_delta,
{
    if let Some(i) = s.block {
        let g = s.signed();
        if s.kind == BlockKind::Thinking {
            let n = next_number(s.sequence);
            let item = reasoning_item(reasoning_id(n), s.reasoning);
            let o = signature(i, item);
            reveal_strlit("signature");
            reveal_strlit("type");
            assert("signature"@.len() != "type"@.len());
            lemma_text_delta_type("signature_delta"@, "signature"@, envelope(item));
            lemma_delta_event(i, text_delta("signature_delta"@, "signature"@, envelope(item)));
            lemma_trace_push(s.out, o);
            assert(g.out == s.out.push(o));
            assert(trace(g.out).signed == Some(i));
        } else {
            assert(g == s);
        }
        lemma_stop_event(i);
        lemma_trace_push(g.out, block_stop(i));
        let c = s.closed();
        assert(c.out == g.out.push(block_stop(i)));
        let t = trace(c.out);
        assert(t.ok);
        assert(t.open == trace(s.out).open.remove(i));
        assert(t.used == trace(s.out).used);
        assert forall|j: u64| #[trigger] t.open.contains_key(j) implies c.block == Some(j) || has_open_tool(
            c.tools,
            j,
        ) by {
            assert(trace(s.out).open.contains_key(j));
        }
    }
}

proof fn lemma_opened(s: ChatV, kind: BlockKind, block: JsonV)
    requires
        sound(s),
        covered(s),
        has_room(s, 1),
        kind == BlockKind::Text ==> block == text_block(Seq::empty()),
        kind == BlockKind::Thinking ==> block == thinking_block(Seq::empty()),
        kind != BlockKind::Nothing,
    ensures
        ({
            let r = s.opened(kind, block);
            let more = ChatV { reasoning: seq!['x'], ..r };
            &&& kind == BlockKind::Text ==> sound(r) && covered(r)
            &&& r.block is Some
            &&& sound(more) && covered(more)
            &&& r.kind == kind
            &&& r.tools == s.tools
            &&& r.emitted_delta == s.emitted_delta
            &&& r.next_index <= s.next_index + 1
        }),
{
    if s.kind != kind || s.block is None {
        lemma_closed(s);
        let c = s.closed();
        let i = c.next_index;
        let o = block_start(i, block);
        reveal_strlit("type");
        reveal_strlit("text");
        reveal_strlit("thinking");
        assert("type"@[1] != "text"@[1]);
        assert("type"@.len() == 4 && "text"@.len() == 4 && "thinking"@.len() == 8);
        lemma_start_event(i, block);
        lemma_trace_push(c.out, o);
        let r = s.opened(kind, block);
        let t = trace(r.out);
        assert(r.out == c.out.push(o));
        assert(!trace(c.out).used.contains(i));
        assert(t.open == trace(c.out).open.insert(i, kind == BlockKind::Thinking));
        assert(t.used == trace(c.out).used.insert(i));
        assert forall|k: int| 0 <= k < r.tools.len() implies tool_sound(t, r.next_index, #[trigger] r.tools[k])
            && r.block != Some(r.tools[k].index) by {
            assert(tool_sound(trace(c.out), c.next_index, c.tools[k]));
        }
        assert forall|j: u64| #[trigger] t.open.contains_key(j) implies r.block == Some(j) || has_open_tool(
            r.tools,
            j,
        ) by {
            if j != i {
                assert(trace(c.out).open.contains_key(j));
            }
        }
    } else {
        let more = ChatV { reasoning: seq!['x'], ..s };
        assert(trace(more.out) == trace(s.out));
    }
}

/// The reasoning text has no part in the order beyond its not being empty.
proof fn lemma_reasoning_text(a: ChatV, b: ChatV)
    requires
        sound(a),
        covered(a),
        b == (ChatV { reasoning: b.reasoning, has_text: b.has_text, message_id: b.message_id, latest_usage: b.latest_usage, pending: b.pending, sent_start: b.sent_start, sent_stop: b.sent_stop, reader: b.reader, emitted_delta: b.emitted_delta, ..a }),
        b.reasoning.len() > 0 || b.reasoning == a.reasoning,
    ensures
        sound(b),
        covered(b),
{
    assert(trace(a.out) == trace(b.out));
}

proof fn lemma_with_reasoning(s: ChatV, t: Option<Seq<char>>)
    requires
        sound(s),
        covered(s),
        has_room(s, 1),
    ensures
        sound(s.with_reasoning(t)),
        covered(s.with_reasoning(t)),
        s.with_reasoning(t).tools == s.tools,
        s.with_reasoning(t).emitted_delta == s.emitted_delta,
        s.with_reasoning(t).next_index <= s.next_index + 1,
{
    if let Some(x) = t {
        if x.len() > 0 {
            let kind = BlockKind::Thinking;
            lemma_opened(s, kind, thinking_block(Seq::empty()));
            let r = s.opened(kind, thinking_block(Seq::empty()));
            let more = ChatV { reasoning: seq!['x'], ..r };
            let s1 = ChatV { reasoning: r.reasoning + x, ..r };
            lemma_reasoning_text(more, s1);
            if let Some(index) = s1.block {
                lemma_emit_other(s1, OutV::Log(x));
                let s2 = s1.emit(OutV::Log(x));
                reveal_strlit("thinking");
                reveal_strlit("type");
                reveal_strlit("thinking_delta");
                reveal_strlit("signature_delta");
                assert("thinking"@.len() != "type"@.len());
                assert("thinking_delta"@.len() != "signature_delta"@.len());
                lemma_text_delta_type("thinking_delta"@, "thinking"@, x);
                lemma_delta_event(index, text_delta("thinking_delta"@, "thinking"@, x));
                lemma_emit_delta(
                    s2,
                    index,
                    block_delta(index, text_delta("thinking_delta"@, "thinking"@, x)),
                );
            }
        }
    }
}

proof fn lemma_with_text(s: ChatV, t: Option<Seq<char>>)
    requires
        sound(s),
        covered(s),
        has_room(s, 1),
    ensures
        sound(s.with_text(t)),
        covered(s.with_text(t)),
        s.with_text(t).tools == s.tools,
        s.with_text(t).emitted_delta == s.emitted_delta,
        s.with_text(t).next_index <= s.next_index + 1,
{
    if let Some(x) = t {
        if x.len() > 0 {
            let kind = BlockKind::Text;
            lemma_opened(s, kind, text_block(Seq::empty()));
            let r = s.opened(kind, text_block(Seq::empty()));
            if let Some(index) = r.block {
                lemma_emit_other(r, OutV::Log(x));
                let s2 = r.emit(OutV::Log(x));
                reveal_strlit("text");
                reveal_strlit("type");
                reveal_strlit("text_delta");
                reveal_strlit("signature_delta");
                assert("text"@[1] != "type"@[1]);
                assert("text_delta"@.len() != "signature_delta"@.len());
                lemma_text_delta_type("text_delta"@, "text"@, x);
                lemma_delta_event(index, text_delta("text_delta"@, "text"@, x));
                lemma_emit_delta(s2, index, block_delta(index, text_delta("text_delta"@, "text"@, x)));
                let s3 = s2.emit(block_delta(index, text_delta("text_delta"@, "text"@, x)));
                lemma_reasoning_text(s3, ChatV { has_text: true, ..s3 });
            }
        }
    }
}

pub proof fn lemma_args_event(i: u64, args: Seq<char>)
    ensures
        block_event(args_delta(i, args)) == BlockEvent::Delta(i),
{
    reveal_strlit("partial_json");
    reveal_strlit("type");
    reveal_strlit("input_json_delta");
    reveal_strlit("signature_delta");
    assert("partial_json"@.len() != "type"@.len());
    assert("input_json_delta"@.len() != "signature_delta"@.len());
    lemma_text_delta_type("input_json_delta"@, "partial_json"@, args);
    lemma_delta_event(i, text_delta("input_json_delta"@, "partial_json"@, args));
}

pub proof fn lemma_tool_start_event(i: u64, id: Seq<char>, name: Seq<char>)
    ensures
        block_event(tool_start(i, id, name)) == BlockEvent::Start(i, false),
{
    reveal_strlit("type");
    reveal_strlit("id");
    reveal_strlit("name");
    reveal_strlit("tool_use");
    reveal_strlit("thinking");
    assert("type"@.len() == 4 && "id"@.len() == 2 && "name"@.len() == 4);
    assert("type"@[0] != "name"@[0]);
    assert("tool_use"@[1] != "thinking"@[1]);
    let block = JsonV::Object(
        map!["type"@ => JsonV::Text("tool_use"@), "id"@ => JsonV::Text(id), "name"@ => JsonV::Text(name)],
    );
    assert(block.get("type"@) == Some(JsonV::Text("tool_use"@)));
    lemma_start_event(i, block);
}

proof fn lemma_with_tool(s: ChatV, key: u64)
    requires
        sound(s),
        covered(s),
        live(s),
        has_room(s, 1),
    ensures
        sound(s.with_tool(key)),
        covered(s.with_tool(key)),
        live(s.with_tool(key)),
        0 <= tool_at(s.with_tool(key).tools, key) < s.with_tool(key).tools.len(),
        s.with_tool(key).next_index <= s.next_index + 1,
        s.with_tool(key).emitted_delta == s.emitted_delta,
{
    lemma_tool_at(s.tools, key);
    let r = s.with_tool(key);
    if tool_at(s.tools, key) >= s.tools.len() {
        let fresh = new_tool(key, s.next_index);
        assert(r.tools == s.tools.push(fresh));
        assert(r.tools.drop_last() =~= s.tools);
        assert(!trace(s.out).used.contains(s.next_index));
        assert forall|k: int| 0 <= k < r.tools.len() implies tool_sound(
            trace(r.out),
            r.next_index,
            #[trigger] r.tools[k],
        ) && r.block != Some(r.tools[k].index) by {
            if k < s.tools.len() {
                assert(r.tools[k] == s.tools[k]);
            } else {
                if let Some(b) = s.block {
                    assert(trace(s.out).open.contains_key(b));
                    assert(trace(s.out).used.contains(b));
                }
            }
        }
        assert forall|k: int, m: int| 0 <= k < m < r.tools.len() implies (#[trigger] r.tools[k]).index != (
        #[trigger] r.tools[m]).index by {
            assert(r.tools[k] == s.tools[k]);
            if m < s.tools.len() {
                assert(r.tools[m] == s.tools[m]);
            } else {
                assert(tool_sound(trace(s.out), s.next_index, s.tools[k]));
            }
        }
        assert forall|j: u64| #[trigger] trace(r.out).open.contains_key(j) implies r.block == Some(j)
            || has_open_tool(r.tools, j) by {
            if has_open_tool(s.tools, j) {
                let k = choose|k: int| 0 <= k < s.tools.len() && (#[trigger] s.tools[k]).open && s.tools[k].index == j;
                assert(r.tools[k] == s.tools[k]);
            }
        }
        assert forall|k: int| 0 <= k < r.tools.len() && (#[trigger] r.tools[k]).started implies r.tools[k].open by {
            if k < s.tools.len() {
                assert(r.tools[k] == s.tools[k]);
            }
        }
        lemma_tool_at(r.tools, key);
    }
}

/// A tool call whose index, start and end stay as they are may change otherwise.
proof fn lemma_tool_text(s: ChatV, k: int, t: ToolV)
    requires
        sound(s),
        covered(s),
        live(s),
        0 <= k < s.tools.len(),
        t.index == s.tools[k].index,
        t.started == s.tools[k].started,
        t.open == s.tools[k].open,
    ensures
        sound(ChatV { tools: s.tools.update(k, t), ..s }),
        covered(ChatV { tools: s.tools.update(k, t), ..s }),
        live(ChatV { tools: s.tools.update(k, t), ..s }),
{
    let r = ChatV { tools: s.tools.update(k, t), ..s };
    assert forall|m: int| 0 <= m < r.tools.len() implies tool_sound(
        trace(r.out),
        r.next_index,
        #[trigger] r.tools[m],
    ) && r.block != Some(r.tools[m].index) by {
        assert(tool_sound(trace(s.out), s.next_index, s.tools[m]));
    }
    assert forall|a: int, b: int| 0 <= a < b < r.tools.len() implies (#[trigger] r.tools[a]).index != (
    #[trigger] r.tools[b]).index by {
        assert(s.tools[a].index != s.tools[b].index);
    }
    assert forall|j: u64| #[trigger] trace(r.out).open.contains_key(j) implies r.block == Some(j) || has_open_tool(
        r.tools,
        j,
    ) by {
        if has_open_tool(s.tools, j) {
            let m = choose|m: int| 0 <= m < s.tools.len() && (#[trigger] s.tools[m]).open && s.tools[m].index == j;
            assert(r.tools[m].open && r.tools[m].index == j);
        }
    }
    assert forall|m: int| 0 <= m < r.tools.len() && (#[trigger] r.tools[m]).started implies r.tools[m].open by {
        assert(s.tools[m].started ==> s.tools[m].open);
    }
}

/// Starting a tool call that was not started keeps the order.
proof fn lemma_tool_started(s: ChatV, k: int, t: ToolV, id: Seq<char>, name: Seq<char>)
    requires
        sound(s),
        covered(s),
        live(s),
        0 <= k < s.tools.len(),
        !s.tools[k].started,
        t.index == s.tools[k].index,
        t.started,
        t.open,
    ensures
        ({
            let r = ChatV { tools: s.tools.update(k, t), ..s }.tool_started(t.index, id, name);
            &&& sound(r)
            &&& covered(r)
            &&& live(r)
            &&& r.tools == s.tools.update(k, t)
            &&& r.next_index == s.next_index
            &&& r.emitted_delta == s.emitted_delta
            &&& r.block == s.block
            &&& trace(r.out).open.contains_key(t.index)
        }),
{
    let i = t.index;
    let with = ChatV { tools: s.tools.update(k, t), ..s };
    let note = tool_note(name);
    lemma_trace_push(with.out, note);
    let noted = if with.has_text {
        with
    } else {
        with.emit(note)
    };
    assert(trace(noted.out) == trace(s.out));
    let o = tool_start(i, id, name);
    lemma_tool_start_event(i, id, name);
    lemma_trace_push(noted.out, o);
    let r = with.tool_started(i, id, name);
    assert(r.out == noted.out.push(o));
    let t0 = trace(s.out);
    let t1 = trace(r.out);
    assert(tool_sound(t0, s.next_index, s.tools[k]));
    assert(!t0.used.contains(i));
    assert(t1.open == t0.open.insert(i, false));
    assert(t1.used == t0.used.insert(i));
    assert forall|m: int| 0 <= m < r.tools.len() implies tool_sound(t1, r.next_index, #[trigger] r.tools[m])
        && r.block != Some(r.tools[m].index) by {
        assert(tool_sound(t0, s.next_index, s.tools[m]));
        if m < k {
            assert(s.tools[m].index != s.tools[k].index);
        } else if m > k {
            assert(s.tools[k].index != s.tools[m].index);
        }
    }
    assert forall|a: int, b: int| 0 <= a < b < r.tools.len() implies (#[trigger] r.tools[a]).index != (
    #[trigger] r.tools[b]).index by {
        assert(s.tools[a].index != s.tools[b].index);
    }
    if let Some(b) = r.block {
        assert(s.block != Some(s.tools[k].index));
        assert(b != i);
    }
    assert forall|j: u64| #[trigger] t1.open.contains_key(j) implies r.block == Some(j) || has_open_tool(
        r.tools,
        j,
    ) by {
        if j == i {
            assert(r.tools[k].open && r.tools[k].index == j);
        } else {
            assert(t0.open.contains_key(j));
            if has_open_tool(s.tools, j) {
                let m = choose|m: int|
                    0 <= m < s.tools.len() && (#[trigger] s.tools[m]).open && s.tools[m].index == j;
                assert(r.tools[m].open && r.tools[m].index == j);
            }
        }
    }
    assert forall|m: int| 0 <= m < r.tools.len() && (#[trigger] r.tools[m]).started implies r.tools[m].open by {
        if m != k {
            assert(s.tools[m].started ==> s.tools[m].open);
        }
    }
}

proof fn lemma_emit_args(s: ChatV, i: u64, args: Seq<char>)
    requires
        sound(s),
        covered(s),
        live(s),
        trace(s.out).open.contains_key(i),
    ensures
        sound(s.emit(args_delta(i, args))),
        covered(s.emit(args_delta(i, args))),
        live(s.emit(args_delta(i, args))),
        trace(s.emit(args_delta(i, args)).out).open == trace(s.out).open,
{
    lemma_args_event(i, args);
    lemma_emit_delta(s, i, args_delta(i, args));
    lemma_trace_push(s.out, args_delta(i, args));
}

proof fn lemma_with_call(s: ChatV, call: CallV)
    requires
        sound(s),
        covered(s),
        live(s),
        has_room(s, 1),
    ensures
        sound(s.with_call(call)),
        covered(s.with_call(call)),
        live(s.with_call(call)),
        s.with_call(call).next_index <= s.next_index + 1,
        s.with_call(call).emitted_delta == s.emitted_delta,
{
    reveal(ChatV::with_call);
    lemma_with_tool(s, call.index);
    let s1 = s.with_tool(call.index);
    let k = tool_at(s1.tools, call.index);
    let t = s1.tools[k];
    if !t.aborted {
        let t1 = named(t, call);
        let t2 = started(t1);
        let t3 = match call.arguments {
            Some(args) => fed_args(t2, args),
            None => t2,
        };
        let s2 = ChatV { tools: s1.tools.update(k, t3), ..s1 };
        assert(tool_sound(trace(s1.out), s1.next_index, t));
        assert(t3.index == t.index);
        let s3 = if startable(t1) {
            lemma_tool_started(s1, k, t3, t1.id, t1.name);
            s2.tool_started(t1.index, t1.id, t1.name)
        } else {
            lemma_tool_text(s1, k, t3);
            s2
        };
        let s4 = if startable(t1) && t1.pending_args.len() > 0 {
            lemma_emit_args(s3, t1.index, t1.pending_args);
            s3.emit(args_delta(t1.index, t1.pending_args))
        } else {
            s3
        };
        if let Some(args) = call.arguments {
            if t3.started && !t3.aborted {
                if !startable(t1) {
                    assert(t.started);
                    assert(t.open);
                    assert(trace(s1.out).open.contains_key(t.index));
                }
                lemma_emit_args(s4, t1.index, args);
            }
        }
    }
}

proof fn lemma_with_each_call(s: ChatV, calls: Seq<CallV>)
    requires
        sound(s),
        covered(s),
        live(s),
        has_room(s, calls.len() as int),
    ensures
        sound(s.with_each_call(calls)),
        covered(s.with_each_call(calls)),
        live(s.with_each_call(calls)),
        s.with_each_call(calls).next_index <= s.next_index + calls.len(),
        s.with_each_call(calls).emitted_delta == s.emitted_delta,
    decreases calls.len(),
{
    if calls.len() > 0 {
        lemma_with_each_call(s, calls.drop_last());
        lemma_with_call(s.with_each_call(calls.drop_last()), calls.last());
    }
}

/// The number of new blocks that a choice can need.
pub open spec fn blocks_needed(choice: ChoiceV) -> int {
    2 + match choice.calls {
        Some(calls) => calls.len() as int,
        None => 0,
    }
}

proof fn lemma_with_calls(s: ChatV, calls: Option<Seq<CallV>>)
    requires
        sound(s),
        covered(s),
        live(s),
        calls matches Some(c) ==> has_room(s, c.len() as int),
    ensures
        sound(s.with_calls(calls)),
        covered(s.with_calls(calls)),
        live(s.with_calls(calls)),
        s.with_calls(calls).emitted_delta == s.emitted_delta,
{
    if let Some(c) = calls {
        if c.len() > 0 {
            lemma_closed(s);
            lemma_with_each_call(s.closed(), c);
        }
    }
}

proof fn lemma_late_started(s: ChatV, n: int)
    requires
        sound(s),
        covered(s),
        live(s),
        0 <= n <= s.tools.len(),
    ensures
        sound(s.late_started(n)),
        covered(s.late_started(n)),
        live(s.late_started(n)),
        s.late_started(n).tools.len() == s.tools.len(),
        s.late_started(n).block == s.block,
        s.late_started(n).emitted_delta == s.emitted_delta,
        s.late_started(n).next_index == s.next_index,
    decreases n,
{
    if n > 0 {
        lemma_late_started(s, n - 1);
        let r = s.late_started(n - 1);
        let t = r.tools[n - 1];
        if !(t.started || t.pending_args.len() == 0 && t.id.len() == 0 && t.name.len() == 0) {
            let id = if t.id.len() == 0 {
                "tool_call_"@ + decimal(t.key as nat)
            } else {
                t.id
            };
            let name = if t.name.len() == 0 {
                "unknown_tool"@
            } else {
                t.name
            };
            let u = ToolV { started: true, open: true, pending_args: Seq::empty(), ..t };
            lemma_tool_started(r, n - 1, u, id, name);
            let a = ChatV { tools: r.tools.update(n - 1, u), ..r }.tool_started(t.index, id, name);
            let b = ChatV { tools: r.tools.update(n - 1, u), ..r.tool_started(t.index, id, name) };
            assert(a.out == b.out);
            assert(a == b);
            if t.pending_args.len() > 0 {
                lemma_emit_args(a, t.index, t.pending_args);
            }
        }
    }
}

/// Whether the first `n` tool calls are closed.
pub open spec fn closed_up_to(tools: Seq<ToolV>, n: int) -> bool {
    forall|k: int| 0 <= k < n ==> !(#[trigger] tools[k]).open
}

proof fn lemma_tools_closed(s: ChatV, n: int)
    requires
        sound(s),
        covered(s),
        0 <= n <= s.tools.len(),
    ensures
        sound(s.tools_closed(n)),
        covered(s.tools_closed(n)),
        s.tools_closed(n).tools.len() == s.tools.len(),
        s.tools_closed(n).block == s.block,
        closed_up_to(s.tools_closed(n).tools, n),
        s.tools_closed(n).next_index == s.next_index,
    decreases n,
{
    if n > 0 {
        lemma_tools_closed(s, n - 1);
        let r = s.tools_closed(n - 1);
        let t = r.tools[n - 1];
        if t.open {
            let i = t.index;
            let c = s.tools_closed(n);
            let u = ToolV { open: false, ..t };
            lemma_stop_event(i);
            lemma_trace_push(r.out, block_stop(i));
            assert(c.out == r.out.push(block_stop(i)));
            assert(c.tools == r.tools.update(n - 1, u));
            let t0 = trace(r.out);
            let t1 = trace(c.out);
            assert(tool_sound(t0, r.next_index, t));
            assert(t1.ok);
            assert(t1.open == t0.open.remove(i));
            assert(t1.used == t0.used);
            assert forall|m: int| 0 <= m < c.tools.len() implies tool_sound(t1, c.next_index, #[trigger] c.tools[m])
                && c.block != Some(c.tools[m].index) by {
                assert(tool_sound(t0, r.next_index, r.tools[m]));
                if m < n - 1 {
                    assert(r.tools[m].index != r.tools[n - 1].index);
                } else if m > n - 1 {
                    assert(r.tools[n - 1].index != r.tools[m].index);
                }
            }
            assert forall|a: int, b: int| 0 <= a < b < c.tools.len() implies (#[trigger] c.tools[a]).index != (
            #[trigger] c.tools[b]).index by {
                assert(r.tools[a].index != r.tools[b].index);
            }
            if let Some(b) = c.block {
                assert(r.block != Some(r.tools[n - 1].index));
            }
            assert forall|j: u64| #[trigger] t1.open.contains_key(j) implies c.block == Some(j) || has_open_tool(
                c.tools,
                j,
            ) by {
                assert(t0.open.contains_key(j));
                if has_open_tool(r.tools, j) {
                    let m = choose|m: int|
                        0 <= m < r.tools.len() && (#[trigger] r.tools[m]).open && r.tools[m].index == j;
                    assert(m != n - 1);
                    assert(c.tools[m].open && c.tools[m].index == j);
                }
            }
            assert forall|k: int| 0 <= k < n implies !(#[trigger] c.tools[k]).open by {
                if k < n - 1 {
                    assert(!r.tools[k].open);
                }
            }
        }
    }
}

proof fn lemma_with_finish(s: ChatV, reason: Seq<char>, usage: Option<JsonV>)
    requires
        sound(s),
        covered(s),
        live(s),
        !s.emitted_delta,
    ensures
        sound(s.with_finish(Some(reason), usage)),
        covered(s.with_finish(Some(reason), usage)),
        trace(s.with_finish(Some(reason), usage).out).open.dom() == Set::<u64>::empty(),
{
    reveal(ChatV::with_finish);
    lemma_closed(s);
    let a = s.closed();
    lemma_late_started(a, a.tools.len() as int);
    let b = a.late_started(a.tools.len() as int);
    lemma_tools_closed(b, b.tools.len() as int);
    let c = b.tools_closed(b.tools.len() as int);
    let r = s.with_finish(Some(reason), usage);
    assert(r.out == c.out && r.tools == c.tools && r.block == c.block);
    lemma_reasoning_text(c, r);
    assert(trace(r.out).open.dom() =~= Set::<u64>::empty()) by {
        assert forall|j: u64| !trace(r.out).open.dom().contains(j) by {
            if trace(r.out).open.contains_key(j) {
                assert(has_open_tool(c.tools, j));
                let k = choose|k: int| 0 <= k < c.tools.len() && (#[trigger] c.tools[k]).open && c.tools[k].index == j;
                assert(!c.tools[k].open);
            }
        }
    }
}

proof fn lemma_begun(s: ChatV, id: Seq<char>, usage: Option<JsonV>, u: Option<Usage>)
    requires
        sound(s),
        covered(s),
        live(s),
    ensures
        ({
            let r = s.with_header(id, usage).begun(u);
            &&& sound(r)
            &&& covered(r)
            &&& live(r)
            &&& r.next_index == s.next_index
            &&& r.emitted_delta == s.emitted_delta
            &&& sound(s.with_header(id, usage))
            &&& covered(s.with_header(id, usage))
        }),
{
    let h = s.with_header(id, usage);
    lemma_reasoning_text(s, h);
    if !h.sent_start {
        let shown = match u {
            Some(u) => usage_json(u, 0),
            None => JsonV::Object(map!["input_tokens"@ => num(0), "output_tokens"@ => num(0)]),
        };
        lemma_other_events(h.message_id, h.model, shown, None, None);
        let o = message_start(h.message_id, h.model, shown);
        lemma_emit_other(h, o);
        lemma_reasoning_text(h.emit(o), h.begun(u));
    }
}

/// The conversion starts in order.
pub proof fn law_conversion_starts_in_order(model: Seq<char>)
    ensures
        sound(ChatV::initial(model)),
        covered(ChatV::initial(model)),
        live(ChatV::initial(model)),
{
}

/// A chunk keeps the blocks in order: each block is started once, added to only
/// while it is open, and closed once, and a thinking block is signed right before
/// it is closed. This holds up to the chunk that ends the message, after which no
/// block is open.
pub proof fn law_chunk_keeps_blocks_in_order(s: ChatV, chunk: ChunkV)
    requires
        sound(s),
        covered(s),
        live(s),
        !s.emitted_delta,
        chunk.choices.len() > 0 ==> has_room(s, blocks_needed(chunk.choices[0])),
    ensures
        in_order(s.with_chunk(chunk).out),
        sound(s.with_chunk(chunk)),
        covered(s.with_chunk(chunk)),
        chunk.choices.len() > 0 && chunk.choices[0].finish_reason is Some ==> trace(
            s.with_chunk(chunk).out,
        ).open.dom() == Set::<u64>::empty(),
        !(chunk.choices.len() > 0 && chunk.choices[0].finish_reason is Some) ==> live(s.with_chunk(chunk))
            && !s.with_chunk(chunk).emitted_delta,
{
    reveal(ChatV::with_chunk);
    reveal(ChatV::with_finish);
    let usage = match chunk.usage {
        Some(u) => Some(usage_json(u, u.completion_tokens as u64)),
        None => None,
    };
    lemma_begun(s, chunk.id, usage, chunk.usage);
    if chunk.choices.len() > 0 {
        let choice = chunk.choices[0];
        let a = s.with_header(chunk.id, usage).begun(chunk.usage);
        lemma_with_reasoning(a, choice.reasoning);
        let b = a.with_reasoning(choice.reasoning);
        lemma_with_text(b, choice.content);
        let c = b.with_text(choice.content);
        assert(live(c));
        lemma_with_calls(c, choice.calls);
        let d = c.with_calls(choice.calls);
        if let Some(reason) = choice.finish_reason {
            lemma_with_finish(d, reason, usage);
        }
    }
}

/// The mark at the end and the end of the upstream keep the blocks in order, and
/// the block that is still open is signed, where it is a thinking block, and
/// closed.
pub proof fn law_end_keeps_blocks_in_order(s: ChatV)
    requires
        sound(s),
        covered(s),
    ensures
        in_order(s.with_done().out),
        in_order(s.ended().out),
        s.ended().block is None,
        forall|i: u64| #[trigger]
            trace(s.ended().out).open.contains_key(i) ==> has_open_tool(s.tools, i),
{
    lemma_flushed(s);
    let f = s.flushed();
    lemma_other_events(Seq::empty(), Seq::empty(), JsonV::Null, None, None);
    lemma_emit_other(f, message_stop());
    lemma_closed(s);
    let c = s.closed();
    lemma_flushed(c);
    let g = c.flushed();
    let h = if g.sent_stop {
        g
    } else {
        lemma_emit_other(g, message_stop());
        g.emit(message_stop())
    };
    lemma_emit_other(h, OutV::LogDone);
}

proof fn lemma_flushed(s: ChatV)
    requires
        sound(s),
        covered(s),
    ensures
        sound(s.flushed()),
        covered(s.flushed()),
        s.flushed().tools == s.tools,
        s.flushed().block == s.block,
{
    if let Some(p) = s.pending {
        lemma_other_events(Seq::empty(), Seq::empty(), JsonV::Null, p.stop, p.usage);
        let o = message_delta(p.stop, p.usage);
        lemma_emit_other(s, o);
        lemma_reasoning_text(s.emit(o), s.flushed());
    }
}

} // verus!
