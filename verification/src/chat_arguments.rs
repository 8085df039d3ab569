//! The arguments of the tool calls of a Chat stream: what is given out for the block of a
//! call is what came for that call.

use vstd::prelude::*;
use crate::chat_chunk::{CallV, ChunkV};
use crate::chat_stream::{BlockKind, ChatV, ToolV, fed_args, lemma_tool_at, named, new_tool, reasoning_id, startable, started, tool_at, trailing_spaces, usage_json};
use crate::convert_response::thinking_block;
use crate::json::{JsonV, num, text_block};
use crate::reasoning_bridge::envelope;
use crate::stream_data::is_blank;
use crate::stream_out::{OutV, args_delta, block_delta, block_start, block_stop, message_start, next_number, reasoning_item, signature, text_delta, tool_note, tool_start};
use crate::text::{decimal, is_white_space};
use crate::told::{arguments_told_at, is_silent, lemma_delta_names, lemma_delta_piece, lemma_message_events_are_silent, lemma_notes_are_silent, lemma_starts_and_stops_are_silent, lemma_told_push, lemma_tool_start_is_silent, piece_of};

verus! {

/// The state after a list of chunks.
pub open spec fn after_chunks(s: ChatV, chunks: Seq<ChunkV>) -> ChatV
    decreases chunks.len(),
{
    if chunks.len() == 0 {
        s
    } else {
        after_chunks(s, chunks.drop_last()).with_chunk(chunks.last())
    }
}

/// The parts of tool calls that a chunk brings.
pub open spec fn calls_of_chunk(chunk: ChunkV) -> Seq<CallV> {
    if chunk.choices.len() > 0 {
        match chunk.choices[0].calls {
            Some(calls) => calls,
            None => Seq::empty(),
        }
    } else {
        Seq::empty()
    }
}

/// The parts of tool calls that chunks bring, in order.
pub open spec fn calls_of_chunks(chunks: Seq<ChunkV>) -> Seq<CallV>
    decreases chunks.len(),
{
    if chunks.len() == 0 {
        Seq::empty()
    } else {
        calls_of_chunks(chunks.drop_last()) + calls_of_chunk(chunks.last())
    }
}

/// The arguments that came for the call of a key, put one after another.
pub open spec fn received(calls: Seq<CallV>, key: u64) -> Seq<char>
    decreases calls.len(),
{
    if calls.len() == 0 {
        Seq::empty()
    } else {
        received(calls.drop_last(), key) + match calls.last().arguments {
            Some(args) => if calls.last().index == key {
                args
            } else {
                Seq::empty()
            },
            None => Seq::empty(),
        }
    }
}

/// The blocks that chunks may need: one of thinking and one of text for each, and one for
/// each part of a tool call.
pub open spec fn blocks_for(chunks: Seq<ChunkV>) -> nat
    decreases chunks.len(),
{
    if chunks.len() == 0 {
        0
    } else {
        blocks_for(chunks.drop_last()) + 2 + calls_of_chunk(chunks.last()).len()
    }
}

/// Whether what was given out and what waits for a call is what came for it.
pub open spec fn call_is_kept(s: ChatV, calls: Seq<CallV>, t: ToolV) -> bool {
    let given = arguments_told_at(s.out, t.index);
    &&& t.index < s.next_index
    &&& t.started ==> t.pending_args.len() == 0
    &&& !t.started ==> given.len() == 0
    &&& !t.aborted ==> given + t.pending_args == received(calls, t.key) && t.spaces <= received(calls, t.key).len()
    &&& t.aborted ==> received(calls, t.key).len() >= 500
}

/// Whether all calls of a state are kept.
pub open spec fn calls_are_kept(s: ChatV, calls: Seq<CallV>) -> bool {
    &&& forall|k: int| 0 <= k < s.tools.len() ==> call_is_kept(s, calls, #[trigger] s.tools[k])
    &&& forall|j: int, k: int|
        0 <= j < k < s.tools.len() ==> (#[trigger] s.tools[j]).index != (#[trigger] s.tools[k]).index && s.tools[j].key
            != s.tools[k].key
    &&& forall|i: u64| i >= s.next_index ==> (#[trigger] arguments_told_at(s.out, i)).len() == 0
    &&& forall|key: u64| tool_at(s.tools, key) == s.tools.len() ==> (#[trigger] received(calls, key)).len() == 0
}

/// Whether no arguments were given out from one state to the next, the calls stayed, and
/// at most `n` blocks began.
pub open spec fn no_arguments(a: ChatV, b: ChatV, n: int) -> bool {
    &&& b.tools == a.tools
    &&& a.next_index + n < u64::MAX ==> a.next_index <= b.next_index <= a.next_index + n
    &&& forall|i: u64| #[trigger] arguments_told_at(b.out, i) == arguments_told_at(a.out, i)
}

proof fn lemma_silent_to_arguments(s: ChatV, o: OutV)
    requires
        is_silent(o),
    ensures
        no_arguments(s, s.emit(o), 0),
{
    assert forall|i: u64| #[trigger] arguments_told_at(s.emit(o).out, i) == arguments_told_at(s.out, i) by {
        lemma_told_push(s.out, o, Some(i), "input_json_delta"@, "partial_json"@);
    }
}

proof fn lemma_other_to_arguments(s: ChatV, at: u64, kind: Seq<char>, key: Seq<char>, t: Seq<char>)
    requires
        kind != "input_json_delta"@,
        key != "type"@,
    ensures
        no_arguments(s, s.emit(block_delta(at, text_delta(kind, key, t))), 0),
{
    let o = block_delta(at, text_delta(kind, key, t));
    assert forall|i: u64| #[trigger] arguments_told_at(s.emit(o).out, i) == arguments_told_at(s.out, i) by {
        lemma_told_push(s.out, o, Some(i), "input_json_delta"@, "partial_json"@);
        lemma_delta_piece(at, kind, key, t, Some(i), "input_json_delta"@);
        let p = piece_of(o, Some(i), "input_json_delta"@, "partial_json"@);
        assert(p.len() == 0);
        assert(arguments_told_at(s.out, i) + p =~= arguments_told_at(s.out, i));
    }
}

proof fn lemma_arguments_given(s: ChatV, at: u64, args: Seq<char>)
    ensures
        forall|i: u64| #[trigger]
            arguments_told_at(s.emit(args_delta(at, args)).out, i) == if i == at {
                arguments_told_at(s.out, i) + args
            } else {
                arguments_told_at(s.out, i)
            },
{
    let o = args_delta(at, args);
    lemma_delta_names();
    assert forall|i: u64| #[trigger] arguments_told_at(s.emit(o).out, i) == if i == at {
        arguments_told_at(s.out, i) + args
    } else {
        arguments_told_at(s.out, i)
    } by {
        lemma_told_push(s.out, o, Some(i), "input_json_delta"@, "partial_json"@);
        lemma_delta_piece(at, "input_json_delta"@, "partial_json"@, args, Some(i), "input_json_delta"@);
        if i != at {
            assert(arguments_told_at(s.out, i) + Seq::<char>::empty() =~= arguments_told_at(s.out, i));
        }
    }
}

proof fn lemma_closed_no_arguments(s: ChatV)
    ensures
        no_arguments(s, s.closed(), 0),
{
    lemma_delta_names();
    let g = s.signed();
    if let Some(index) = s.block {
        if s.kind == BlockKind::Thinking && s.reasoning.len() > 0 {
            let n = next_number(s.sequence);
            let item = reasoning_item(reasoning_id(n), s.reasoning);
            lemma_other_to_arguments(s, index, "signature_delta"@, "signature"@, envelope(item));
            assert(g.out == s.emit(signature(index, item)).out);
        }
        lemma_starts_and_stops_are_silent(index, JsonV::Null);
        lemma_silent_to_arguments(g, block_stop(index));
    }
}

proof fn lemma_opened_no_arguments(s: ChatV, kind: BlockKind, block: JsonV)
    ensures
        no_arguments(s, s.opened(kind, block), 1),
        s.opened(kind, block).block is Some,
{
    if !(s.kind == kind && s.block is Some) {
        let c = s.closed();
        lemma_closed_no_arguments(s);
        lemma_starts_and_stops_are_silent(c.next_index, block);
        lemma_silent_to_arguments(c, block_start(c.next_index, block));
    }
}

proof fn lemma_said_no_arguments(s: ChatV, reasoning: Option<Seq<char>>, text: Option<Seq<char>>)
    ensures
        no_arguments(s, s.with_reasoning(reasoning), 1),
        no_arguments(s, s.with_text(text), 1),
{
    lemma_delta_names();
    if let Some(x) = reasoning {
        if x.len() > 0 {
            let block = thinking_block(Seq::empty());
            let a = s.opened(BlockKind::Thinking, block);
            lemma_opened_no_arguments(s, BlockKind::Thinking, block);
            let b = a.emit(OutV::Log(x));
            lemma_notes_are_silent(x);
            lemma_silent_to_arguments(a, OutV::Log(x));
            lemma_other_to_arguments(b, a.block->0, "thinking_delta"@, "thinking"@, x);
            let o = block_delta(a.block->0, text_delta("thinking_delta"@, "thinking"@, x));
            assert(s.with_reasoning(reasoning).out == b.emit(o).out);
        }
    }
    if let Some(x) = text {
        if x.len() > 0 {
            let block = text_block(Seq::empty());
            let a = s.opened(BlockKind::Text, block);
            lemma_opened_no_arguments(s, BlockKind::Text, block);
            let b = a.emit(OutV::Log(x));
            lemma_notes_are_silent(x);
            lemma_silent_to_arguments(a, OutV::Log(x));
            lemma_other_to_arguments(b, a.block->0, "text_delta"@, "text"@, x);
            let o = block_delta(a.block->0, text_delta("text_delta"@, "text"@, x));
            assert(s.with_text(text).out == b.emit(o).out);
        }
    }
}

proof fn lemma_kept_without_arguments(a: ChatV, b: ChatV, n: int, calls: Seq<CallV>)
    requires
        calls_are_kept(a, calls),
        no_arguments(a, b, n),
        a.next_index + n < u64::MAX,
    ensures
        calls_are_kept(b, calls),
{
    assert forall|k: int| 0 <= k < b.tools.len() implies call_is_kept(b, calls, #[trigger] b.tools[k]) by {
        assert(call_is_kept(a, calls, a.tools[k]));
    }
    assert forall|i: u64| i >= b.next_index implies (#[trigger] arguments_told_at(b.out, i)).len() == 0 by {
        assert(arguments_told_at(a.out, i).len() == 0);
    }
}

pub proof fn lemma_spaces(args: Seq<char>, n: u64)
    ensures
        trailing_spaces(args, n) <= n + args.len(),
    decreases args.len(),
{
    if args.len() > 0 {
        lemma_spaces(args.drop_last(), n);
    }
}

proof fn lemma_tool_started_no_arguments(s: ChatV, index: u64, id: Seq<char>, name: Seq<char>)
    ensures
        no_arguments(s, s.tool_started(index, id, name), 0),
{
    lemma_notes_are_silent(name);
    lemma_tool_start_is_silent(index, id, name);
    lemma_silent_to_arguments(s, tool_note(name));
    let a = if s.has_text {
        s
    } else {
        s.emit(tool_note(name))
    };
    lemma_silent_to_arguments(a, tool_start(index, id, name));
}

proof fn lemma_received_push(calls: Seq<CallV>, call: CallV, key: u64)
    ensures
        received(calls.push(call), key) == received(calls, key) + if call.index == key && call.arguments is Some {
            call.arguments->0
        } else {
            Seq::empty()
        },
{
    assert(calls.push(call).drop_last() =~= calls);
}

/// The state with the call of a key in it keeps the calls.
proof fn lemma_with_tool_kept(s: ChatV, calls: Seq<CallV>, key: u64)
    requires
        calls_are_kept(s, calls),
        s.next_index < u64::MAX,
    ensures
        calls_are_kept(s.with_tool(key), calls),
        s.with_tool(key).out == s.out,
        s.next_index <= s.with_tool(key).next_index <= s.next_index + 1,
        0 <= tool_at(s.with_tool(key).tools, key) < s.with_tool(key).tools.len(),
        s.with_tool(key).tools[tool_at(s.with_tool(key).tools, key)].key == key,
{
    let a = s.with_tool(key);
    lemma_tool_at(s.tools, key);
    lemma_tool_at(a.tools, key);
    if tool_at(s.tools, key) == s.tools.len() {
        let t = new_tool(key, s.next_index);
        assert(a.tools.drop_last() =~= s.tools);
        assert(arguments_told_at(s.out, s.next_index).len() == 0);
        assert(received(calls, key).len() == 0);
        assert(arguments_told_at(s.out, s.next_index) + t.pending_args =~= received(calls, key));
        assert forall|k: int| 0 <= k < a.tools.len() implies call_is_kept(a, calls, #[trigger] a.tools[k]) by {
            if k < s.tools.len() {
                assert(a.tools[k] == s.tools[k]);
            }
        }
        assert forall|j: int, k: int| 0 <= j < k < a.tools.len() implies (#[trigger] a.tools[j]).index != (
        #[trigger] a.tools[k]).index && a.tools[j].key != a.tools[k].key by {
            assert(a.tools[j] == s.tools[j]);
            assert(call_is_kept(s, calls, s.tools[j]));
            if k < s.tools.len() {
                assert(a.tools[k] == s.tools[k]);
            }
        }
        assert forall|other: u64| tool_at(a.tools, other) == a.tools.len() implies (#[trigger] received(
            calls,
            other,
        )).len() == 0 by {
            lemma_tool_at(s.tools, other);
            assert(tool_at(s.tools, other) == s.tools.len());
        }
    }
}

/// The state once one tool changed and arguments were given out for it alone.
proof fn lemma_changed_kept(s: ChatV, r: ChatV, calls: Seq<CallV>, more: Seq<CallV>, i: int, t: ToolV)
    requires
        calls_are_kept(s, calls),
        0 <= i < s.tools.len(),
        r.tools == s.tools.update(i, t),
        r.next_index == s.next_index,
        t.key == s.tools[i].key,
        t.index == s.tools[i].index,
        forall|at: u64| at != t.index ==> #[trigger] arguments_told_at(r.out, at) == arguments_told_at(s.out, at),
        forall|key: u64| key != t.key ==> #[trigger] received(more, key) == received(calls, key),
        call_is_kept(r, more, t),
    ensures
        calls_are_kept(r, more),
{
    assert forall|k: int| 0 <= k < r.tools.len() implies call_is_kept(r, more, #[trigger] r.tools[k]) by {
        if k != i {
            assert(r.tools[k] == s.tools[k]);
            assert(call_is_kept(s, calls, s.tools[k]));
            if k < i {
                assert(s.tools[k].index != s.tools[i].index);
            } else {
                assert(s.tools[i].index != s.tools[k].index);
            }
            assert(received(more, s.tools[k].key) == received(calls, s.tools[k].key));
            assert(arguments_told_at(r.out, s.tools[k].index) == arguments_told_at(s.out, s.tools[k].index));
        }
    }
    assert forall|j: int, k: int| 0 <= j < k < r.tools.len() implies (#[trigger] r.tools[j]).index != (
    #[trigger] r.tools[k]).index && r.tools[j].key != r.tools[k].key by {
        assert(s.tools[j].index != s.tools[k].index && s.tools[j].key != s.tools[k].key);
    }
    assert(call_is_kept(s, calls, s.tools[i]));
    assert forall|at: u64| at >= r.next_index implies (#[trigger] arguments_told_at(r.out, at)).len() == 0 by {
        assert(arguments_told_at(s.out, at).len() == 0);
    }
    assert forall|key: u64| tool_at(r.tools, key) == r.tools.len() implies (#[trigger] received(more, key)).len() == 0 by {
        lemma_tool_at(r.tools, key);
        lemma_tool_at(s.tools, key);
        if key == t.key {
            assert(r.tools[i].key == key);
        } else if tool_at(s.tools, key) < s.tools.len() {
            assert(r.tools[tool_at(s.tools, key)].key == key);
        }
        assert(received(calls, key).len() == 0);
    }
}

#[verifier::rlimit(40)]
proof fn lemma_call_kept(s: ChatV, calls: Seq<CallV>, call: CallV)
    requires
        calls_are_kept(s, calls),
        s.next_index < u64::MAX,
    ensures
        calls_are_kept(s.with_call(call), calls.push(call)),
        s.next_index <= s.with_call(call).next_index <= s.next_index + 1,
{
    reveal(ChatV::with_call);
    lemma_with_tool_kept(s, calls, call.index);
    let a = s.with_tool(call.index);
    let i = tool_at(a.tools, call.index);
    let t = a.tools[i];
    let more = calls.push(call);
    let was = received(calls, t.key);
    let now = received(more, t.key);
    lemma_received_push(calls, call, t.key);
    assert forall|key: u64| key != t.key implies #[trigger] received(more, key) == received(calls, key) by {
        lemma_received_push(calls, call, key);
        assert(received(calls, key) + Seq::<char>::empty() =~= received(calls, key));
    }
    assert(was + Seq::<char>::empty() =~= was);
    assert(call_is_kept(a, calls, t));
    let given = arguments_told_at(a.out, t.index);
    if t.aborted {
        assert(a.tools.update(i, t) =~= a.tools);
        lemma_changed_kept(a, a, calls, more, i, t);
    } else {
        let t1 = named(t, call);
        let t2 = started(t1);
        let t3 = match call.arguments {
            Some(args) => fed_args(t2, args),
            None => t2,
        };
        let b = ChatV { tools: a.tools.update(i, t3), ..a };
        let c = if startable(t1) {
            b.tool_started(t1.index, t1.id, t1.name)
        } else {
            b
        };
        lemma_tool_started_no_arguments(b, t1.index, t1.id, t1.name);
        assert(arguments_told_at(c.out, t.index) == given);
        let d = if startable(t1) && t1.pending_args.len() > 0 {
            c.emit(args_delta(t1.index, t1.pending_args))
        } else {
            c
        };
        lemma_arguments_given(c, t1.index, t1.pending_args);
        let mid = arguments_told_at(d.out, t.index);
        if startable(t1) {
            assert(mid =~= given + t.pending_args);
        } else {
            assert(mid == given);
        }
        let r = s.with_call(call);
        if let Some(args) = call.arguments {
            lemma_spaces(args, t.spaces);
            lemma_arguments_given(d, t1.index, args);
            assert(now == was + args);
            let last = arguments_told_at(r.out, t.index);
            if t3.started && !t3.aborted {
                assert(last == mid + args);
                assert(t2.pending_args.len() == 0);
                assert(mid + t2.pending_args =~= was);
                assert(last + t3.pending_args =~= now);
            } else if !t3.aborted {
                assert(last == given);
                assert(last + t3.pending_args =~= now);
            }
        } else {
            assert(arguments_told_at(r.out, t.index) + t3.pending_args =~= now);
        }
        assert(call_is_kept(r, more, t3));
        lemma_changed_kept(a, r, calls, more, i, t3);
    }
}

proof fn lemma_each_call_kept(s: ChatV, calls: Seq<CallV>, list: Seq<CallV>)
    requires
        calls_are_kept(s, calls),
        s.next_index + list.len() < u64::MAX,
    ensures
        calls_are_kept(s.with_each_call(list), calls + list),
        s.next_index <= s.with_each_call(list).next_index <= s.next_index + list.len(),
    decreases list.len(),
{
    if list.len() == 0 {
        assert(calls + list =~= calls);
    } else {
        let front = list.drop_last();
        lemma_each_call_kept(s, calls, front);
        lemma_call_kept(s.with_each_call(front), calls + front, list.last());
        assert((calls + front).push(list.last()) =~= calls + list);
    }
}

proof fn lemma_late_kept(s: ChatV, calls: Seq<CallV>, n: int)
    requires
        calls_are_kept(s, calls),
        n <= s.tools.len(),
    ensures
        calls_are_kept(s.late_started(n), calls),
        s.late_started(n).next_index == s.next_index,
        s.late_started(n).tools.len() == s.tools.len(),
        forall|k: int| 0 <= k < n ==> (#[trigger] s.late_started(n).tools[k]).pending_args.len() == 0,
    decreases n,
{
    if n > 0 {
        lemma_late_kept(s, calls, n - 1);
        let a = s.late_started(n - 1);
        let t = a.tools[n - 1];
        let b = s.late_started(n);
        assert(call_is_kept(a, calls, t));
        if !(t.started || t.pending_args.len() == 0 && t.id.len() == 0 && t.name.len() == 0) {
            let id = if t.id.len() == 0 {
                "tool_call_"@ + decimal(t.key as nat)
            } else {
                t.id
            };
            let name = if t.name.len() == 0 {
                "unknown_tool"@
            } else {
                t.name
            };
            let u = ToolV { started: true, open: true, pending_args: Seq::empty(), ..t };
            lemma_tool_started_no_arguments(a, t.index, id, name);
            let r = a.tool_started(t.index, id, name);
            lemma_arguments_given(r, t.index, t.pending_args);
            let given = arguments_told_at(a.out, t.index);
            if t.pending_args.len() > 0 {
                assert(b.out == r.emit(args_delta(t.index, t.pending_args)).out);
                assert(arguments_told_at(b.out, t.index) == given + t.pending_args);
            } else {
                assert(given + t.pending_args =~= given);
            }
            assert(arguments_told_at(b.out, t.index) + u.pending_args =~= given + t.pending_args);
            lemma_changed_kept(a, b, calls, calls, n - 1, u);
        } else {
            assert(b == a);
        }
        assert forall|k: int| 0 <= k < n implies (#[trigger] b.tools[k]).pending_args.len() == 0 by {
            if k < n - 1 {
                assert(b.tools[k] == a.tools[k]);
            }
        }
    }
}

proof fn lemma_tools_closed_kept(s: ChatV, calls: Seq<CallV>, n: int)
    requires
        calls_are_kept(s, calls),
        n <= s.tools.len(),
    ensures
        calls_are_kept(s.tools_closed(n), calls),
        s.tools_closed(n).next_index == s.next_index,
        s.tools_closed(n).tools.len() == s.tools.len(),
        forall|k: int|
            0 <= k < s.tools.len() ==> (#[trigger] s.tools_closed(n).tools[k]).pending_args == s.tools[k].pending_args,
    decreases n,
{
    if n > 0 {
        lemma_tools_closed_kept(s, calls, n - 1);
        let a = s.tools_closed(n - 1);
        let t = a.tools[n - 1];
        let b = s.tools_closed(n);
        assert(call_is_kept(a, calls, t));
        if t.open {
            let u = ToolV { open: false, ..t };
            lemma_starts_and_stops_are_silent(t.index, JsonV::Null);
            lemma_silent_to_arguments(a, block_stop(t.index));
            lemma_changed_kept(a, b, calls, calls, n - 1, u);
            assert forall|k: int| 0 <= k < s.tools.len() implies (#[trigger] b.tools[k]).pending_args
                == s.tools[k].pending_args by {
                assert(a.tools[k].pending_args == s.tools[k].pending_args);
            }
        }
    }
}

/// Whether a chunk ends the message.
pub open spec fn ends_message(chunk: ChunkV) -> bool {
    chunk.choices.len() > 0 && chunk.choices[0].finish_reason is Some
}

proof fn lemma_finish_kept(s: ChatV, calls: Seq<CallV>, reason: Option<Seq<char>>, usage: Option<JsonV>)
    requires
        calls_are_kept(s, calls),
        s.next_index < u64::MAX,
    ensures
        calls_are_kept(s.with_finish(reason, usage), calls),
        s.with_finish(reason, usage).next_index == s.next_index,
        s.with_finish(reason, usage).emitted_delta == (s.emitted_delta || reason is Some),
        reason is Some && !s.emitted_delta ==> forall|k: int|
            0 <= k < s.with_finish(reason, usage).tools.len() ==> (#[trigger] s.with_finish(
                reason,
                usage,
            ).tools[k]).pending_args.len() == 0,
{
    reveal(ChatV::with_finish);
    if reason is Some && !s.emitted_delta {
        lemma_closed_no_arguments(s);
        let a = s.closed();
        lemma_kept_without_arguments(s, a, 0, calls);
        let n = a.tools.len() as int;
        lemma_late_kept(a, calls, n);
        let b = a.late_started(n);
        lemma_tools_closed_kept(b, calls, n);
        let c = b.tools_closed(n);
        let r = s.with_finish(reason, usage);
        assert forall|k: int| 0 <= k < r.tools.len() implies call_is_kept(r, calls, #[trigger] r.tools[k]) by {
            assert(call_is_kept(c, calls, c.tools[k]));
        }
        assert forall|k: int| 0 <= k < r.tools.len() implies (#[trigger] r.tools[k]).pending_args.len() == 0 by {
            assert(c.tools[k].pending_args == b.tools[k].pending_args);
            assert(b.tools[k].pending_args.len() == 0);
        }
    } else {
        let r = s.with_finish(reason, usage);
        assert forall|k: int| 0 <= k < r.tools.len() implies call_is_kept(r, calls, #[trigger] r.tools[k]) by {
            assert(call_is_kept(s, calls, s.tools[k]));
        }
    }
}

proof fn lemma_chunk_kept(s: ChatV, calls: Seq<CallV>, chunk: ChunkV)
    requires
        calls_are_kept(s, calls),
        s.next_index + 2 + calls_of_chunk(chunk).len() < u64::MAX,
    ensures
        calls_are_kept(s.with_chunk(chunk), calls + calls_of_chunk(chunk)),
        s.next_index <= s.with_chunk(chunk).next_index <= s.next_index + 2 + calls_of_chunk(chunk).len(),
        s.with_chunk(chunk).emitted_delta == (s.emitted_delta || ends_message(chunk)),
        ends_message(chunk) && !s.emitted_delta ==> forall|k: int|
            0 <= k < s.with_chunk(chunk).tools.len() ==> (#[trigger] s.with_chunk(chunk).tools[k]).pending_args.len()
                == 0,
{
    reveal(ChatV::with_chunk);
    let usage = match chunk.usage {
        Some(u) => Some(usage_json(u, u.completion_tokens as u64)),
        None => None,
    };
    let h = s.with_header(chunk.id, usage);
    assert(no_arguments(s, h, 0));
    lemma_kept_without_arguments(s, h, 0, calls);
    assert(calls + Seq::<CallV>::empty() =~= calls);
    if chunk.choices.len() > 0 {
        let choice = chunk.choices[0];
        let shown = match chunk.usage {
            Some(u) => usage_json(u, 0),
            None => JsonV::Object(map!["input_tokens"@ => num(0), "output_tokens"@ => num(0)]),
        };
        lemma_message_events_are_silent(h.message_id, h.model, shown, None, None);
        lemma_silent_to_arguments(h, message_start(h.message_id, h.model, shown));
        let a = h.begun(chunk.usage);
        assert(no_arguments(h, a, 0));
        lemma_kept_without_arguments(h, a, 0, calls);
        lemma_said_no_arguments(a, choice.reasoning, None);
        let b = a.with_reasoning(choice.reasoning);
        lemma_kept_without_arguments(a, b, 1, calls);
        lemma_said_no_arguments(b, None, choice.content);
        let c = b.with_text(choice.content);
        lemma_kept_without_arguments(b, c, 1, calls);
        lemma_same_end(h, a, b, c, chunk);
        let d = c.with_calls(choice.calls);
        if let Some(list) = choice.calls {
            if list.len() > 0 {
                lemma_closed_no_arguments(c);
                lemma_kept_without_arguments(c, c.closed(), 0, calls);
                lemma_each_call_kept(c.closed(), calls, list);
                lemma_calls_same_end(c.closed(), list);
            } else {
                assert(calls + list =~= calls);
            }
        }
        lemma_finish_kept(d, calls + calls_of_chunk(chunk), choice.finish_reason, usage);
    }
}

proof fn lemma_same_end(h: ChatV, a: ChatV, b: ChatV, c: ChatV, chunk: ChunkV)
    requires
        chunk.choices.len() > 0,
        a == h.begun(chunk.usage),
        b == a.with_reasoning(chunk.choices[0].reasoning),
        c == b.with_text(chunk.choices[0].content),
    ensures
        c.emitted_delta == h.emitted_delta,
        c.closed().emitted_delta == h.emitted_delta,
{
}

proof fn lemma_calls_same_end(s: ChatV, list: Seq<CallV>)
    ensures
        s.with_each_call(list).emitted_delta == s.emitted_delta,
    decreases list.len(),
{
    reveal(ChatV::with_call);
    if list.len() > 0 {
        lemma_calls_same_end(s, list.drop_last());
    }
}

proof fn lemma_chunks_kept(model: Seq<char>, chunks: Seq<ChunkV>)
    requires
        blocks_for(chunks) < u64::MAX,
    ensures
        calls_are_kept(after_chunks(ChatV::initial(model), chunks), calls_of_chunks(chunks)),
        after_chunks(ChatV::initial(model), chunks).next_index <= blocks_for(chunks),
        after_chunks(ChatV::initial(model), chunks).emitted_delta == (exists|i: int|
            0 <= i < chunks.len() && ends_message(#[trigger] chunks[i])),
    decreases chunks.len(),
{
    let s = after_chunks(ChatV::initial(model), chunks);
    if chunks.len() > 0 {
        let front = chunks.drop_last();
        lemma_chunks_kept(model, front);
        let a = after_chunks(ChatV::initial(model), front);
        lemma_chunk_kept(a, calls_of_chunks(front), chunks.last());
        if exists|i: int| 0 <= i < front.len() && ends_message(#[trigger] front[i]) {
            let i = choose|i: int| 0 <= i < front.len() && ends_message(#[trigger] front[i]);
            assert(ends_message(chunks[i]));
        }
        if exists|i: int| 0 <= i < chunks.len() && ends_message(#[trigger] chunks[i]) {
            let i = choose|i: int| 0 <= i < chunks.len() && ends_message(#[trigger] chunks[i]);
            if i < front.len() {
                assert(ends_message(front[i]));
            }
        }
        if ends_message(chunks.last()) {
            assert(ends_message(chunks[chunks.len() - 1]));
        }
    } else {
        assert forall|i: u64| (#[trigger] arguments_told_at(s.out, i)).len() == 0 by {}
    }
}

/// For every call of a Chat stream that did not get stuck, the arguments given out at the
/// index of its block, once it began, are the arguments that came for it, put one after
/// another in the order they came. A call gets stuck only where more than 499 characters
/// came for it. By the chunk that ends the message, the arguments that came for any call
/// are all given out.
pub proof fn law_arguments_of_calls_are_told(model: Seq<char>, chunks: Seq<ChunkV>, k: int)
    requires
        blocks_for(chunks) < u64::MAX,
        0 <= k < after_chunks(ChatV::initial(model), chunks).tools.len(),
    ensures
        ({
            let s = after_chunks(ChatV::initial(model), chunks);
            let t = s.tools[k];
            let came = received(calls_of_chunks(chunks), t.key);
            &&& t.started && !t.aborted ==> arguments_told_at(s.out, t.index) == came
            &&& t.aborted ==> came.len() >= 500
            &&& !t.started ==> arguments_told_at(s.out, t.index).len() == 0
            &&& ends_message(chunks.last()) && (forall|i: int|
                0 <= i < chunks.len() - 1 ==> !ends_message(#[trigger] chunks[i])) && !t.aborted ==> arguments_told_at(
                s.out,
                t.index,
            ) == came
        }),
{
    lemma_chunks_kept(model, chunks);
    let s = after_chunks(ChatV::initial(model), chunks);
    let t = s.tools[k];
    let came = received(calls_of_chunks(chunks), t.key);
    assert(call_is_kept(s, calls_of_chunks(chunks), t));
    if t.started && !t.aborted {
        assert(arguments_told_at(s.out, t.index) + t.pending_args =~= arguments_told_at(s.out, t.index));
    }
    if chunks.len() == 0 {
        assert(s.tools.len() == 0);
    } else {
        let front = chunks.drop_last();
        lemma_chunks_kept(model, front);
        let a = after_chunks(ChatV::initial(model), front);
        lemma_chunk_kept(a, calls_of_chunks(front), chunks.last());
        if ends_message(chunks.last()) && (forall|i: int|
            0 <= i < chunks.len() - 1 ==> !ends_message(#[trigger] chunks[i])) {
            assert forall|i: int| 0 <= i < front.len() implies !ends_message(#[trigger] front[i]) by {
                assert(front[i] == chunks[i]);
            }
            assert(t.pending_args.len() == 0);
            assert(arguments_told_at(s.out, t.index) + t.pending_args =~= arguments_told_at(s.out, t.index));
        }
    }
}

/// Every call that a Chat stream brings a part of is known by its key, and two calls have
/// two blocks.
pub proof fn law_every_call_has_its_block(model: Seq<char>, chunks: Seq<ChunkV>, key: u64)
    requires
        blocks_for(chunks) < u64::MAX,
        received(calls_of_chunks(chunks), key).len() > 0,
    ensures
        ({
            let s = after_chunks(ChatV::initial(model), chunks);
            exists|k: int|
                0 <= k < s.tools.len() && (#[trigger] s.tools[k]).key == key && (forall|j: int|
                    0 <= j < s.tools.len() && j != k ==> (#[trigger] s.tools[j]).index != s.tools[k].index)
        }),
{
    lemma_chunks_kept(model, chunks);
    let s = after_chunks(ChatV::initial(model), chunks);
    lemma_tool_at(s.tools, key);
    let k = tool_at(s.tools, key);
    assert(k < s.tools.len());
    assert(s.tools[k].key == key);
    assert forall|j: int| 0 <= j < s.tools.len() && j != k implies (#[trigger] s.tools[j]).index != s.tools[k].index by {
        if j < k {
            assert(s.tools[j].index != s.tools[k].index);
        } else {
            assert(s.tools[k].index != s.tools[j].index);
        }
    }
}

/// The id and the name of a call are those that came last for it; a part that brings
/// neither leaves them.
pub proof fn law_names_of_calls_are_taken_over(s: ChatV, call: CallV, k: int)
    requires
        0 <= k < s.tools.len(),
        tool_at(s.tools, call.index) == k,
        !s.tools[k].aborted,
    ensures
        ({
            let t = s.with_call(call).tools[k];
            &&& t.id == match call.id {
                Some(id) => id,
                None => s.tools[k].id,
            }
            &&& t.name == match call.name {
                Some(name) => name,
                None => s.tools[k].name,
            }
            &&& t.key == s.tools[k].key
            &&& t.index == s.tools[k].index
            &&& t.started == (s.tools[k].started || t.id.len() > 0 && t.name.len() > 0)
        }),
{
    reveal(ChatV::with_call);
}

proof fn lemma_all_spaces(args: Seq<char>, n: u64)
    requires
        is_blank(args),
        n + args.len() < u64::MAX,
    ensures
        trailing_spaces(args, n) == n + args.len(),
    decreases args.len(),
{
    if args.len() > 0 {
        let front = args.drop_last();
        assert forall|i: int| 0 <= i < front.len() implies is_white_space(#[trigger] front[i]) by {
            assert(front[i] == args[i]);
        }
        lemma_all_spaces(front, n);
        assert(is_white_space(args[args.len() - 1]));
    }
}

/// A call whose arguments are nothing but white space for 500 characters is stuck: they
/// are not given out, and nothing of it is from then on.
pub proof fn law_stuck_call_is_given_up(s: ChatV, call: CallV, later: CallV, k: int, args: Seq<char>)
    requires
        0 <= k < s.tools.len(),
        tool_at(s.tools, call.index) == k,
        later.index == call.index,
        s.tools[k].started,
        !s.tools[k].aborted,
        call.arguments == Some(args),
        is_blank(args),
        500 <= args.len() < 1_000_000,
        s.tools[k].spaces < 1_000_000,
    ensures
        s.with_call(call).tools[k].aborted,
        s.with_call(call).out == s.out,
        s.with_call(call).with_call(later).out == s.out,
{
    reveal(ChatV::with_call);
    lemma_all_spaces(args, s.tools[k].spaces);
    let b = s.with_call(call);
    lemma_tool_at(s.tools, call.index);
    lemma_tool_at(b.tools, call.index);
    assert(b.tools[k].key == call.index);
    let j = tool_at(b.tools, call.index);
    if j < k {
        assert(b.tools[j] == s.tools[j]);
    }
    assert(j == k);
}

} // verus!
