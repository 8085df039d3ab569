//! What a Chat stream says and what the Anthropic events that come of it tell are the
//! same: its text, its thinking and the arguments of its tool calls.

use vstd::prelude::*;
use crate::chat_chunk::{CallV, ChunkV};
use crate::chat_stream::{BlockKind, ChatV, fed_args, named, reasoning_id, startable, started, tool_at, usage_json};
use crate::chunk_text::chunk_in;
use crate::chunking::lemma_chat_blocks;
use crate::convert_response::thinking_block;
use crate::json::{JsonV, num, text_block};
use crate::reasoning_bridge::envelope;
use crate::sse::sse_field;
use crate::stream_data::{data_of_blocks, data_of_lines, data_of_stream, lemma_blank_block, stream_data};
use crate::stream_out::{OutV, PieceV, args_delta, block_delta, block_start, block_stop, message_delta, message_start, message_stop, next_number, reasoning_item, signature, stream_error, text_delta, tool_note, tool_start};
use crate::text::{decimal, lines, trim};
use crate::told::{is_silent, lemma_delta_names, lemma_delta_piece, lemma_errors_are_silent, lemma_message_events_are_silent, lemma_notes_are_silent, lemma_starts_and_stops_are_silent, lemma_told_add, lemma_told_push, lemma_tool_start_is_silent, piece_of, text_told, thinking_told};

verus! {

/// The text of the first choice of a chunk.
pub open spec fn content_of(chunk: ChunkV) -> Seq<char> {
    if chunk.choices.len() > 0 {
        match chunk.choices[0].content {
            Some(t) => t,
            None => Seq::empty(),
        }
    } else {
        Seq::empty()
    }
}

/// The reasoning of the first choice of a chunk.
pub open spec fn reasoning_of(chunk: ChunkV) -> Seq<char> {
    if chunk.choices.len() > 0 {
        match chunk.choices[0].reasoning {
            Some(t) => t,
            None => Seq::empty(),
        }
    } else {
        Seq::empty()
    }
}

/// The chunk that data hold, where they are no mark of the end.
pub open spec fn chunk_of(data: Seq<char>) -> Option<ChunkV> {
    if trim(data) == "[DONE]"@ {
        None
    } else {
        chunk_in(data)
    }
}

/// The text of the chunks in data, put one after another.
pub open spec fn contents_in(data: Seq<Seq<char>>) -> Seq<char>
    decreases data.len(),
{
    if data.len() == 0 {
        Seq::empty()
    } else {
        match chunk_of(data.last()) {
            Some(c) => contents_in(data.drop_last()) + content_of(c),
            None => contents_in(data.drop_last()),
        }
    }
}

/// The reasoning of the chunks in data, put one after another.
pub open spec fn reasonings_in(data: Seq<Seq<char>>) -> Seq<char>
    decreases data.len(),
{
    if data.len() == 0 {
        Seq::empty()
    } else {
        match chunk_of(data.last()) {
            Some(c) => reasonings_in(data.drop_last()) + reasoning_of(c),
            None => reasonings_in(data.drop_last()),
        }
    }
}

/// Whether from state `a` to state `b` the text `x` and the thinking `y` were told.
pub open spec fn tells(a: ChatV, b: ChatV, x: Seq<char>, y: Seq<char>) -> bool {
    &&& text_told(b.out) == text_told(a.out) + x
    &&& thinking_told(b.out) == thinking_told(a.out) + y
}

/// Whether from state `a` to state `b` nothing was told.
pub open spec fn tells_nothing(a: ChatV, b: ChatV) -> bool {
    &&& text_told(b.out) == text_told(a.out)
    &&& thinking_told(b.out) == thinking_told(a.out)
}

proof fn lemma_silent(s: ChatV, o: OutV)
    requires
        is_silent(o),
    ensures
        tells_nothing(s, s.emit(o)),
{
    lemma_told_push(s.out, o, None, "text_delta"@, "text"@);
    lemma_told_push(s.out, o, None, "thinking_delta"@, "thinking"@);
}

/// A delta of a kind that is no text tells nothing.
proof fn lemma_other_delta(s: ChatV, i: u64, kind: Seq<char>, key: Seq<char>, t: Seq<char>)
    requires
        kind == "input_json_delta"@ || kind == "signature_delta"@,
        key != "type"@,
    ensures
        tells_nothing(s, s.emit(block_delta(i, text_delta(kind, key, t)))),
{
    let o = block_delta(i, text_delta(kind, key, t));
    lemma_delta_names();
    lemma_delta_piece(i, kind, key, t, None, "text_delta"@);
    lemma_delta_piece(i, kind, key, t, None, "thinking_delta"@);
    lemma_told_push(s.out, o, None, "text_delta"@, "text"@);
    lemma_told_push(s.out, o, None, "thinking_delta"@, "thinking"@);
    assert(piece_of(o, None, "text_delta"@, "text"@) =~= Seq::empty());
    assert(piece_of(o, None, "thinking_delta"@, "thinking"@) =~= Seq::empty());
    assert(text_told(s.out) + Seq::<char>::empty() =~= text_told(s.out));
    assert(thinking_told(s.out) + Seq::<char>::empty() =~= thinking_told(s.out));
}

proof fn lemma_closed_tells(s: ChatV)
    ensures
        tells_nothing(s, s.closed()),
{
    lemma_delta_names();
    let g = s.signed();
    if let Some(index) = s.block {
        if s.kind == BlockKind::Thinking && s.reasoning.len() > 0 {
            let n = next_number(s.sequence);
            let item = reasoning_item(reasoning_id(n), s.reasoning);
            lemma_other_delta(s, index, "signature_delta"@, "signature"@, envelope(item));
            assert(g.out == s.emit(signature(index, item)).out);
        }
        lemma_starts_and_stops_are_silent(index, JsonV::Null);
        lemma_silent(g, block_stop(index));
    }
}

proof fn lemma_opened_tells(s: ChatV, kind: BlockKind, block: JsonV)
    ensures
        tells_nothing(s, s.opened(kind, block)),
        s.opened(kind, block).block is Some,
{
    if !(s.kind == kind && s.block is Some) {
        let c = s.closed();
        lemma_closed_tells(s);
        lemma_starts_and_stops_are_silent(c.next_index, block);
        lemma_silent(c, block_start(c.next_index, block));
    }
}

proof fn lemma_reasoning_tells(s: ChatV, t: Option<Seq<char>>)
    ensures
        tells(
            s,
            s.with_reasoning(t),
            Seq::empty(),
            match t {
                Some(x) => x,
                None => Seq::empty(),
            },
        ),
{
    assert(text_told(s.out) + Seq::<char>::empty() =~= text_told(s.out));
    assert(thinking_told(s.out) + Seq::<char>::empty() =~= thinking_told(s.out));
    if let Some(x) = t {
        if x.len() > 0 {
            let block = thinking_block(Seq::empty());
            let a = s.opened(BlockKind::Thinking, block);
            lemma_opened_tells(s, BlockKind::Thinking, block);
            let index = a.block->0;
            let b = a.emit(OutV::Log(x));
            lemma_notes_are_silent(x);
            lemma_silent(a, OutV::Log(x));
            let o = block_delta(index, text_delta("thinking_delta"@, "thinking"@, x));
            lemma_delta_names();
            lemma_delta_piece(index, "thinking_delta"@, "thinking"@, x, None, "thinking_delta"@);
            lemma_delta_piece(index, "thinking_delta"@, "thinking"@, x, None, "text_delta"@);
            lemma_told_push(b.out, o, None, "text_delta"@, "text"@);
            lemma_told_push(b.out, o, None, "thinking_delta"@, "thinking"@);
            assert(piece_of(o, None, "text_delta"@, "text"@) =~= Seq::empty());
            assert(s.with_reasoning(t).out == b.out.push(o));
        } else {
            assert(x =~= Seq::empty());
        }
    }
}

proof fn lemma_text_tells(s: ChatV, t: Option<Seq<char>>)
    ensures
        tells(
            s,
            s.with_text(t),
            match t {
                Some(x) => x,
                None => Seq::empty(),
            },
            Seq::empty(),
        ),
{
    assert(text_told(s.out) + Seq::<char>::empty() =~= text_told(s.out));
    assert(thinking_told(s.out) + Seq::<char>::empty() =~= thinking_told(s.out));
    if let Some(x) = t {
        if x.len() > 0 {
            let block = text_block(Seq::empty());
            let a = s.opened(BlockKind::Text, block);
            lemma_opened_tells(s, BlockKind::Text, block);
            let index = a.block->0;
            let b = a.emit(OutV::Log(x));
            lemma_notes_are_silent(x);
            lemma_silent(a, OutV::Log(x));
            let o = block_delta(index, text_delta("text_delta"@, "text"@, x));
            lemma_delta_names();
            lemma_delta_piece(index, "text_delta"@, "text"@, x, None, "text_delta"@);
            lemma_delta_piece(index, "text_delta"@, "text"@, x, None, "thinking_delta"@);
            lemma_told_push(b.out, o, None, "text_delta"@, "text"@);
            lemma_told_push(b.out, o, None, "thinking_delta"@, "thinking"@);
            assert(piece_of(o, None, "thinking_delta"@, "thinking"@) =~= Seq::empty());
            assert(s.with_text(t).out == b.out.push(o));
        } else {
            assert(x =~= Seq::empty());
        }
    }
}

proof fn lemma_tool_started_tells(s: ChatV, index: u64, id: Seq<char>, name: Seq<char>)
    ensures
        tells_nothing(s, s.tool_started(index, id, name)),
{
    lemma_notes_are_silent(name);
    lemma_tool_start_is_silent(index, id, name);
    lemma_silent(s, tool_note(name));
    let a = if s.has_text {
        s
    } else {
        s.emit(tool_note(name))
    };
    lemma_silent(a, tool_start(index, id, name));
}

proof fn lemma_call_tells(s: ChatV, call: CallV)
    ensures
        tells_nothing(s, s.with_call(call)),
{
    reveal(ChatV::with_call);
    lemma_delta_names();
    let a = s.with_tool(call.index);
    let i = tool_at(a.tools, call.index);
    let t = a.tools[i];
    if !t.aborted {
        let t1 = named(t, call);
        let t2 = started(t1);
        let t3 = match call.arguments {
            Some(args) => fed_args(t2, args),
            None => t2,
        };
        let b = ChatV { tools: a.tools.update(i, t3), ..a };
        let c = if startable(t1) {
            b.tool_started(t1.index, t1.id, t1.name)
        } else {
            b
        };
        lemma_tool_started_tells(b, t1.index, t1.id, t1.name);
        let d = if startable(t1) && t1.pending_args.len() > 0 {
            c.emit(args_delta(t1.index, t1.pending_args))
        } else {
            c
        };
        lemma_other_delta(c, t1.index, "input_json_delta"@, "partial_json"@, t1.pending_args);
        if let Some(args) = call.arguments {
            lemma_other_delta(d, t1.index, "input_json_delta"@, "partial_json"@, args);
        }
    }
}

proof fn lemma_each_call_tells(s: ChatV, calls: Seq<CallV>)
    ensures
        tells_nothing(s, s.with_each_call(calls)),
    decreases calls.len(),
{
    if calls.len() > 0 {
        lemma_each_call_tells(s, calls.drop_last());
        lemma_call_tells(s.with_each_call(calls.drop_last()), calls.last());
    }
}

proof fn lemma_late_tells(s: ChatV, n: int)
    ensures
        tells_nothing(s, s.late_started(n)),
    decreases n,
{
    if n > 0 {
        lemma_late_tells(s, n - 1);
        lemma_delta_names();
        let a = s.late_started(n - 1);
        let t = a.tools[n - 1];
        if !(t.started || t.pending_args.len() == 0 && t.id.len() == 0 && t.name.len() == 0) {
            let id = if t.id.len() == 0 {
                "tool_call_"@ + decimal(t.key as nat)
            } else {
                t.id
            };
            let name = if t.name.len() == 0 {
                "unknown_tool"@
            } else {
                t.name
            };
            lemma_tool_started_tells(a, t.index, id, name);
            let r = a.tool_started(t.index, id, name);
            lemma_other_delta(r, t.index, "input_json_delta"@, "partial_json"@, t.pending_args);
        }
    }
}

proof fn lemma_tools_closed_tells(s: ChatV, n: int)
    ensures
        tells_nothing(s, s.tools_closed(n)),
    decreases n,
{
    if n > 0 {
        lemma_tools_closed_tells(s, n - 1);
        let a = s.tools_closed(n - 1);
        let t = a.tools[n - 1];
        lemma_starts_and_stops_are_silent(t.index, JsonV::Null);
        lemma_silent(a, block_stop(t.index));
    }
}

proof fn lemma_finish_tells(s: ChatV, reason: Option<Seq<char>>, usage: Option<JsonV>)
    ensures
        tells_nothing(s, s.with_finish(reason, usage)),
{
    reveal(ChatV::with_finish);
    lemma_closed_tells(s);
    let a = s.closed();
    lemma_late_tells(a, a.tools.len() as int);
    let b = a.late_started(a.tools.len() as int);
    lemma_tools_closed_tells(b, b.tools.len() as int);
}

/// Each chunk tells the text and the reasoning of its first choice, and no more,
/// whatever came before it.
pub proof fn law_chunk_tells_its_text(s: ChatV, chunk: ChunkV)
    ensures
        text_told(s.with_chunk(chunk).out) == text_told(s.out) + content_of(chunk),
        thinking_told(s.with_chunk(chunk).out) == thinking_told(s.out) + reasoning_of(chunk),
{
    reveal(ChatV::with_chunk);
    assert(text_told(s.out) + Seq::<char>::empty() =~= text_told(s.out));
    assert(thinking_told(s.out) + Seq::<char>::empty() =~= thinking_told(s.out));
    let usage = match chunk.usage {
        Some(u) => Some(usage_json(u, u.completion_tokens as u64)),
        None => None,
    };
    let h = s.with_header(chunk.id, usage);
    assert(h.out == s.out);
    if chunk.choices.len() > 0 {
        let choice = chunk.choices[0];
        let shown = match chunk.usage {
            Some(u) => usage_json(u, 0),
            None => JsonV::Object(map!["input_tokens"@ => num(0), "output_tokens"@ => num(0)]),
        };
        lemma_message_events_are_silent(h.message_id, h.model, shown, None, None);
        lemma_silent(h, message_start(h.message_id, h.model, shown));
        let a = h.begun(chunk.usage);
        lemma_reasoning_tells(a, choice.reasoning);
        let b = a.with_reasoning(choice.reasoning);
        lemma_text_tells(b, choice.content);
        let c = b.with_text(choice.content);
        lemma_closed_tells(c);
        if let Some(calls) = choice.calls {
            lemma_each_call_tells(c.closed(), calls);
        }
        let d = c.with_calls(choice.calls);
        lemma_finish_tells(d, choice.finish_reason, usage);
        assert(text_told(a.out) + Seq::<char>::empty() =~= text_told(a.out));
        assert(thinking_told(b.out) + Seq::<char>::empty() =~= thinking_told(b.out));
    }
}

proof fn lemma_flushed_tells(s: ChatV)
    ensures
        tells_nothing(s, s.flushed()),
        tells_nothing(s, s.with_done()),
{
    if let Some(p) = s.pending {
        lemma_message_events_are_silent(Seq::empty(), Seq::empty(), JsonV::Null, p.stop, p.usage);
        lemma_silent(s, message_delta(p.stop, p.usage));
    }
    lemma_message_events_are_silent(Seq::empty(), Seq::empty(), JsonV::Null, None, None);
    lemma_silent(s.flushed(), message_stop());
}

proof fn lemma_data_tells(s: ChatV, data: Seq<char>)
    ensures
        tells(s, s.with_data(data), contents_in(seq![data]), reasonings_in(seq![data])),
{
    reveal(ChatV::with_data);
    reveal_with_fuel(contents_in, 2);
    reveal_with_fuel(reasonings_in, 2);
    lemma_flushed_tells(s);
    assert(text_told(s.out) + Seq::<char>::empty() =~= text_told(s.out));
    assert(thinking_told(s.out) + Seq::<char>::empty() =~= thinking_told(s.out));
    assert(seq![data].last() == data);
    if let Some(c) = chunk_of(data) {
        law_chunk_tells_its_text(s, c);
        assert(Seq::<char>::empty() + content_of(c) =~= content_of(c));
        assert(Seq::<char>::empty() + reasoning_of(c) =~= reasoning_of(c));
    }
}

proof fn lemma_contents_add(a: Seq<Seq<char>>, b: Seq<Seq<char>>)
    ensures
        contents_in(a + b) == contents_in(a) + contents_in(b),
        reasonings_in(a + b) == reasonings_in(a) + reasonings_in(b),
    decreases b.len(),
{
    if b.len() == 0 {
        assert(a + b =~= a);
        assert(contents_in(a) + contents_in(b) =~= contents_in(a));
        assert(reasonings_in(a) + reasonings_in(b) =~= reasonings_in(a));
    } else {
        lemma_contents_add(a, b.drop_last());
        assert((a + b).drop_last() =~= a + b.drop_last());
        assert(contents_in(a + b) =~= contents_in(a) + contents_in(b));
        assert(reasonings_in(a + b) =~= reasonings_in(a) + reasonings_in(b));
    }
}

proof fn lemma_tells_in_turn(a: ChatV, b: ChatV, c: ChatV, d: Seq<Seq<char>>, e: Seq<Seq<char>>)
    requires
        tells(a, b, contents_in(d), reasonings_in(d)),
        tells(b, c, contents_in(e), reasonings_in(e)),
    ensures
        tells(a, c, contents_in(d + e), reasonings_in(d + e)),
{
    lemma_contents_add(d, e);
    assert(text_told(c.out) =~= text_told(a.out) + (contents_in(d) + contents_in(e)));
    assert(thinking_told(c.out) =~= thinking_told(a.out) + (reasonings_in(d) + reasonings_in(e)));
}

proof fn lemma_tells_no_data(s: ChatV)
    ensures
        tells(s, s, contents_in(Seq::empty()), reasonings_in(Seq::empty())),
{
    assert(text_told(s.out) + Seq::<char>::empty() =~= text_told(s.out));
    assert(thinking_told(s.out) + Seq::<char>::empty() =~= thinking_told(s.out));
}

proof fn lemma_lines_tell(s: ChatV, all: Seq<Seq<char>>)
    ensures
        tells(s, s.with_lines(all), contents_in(data_of_lines(all)), reasonings_in(data_of_lines(all))),
    decreases all.len(),
{
    reveal_with_fuel(ChatV::with_lines, 1);
    lemma_tells_no_data(s);
    if all.len() > 0 {
        let front = all.drop_last();
        lemma_lines_tell(s, front);
        if let Some(d) = sse_field(all.last(), "data"@) {
            let m = s.with_lines(front);
            lemma_data_tells(m, d);
            lemma_tells_in_turn(s, m, m.with_data(d), data_of_lines(front), seq![d]);
            assert(data_of_lines(front) + seq![d] =~= data_of_lines(all));
        }
    }
}

proof fn lemma_blocks_tell(s: ChatV, all: Seq<Seq<char>>)
    ensures
        tells(s, s.with_blocks(all), contents_in(data_of_blocks(all)), reasonings_in(data_of_blocks(all))),
    decreases all.len(),
{
    lemma_tells_no_data(s);
    if all.len() > 0 {
        let front = all.drop_last();
        lemma_blocks_tell(s, front);
        let m = s.with_blocks(front);
        let ls = lines(all.last());
        if trim(all.last()).len() == 0 {
            lemma_blank_block(all.last());
            assert(data_of_blocks(front) + data_of_lines(ls) =~= data_of_blocks(front));
        } else {
            lemma_lines_tell(m, ls);
            lemma_tells_in_turn(s, m, m.with_lines(ls), data_of_blocks(front), data_of_lines(ls));
        }
    }
}

proof fn lemma_ended_tells(s: ChatV)
    ensures
        tells_nothing(s, s.ended()),
{
    lemma_closed_tells(s);
    let a = s.closed();
    lemma_flushed_tells(a);
    let b = a.flushed();
    lemma_message_events_are_silent(Seq::empty(), Seq::empty(), JsonV::Null, None, None);
    lemma_silent(b, message_stop());
    let c = if b.sent_stop {
        b
    } else {
        b.emit(message_stop())
    };
    lemma_notes_are_silent(Seq::empty());
    lemma_silent(c, OutV::LogDone);
}

proof fn lemma_whole_tells(s: ChatV, stream: Seq<PieceV>)
    requires
        s.out.len() == 0,
    ensures
        text_told(s.whole(stream)) == contents_in(data_of_stream(s.reader, stream)),
        thinking_told(s.whole(stream)) == reasonings_in(data_of_stream(s.reader, stream)),
    decreases stream.len(),
{
    assert(text_told(s.out) =~= Seq::empty());
    assert(thinking_told(s.out) =~= Seq::empty());
    if stream.len() == 0 {
        lemma_ended_tells(s);
    } else {
        match stream[0] {
            PieceV::Bytes(b) => {
                let fed = ChatV { reader: s.reader.fed(b), ..s };
                let blocks = s.reader.fed_blocks(b);
                lemma_blocks_tell(fed, blocks);
                lemma_chat_blocks(fed, s.reader.fed(b), blocks);
                let next = s.with_bytes(b);
                let rest = stream.drop_first();
                lemma_whole_tells(next.drained(), rest);
                let tail = next.drained().whole(rest);
                lemma_told_add(next.out, tail, None, "text_delta"@, "text"@);
                lemma_told_add(next.out, tail, None, "thinking_delta"@, "thinking"@);
                lemma_contents_add(data_of_blocks(blocks), data_of_stream(next.reader, rest));
                assert(text_told(next.out) =~= contents_in(data_of_blocks(blocks)));
                assert(thinking_told(next.out) =~= reasonings_in(data_of_blocks(blocks)));
            },
            PieceV::Failure(m) => {
                let text = "Stream error: "@ + m;
                let o = stream_error("stream_error"@, text);
                lemma_errors_are_silent("stream_error"@, text);
                lemma_silent(s, o);
                lemma_notes_are_silent(text);
                lemma_silent(s.emit(o), OutV::LogError(text));
            },
        }
    }
}

/// Over a whole Chat stream, the texts of the text deltas given out, put one after
/// another, are the contents of the first choices of the chunks, put one after
/// another; and the thinking given out is their reasoning.
pub proof fn law_chat_stream_tells_its_text(model: Seq<char>, stream: Seq<PieceV>)
    ensures
        text_told(ChatV::initial(model).whole(stream)) == contents_in(stream_data(stream)),
        thinking_told(ChatV::initial(model).whole(stream)) == reasonings_in(stream_data(stream)),
{
    lemma_whole_tells(ChatV::initial(model), stream);
}

} // verus!
