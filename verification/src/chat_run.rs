//! A whole Chat stream gives out what its data give out, one after the other, and a
//! stream that is converted twice is what the first conversion gives out, converted.

use vstd::prelude::*;
use vstd::utf8::encode_utf8;
use crate::bridge::{BridgeV, all_relayed_to_chat, all_relayed_to_responses};
use crate::chat_arguments::after_chunks;
use crate::chat_chunk::{CallV, ChunkV};
use crate::chat_stream::{BlockKind, ChatV, ToolV, fed_args, named, reasoning_id, startable, started, tool_at, usage_json};
use crate::chat_told::chunk_of;
use crate::chunk_text::chunk_in;
use crate::chunking::{lemma_chat_blocks, lemma_chat_chunk};
use crate::convert_response::thinking_block;
use crate::error::LocalEntry;
use crate::forward::UpstreamType;
use crate::json::{JsonV, num, text_block};
use crate::responses_reverse_stream::ToResponsesV;
use crate::responses_told::stream_failure;
use crate::reverse_stream::ReverseV;
use crate::reverse_told::{documents_in, lemma_reverse_all_blocks, lemma_reverse_preceded, reverse_preceded};
use crate::rule_laws::bridged;
use crate::sse::{SseReaderV, sse_field};
use crate::stream_data::{data_of_blocks, data_of_lines, data_of_stream, lemma_blank_block, stream_data};
use crate::stream_out::{OutV, PieceV, args_delta, block_delta, block_start, block_stop, message_delta, message_start, message_stop, next_number, reasoning_item, signature, stream_error, text_delta, tool_note, tool_start};
use crate::streaming_responses::ResponsesV;
use crate::text::{decimal, lines, trim};
use crate::to_responses_told::{lemma_to_responses_all_blocks, lemma_to_responses_preceded, to_responses_preceded};

verus! {

/// The state after a list of data.
pub open spec fn chat_after(s: ChatV, list: Seq<Seq<char>>) -> ChatV
    decreases list.len(),
{
    if list.len() == 0 {
        s
    } else {
        chat_after(s, list.drop_last()).with_data(list.last())
    }
}

/// A state in which `before` was given out ahead of the rest.
pub open spec fn chat_preceded(before: Seq<OutV>, s: ChatV) -> ChatV {
    ChatV { out: before + s.out, ..s }
}

proof fn lemma_chat_emit(before: Seq<OutV>, s: ChatV, o: OutV)
    ensures
        chat_preceded(before, s.emit(o)) == chat_preceded(before, s).emit(o),
{
    assert(before + s.out.push(o) =~= (before + s.out).push(o));
}

proof fn lemma_chat_closed(before: Seq<OutV>, s: ChatV)
    ensures
        chat_preceded(before, s.closed()) == chat_preceded(before, s).closed(),
{
    assert forall|x: ChatV, o: OutV| #[trigger] chat_preceded(before, x.emit(o)) == chat_preceded(before, x).emit(o) by {
        lemma_chat_emit(before, x, o);
    }
    if let Some(index) = s.block {
        if s.kind == BlockKind::Thinking && s.reasoning.len() > 0 {
            let n = next_number(s.sequence);
            let o = signature(index, reasoning_item(reasoning_id(n), s.reasoning));
            let a = ChatV { sequence: n, reasoning: Seq::empty(), ..s };
            lemma_chat_emit(before, a, o);
            lemma_chat_emit(before, a.emit(o), block_stop(index));
        } else {
            lemma_chat_emit(before, s.signed(), block_stop(index));
        }
    }
}

proof fn lemma_chat_opened(before: Seq<OutV>, s: ChatV, kind: BlockKind, block: JsonV)
    ensures
        chat_preceded(before, s.opened(kind, block)) == chat_preceded(before, s).opened(kind, block),
{
    lemma_chat_closed(before, s);
    let c = s.closed();
    lemma_chat_emit(before, c, block_start(c.next_index, block));
}

proof fn lemma_chat_said(before: Seq<OutV>, s: ChatV, t: Option<Seq<char>>)
    ensures
        chat_preceded(before, s.with_reasoning(t)) == chat_preceded(before, s).with_reasoning(t),
        chat_preceded(before, s.with_text(t)) == chat_preceded(before, s).with_text(t),
{
    if let Some(x) = t {
        let thinking = thinking_block(Seq::empty());
        let text = text_block(Seq::empty());
        lemma_chat_opened(before, s, BlockKind::Thinking, thinking);
        lemma_chat_opened(before, s, BlockKind::Text, text);
        let a = s.opened(BlockKind::Thinking, thinking);
        let b = ChatV { reasoning: a.reasoning + x, ..a };
        lemma_chat_emit(before, b, OutV::Log(x));
        if let Some(i) = b.block {
            lemma_chat_emit(
                before,
                b.emit(OutV::Log(x)),
                block_delta(i, text_delta("thinking_delta"@, "thinking"@, x)),
            );
        }
        let c = s.opened(BlockKind::Text, text);
        lemma_chat_emit(before, c, OutV::Log(x));
        if let Some(i) = c.block {
            lemma_chat_emit(before, c.emit(OutV::Log(x)), block_delta(i, text_delta("text_delta"@, "text"@, x)));
        }
    }
}

proof fn lemma_chat_tool_started(before: Seq<OutV>, s: ChatV, index: u64, id: Seq<char>, name: Seq<char>)
    ensures
        chat_preceded(before, s.tool_started(index, id, name)) == chat_preceded(before, s).tool_started(index, id, name),
{
    lemma_chat_emit(before, s, tool_note(name));
    let a = if s.has_text {
        s
    } else {
        s.emit(tool_note(name))
    };
    lemma_chat_emit(before, a, tool_start(index, id, name));
}

proof fn lemma_chat_one_call(before: Seq<OutV>, s: ChatV, call: CallV)
    ensures
        chat_preceded(before, s.with_call(call)) == chat_preceded(before, s).with_call(call),
{
    reveal(ChatV::with_call);
    let a = s.with_tool(call.index);
    let i = tool_at(a.tools, call.index);
    let t = a.tools[i];
    if !t.aborted {
        let t1 = named(t, call);
        let t2 = started(t1);
        let t3 = match call.arguments {
            Some(args) => fed_args(t2, args),
            None => t2,
        };
        let b = ChatV { tools: a.tools.update(i, t3), ..a };
        let c = if startable(t1) {
            b.tool_started(t1.index, t1.id, t1.name)
        } else {
            b
        };
        lemma_chat_tool_started(before, b, t1.index, t1.id, t1.name);
        let d = if startable(t1) && t1.pending_args.len() > 0 {
            c.emit(args_delta(t1.index, t1.pending_args))
        } else {
            c
        };
        lemma_chat_emit(before, c, args_delta(t1.index, t1.pending_args));
        if let Some(args) = call.arguments {
            lemma_chat_emit(before, d, args_delta(t1.index, args));
        }
    }
}

proof fn lemma_chat_all_calls(before: Seq<OutV>, s: ChatV, calls: Seq<CallV>)
    ensures
        chat_preceded(before, s.with_each_call(calls)) == chat_preceded(before, s).with_each_call(calls),
    decreases calls.len(),
{
    if calls.len() > 0 {
        lemma_chat_all_calls(before, s, calls.drop_last());
        lemma_chat_one_call(before, s.with_each_call(calls.drop_last()), calls.last());
    }
}

proof fn lemma_chat_late(before: Seq<OutV>, s: ChatV, n: int)
    ensures
        chat_preceded(before, s.late_started(n)) == chat_preceded(before, s).late_started(n),
    decreases n,
{
    if n > 0 {
        lemma_chat_late(before, s, n - 1);
        let a = s.late_started(n - 1);
        let t = a.tools[n - 1];
        let id = if t.id.len() == 0 {
            "tool_call_"@ + decimal(t.key as nat)
        } else {
            t.id
        };
        let name = if t.name.len() == 0 {
            "unknown_tool"@
        } else {
            t.name
        };
        lemma_chat_tool_started(before, a, t.index, id, name);
        let r = ChatV {
            tools: a.tools.update(n - 1, ToolV { started: true, open: true, pending_args: Seq::empty(), ..t }),
            ..a.tool_started(t.index, id, name)
        };
        lemma_chat_emit(before, r, args_delta(t.index, t.pending_args));
    }
}

proof fn lemma_chat_all_closed(before: Seq<OutV>, s: ChatV, n: int)
    ensures
        chat_preceded(before, s.tools_closed(n)) == chat_preceded(before, s).tools_closed(n),
    decreases n,
{
    if n > 0 {
        lemma_chat_all_closed(before, s, n - 1);
        let a = s.tools_closed(n - 1);
        lemma_chat_emit(before, a, block_stop(a.tools[n - 1].index));
    }
}

proof fn lemma_chat_finished(before: Seq<OutV>, s: ChatV, reason: Option<Seq<char>>, usage: Option<JsonV>)
    ensures
        chat_preceded(before, s.with_finish(reason, usage)) == chat_preceded(before, s).with_finish(reason, usage),
{
    reveal(ChatV::with_finish);
    lemma_chat_closed(before, s);
    let a = s.closed();
    lemma_chat_late(before, a, a.tools.len() as int);
    let b = a.late_started(a.tools.len() as int);
    lemma_chat_all_closed(before, b, b.tools.len() as int);
}

/// What a chunk gives out does not depend on what was given out before it.
pub proof fn law_chunk_goes_by_the_state_alone(before: Seq<OutV>, s: ChatV, chunk: ChunkV)
    ensures
        chat_preceded(before, s.with_chunk(chunk)) == chat_preceded(before, s).with_chunk(chunk),
{
    reveal(ChatV::with_chunk);
    let usage = match chunk.usage {
        Some(u) => Some(usage_json(u, u.completion_tokens as u64)),
        None => None,
    };
    let h = s.with_header(chunk.id, usage);
    assert(chat_preceded(before, h) == chat_preceded(before, s).with_header(chunk.id, usage));
    if chunk.choices.len() > 0 {
        let choice = chunk.choices[0];
        let first = match chunk.usage {
            Some(u) => usage_json(u, 0),
            None => JsonV::Object(map!["input_tokens"@ => num(0), "output_tokens"@ => num(0)]),
        };
        lemma_chat_emit(before, h, message_start(h.message_id, h.model, first));
        let a = h.begun(chunk.usage);
        lemma_chat_said(before, a, choice.reasoning);
        let b = a.with_reasoning(choice.reasoning);
        lemma_chat_said(before, b, choice.content);
        let c = b.with_text(choice.content);
        lemma_chat_closed(before, c);
        if let Some(calls) = choice.calls {
            lemma_chat_all_calls(before, c.closed(), calls);
        }
        let d = c.with_calls(choice.calls);
        lemma_chat_finished(before, d, choice.finish_reason, usage);
    }
}

proof fn lemma_chat_flushed(before: Seq<OutV>, s: ChatV)
    ensures
        chat_preceded(before, s.flushed()) == chat_preceded(before, s).flushed(),
        chat_preceded(before, s.with_done()) == chat_preceded(before, s).with_done(),
{
    if let Some(p) = s.pending {
        lemma_chat_emit(before, s, message_delta(p.stop, p.usage));
    }
    lemma_chat_emit(before, s.flushed(), message_stop());
}

proof fn lemma_chat_data(before: Seq<OutV>, s: ChatV, list: Seq<Seq<char>>)
    ensures
        chat_after(chat_preceded(before, s), list) == chat_preceded(before, chat_after(s, list)),
    decreases list.len(),
{
    reveal(ChatV::with_data);
    if list.len() > 0 {
        lemma_chat_data(before, s, list.drop_last());
        let a = chat_after(s, list.drop_last());
        lemma_chat_flushed(before, a);
        if let Some(c) = chunk_in(list.last()) {
            law_chunk_goes_by_the_state_alone(before, a, c);
        }
    }
}

proof fn lemma_chat_in_turn(s: ChatV, a: Seq<Seq<char>>, b: Seq<Seq<char>>)
    ensures
        chat_after(s, a + b) == chat_after(chat_after(s, a), b),
    decreases b.len(),
{
    if b.len() == 0 {
        assert(a + b =~= a);
    } else {
        lemma_chat_in_turn(s, a, b.drop_last());
        assert((a + b).drop_last() =~= a + b.drop_last());
    }
}

proof fn lemma_chat_lines_are_data(s: ChatV, all: Seq<Seq<char>>)
    ensures
        s.with_lines(all) == chat_after(s, data_of_lines(all)),
    decreases all.len(),
{
    reveal_with_fuel(ChatV::with_lines, 1);
    if all.len() > 0 {
        let front = all.drop_last();
        lemma_chat_lines_are_data(s, front);
        if let Some(d) = sse_field(all.last(), "data"@) {
            assert(data_of_lines(all).drop_last() =~= data_of_lines(front));
        }
    }
}

proof fn lemma_chat_blocks_are_data(s: ChatV, all: Seq<Seq<char>>)
    ensures
        s.with_blocks(all) == chat_after(s, data_of_blocks(all)),
    decreases all.len(),
{
    if all.len() > 0 {
        let front = all.drop_last();
        let last = data_of_lines(lines(all.last()));
        lemma_chat_blocks_are_data(s, front);
        lemma_chat_in_turn(s, data_of_blocks(front), last);
        if trim(all.last()).len() == 0 {
            lemma_blank_block(all.last());
        } else {
            lemma_chat_lines_are_data(s.with_blocks(front), lines(all.last()));
        }
    }
}

/// A state after the end of a stream.
pub open spec fn chat_over(s: ChatV, failure: Option<Seq<char>>) -> ChatV {
    match failure {
        Some(m) => s.failed(m),
        None => s.ended(),
    }
}

proof fn lemma_chat_over(before: Seq<OutV>, s: ChatV, failure: Option<Seq<char>>)
    ensures
        chat_over(chat_preceded(before, s), failure) == chat_preceded(before, chat_over(s, failure)),
{
    match failure {
        Some(m) => {
            let text = "Stream error: "@ + m;
            let o = stream_error("stream_error"@, text);
            lemma_chat_emit(before, s, o);
            lemma_chat_emit(before, s.emit(o), OutV::LogError(text));
        },
        None => {
            lemma_chat_closed(before, s);
            let a = s.closed();
            lemma_chat_flushed(before, a);
            let b = a.flushed();
            lemma_chat_emit(before, b, message_stop());
            let c = if b.sent_stop {
                b
            } else {
                b.emit(message_stop())
            };
            lemma_chat_emit(before, c, OutV::LogDone);
        },
    }
}

proof fn lemma_chat_reader(s: ChatV, r: SseReaderV, blocks: Seq<Seq<char>>)
    ensures
        (ChatV { reader: r, ..s }).with_blocks(blocks) == (ChatV { reader: r, ..s.with_blocks(blocks) }),
{
    lemma_chat_blocks(s, r, blocks);
}

proof fn lemma_chat_whole(s: ChatV, stream: Seq<PieceV>)
    requires
        s.out.len() == 0,
    ensures
        s.whole(stream) == chat_over(
            chat_after(s, data_of_stream(s.reader, stream)),
            stream_failure(stream),
        ).out,
    decreases stream.len(),
{
    if stream.len() > 0 {
        match stream[0] {
            PieceV::Bytes(b) => {
                let rest = stream.drop_first();
                let r = s.reader.fed(b);
                let blocks = s.reader.fed_blocks(b);
                let first = data_of_blocks(blocks);
                let more = data_of_stream(r, rest);
                let next = s.with_bytes(b);
                lemma_chat_reader(s, r, blocks);
                lemma_chat_blocks_are_data(s, blocks);
                lemma_chat_whole(next.drained(), rest);
                assert(chat_preceded(next.out, next.drained()).out =~= next.out);
                assert(chat_preceded(next.out, next.drained()) == next);
                lemma_chat_data(next.out, next.drained(), more);
                let last = chat_after(next.drained(), more);
                lemma_chat_over(next.out, last, stream_failure(rest));
                lemma_chat_in_turn(s, first, more);
                let fed = chat_after(s, first);
                assert(next == ChatV { reader: r, ..fed });
                lemma_chat_data_reader(fed, r, more);
                lemma_chat_over_reader(chat_after(fed, more), r, stream_failure(rest));
            },
            PieceV::Failure(m) => {},
        }
    }
}

proof fn lemma_chat_data_reader(s: ChatV, r: SseReaderV, list: Seq<Seq<char>>)
    ensures
        chat_after(ChatV { reader: r, ..s }, list) == (ChatV { reader: r, ..chat_after(s, list) }),
    decreases list.len(),
{
    reveal(ChatV::with_data);
    if list.len() > 0 {
        lemma_chat_data_reader(s, r, list.drop_last());
        let a = chat_after(s, list.drop_last());
        if let Some(c) = chunk_in(list.last()) {
            lemma_chat_chunk(a, r, c);
        }
    }
}

proof fn lemma_chat_over_reader(s: ChatV, r: SseReaderV, failure: Option<Seq<char>>)
    ensures
        chat_over(ChatV { reader: r, ..s }, failure).out == chat_over(s, failure).out,
{
}

/// A whole Chat stream gives out what its data give out, in the order in which they came,
/// and then what its end or its failure gives out.
pub proof fn law_chat_stream_is_its_data(model: Seq<char>, stream: Seq<PieceV>)
    ensures
        ChatV::initial(model).whole(stream) == chat_over(
            chat_after(ChatV::initial(model), stream_data(stream)),
            stream_failure(stream),
        ).out,
{
    lemma_chat_whole(ChatV::initial(model), stream);
}

/// The chunks that data hold, in order.
pub open spec fn chunks_in(data: Seq<Seq<char>>) -> Seq<ChunkV>
    decreases data.len(),
{
    if data.len() == 0 {
        Seq::empty()
    } else {
        match chunk_of(data.last()) {
            Some(c) => chunks_in(data.drop_last()).push(c),
            None => chunks_in(data.drop_last()),
        }
    }
}

/// Data without a mark of the end are no more than the chunks in them.
pub proof fn law_data_are_their_chunks(s: ChatV, data: Seq<Seq<char>>)
    requires
        forall|i: int| 0 <= i < data.len() ==> trim(#[trigger] data[i]) != "[DONE]"@,
    ensures
        chat_after(s, data) == after_chunks(s, chunks_in(data)),
    decreases data.len(),
{
    reveal(ChatV::with_data);
    if data.len() > 0 {
        let front = data.drop_last();
        assert forall|i: int| 0 <= i < front.len() implies trim(#[trigger] front[i]) != "[DONE]"@ by {
            assert(front[i] == data[i]);
        }
        law_data_are_their_chunks(s, front);
        assert(trim(data[data.len() - 1]) != "[DONE]"@);
        if let Some(c) = chunk_of(data.last()) {
            assert(chunks_in(data).drop_last() =~= chunks_in(front));
        }
    }
}

proof fn lemma_relayed_in_turn(s: ReverseV, t: ToResponsesV, a: Seq<OutV>, b: Seq<OutV>)
    ensures
        all_relayed_to_chat(s, a + b) == all_relayed_to_chat(all_relayed_to_chat(s, a), b),
        all_relayed_to_responses(t, a + b) == all_relayed_to_responses(all_relayed_to_responses(t, a), b),
    decreases b.len(),
{
    if b.len() == 0 {
        assert(a + b =~= a);
    } else {
        lemma_relayed_in_turn(s, t, a, b.drop_last());
        assert((a + b).drop_last() =~= a + b.drop_last());
    }
}

proof fn lemma_relayed_preceded(before: Seq<OutV>, s: ReverseV, t: ToResponsesV, list: Seq<OutV>)
    ensures
        all_relayed_to_chat(reverse_preceded(before, s), list) == reverse_preceded(before, all_relayed_to_chat(s, list)),
        all_relayed_to_responses(to_responses_preceded(before, t), list) == to_responses_preceded(
            before,
            all_relayed_to_responses(t, list),
        ),
    decreases list.len(),
{
    if list.len() > 0 {
        lemma_relayed_preceded(before, s, t, list.drop_last());
        let a = all_relayed_to_chat(s, list.drop_last());
        let b = all_relayed_to_responses(t, list.drop_last());
        match list.last().client_text() {
            Some(text) => {
                let bytes = encode_utf8(text);
                let blocks = a.reader.fed_blocks(bytes);
                let x = ReverseV { reader: a.reader.fed(bytes), ..a };
                lemma_reverse_all_blocks(x, blocks);
                lemma_reverse_all_blocks(reverse_preceded(before, x), blocks);
                lemma_reverse_preceded(before, x, documents_in(data_of_blocks(blocks)));
                let more = b.reader.fed_blocks(bytes);
                let y = ToResponsesV { reader: b.reader.fed(bytes), ..b };
                lemma_to_responses_all_blocks(y, more);
                lemma_to_responses_all_blocks(to_responses_preceded(before, y), more);
                lemma_to_responses_preceded(before, y, documents_in(data_of_blocks(more)));
            },
            None => {
                let o = list.last();
                assert(before + a.out.push(o) =~= (before + a.out).push(o));
                assert(before + b.out.push(o) =~= (before + b.out).push(o));
            },
        }
    }
}

proof fn lemma_two_stages(a: ResponsesV, b: ReverseV, c: ChatV, d: ToResponsesV, stream: Seq<PieceV>)
    requires
        b.out.len() == 0,
        d.out.len() == 0,
    ensures
        bridged(BridgeV::ResponsesToChat(a, b), stream) == all_relayed_to_chat(b, a.whole(stream)).ended().out,
        bridged(BridgeV::ChatToResponses(c, d), stream) == all_relayed_to_responses(d, c.whole(stream)).ended().out,
    decreases stream.len(),
{
    if stream.len() == 0 {
        let x = all_relayed_to_chat(b, a.whole(stream));
        let y = all_relayed_to_responses(d, c.whole(stream));
        assert(x.out + x.drained().ended().out =~= x.ended().out);
        assert(y.out + y.drained().ended().out =~= y.ended().out);
    } else {
        match stream[0] {
            PieceV::Bytes(bytes) => {
                let rest = stream.drop_first();
                let p = a.with_bytes(bytes);
                let q = c.with_bytes(bytes);
                let x = all_relayed_to_chat(b, p.progress.out);
                let y = all_relayed_to_responses(d, q.out);
                lemma_two_stages(p.drained(), x.drained(), q.drained(), y.drained(), rest);
                let u = p.drained().whole(rest);
                let v = q.drained().whole(rest);
                lemma_relayed_in_turn(b, d, p.progress.out, u);
                lemma_relayed_in_turn(b, d, q.out, v);
                assert(reverse_preceded(x.out, x.drained()).out =~= x.out);
                assert(reverse_preceded(x.out, x.drained()) == x);
                assert(to_responses_preceded(y.out, y.drained()).out =~= y.out);
                assert(to_responses_preceded(y.out, y.drained()) == y);
                lemma_relayed_preceded(x.out, x.drained(), y.drained(), u);
                lemma_relayed_preceded(y.out, x.drained(), y.drained(), v);
                let m = all_relayed_to_chat(x.drained(), u);
                let n = all_relayed_to_responses(y.drained(), v);
                assert(x.out + m.ended().out =~= reverse_preceded(x.out, m).ended().out);
                assert(y.out + n.ended().out =~= to_responses_preceded(y.out, n).ended().out);
            },
            PieceV::Failure(m) => {
                let x = all_relayed_to_chat(b, a.whole(stream));
                let y = all_relayed_to_responses(d, c.whole(stream));
                assert(x.out + x.drained().ended().out =~= x.ended().out);
                assert(y.out + y.drained().ended().out =~= y.ended().out);
            },
        }
    }
}

/// A stream that goes by way of the Anthropic format is what the first conversion gives
/// out over the whole stream, each event of it read by the second conversion, which then
/// comes to its end.
pub proof fn law_stream_goes_by_way_of_anthropic(model: Seq<char>, stream: Seq<PieceV>)
    ensures
        bridged(BridgeV::initial(LocalEntry::OaiChat, UpstreamType::OaiResponses, model), stream) == all_relayed_to_chat(
            ReverseV::initial(model, false),
            ResponsesV::initial(model).whole(stream),
        ).ended().out,
        bridged(BridgeV::initial(LocalEntry::OaiResponses, UpstreamType::OaiChat, model), stream)
            == all_relayed_to_responses(
            ToResponsesV::initial(model, false),
            ChatV::initial(model).whole(stream),
        ).ended().out,
{
    lemma_two_stages(
        ResponsesV::initial(model),
        ReverseV::initial(model, false),
        ChatV::initial(model),
        ToResponsesV::initial(model, false),
        stream,
    );
}

} // verus!
