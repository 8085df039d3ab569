//! Streams are converted the same however their bytes are cut into chunks, as long
//! as their blank lines are all of one kind.

use vstd::prelude::*;
use crate::chat_chunk::{CallV, ChunkV};
use crate::chat_stream::{ChatV, usage_json};
use crate::chunk_text::chunk_in;
use crate::json::JsonV;
use crate::json_text::json_parse;
use crate::passthrough_log::PassthroughV;
use crate::responses_reverse_stream::ToResponsesV;
use crate::reverse_stream::ReverseV;
use crate::sse::{SseReaderV, block_end, blocks, decoded, law_reader_takes_any_chunks, one_kind_of_break, sse_field};
use crate::streaming_responses::{ResponsesV, StreamingV, after_text, frame, is_failure};
use crate::text::{lines, trim};

verus! {

/// Whether the blank lines of the text that a reader comes to hold are all of one
/// kind.
pub open spec fn even_line_breaks(r: SseReaderV, bytes: Seq<u8>) -> bool {
    one_kind_of_break(r.buffer + decoded(r.remainder + bytes).text)
}

/// A conversion with another reader.
pub open spec fn chat_with_reader(s: ChatV, r: SseReaderV) -> ChatV {
    ChatV { reader: r, ..s }
}

proof fn lemma_chat_call(s: ChatV, r: SseReaderV, call: CallV)
    ensures
        chat_with_reader(s, r).with_call(call) == chat_with_reader(s.with_call(call), r),
{
    reveal(ChatV::with_call);
}

proof fn lemma_chat_each_call(s: ChatV, r: SseReaderV, calls: Seq<CallV>)
    ensures
        chat_with_reader(s, r).with_each_call(calls) == chat_with_reader(s.with_each_call(calls), r),
    decreases calls.len(),
{
    if calls.len() > 0 {
        lemma_chat_each_call(s, r, calls.drop_last());
        lemma_chat_call(s.with_each_call(calls.drop_last()), r, calls.last());
    }
}

proof fn lemma_chat_late_started(s: ChatV, r: SseReaderV, n: int)
    ensures
        chat_with_reader(s, r).late_started(n) == chat_with_reader(s.late_started(n), r),
    decreases n,
{
    if n > 0 {
        lemma_chat_late_started(s, r, n - 1);
    }
}

proof fn lemma_chat_tools_closed(s: ChatV, r: SseReaderV, n: int)
    ensures
        chat_with_reader(s, r).tools_closed(n) == chat_with_reader(s.tools_closed(n), r),
    decreases n,
{
    if n > 0 {
        lemma_chat_tools_closed(s, r, n - 1);
    }
}

proof fn lemma_chat_finish(s: ChatV, r: SseReaderV, reason: Option<Seq<char>>, usage: Option<JsonV>)
    ensures
        chat_with_reader(s, r).with_finish(reason, usage) == chat_with_reader(s.with_finish(reason, usage), r),
{
    reveal(ChatV::with_finish);
    let c = s.closed();
    assert(chat_with_reader(s, r).closed() == chat_with_reader(c, r));
    lemma_chat_late_started(c, r, c.tools.len() as int);
    let l = c.late_started(c.tools.len() as int);
    lemma_chat_tools_closed(l, r, l.tools.len() as int);
}

pub proof fn lemma_chat_chunk(s: ChatV, r: SseReaderV, chunk: ChunkV)
    ensures
        chat_with_reader(s, r).with_chunk(chunk) == chat_with_reader(s.with_chunk(chunk), r),
{
    reveal(ChatV::with_chunk);
    let usage = match chunk.usage {
        Some(u) => Some(usage_json(u, u.completion_tokens as u64)),
        None => None,
    };
    let t = chat_with_reader(s, r);
    let a = s.with_header(chunk.id, usage);
    assert(t.with_header(chunk.id, usage) == chat_with_reader(a, r));
    if chunk.choices.len() > 0 {
        let choice = chunk.choices[0];
        let b = a.begun(chunk.usage);
        assert(chat_with_reader(a, r).begun(chunk.usage) == chat_with_reader(b, r));
        let c = b.with_reasoning(choice.reasoning);
        assert(chat_with_reader(b, r).with_reasoning(choice.reasoning) == chat_with_reader(c, r));
        let d = c.with_text(choice.content);
        assert(chat_with_reader(c, r).with_text(choice.content) == chat_with_reader(d, r));
        let e = d.with_calls(choice.calls);
        assert(chat_with_reader(d, r).with_calls(choice.calls) == chat_with_reader(e, r)) by {
            assert(chat_with_reader(d, r).closed() == chat_with_reader(d.closed(), r));
            if let Some(calls) = choice.calls {
                lemma_chat_each_call(d.closed(), r, calls);
            }
        }
        lemma_chat_finish(e, r, choice.finish_reason, usage);
    }
}

proof fn lemma_chat_lines(s: ChatV, r: SseReaderV, lines: Seq<Seq<char>>)
    ensures
        chat_with_reader(s, r).with_lines(lines) == chat_with_reader(s.with_lines(lines), r),
    decreases lines.len(),
{
    reveal_with_fuel(ChatV::with_lines, 1);
    reveal(ChatV::with_data);
    if lines.len() > 0 {
        let front = s.with_lines(lines.drop_last());
        lemma_chat_lines(s, r, lines.drop_last());
        if let Some(data) = sse_field(lines.last(), "data"@) {
            if let Some(chunk) = chunk_in(data) {
                lemma_chat_chunk(front, r, chunk);
            }
        }
    }
}

pub proof fn lemma_chat_blocks(s: ChatV, r: SseReaderV, blocks: Seq<Seq<char>>)
    ensures
        chat_with_reader(s, r).with_blocks(blocks) == chat_with_reader(s.with_blocks(blocks), r),
    decreases blocks.len(),
{
    if blocks.len() > 0 {
        lemma_chat_blocks(s, r, blocks.drop_last());
        lemma_chat_lines(s.with_blocks(blocks.drop_last()), r, lines(blocks.last()));
    }
}

proof fn lemma_chat_blocks_in_turn(s: ChatV, a: Seq<Seq<char>>, b: Seq<Seq<char>>)
    ensures
        s.with_blocks(a + b) == s.with_blocks(a).with_blocks(b),
    decreases b.len(),
{
    if b.len() > 0 {
        assert((a + b).drop_last() =~= a + b.drop_last());
        lemma_chat_blocks_in_turn(s, a, b.drop_last());
    } else {
        assert(a + b =~= a);
    }
}

/// A Chat stream is converted the same however its bytes are cut into chunks.
pub proof fn law_chat_stream_takes_any_chunks(s: ChatV, a: Seq<u8>, b: Seq<u8>)
    requires
        even_line_breaks(s.reader, a + b),
    ensures
        s.with_bytes(a + b) == s.with_bytes(a).with_bytes(b),
{
    assert(s.reader.remainder + (a + b) =~= s.reader.remainder + a + b);
    law_reader_takes_any_chunks(s.reader, a, b);
    let one = s.reader.fed(a);
    let two = s.reader.fed(a + b);
    let x = s.reader.fed_blocks(a);
    let y = one.fed_blocks(b);
    lemma_chat_blocks(s, one, x);
    lemma_chat_blocks(s, two, x + y);
    lemma_chat_blocks_in_turn(s, x, y);
    lemma_chat_blocks(s.with_blocks(x), two, y);
}

/// A conversion with another reader.
pub open spec fn reverse_with_reader(s: ReverseV, r: SseReaderV) -> ReverseV {
    ReverseV { reader: r, ..s }
}

proof fn lemma_reverse_event(s: ReverseV, r: SseReaderV, ev: JsonV)
    ensures
        reverse_with_reader(s, r).with_event(ev) == reverse_with_reader(s.with_event(ev), r),
{
}

proof fn lemma_reverse_lines(s: ReverseV, r: SseReaderV, lines: Seq<Seq<char>>)
    ensures
        reverse_with_reader(s, r).with_lines(lines) == reverse_with_reader(s.with_lines(lines), r),
    decreases lines.len(),
{
    reveal_with_fuel(ReverseV::with_lines, 1);
    reveal(ReverseV::with_data);
    if lines.len() > 0 {
        let front = s.with_lines(lines.drop_last());
        lemma_reverse_lines(s, r, lines.drop_last());
        if let Some(data) = sse_field(lines.last(), "data"@) {
            if let Ok(ev) = json_parse(data) {
                lemma_reverse_event(front, r, ev);
            }
        }
    }
}


proof fn lemma_reverse_blocks(s: ReverseV, r: SseReaderV, blocks: Seq<Seq<char>>)
    ensures
        reverse_with_reader(s, r).with_blocks(blocks) == reverse_with_reader(s.with_blocks(blocks), r),
    decreases blocks.len(),
{
    if blocks.len() > 0 {
        lemma_reverse_blocks(s, r, blocks.drop_last());
        lemma_reverse_lines(s.with_blocks(blocks.drop_last()), r, lines(blocks.last()));
    }
}

proof fn lemma_reverse_blocks_in_turn(s: ReverseV, a: Seq<Seq<char>>, b: Seq<Seq<char>>)
    ensures
        s.with_blocks(a + b) == s.with_blocks(a).with_blocks(b),
    decreases b.len(),
{
    if b.len() > 0 {
        assert((a + b).drop_last() =~= a + b.drop_last());
        lemma_reverse_blocks_in_turn(s, a, b.drop_last());
    } else {
        assert(a + b =~= a);
    }
}

/// An Anthropic stream is converted to a Chat stream the same however its bytes are cut into chunks.
pub proof fn law_reverse_stream_takes_any_chunks(s: ReverseV, a: Seq<u8>, b: Seq<u8>)
    requires
        even_line_breaks(s.reader, a + b),
    ensures
        s.with_bytes(a + b) == s.with_bytes(a).with_bytes(b),
{
    assert(s.reader.remainder + (a + b) =~= s.reader.remainder + a + b);
    law_reader_takes_any_chunks(s.reader, a, b);
    let one = s.reader.fed(a);
    let two = s.reader.fed(a + b);
    let x = s.reader.fed_blocks(a);
    let y = one.fed_blocks(b);
    lemma_reverse_blocks(s, one, x);
    lemma_reverse_blocks(s, two, x + y);
    lemma_reverse_blocks_in_turn(s, x, y);
    lemma_reverse_blocks(s.with_blocks(x), two, y);
}

/// A conversion with another reader.
pub open spec fn to_responses_with_reader(s: ToResponsesV, r: SseReaderV) -> ToResponsesV {
    ToResponsesV { reader: r, ..s }
}

proof fn lemma_to_responses_event(s: ToResponsesV, r: SseReaderV, ev: JsonV)
    ensures
        to_responses_with_reader(s, r).with_event(ev) == to_responses_with_reader(s.with_event(ev), r),
{
}

proof fn lemma_to_responses_lines(s: ToResponsesV, r: SseReaderV, lines: Seq<Seq<char>>)
    ensures
        to_responses_with_reader(s, r).with_lines(lines) == to_responses_with_reader(s.with_lines(lines), r),
    decreases lines.len(),
{
    reveal_with_fuel(ToResponsesV::with_lines, 1);
    reveal(ToResponsesV::with_data);
    if lines.len() > 0 {
        let front = s.with_lines(lines.drop_last());
        lemma_to_responses_lines(s, r, lines.drop_last());
        if let Some(data) = sse_field(lines.last(), "data"@) {
            if let Ok(ev) = json_parse(data) {
                lemma_to_responses_event(front, r, ev);
            }
        }
    }
}


proof fn lemma_to_responses_blocks(s: ToResponsesV, r: SseReaderV, blocks: Seq<Seq<char>>)
    ensures
        to_responses_with_reader(s, r).with_blocks(blocks) == to_responses_with_reader(s.with_blocks(blocks), r),
    decreases blocks.len(),
{
    if blocks.len() > 0 {
        lemma_to_responses_blocks(s, r, blocks.drop_last());
        lemma_to_responses_lines(s.with_blocks(blocks.drop_last()), r, lines(blocks.last()));
    }
}

proof fn lemma_to_responses_blocks_in_turn(s: ToResponsesV, a: Seq<Seq<char>>, b: Seq<Seq<char>>)
    ensures
        s.with_blocks(a + b) == s.with_blocks(a).with_blocks(b),
    decreases b.len(),
{
    if b.len() > 0 {
        assert((a + b).drop_last() =~= a + b.drop_last());
        lemma_to_responses_blocks_in_turn(s, a, b.drop_last());
    } else {
        assert(a + b =~= a);
    }
}

/// An Anthropic stream is converted to a Responses stream the same however its bytes are cut into chunks.
pub proof fn law_to_responses_stream_takes_any_chunks(s: ToResponsesV, a: Seq<u8>, b: Seq<u8>)
    requires
        even_line_breaks(s.reader, a + b),
    ensures
        s.with_bytes(a + b) == s.with_bytes(a).with_bytes(b),
{
    assert(s.reader.remainder + (a + b) =~= s.reader.remainder + a + b);
    law_reader_takes_any_chunks(s.reader, a, b);
    let one = s.reader.fed(a);
    let two = s.reader.fed(a + b);
    let x = s.reader.fed_blocks(a);
    let y = one.fed_blocks(b);
    lemma_to_responses_blocks(s, one, x);
    lemma_to_responses_blocks(s, two, x + y);
    lemma_to_responses_blocks_in_turn(s, x, y);
    lemma_to_responses_blocks(s.with_blocks(x), two, y);
}

/// A conversion with another reader.
pub open spec fn passthrough_with_reader(s: PassthroughV, r: SseReaderV) -> PassthroughV {
    PassthroughV { reader: r, ..s }
}

proof fn lemma_passthrough_block(s: PassthroughV, r: SseReaderV, block: Seq<char>)
    ensures
        passthrough_with_reader(s, r).with_block(block) == passthrough_with_reader(s.with_block(block), r),
{
    reveal(PassthroughV::with_block);
}


proof fn lemma_passthrough_blocks(s: PassthroughV, r: SseReaderV, blocks: Seq<Seq<char>>)
    ensures
        passthrough_with_reader(s, r).with_blocks(blocks) == passthrough_with_reader(s.with_blocks(blocks), r),
    decreases blocks.len(),
{
    if blocks.len() > 0 {
        lemma_passthrough_blocks(s, r, blocks.drop_last());
        lemma_passthrough_block(s.with_blocks(blocks.drop_last()), r, blocks.last());
    }
}

proof fn lemma_passthrough_blocks_in_turn(s: PassthroughV, a: Seq<Seq<char>>, b: Seq<Seq<char>>)
    ensures
        s.with_blocks(a + b) == s.with_blocks(a).with_blocks(b),
    decreases b.len(),
{
    if b.len() > 0 {
        assert((a + b).drop_last() =~= a + b.drop_last());
        lemma_passthrough_blocks_in_turn(s, a, b.drop_last());
    } else {
        assert(a + b =~= a);
    }
}

/// A stream that is passed on is logged the same however its bytes are cut into chunks.
pub proof fn law_passthrough_log_takes_any_chunks(s: PassthroughV, a: Seq<u8>, b: Seq<u8>)
    requires
        even_line_breaks(s.reader, a + b),
    ensures
        s.with_bytes(a + b) == s.with_bytes(a).with_bytes(b),
{
    assert(s.reader.remainder + (a + b) =~= s.reader.remainder + a + b);
    law_reader_takes_any_chunks(s.reader, a, b);
    let one = s.reader.fed(a);
    let two = s.reader.fed(a + b);
    let x = s.reader.fed_blocks(a);
    let y = one.fed_blocks(b);
    lemma_passthrough_blocks(s, one, x);
    lemma_passthrough_blocks(s, two, x + y);
    lemma_passthrough_blocks_in_turn(s, x, y);
    lemma_passthrough_blocks(s.with_blocks(x), two, y);
}

/// The progress after blocks none of which reports a failure.
pub open spec fn with_frames(s: StreamingV, blocks: Seq<Seq<char>>) -> StreamingV
    decreases blocks.len(),
{
    if blocks.len() == 0 {
        s
    } else {
        let rest = blocks.drop_first();
        if trim(blocks[0]).len() == 0 {
            with_frames(s, rest)
        } else {
            with_frames(s.with_frame(frame(lines(blocks[0]))), rest)
        }
    }
}

/// Whether a block reports that the response failed.
pub open spec fn reports_failure(block: Seq<char>) -> bool {
    trim(block).len() > 0 && is_failure(frame(lines(block)))
}

/// Whether no block of a list reports that the response failed.
pub open spec fn no_failure(blocks: Seq<Seq<char>>) -> bool {
    forall|i: int| 0 <= i < blocks.len() ==> !reports_failure(#[trigger] blocks[i])
}

proof fn lemma_after_text(s: StreamingV, text: Seq<char>)
    requires
        no_failure(blocks(text).0),
    ensures
        after_text(s, text) == (with_frames(s, blocks(text).0), blocks(text).1),
    decreases text.len(),
{
    if let Some((at, len)) = block_end(text) {
        if 0 <= at && 0 < len && at + len <= text.len() {
            let block = text.take(at);
            let rest = text.skip(at + len);
            let all = blocks(text).0;
            assert(all[0] == block);
            assert(all.drop_first() =~= blocks(rest).0);
            assert forall|i: int| 0 <= i < blocks(rest).0.len() implies !reports_failure(
                #[trigger] blocks(rest).0[i],
            ) by {
                assert(blocks(rest).0[i] == all[i + 1]);
            }
            if trim(block).len() == 0 {
                lemma_after_text(s, rest);
            } else {
                lemma_after_text(s.with_frame(frame(lines(block))), rest);
            }
        }
    }
}

proof fn lemma_frames_in_turn(s: StreamingV, a: Seq<Seq<char>>, b: Seq<Seq<char>>)
    ensures
        with_frames(s, a + b) == with_frames(with_frames(s, a), b),
    decreases a.len(),
{
    if a.len() > 0 {
        assert((a + b).drop_first() =~= a.drop_first() + b);
        assert((a + b)[0] == a[0]);
        if trim(a[0]).len() == 0 {
            lemma_frames_in_turn(s, a.drop_first(), b);
        } else {
            lemma_frames_in_turn(s.with_frame(frame(lines(a[0]))), a.drop_first(), b);
        }
    } else {
        assert(a + b =~= b);
    }
}

/// A Responses stream in which no failure is reported is converted the same however
/// its bytes are cut into chunks.
pub proof fn law_responses_stream_takes_any_chunks(s: ResponsesV, a: Seq<u8>, b: Seq<u8>)
    requires
        even_line_breaks(SseReaderV { buffer: s.buffer, remainder: s.remainder }, a + b),
        no_failure(SseReaderV { buffer: s.buffer, remainder: s.remainder }.fed_blocks(a + b)),
    ensures
        s.with_bytes(a + b) == s.with_bytes(a).with_bytes(b),
{
    let r = SseReaderV { buffer: s.buffer, remainder: s.remainder };
    assert(r.remainder + (a + b) =~= r.remainder + a + b);
    law_reader_takes_any_chunks(r, a, b);
    let x = r.fed_blocks(a);
    let y = r.fed(a).fed_blocks(b);
    assert forall|i: int| 0 <= i < x.len() implies !reports_failure(#[trigger] x[i]) by {
        assert((x + y)[i] == x[i]);
    }
    assert forall|i: int| 0 <= i < y.len() implies !reports_failure(#[trigger] y[i]) by {
        assert((x + y)[x.len() + i] == y[i]);
    }
    lemma_after_text(s.progress, r.buffer + decoded(r.remainder + a).text);
    lemma_after_text(s.progress, r.buffer + decoded(r.remainder + (a + b)).text);
    let one = s.with_bytes(a);
    lemma_after_text(one.progress, one.buffer + decoded(one.remainder + b).text);
    lemma_frames_in_turn(s.progress, x, y);
}

} // verus!
