//! How a converted stream begins and ends, and what it counts.

use vstd::prelude::*;
use crate::chat_arguments::lemma_spaces;
use crate::chat_chunk::{CallV, ChunkV, Usage};
use crate::chat_stream::{BlockKind, ChatV, PendingV, lemma_tool_at, tool_at, usage_json};
use crate::chunk_text::chunk_in;
use crate::json::{JsonV, NumV, num, or_zero};
use crate::replies_told::lemma_usage_keys;
use crate::responses_ends::{block_begins, block_ends, block_grows};
use crate::stream_out::{OutV, lemma_shown_push, shown};
use crate::streaming_responses::StreamingV;
use crate::text::trim;

verus! {

/// Where a Chat usage counts no more tokens of the cache than it counts in all, every
/// token of the prompt is counted once: as read from the cache, as written to it, or as
/// input.
pub proof fn law_stream_usage_is_counted_once(u: Usage, output: u64)
    ensures
        ({
            let r = usage_json(u, output);
            let read = match u.cache_read_input_tokens {
                Some(n) => n,
                None => match u.prompt_tokens_details {
                    Some(d) => d.cached_tokens,
                    None => 0,
                },
            };
            let created = match u.cache_creation_input_tokens {
                Some(n) => n,
                None => match u.prompt_tokens_details {
                    Some(d) => d.cache_write_tokens,
                    None => 0,
                },
            };
            &&& r.u64_at("output_tokens"@) == Some(output)
            &&& or_zero(r.u64_at("cache_read_input_tokens"@)) == read
            &&& or_zero(r.u64_at("cache_creation_input_tokens"@)) == created
            &&& read + created <= u.prompt_tokens ==> or_zero(r.u64_at("input_tokens"@)) + read + created
                == u.prompt_tokens
            &&& read + created > u.prompt_tokens ==> r.u64_at("input_tokens"@) == Some(0u64)
        }),
{
    lemma_usage_keys();
}

/// The event that begins a message.
pub open spec fn begins_with(id: Seq<char>, model: Seq<char>, usage: JsonV) -> OutV {
    OutV::Event {
        name: "message_start"@,
        data: JsonV::Object(
            map![
                "type"@ => JsonV::Text("message_start"@),
                "message"@ => JsonV::Object(
                    map![
                        "id"@ => JsonV::Text(id),
                        "type"@ => JsonV::Text("message"@),
                        "role"@ => JsonV::Text("assistant"@),
                        "model"@ => JsonV::Text(model),
                        "usage"@ => usage,
                    ],
                ),
            ],
        ),
    }
}

/// Whether a state gave out what another gave out, and maybe more.
pub open spec fn extends(a: ChatV, b: ChatV) -> bool {
    &&& a.out.len() <= b.out.len()
    &&& forall|i: int| 0 <= i < a.out.len() ==> a.out[i] == #[trigger] b.out[i]
    &&& b.sent_start == a.sent_start
    &&& b.model == a.model
    &&& b.message_id == a.message_id
}

proof fn lemma_call_extends(s: ChatV, call: CallV)
    ensures
        extends(s, s.with_call(call)),
{
    reveal(ChatV::with_call);
}

proof fn lemma_each_call_extends(s: ChatV, list: Seq<CallV>)
    ensures
        extends(s, s.with_each_call(list)),
    decreases list.len(),
{
    if list.len() > 0 {
        lemma_each_call_extends(s, list.drop_last());
        lemma_call_extends(s.with_each_call(list.drop_last()), list.last());
    }
}

proof fn lemma_late_extends(s: ChatV, n: int)
    ensures
        extends(s, s.late_started(n)),
    decreases n,
{
    if n > 0 {
        lemma_late_extends(s, n - 1);
    }
}

proof fn lemma_tools_closed_extends(s: ChatV, n: int)
    ensures
        extends(s, s.tools_closed(n)),
    decreases n,
{
    if n > 0 {
        lemma_tools_closed_extends(s, n - 1);
    }
}

proof fn lemma_rest_extends(s: ChatV, chunk: ChunkV, usage: Option<JsonV>)
    requires
        chunk.choices.len() > 0,
    ensures
        ({
            let choice = chunk.choices[0];
            extends(
                s,
                s.with_reasoning(choice.reasoning).with_text(choice.content).with_calls(choice.calls).with_finish(
                    choice.finish_reason,
                    usage,
                ),
            )
        }),
{
    reveal(ChatV::with_finish);
    let choice = chunk.choices[0];
    let b = s.with_reasoning(choice.reasoning);
    assert(extends(s, b));
    let c = b.with_text(choice.content);
    assert(extends(b, c));
    if let Some(list) = choice.calls {
        lemma_each_call_extends(c.closed(), list);
    }
    let d = c.with_calls(choice.calls);
    assert(extends(c, d));
    let e = d.closed();
    assert(extends(d, e));
    lemma_late_extends(e, e.tools.len() as int);
    let f = e.late_started(e.tools.len() as int);
    lemma_tools_closed_extends(f, f.tools.len() as int);
    assert(extends(d, d.with_finish(choice.finish_reason, usage)));
}

/// The first chunk with a choice begins the message, before anything else, with the first
/// id that came and the model that was asked for; no later chunk does. What was given out
/// is never taken back.
pub proof fn law_chat_stream_begins_its_message(s: ChatV, chunk: ChunkV)
    ensures
        ({
            let b = s.with_chunk(chunk);
            let id = if s.message_id.len() == 0 && chunk.id.len() > 0 {
                chunk.id
            } else {
                s.message_id
            };
            &&& b.message_id == id
            &&& b.model == s.model
            &&& s.out.len() <= b.out.len()
            &&& forall|i: int| 0 <= i < s.out.len() ==> s.out[i] == #[trigger] b.out[i]
            &&& b.sent_start == (s.sent_start || chunk.choices.len() > 0)
            &&& !s.sent_start && chunk.choices.len() > 0 ==> {
                let first = b.out[s.out.len() as int];
                &&& b.out.len() > s.out.len()
                &&& first == begins_with(
                    id,
                    s.model,
                    match chunk.usage {
                        Some(u) => usage_json(u, 0),
                        None => JsonV::Object(
                            map![
                                "input_tokens"@ => JsonV::Number(NumV::Int(0)),
                                "output_tokens"@ => JsonV::Number(NumV::Int(0)),
                            ],
                        ),
                    },
                )
            }
            &&& chunk.choices.len() == 0 ==> b.out == s.out
        }),
{
    reveal(ChatV::with_chunk);
    let usage = match chunk.usage {
        Some(u) => Some(usage_json(u, u.completion_tokens as u64)),
        None => None,
    };
    let h = s.with_header(chunk.id, usage);
    if chunk.choices.len() > 0 {
        let a = h.begun(chunk.usage);
        lemma_rest_extends(a, chunk, usage);
        let b = s.with_chunk(chunk);
        assert(extends(a, b));
        assert forall|i: int| 0 <= i < s.out.len() implies s.out[i] == #[trigger] b.out[i] by {
            assert(a.out[i] == s.out[i]);
        }
        if !s.sent_start {
            let shown = match chunk.usage {
                Some(u) => usage_json(u, 0),
                None => JsonV::Object(map!["input_tokens"@ => num(0), "output_tokens"@ => num(0)]),
            };
            let first = begins_with(h.message_id, s.model, shown);
            assert(a.out[s.out.len() as int] == first);
            assert(b.out[s.out.len() as int] == first);
        }
    }
}

/// The event that tells why a message ended and what it used.
pub open spec fn ends_with(stop: JsonV, usage: JsonV) -> OutV {
    OutV::Event {
        name: "message_delta"@,
        data: JsonV::Object(
            map![
                "type"@ => JsonV::Text("message_delta"@),
                "delta"@ => JsonV::Object(map!["stop_reason"@ => stop, "stop_sequence"@ => JsonV::Null]),
                "usage"@ => usage,
            ],
        ),
    }
}

/// The event after which nothing of a message comes.
pub open spec fn is_over() -> OutV {
    OutV::Event {
        name: "message_stop"@,
        data: JsonV::Object(map!["type"@ => JsonV::Text("message_stop"@)]),
    }
}

/// Why a message ended, in the terms of Anthropic.
pub open spec fn why_it_ended(reason: Seq<char>) -> Seq<char> {
    if reason == "length"@ {
        "max_tokens"@
    } else if reason == "tool_calls"@ || reason == "function_call"@ {
        "tool_use"@
    } else {
        "end_turn"@
    }
}

/// The first chunk that tells why the message ended settles it: at the mark of the end
/// it is given out, with the usage that came last, and then that the message is over.
/// Chunks in between do not alter why it ended.
pub proof fn law_chat_stream_ends_its_message(s: ChatV, chunk: ChunkV, reason: Seq<char>, u: Usage)
    requires
        !s.emitted_delta,
        chunk.choices.len() > 0,
        chunk.choices[0].finish_reason == Some(reason),
        chunk.usage == Some(u),
    ensures
        ({
            let b = s.with_chunk(chunk);
            b.with_done().out == b.out + seq![
                ends_with(JsonV::Text(why_it_ended(reason)), usage_json(u, u.completion_tokens as u64)),
                is_over(),
            ]
        }),
{
    lemma_ends(s, chunk, reason);
    let b = s.with_chunk(chunk);
    let usage = usage_json(u, u.completion_tokens as u64);
    assert(b.pending == Some(PendingV { stop: Some(why_it_ended(reason)), usage: Some(usage) }));
    assert(b.with_done().out =~= b.out + seq![ends_with(JsonV::Text(why_it_ended(reason)), usage), is_over()]);
}

proof fn lemma_ends(s: ChatV, chunk: ChunkV, reason: Seq<char>)
    requires
        !s.emitted_delta,
        chunk.choices.len() > 0,
        chunk.choices[0].finish_reason == Some(reason),
    ensures
        ({
            let b = s.with_chunk(chunk);
            let usage = match chunk.usage {
                Some(u) => Some(usage_json(u, u.completion_tokens as u64)),
                None => s.latest_usage,
            };
            &&& b.emitted_delta
            &&& b.pending == Some(PendingV { stop: Some(why_it_ended(reason)), usage })
        }),
{
    reveal(ChatV::with_chunk);
    reveal(ChatV::with_finish);
    let usage = match chunk.usage {
        Some(u) => Some(usage_json(u, u.completion_tokens as u64)),
        None => None,
    };
    let h = s.with_header(chunk.id, usage);
    let choice = chunk.choices[0];
    let a = h.begun(chunk.usage);
    let b = a.with_reasoning(choice.reasoning);
    let c = b.with_text(choice.content);
    if let Some(list) = choice.calls {
        lemma_calls_settle_nothing(c.closed(), list);
    }
    let d = c.with_calls(choice.calls);
    assert(!d.emitted_delta);
    assert(d.latest_usage == h.latest_usage);
}

proof fn lemma_calls_settle_nothing(s: ChatV, list: Seq<CallV>)
    ensures
        s.with_each_call(list).emitted_delta == s.emitted_delta,
        s.with_each_call(list).latest_usage == s.latest_usage,
        s.with_each_call(list).pending == s.pending,
    decreases list.len(),
{
    reveal(ChatV::with_call);
    if list.len() > 0 {
        lemma_calls_settle_nothing(s, list.drop_last());
    }
}

/// After the chunk that tells why the message ended, no chunk alters that; one with a
/// usage puts its usage in place of the one before.
pub proof fn law_later_chunks_only_count(s: ChatV, chunk: ChunkV, p: PendingV)
    requires
        s.emitted_delta,
        s.pending == Some(p),
    ensures
        ({
            let b = s.with_chunk(chunk);
            &&& b.emitted_delta
            &&& b.pending matches Some(q) && q.stop == p.stop && (chunk.usage matches Some(u) ==> q.usage == Some(
                usage_json(u, u.completion_tokens as u64),
            ))
        }),
{
    reveal(ChatV::with_chunk);
    reveal(ChatV::with_finish);
    let usage = match chunk.usage {
        Some(u) => Some(usage_json(u, u.completion_tokens as u64)),
        None => None,
    };
    let h = s.with_header(chunk.id, usage);
    if chunk.choices.len() > 0 {
        let choice = chunk.choices[0];
        let a = h.begun(chunk.usage);
        let b = a.with_reasoning(choice.reasoning);
        let c = b.with_text(choice.content);
        if let Some(list) = choice.calls {
            lemma_calls_settle_nothing(c.closed(), list);
        }
    }
}

/// A call that comes with its id and its name begins its block right away, with both, at
/// the next index; its first arguments follow at once.
pub proof fn law_call_begins_with_its_name(s: ChatV, call: CallV, id: Seq<char>, name: Seq<char>, args: Seq<char>)
    requires
        tool_at(s.tools, call.index) == s.tools.len(),
        call.id == Some(id),
        call.name == Some(name),
        call.arguments == Some(args),
        id.len() > 0,
        name.len() > 0,
        args.len() < 500,
    ensures
        shown(s.with_call(call).out) == shown(s.out) + seq![
            OutV::Event {
                name: "content_block_start"@,
                data: JsonV::Object(
                    map![
                        "type"@ => JsonV::Text("content_block_start"@),
                        "index"@ => JsonV::Number(NumV::Int(s.next_index as int)),
                        "content_block"@ => JsonV::Object(
                            map![
                                "type"@ => JsonV::Text("tool_use"@),
                                "id"@ => JsonV::Text(id),
                                "name"@ => JsonV::Text(name),
                            ],
                        ),
                    ],
                ),
            },
            OutV::Event {
                name: "content_block_delta"@,
                data: JsonV::Object(
                    map![
                        "type"@ => JsonV::Text("content_block_delta"@),
                        "index"@ => JsonV::Number(NumV::Int(s.next_index as int)),
                        "delta"@ => JsonV::Object(
                            map!["type"@ => JsonV::Text("input_json_delta"@), "partial_json"@ => JsonV::Text(args)],
                        ),
                    ],
                ),
            },
        ],
{
    broadcast use lemma_shown_push;

    reveal(ChatV::with_call);
    let a = s.with_tool(call.index);
    lemma_tool_at(s.tools, call.index);
    lemma_tool_at(a.tools, call.index);
    assert(a.tools[s.tools.len() as int].key == call.index);
    let i = tool_at(a.tools, call.index);
    if i < s.tools.len() {
        assert(a.tools[i] == s.tools[i]);
    }
    assert(i == s.tools.len());
    lemma_spaces(args, 0);
    let b = s.with_call(call);
    let n = b.out.len();
    assert(shown(b.out) =~= shown(s.out) + seq![b.out[n - 2], b.out[n - 1]]);
}

/// The end of a Chat stream says that the message is over, once: where the mark of the
/// end said so, it is not said again.
pub proof fn law_chat_stream_is_over_once(s: ChatV)
    requires
        s.block is None,
        s.pending is None,
    ensures
        s.sent_stop ==> s.ended().out == s.out.push(OutV::LogDone),
        !s.sent_stop ==> s.ended().out == s.out.push(is_over()).push(OutV::LogDone),
        s.with_done().sent_stop,
        s.with_done().out == s.out.push(is_over()),
{
}

/// A piece of text is given out in the text block that is open; where none is, one begins
/// for it at the next index, once the block before it has ended. Thinking is given out in
/// the same way in a thinking block.
pub proof fn law_text_is_given_out_in_its_block(s: ChatV, t: Seq<char>, index: u64)
    requires
        t.len() > 0,
    ensures
        s.kind == BlockKind::Text && s.block == Some(index) ==> shown(s.with_text(Some(t)).out) == shown(s.out).push(
            block_grows(index, "text_delta"@, "text"@, t),
        ),
        s.kind == BlockKind::Thinking && s.block == Some(index) ==> shown(s.with_reasoning(Some(t)).out) == shown(
            s.out,
        ).push(block_grows(index, "thinking_delta"@, "thinking"@, t)),
        s.kind != BlockKind::Text || s.block is None ==> shown(s.with_text(Some(t)).out) == shown(s.closed().out).push(
            block_begins(
                s.next_index,
                map!["type"@ => JsonV::Text("text"@), "text"@ => JsonV::Text(Seq::empty())],
            ),
        ).push(block_grows(s.next_index, "text_delta"@, "text"@, t)),
        s.kind != BlockKind::Thinking || s.block is None ==> shown(s.with_reasoning(Some(t)).out) == shown(
            s.closed().out,
        ).push(
            block_begins(
                s.next_index,
                map!["type"@ => JsonV::Text("thinking"@), "thinking"@ => JsonV::Text(Seq::empty())],
            ),
        ).push(block_grows(s.next_index, "thinking_delta"@, "thinking"@, t)),
{
    broadcast use lemma_shown_push;

}

/// A block that is open and is no thinking block ends with one event, and a call that
/// comes ends it first.
pub proof fn law_open_block_is_ended(s: ChatV, index: u64, calls: Seq<CallV>)
    requires
        s.block == Some(index),
        s.kind == BlockKind::Text,
        calls.len() > 0,
    ensures
        s.closed().out == s.out.push(block_ends(index)),
        s.closed().block is None,
        s.with_calls(Some(calls)) == s.closed().with_each_call(calls),
        s.with_calls(None) == s,
{
}

/// The mark of the end tells what waits to be told, and that the message is over; the
/// mark may have white space round it. Data that hold no chunk are passed over.
pub proof fn law_mark_of_the_end_is_known(s: ChatV, data: Seq<char>)
    ensures
        trim(data) == "[DONE]"@ && s.pending is None ==> s.with_data(data).out == s.out.push(is_over()),
        trim(data) == "[DONE]"@ ==> s.with_data(data).sent_stop && s.with_data(data).out.len() > s.out.len()
            && s.with_data(data).out.last() == is_over(),
        trim(data) != "[DONE]"@ && chunk_in(data) is None ==> s.with_data(data) == s,
{
    reveal(ChatV::with_data);
}

/// A connection that failed is told to the client as an error with its reason.
pub proof fn law_broken_stream_is_told(s: ChatV, r: StreamingV, m: Seq<char>)
    ensures
        ({
            let o = OutV::Event {
                name: "error"@,
                data: JsonV::Object(
                    map![
                        "type"@ => JsonV::Text("error"@),
                        "error"@ => JsonV::Object(
                            map![
                                "type"@ => JsonV::Text("stream_error"@),
                                "message"@ => JsonV::Text("Stream error: "@ + m),
                            ],
                        ),
                    ],
                ),
            };
            &&& s.failed(m).out == s.out.push(o).push(OutV::LogError("Stream error: "@ + m))
            &&& r.broken(m).out == r.out.push(o).push(OutV::LogError("Stream error: "@ + m))
            &&& r.broken(m).failed
        }),
{
}

} // verus!
