//! What the events of a Responses stream give out, kind by kind.

use vstd::prelude::*;
use crate::chat_ends::{begins_with, ends_with, is_over};
use crate::convert::char_bytes;
use crate::json::{JsonV, NumV};
use crate::reasoning_bridge::envelope;
use crate::responses_response::streamed_usage;
use crate::responses_told::{entry_of, lemma_event_kinds, lemma_item_kinds, lemma_summary_text, text_of_summary};
use crate::stream_out::{OutV, lemma_shown_push, shown};
use crate::streaming_responses::{StreamingV, failure_message, trailing_bytes};
use crate::text::{is_white_space, trim_end};
use crate::text_laws::lemma_trim_end;

verus! {

/// The event that begins a block.
pub open spec fn block_begins(index: u64, block: Map<Seq<char>, JsonV>) -> OutV {
    OutV::Event {
        name: "content_block_start"@,
        data: JsonV::Object(
            map![
                "type"@ => JsonV::Text("content_block_start"@),
                "index"@ => JsonV::Number(NumV::Int(index as int)),
                "content_block"@ => JsonV::Object(block),
            ],
        ),
    }
}

/// The event that ends a block.
pub open spec fn block_ends(index: u64) -> OutV {
    OutV::Event {
        name: "content_block_stop"@,
        data: JsonV::Object(
            map![
                "type"@ => JsonV::Text("content_block_stop"@),
                "index"@ => JsonV::Number(NumV::Int(index as int)),
            ],
        ),
    }
}

/// The event that adds to a block.
pub open spec fn block_grows(index: u64, kind: Seq<char>, key: Seq<char>, t: Seq<char>) -> OutV {
    OutV::Event {
        name: "content_block_delta"@,
        data: JsonV::Object(
            map![
                "type"@ => JsonV::Text("content_block_delta"@),
                "index"@ => JsonV::Number(NumV::Int(index as int)),
                "delta"@ => JsonV::Object(map!["type"@ => JsonV::Text(kind), key => JsonV::Text(t)]),
            ],
        ),
    }
}

/// The first report that the response began begins the message, with its id and the model
/// that was asked for; no later report does.
pub proof fn law_responses_stream_begins_its_message(s: StreamingV, kind: Seq<char>, v: JsonV)
    requires
        kind == "response.created"@ || kind == "response.in_progress"@,
    ensures
        ({
            let b = s.with_event(kind, Some(v));
            let id = if s.message_id.len() == 0 {
                v.str_or("id"@, Seq::empty())
            } else {
                s.message_id
            };
            let nothing = JsonV::Object(
                map!["input_tokens"@ => JsonV::Number(NumV::Int(0)), "output_tokens"@ => JsonV::Number(NumV::Int(0))],
            );
            &&& b.sent_start
            &&& s.sent_start ==> b == s
            &&& !s.sent_start ==> b.out == s.out.push(begins_with(id, s.model, nothing)) && b.message_id == id
        }),
{
    reveal(StreamingV::with_event);
    lemma_event_kinds();
}

/// A part of text begins a text block at the next index, and ends the text block before
/// it, where that is open.
pub proof fn law_part_begins_a_text_block(s: StreamingV, v: JsonV)
    requires
        v.str_at("type"@) == Some("output_text"@),
    ensures
        ({
            let b = s.with_event("response.content_part.added"@, Some(v));
            let ended = match s.block {
                Some(index) => seq![block_ends(index)],
                None => Seq::empty(),
            };
            &&& b.out == s.out + ended + seq![
                block_begins(
                    s.next_index,
                    map!["type"@ => JsonV::Text("text"@), "text"@ => JsonV::Text(Seq::empty())],
                ),
            ]
            &&& b.block == Some(s.next_index)
        }),
{
    reveal(StreamingV::with_event);
    lemma_event_kinds();
    let b = s.with_event("response.content_part.added"@, Some(v));
    let ended = match s.block {
        Some(index) => seq![block_ends(index)],
        None => Seq::empty(),
    };
    let begun = block_begins(s.next_index, map!["type"@ => JsonV::Text("text"@), "text"@ => JsonV::Text(Seq::empty())]);
    assert(b.out =~= s.out + ended + seq![begun]);
}

/// A function call begins a block at the next index, with the id of the call and its
/// name.
pub proof fn law_function_call_begins_a_block(s: StreamingV, v: JsonV)
    requires
        v.str_at("type"@) == Some("function_call"@),
    ensures
        shown(s.with_event("response.output_item.added"@, Some(v)).out) == shown(s.out).push(
            block_begins(
                s.next_index,
                map![
                    "type"@ => JsonV::Text("tool_use"@),
                    "id"@ => JsonV::Text(v.str_or("call_id"@, Seq::empty())),
                    "name"@ => JsonV::Text(v.str_or("name"@, Seq::empty())),
                ],
            ),
        ),
{
    broadcast use lemma_shown_push;

    reveal(StreamingV::with_event);
    lemma_event_kinds();
}

/// A reasoning item begins a thinking block at the next index, and what its summary says
/// is given out in it.
pub proof fn law_reasoning_begins_a_block(s: StreamingV, v: JsonV)
    requires
        v.str_at("type"@) == Some("reasoning"@),
    ensures
        ({
            let b = s.with_event("response.output_item.added"@, Some(v));
            let t = text_of_summary(v.items_at("summary"@));
            let begun = block_begins(
                s.next_index,
                map!["type"@ => JsonV::Text("thinking"@), "thinking"@ => JsonV::Text(Seq::empty())],
            );
            &&& t.len() > 0 ==> shown(b.out) == shown(s.out).push(begun).push(
                block_grows(s.next_index, "thinking_delta"@, "thinking"@, t),
            )
            &&& t.len() == 0 ==> shown(b.out) == shown(s.out).push(begun)
        }),
{
    broadcast use lemma_shown_push;

    reveal(StreamingV::with_event);
    lemma_event_kinds();
    lemma_item_kinds();
    lemma_summary_text(v.items_at("summary"@));
}

/// The end of a function call ends the block that began with it, and the end of a
/// reasoning item signs its block, where it has text, with the item as it began, and ends
/// it. The end of an item that did not begin gives out nothing.
pub proof fn law_item_ends_its_block(s: StreamingV, v: JsonV)
    ensures
        ({
            let b = s.with_event("response.output_item.done"@, Some(v));
            let id = v.str_or("id"@, Seq::empty());
            &&& v.str_at("type"@) == Some("function_call"@) ==> match entry_of(s.tools, id) {
                Some(e) => b.out == s.out.push(block_ends(e.index)),
                None => b == s,
            }
            &&& v.str_at("type"@) == Some("reasoning"@) ==> match entry_of(s.reasonings, id) {
                Some(e) => if e.item.str_at("type"@) == Some("reasoning"@) && e.text.len() > 0 {
                    b.out == s.out.push(
                        block_grows(e.index, "signature_delta"@, "signature"@, envelope(e.item)),
                    ).push(block_ends(e.index))
                } else {
                    b.out == s.out.push(block_ends(e.index))
                },
                None => b == s,
            }
        }),
{
    reveal(StreamingV::with_event);
    lemma_event_kinds();
    lemma_item_kinds();
}

/// The end of the text ends the text block that is open.
pub proof fn law_text_done_ends_its_block(s: StreamingV, document: Option<JsonV>)
    ensures
        ({
            let b = s.with_event("response.output_text.done"@, document);
            &&& b.block is None
            &&& s.block matches Some(index) ==> b.out == s.out.push(block_ends(index))
            &&& s.block is None ==> b == s
        }),
{
    reveal(StreamingV::with_event);
    lemma_event_kinds();
}

/// A response that is completed ends all blocks that are open, and the end of the stream
/// then tells what it used, and that it was cut off where it was incomplete, and that the
/// message is over.
pub proof fn law_completed_response_is_counted(s: StreamingV, v: JsonV, incomplete: bool)
    requires
        !s.sent_delta,
        !s.failed,
    ensures
        ({
            let kind = if incomplete {
                "response.incomplete"@
            } else {
                "response.completed"@
            };
            let b = s.with_event(kind, Some(v));
            let stop = if incomplete {
                JsonV::Text("max_tokens"@)
            } else {
                JsonV::Null
            };
            &&& b.out == s.out + Seq::new(s.open.len(), |i: int| block_ends(s.open[i]))
            &&& b.ended().out == b.out + seq![
                ends_with(stop, streamed_usage(v.get("usage"@))),
                is_over(),
                OutV::LogDone,
            ]
        }),
{
    reveal(StreamingV::with_event);
    lemma_event_kinds();
    let kind = if incomplete {
        "response.incomplete"@
    } else {
        "response.completed"@
    };
    let b = s.with_event(kind, Some(v));
    let t = StreamingV { sent_delta: true, ..s };
    lemma_stops_given(t, t.open.len() as int);
    assert(Seq::new(t.open.len(), |i: int| block_ends(t.open[i])) =~= Seq::new(
        s.open.len(),
        |i: int| block_ends(s.open[i]),
    ));
    let e = b.all_closed();
    assert(b.open.len() == 0);
    assert(e.out == b.out);
    let stop = if incomplete {
        JsonV::Text("max_tokens"@)
    } else {
        JsonV::Null
    };
    assert(b.ended().out =~= b.out + seq![ends_with(stop, streamed_usage(v.get("usage"@))), is_over(), OutV::LogDone]);
}

proof fn lemma_stops_given(s: StreamingV, n: int)
    requires
        0 <= n <= s.open.len(),
    ensures
        s.stops(n).out == s.out + Seq::new(n as nat, |i: int| block_ends(s.open[i])),
        s.stops(n).failed == s.failed,
        s.stops(n).pending == s.pending,
    decreases n,
{
    if n > 0 {
        lemma_stops_given(s, n - 1);
        assert(s.stops(n).out =~= s.out + Seq::new(n as nat, |i: int| block_ends(s.open[i])));
    } else {
        assert(s.stops(n).out =~= s.out + Seq::new(n as nat, |i: int| block_ends(s.open[i])));
    }
}

/// A failure that the upstream reports is told with its message, and nothing follows at
/// the end of the stream.
pub proof fn law_failure_is_told(s: StreamingV, kind: Seq<char>, v: JsonV, m: Seq<char>)
    requires
        kind == "response.failed"@ || kind == "error"@,
        v.at("error"@).str_at("message"@) == Some(m) || v.at("error"@).get("message"@) is None && v.str_at("message"@)
            == Some(m),
    ensures
        ({
            let b = s.with_event(kind, Some(v));
            &&& shown(b.out) == shown(s.out).push(
                OutV::Event {
                    name: "error"@,
                    data: JsonV::Object(
                        map![
                            "type"@ => JsonV::Text("error"@),
                            "error"@ => JsonV::Object(
                                map!["type"@ => JsonV::Text("api_error"@), "message"@ => JsonV::Text(m)],
                            ),
                        ],
                    ),
                },
            )
            &&& b.ended() == b
        }),
{
    broadcast use lemma_shown_push;

    reveal(StreamingV::with_event);
    lemma_event_kinds();
    if v.get("error"@) is None {
        assert(v.at("error"@) == JsonV::Null);
    }
    assert(failure_message(Some(v)) == m);
}

/// An event of a kind that says nothing to an Anthropic client, or without a document,
/// alters nothing. A response is completed once.
pub proof fn law_other_events_alter_nothing(s: StreamingV, kind: Seq<char>, document: Option<JsonV>)
    ensures
        kind != "response.output_text.done"@ && kind != "response.completed"@ && kind != "response.incomplete"@ && kind
            != "response.failed"@ && kind != "error"@ && kind != "response.created"@ && kind != "response.in_progress"@
            && kind != "response.content_part.added"@ && kind != "response.output_text.delta"@ && kind
            != "response.output_item.added"@ && kind != "response.function_call_arguments.delta"@ && kind
            != "response.output_item.done"@ ==> s.with_event(kind, document) == s,
        kind == "response.content_part.added"@ && document is Some && document->0.str_at("type"@) != Some(
            "output_text"@,
        ) ==> s.with_event(kind, document) == s,
        s.sent_delta && (kind == "response.completed"@ || kind == "response.incomplete"@) ==> s.with_event(kind, document)
            == s,
        kind == "response.output_text.delta"@ && document is None ==> s.with_event(kind, document) == s,
{
    reveal(StreamingV::with_event);
    lemma_event_kinds();
}

/// The white space at the end of a text counts by its bytes, and only it.
pub proof fn law_trailing_white_space_is_counted(s: Seq<char>, c: char)
    ensures
        trailing_bytes(Seq::empty()) == 0,
        !is_white_space(c) ==> trailing_bytes(s.push(c)) == 0,
        is_white_space(c) ==> trailing_bytes(s.push(c)) == trailing_bytes(s) + char_bytes(c),
{
    let t = s.push(c);
    assert(t.drop_last() =~= s);
    assert(t.last() == c);
    lemma_trim_end(s);
    if is_white_space(c) {
        let n = trim_end(s).len() as int;
        assert(trim_end(t) == trim_end(s));
        assert(t.skip(n).drop_last() =~= s.skip(n));
        assert(t.skip(n).last() == c);
    } else {
        assert(trim_end(t) == t);
        assert(t.skip(t.len() as int) =~= Seq::empty());
    }
    assert(trim_end(Seq::empty()) =~= Seq::empty());
    assert(Seq::<char>::empty().skip(0) =~= Seq::empty());
}

} // verus!
