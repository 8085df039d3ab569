//! What a Responses stream says and what the Anthropic events that come of it tell are
//! the same: the text of each part, the arguments of each call, and the reasoning.

use vstd::prelude::*;
use crate::convert_response::thinking_block;
use crate::json::{JsonV, NumV, or_zero, text_block};
use crate::json_text::document_in;
use crate::reasoning_bridge::{envelope, is_reasoning};
use crate::responses_response::{is_call, no_usage};
use crate::sse::{block_end, decoded};
use crate::stream_out::{OutV, PieceV, block_delta, block_start, block_stop, message_delta, message_start, message_stop, next_number, signature, stream_error, text_delta, tool_note, tool_start};
use crate::streaming_responses::{EntryV, ResponsesV, StreamingV, after_text, entry_at, failure_message, frame, joined_texts, lemma_entry_at, part_key, put_entry, reports_failure_kind, trailing_bytes, without_key};
use crate::text::{decimal, digit, lines, trim};
use crate::told::{arguments_told_at, is_silent, lemma_delta_names, lemma_delta_piece, lemma_errors_are_silent, lemma_message_events_are_silent, lemma_notes_are_silent, lemma_starts_and_stops_are_silent, lemma_told_push, lemma_tool_start_is_silent, piece_of, text_told, text_told_at, thinking_told, told};

verus! {

/// An event of a Responses stream: its kind, and its document where its data hold one.
pub struct EventV {
    pub kind: Seq<char>,
    pub document: Option<JsonV>,
}

/// The progress after a list of events.
pub open spec fn after_events(s: StreamingV, list: Seq<EventV>) -> StreamingV
    decreases list.len(),
{
    if list.len() == 0 {
        s
    } else {
        after_events(s, list.drop_last()).with_event(list.last().kind, list.last().document)
    }
}

/// The part that an event speaks of: its item, and its number in the item.
pub open spec fn part_of(v: JsonV) -> (Seq<char>, nat) {
    (v.str_or("item_id"@, Seq::empty()), (or_zero(v.u64_at("part_index"@)) % 0x1_0000_0000) as nat)
}

/// Whether an event adds a part of text.
pub open spec fn adds_part(e: EventV) -> bool {
    e.kind == "response.content_part.added"@ && e.document is Some && e.document->0.str_at("type"@) == Some(
        "output_text"@,
    )
}

/// Whether an event adds an item of a type.
pub open spec fn adds_item(e: EventV, kind: Seq<char>) -> bool {
    e.kind == "response.output_item.added"@ && e.document is Some && e.document->0.str_at("type"@) == Some(kind)
}

/// Whether an event ends an item of a type.
pub open spec fn ends_item(e: EventV, kind: Seq<char>) -> bool {
    e.kind == "response.output_item.done"@ && e.document is Some && e.document->0.str_at("type"@) == Some(kind)
}

/// Whether an event begins a block.
pub open spec fn begins_block(e: EventV) -> bool {
    adds_part(e) || adds_item(e, "function_call"@) || adds_item(e, "reasoning"@)
}

/// The number of blocks that a list of events begins.
pub open spec fn blocks_begun(list: Seq<EventV>) -> nat
    decreases list.len(),
{
    if list.len() == 0 {
        0
    } else {
        blocks_begun(list.drop_last()) + if begins_block(list.last()) {
            1nat
        } else {
            0nat
        }
    }
}

/// The block of a part: it was begun when the part was last added.
pub open spec fn block_of_part(list: Seq<EventV>, part: (Seq<char>, nat)) -> Option<nat>
    decreases list.len(),
{
    if list.len() == 0 {
        None
    } else if adds_part(list.last()) && part_of(list.last().document->0) == part {
        Some(blocks_begun(list.drop_last()))
    } else {
        block_of_part(list.drop_last(), part)
    }
}

/// The text that an event says of a part.
pub open spec fn text_for(e: EventV, part: (Seq<char>, nat)) -> Seq<char> {
    if e.kind == "response.output_text.delta"@ && e.document is Some && part_of(e.document->0) == part {
        e.document->0.str_or("delta"@, Seq::empty())
    } else {
        Seq::empty()
    }
}

/// The text that events say of a part since it was last added, put one after another.
pub open spec fn text_since_added(list: Seq<EventV>, part: (Seq<char>, nat)) -> Seq<char>
    decreases list.len(),
{
    if list.len() == 0 || block_of_part(list, part) is None {
        Seq::empty()
    } else if adds_part(list.last()) && part_of(list.last().document->0) == part {
        Seq::empty()
    } else {
        text_since_added(list.drop_last(), part) + text_for(list.last(), part)
    }
}

/// The text that events say of parts that were added, put one after another.
pub open spec fn text_of_parts(list: Seq<EventV>) -> Seq<char>
    decreases list.len(),
{
    if list.len() == 0 {
        Seq::empty()
    } else {
        let e = list.last();
        let front = list.drop_last();
        if e.document is Some && block_of_part(front, part_of(e.document->0)) is Some {
            text_of_parts(front) + text_for(e, part_of(e.document->0))
        } else {
            text_of_parts(front)
        }
    }
}

/// The item that a document is.
pub open spec fn item_id(v: JsonV) -> Seq<char> {
    v.str_or("id"@, Seq::empty())
}

/// The block of a call that was begun and has not come to its end.
pub open spec fn block_of_call(list: Seq<EventV>, id: Seq<char>) -> Option<nat>
    decreases list.len(),
{
    if list.len() == 0 {
        None
    } else {
        let e = list.last();
        if adds_item(e, "function_call"@) && item_id(e.document->0) == id {
            Some(blocks_begun(list.drop_last()))
        } else if ends_item(e, "function_call"@) && item_id(e.document->0) == id {
            None
        } else {
            block_of_call(list.drop_last(), id)
        }
    }
}

/// Whether an event brings a piece of the arguments of a call.
pub open spec fn feeds_call(e: EventV, id: Seq<char>) -> bool {
    e.kind == "response.function_call_arguments.delta"@ && e.document is Some && e.document->0.str_or(
        "item_id"@,
        Seq::empty(),
    ) == id && e.document->0.str_at("delta"@) is Some
}

/// The arguments of a call since it was begun: all of them, and those that are passed
/// on. From where they end in more than 500 bytes of white space, they are held back.
pub open spec fn arguments_since_begun(list: Seq<EventV>, id: Seq<char>) -> (Seq<char>, Seq<char>)
    decreases list.len(),
{
    if list.len() == 0 || block_of_call(list, id) is None || adds_item(list.last(), "function_call"@) && item_id(
        list.last().document->0,
    ) == id {
        (Seq::empty(), Seq::empty())
    } else {
        let (all, passed) = arguments_since_begun(list.drop_last(), id);
        if feeds_call(list.last(), id) {
            let t = list.last().document->0.str_at("delta"@)->0;
            (
                all + t,
                if trailing_bytes(all + t) > 500 {
                    passed
                } else {
                    passed + t
                },
            )
        } else {
            (all, passed)
        }
    }
}

/// The texts of the summaries of the reasoning items that events add, put one after
/// another.
pub open spec fn summaries(list: Seq<EventV>) -> Seq<char>
    decreases list.len(),
{
    if list.len() == 0 {
        Seq::empty()
    } else if adds_item(list.last(), "reasoning"@) {
        summaries(list.drop_last()) + text_of_summary(list.last().document->0.items_at("summary"@))
    } else {
        summaries(list.drop_last())
    }
}

/// The texts of parts, put one after another.
pub open spec fn text_of_summary(parts: Seq<JsonV>) -> Seq<char>
    decreases parts.len(),
{
    if parts.len() == 0 {
        Seq::empty()
    } else {
        text_of_summary(parts.drop_last()) + parts.last().str_or("text"@, Seq::empty())
    }
}

pub proof fn lemma_summary_text(parts: Seq<JsonV>)
    ensures
        joined_texts(parts) == text_of_summary(parts),
    decreases parts.len(),
{
    if parts.len() > 0 {
        lemma_summary_text(parts.drop_last());
    }
}

/// The kinds of events are all different.
pub proof fn lemma_event_kinds()
    ensures
        "response.output_text.done"@ != "response.completed"@,
        "response.output_text.done"@ != "response.incomplete"@,
        "response.output_text.done"@ != "response.failed"@,
        "response.output_text.done"@ != "error"@,
        "response.output_text.done"@ != "response.created"@,
        "response.output_text.done"@ != "response.in_progress"@,
        "response.output_text.done"@ != "response.content_part.added"@,
        "response.output_text.done"@ != "response.output_text.delta"@,
        "response.output_text.done"@ != "response.output_item.added"@,
        "response.output_text.done"@ != "response.function_call_arguments.delta"@,
        "response.output_text.done"@ != "response.output_item.done"@,
        "response.completed"@ != "response.incomplete"@,
        "response.completed"@ != "response.failed"@,
        "response.completed"@ != "error"@,
        "response.completed"@ != "response.created"@,
        "response.completed"@ != "response.in_progress"@,
        "response.completed"@ != "response.content_part.added"@,
        "response.completed"@ != "response.output_text.delta"@,
        "response.completed"@ != "response.output_item.added"@,
        "response.completed"@ != "response.function_call_arguments.delta"@,
        "response.completed"@ != "response.output_item.done"@,
        "response.incomplete"@ != "response.failed"@,
        "response.incomplete"@ != "error"@,
        "response.incomplete"@ != "response.created"@,
        "response.incomplete"@ != "response.in_progress"@,
        "response.incomplete"@ != "response.content_part.added"@,
        "response.incomplete"@ != "response.output_text.delta"@,
        "response.incomplete"@ != "response.output_item.added"@,
        "response.incomplete"@ != "response.function_call_arguments.delta"@,
        "response.incomplete"@ != "response.output_item.done"@,
        "response.failed"@ != "error"@,
        "response.failed"@ != "response.created"@,
        "response.failed"@ != "response.in_progress"@,
        "response.failed"@ != "response.content_part.added"@,
        "response.failed"@ != "response.output_text.delta"@,
        "response.failed"@ != "response.output_item.added"@,
        "response.failed"@ != "response.function_call_arguments.delta"@,
        "response.failed"@ != "response.output_item.done"@,
        "error"@ != "response.created"@,
        "error"@ != "response.in_progress"@,
        "error"@ != "response.content_part.added"@,
        "error"@ != "response.output_text.delta"@,
        "error"@ != "response.output_item.added"@,
        "error"@ != "response.function_call_arguments.delta"@,
        "error"@ != "response.output_item.done"@,
        "response.created"@ != "response.in_progress"@,
        "response.created"@ != "response.content_part.added"@,
        "response.created"@ != "response.output_text.delta"@,
        "response.created"@ != "response.output_item.added"@,
        "response.created"@ != "response.function_call_arguments.delta"@,
        "response.created"@ != "response.output_item.done"@,
        "response.in_progress"@ != "response.content_part.added"@,
        "response.in_progress"@ != "response.output_text.delta"@,
        "response.in_progress"@ != "response.output_item.added"@,
        "response.in_progress"@ != "response.function_call_arguments.delta"@,
        "response.in_progress"@ != "response.output_item.done"@,
        "response.content_part.added"@ != "response.output_text.delta"@,
        "response.content_part.added"@ != "response.output_item.added"@,
        "response.content_part.added"@ != "response.function_call_arguments.delta"@,
        "response.content_part.added"@ != "response.output_item.done"@,
        "response.output_text.delta"@ != "response.output_item.added"@,
        "response.output_text.delta"@ != "response.function_call_arguments.delta"@,
        "response.output_text.delta"@ != "response.output_item.done"@,
        "response.output_item.added"@ != "response.function_call_arguments.delta"@,
        "response.output_item.added"@ != "response.output_item.done"@,
        "response.function_call_arguments.delta"@ != "response.output_item.done"@,
{
    reveal_strlit("response.output_text.done");
    reveal_strlit("response.completed");
    reveal_strlit("response.incomplete");
    reveal_strlit("response.failed");
    reveal_strlit("error");
    reveal_strlit("response.created");
    reveal_strlit("response.in_progress");
    reveal_strlit("response.content_part.added");
    reveal_strlit("response.output_text.delta");
    reveal_strlit("response.output_item.added");
    reveal_strlit("response.function_call_arguments.delta");
    reveal_strlit("response.output_item.done");
    assert("response.output_text.done"@.len() == 25 && "response.completed"@.len() == 18 && "response.incomplete"@.len() == 19 && "response.failed"@.len() == 15 && "error"@.len() == 5 && "response.created"@.len() == 16 && "response.in_progress"@.len() == 20 && "response.content_part.added"@.len() == 27 && "response.output_text.delta"@.len() == 26 && "response.output_item.added"@.len() == 26 && "response.function_call_arguments.delta"@.len() == 38 && "response.output_item.done"@.len() == 25);
    assert("response.output_text.done"@[16] == 't' && "response.output_item.done"@[16] == 'i');
    assert("response.output_text.delta"@[16] == 't' && "response.output_item.added"@[16] == 'i');
}

/// The item of a key, where there is one.
pub open spec fn entry_of(v: Seq<EntryV>, key: Seq<char>) -> Option<EntryV> {
    if entry_at(v, key) < v.len() {
        Some(v[entry_at(v, key)])
    } else {
        None
    }
}

proof fn lemma_entry_push(v: Seq<EntryV>, e: EntryV, key: Seq<char>)
    ensures
        entry_of(v.push(e), key) == match entry_of(v, key) {
            Some(x) => Some(x),
            None => if e.key == key {
                Some(e)
            } else {
                None
            },
        },
{
    lemma_entry_at(v, key);
    assert(v.push(e).drop_last() =~= v);
    assert(v.push(e).last() == e);
}

proof fn lemma_entry_without(v: Seq<EntryV>, gone: Seq<char>, key: Seq<char>)
    ensures
        entry_of(without_key(v, gone), key) == if key == gone {
            None
        } else {
            entry_of(v, key)
        },
    decreases v.len(),
{
    if v.len() > 0 {
        let front = v.drop_last();
        lemma_entry_without(front, gone, key);
        lemma_entry_push(front, v.last(), key);
        assert(front.push(v.last()) =~= v);
        lemma_entry_push(without_key(front, gone), v.last(), key);
    }
}

proof fn lemma_entry_put(v: Seq<EntryV>, e: EntryV, key: Seq<char>)
    ensures
        entry_of(put_entry(v, e), key) == if key == e.key {
            Some(e)
        } else {
            entry_of(v, key)
        },
{
    lemma_entry_without(v, e.key, key);
    lemma_entry_push(without_key(v, e.key), e, key);
}

proof fn lemma_entry_update(v: Seq<EntryV>, i: int, e: EntryV, key: Seq<char>)
    requires
        0 <= i < v.len(),
        i == entry_at(v, e.key),
    ensures
        entry_of(v.update(i, e), key) == if key == e.key {
            Some(e)
        } else {
            entry_of(v, key)
        },
    decreases v.len(),
{
    lemma_entry_at(v, e.key);
    let front = v.drop_last();
    let u = v.update(i, e);
    assert(front.push(v.last()) =~= v);
    lemma_entry_push(front, v.last(), key);
    lemma_entry_push(front, v.last(), e.key);
    if i < v.len() - 1 {
        lemma_entry_at(front, e.key);
        if entry_at(front, e.key) > i {
            assert(front[i] == v[i]);
        }
        lemma_entry_update(front, i, e, key);
        assert(u =~= front.update(i, e).push(v.last()));
        lemma_entry_push(front.update(i, e), v.last(), key);
    } else {
        assert(u =~= front.push(e));
        lemma_entry_push(front, e, key);
        lemma_entry_at(front, e.key);
        if entry_at(front, e.key) < front.len() {
            assert(v[entry_at(front, e.key)].key == e.key);
        }
    }
}

/// Whether the same was told in two states.
pub open spec fn same_told(a: StreamingV, b: StreamingV) -> bool {
    &&& forall|at: Option<u64>| #[trigger]
        told(b.out, at, "text_delta"@, "text"@) == told(a.out, at, "text_delta"@, "text"@)
    &&& forall|at: Option<u64>| #[trigger]
        told(b.out, at, "thinking_delta"@, "thinking"@) == told(a.out, at, "thinking_delta"@, "thinking"@)
    &&& forall|at: Option<u64>| #[trigger]
        told(b.out, at, "input_json_delta"@, "partial_json"@) == told(a.out, at, "input_json_delta"@, "partial_json"@)
}

proof fn lemma_silent_step(s: StreamingV, o: OutV)
    requires
        is_silent(o),
    ensures
        same_told(s, s.emit(o)),
{
    assert forall|at: Option<u64>| #[trigger]
        told(s.emit(o).out, at, "text_delta"@, "text"@) == told(s.out, at, "text_delta"@, "text"@) by {
        lemma_told_push(s.out, o, at, "text_delta"@, "text"@);
    }
    assert forall|at: Option<u64>| #[trigger]
        told(s.emit(o).out, at, "thinking_delta"@, "thinking"@) == told(s.out, at, "thinking_delta"@, "thinking"@) by {
        lemma_told_push(s.out, o, at, "thinking_delta"@, "thinking"@);
    }
    assert forall|at: Option<u64>| #[trigger]
        told(s.emit(o).out, at, "input_json_delta"@, "partial_json"@) == told(
            s.out,
            at,
            "input_json_delta"@,
            "partial_json"@,
        ) by {
        lemma_told_push(s.out, o, at, "input_json_delta"@, "partial_json"@);
    }
}

proof fn lemma_nothing_added(t: Seq<char>)
    ensures
        t + Seq::<char>::empty() == t,
{
    assert(t + Seq::<char>::empty() =~= t);
}

/// What a delta adds to what is told.
proof fn lemma_delta_step(s: StreamingV, i: u64, kind: Seq<char>, key: Seq<char>, t: Seq<char>, of: Seq<char>, by: Seq<char>)
    requires
        key != "type"@,
        kind == of ==> key == by,
    ensures
        forall|at: Option<u64>| #[trigger]
            told(s.emit(block_delta(i, text_delta(kind, key, t))).out, at, of, by) == told(s.out, at, of, by) + if kind
                == of && (at is None || at == Some(i)) {
                t
            } else {
                Seq::empty()
            },
{
    let o = block_delta(i, text_delta(kind, key, t));
    assert forall|at: Option<u64>| #[trigger]
        told(s.emit(o).out, at, of, by) == told(s.out, at, of, by) + if kind == of && (at is None || at == Some(i)) {
            t
        } else {
            Seq::empty()
        } by {
        lemma_told_push(s.out, o, at, of, by);
        lemma_delta_piece(i, kind, key, t, at, of);
        if kind != of {
            assert(piece_of(o, at, of, by).len() == 0);
            assert(piece_of(o, at, of, by) =~= Seq::empty());
        }
    }
}

/// The three kinds of delta that are told, after a delta of any kind.
proof fn lemma_delta_steps(s: StreamingV, i: u64, kind: Seq<char>, key: Seq<char>, t: Seq<char>)
    requires
        (kind == "text_delta"@ && key == "text"@) || (kind == "thinking_delta"@ && key == "thinking"@) || (kind
            == "input_json_delta"@ && key == "partial_json"@) || (kind == "signature_delta"@ && key == "signature"@),
    ensures
        ({
            let b = s.emit(block_delta(i, text_delta(kind, key, t)));
            &&& forall|at: Option<u64>| #[trigger]
                told(b.out, at, "text_delta"@, "text"@) == told(s.out, at, "text_delta"@, "text"@) + if kind
                    == "text_delta"@ && (at is None || at == Some(i)) {
                    t
                } else {
                    Seq::empty()
                }
            &&& forall|at: Option<u64>| #[trigger]
                told(b.out, at, "thinking_delta"@, "thinking"@) == told(s.out, at, "thinking_delta"@, "thinking"@)
                    + if kind == "thinking_delta"@ && (at is None || at == Some(i)) {
                    t
                } else {
                    Seq::empty()
                }
            &&& forall|at: Option<u64>| #[trigger]
                told(b.out, at, "input_json_delta"@, "partial_json"@) == told(
                    s.out,
                    at,
                    "input_json_delta"@,
                    "partial_json"@,
                ) + if kind == "input_json_delta"@ && (at is None || at == Some(i)) {
                    t
                } else {
                    Seq::empty()
                }
        }),
{
    lemma_delta_names();
    lemma_delta_step(s, i, kind, key, t, "text_delta"@, "text"@);
    lemma_delta_step(s, i, kind, key, t, "thinking_delta"@, "thinking"@);
    lemma_delta_step(s, i, kind, key, t, "input_json_delta"@, "partial_json"@);
}

/// What one step tells: text and arguments of blocks, and thinking.
pub open spec fn step_tells(
    a: StreamingV,
    b: StreamingV,
    text: (Option<u64>, Seq<char>),
    args: (Option<u64>, Seq<char>),
    thought: Seq<char>,
) -> bool {
    &&& forall|at: Option<u64>| #[trigger]
        told(b.out, at, "text_delta"@, "text"@) == told(a.out, at, "text_delta"@, "text"@) + if text.0 is Some && (at
            is None || at == text.0) {
            text.1
        } else {
            Seq::empty()
        }
    &&& forall|at: Option<u64>| #[trigger]
        told(b.out, at, "input_json_delta"@, "partial_json"@) == told(
            a.out,
            at,
            "input_json_delta"@,
            "partial_json"@,
        ) + if args.0 is Some && (at is None || at == args.0) {
            args.1
        } else {
            Seq::empty()
        }
    &&& thinking_told(b.out) == thinking_told(a.out) + thought
}

/// Whether a step tells nothing.
pub open spec fn step_tells_nothing(a: StreamingV, b: StreamingV) -> bool {
    step_tells(a, b, (None, Seq::empty()), (None, Seq::empty()), Seq::empty())
}

proof fn lemma_same_is_nothing(a: StreamingV, b: StreamingV)
    requires
        same_told(a, b),
    ensures
        step_tells_nothing(a, b),
{
    assert forall|at: Option<u64>| #[trigger]
        told(b.out, at, "text_delta"@, "text"@) == told(a.out, at, "text_delta"@, "text"@) + Seq::<char>::empty() by {
        lemma_nothing_added(told(a.out, at, "text_delta"@, "text"@));
    }
    assert forall|at: Option<u64>| #[trigger]
        told(b.out, at, "input_json_delta"@, "partial_json"@) == told(
            a.out,
            at,
            "input_json_delta"@,
            "partial_json"@,
        ) + Seq::<char>::empty() by {
        lemma_nothing_added(told(a.out, at, "input_json_delta"@, "partial_json"@));
    }
    lemma_nothing_added(thinking_told(a.out));
    assert(told(b.out, None, "thinking_delta"@, "thinking"@) == told(a.out, None, "thinking_delta"@, "thinking"@));
}

proof fn lemma_created_step(s: StreamingV, v: JsonV)
    ensures
        same_told(s, s.with_created(v)),
{
    let id = if s.message_id.len() == 0 {
        v.str_or("id"@, Seq::empty())
    } else {
        s.message_id
    };
    lemma_message_events_are_silent(id, s.model, no_usage(), None, None);
    lemma_silent_step(s, message_start(id, s.model, no_usage()));
}

proof fn lemma_part_step(s: StreamingV, v: JsonV)
    ensures
        same_told(s, s.with_part(v)),
{
    let index = s.next_index;
    let a = match s.block {
        Some(previous) => s.emit(block_stop(previous)),
        None => s,
    };
    if let Some(previous) = s.block {
        lemma_starts_and_stops_are_silent(previous, JsonV::Null);
        lemma_silent_step(s, block_stop(previous));
    }
    let block = text_block(Seq::empty());
    lemma_starts_and_stops_are_silent(index, block);
    lemma_silent_step(a, block_start(index, block));
}

proof fn lemma_text_step(s: StreamingV, v: JsonV)
    ensures
        step_tells(
            s,
            s.with_text(v),
            match entry_of(s.parts, part_key(v)) {
                Some(e) => (Some(e.index), v.str_or("delta"@, Seq::empty())),
                None => (None, Seq::empty()),
            },
            (None, Seq::empty()),
            Seq::empty(),
        ),
{
    lemma_same_is_nothing(s, s);
    let i = entry_at(s.parts, part_key(v));
    lemma_entry_at(s.parts, part_key(v));
    if let Some(t) = v.str_at("delta"@) {
        if i < s.parts.len() {
            lemma_notes_are_silent(t);
            let a = s.emit(OutV::Log(t));
            lemma_silent_step(s, OutV::Log(t));
            lemma_delta_names();
            lemma_delta_steps(a, s.parts[i].index, "text_delta"@, "text"@, t);
            assert(s.with_text(v).out == a.emit(
                block_delta(s.parts[i].index, text_delta("text_delta"@, "text"@, t)),
            ).out);
            assert(told(a.out, None, "thinking_delta"@, "thinking"@) == told(
                s.out,
                None,
                "thinking_delta"@,
                "thinking"@,
            ));
        }
    }
}

proof fn lemma_tool_step(s: StreamingV, v: JsonV)
    ensures
        same_told(s, s.with_tool(v)),
{
    let name = v.str_or("name"@, Seq::empty());
    let id = v.str_or("call_id"@, Seq::empty());
    lemma_notes_are_silent(name);
    lemma_silent_step(s, tool_note(name));
    let a = if s.has_text {
        s
    } else {
        s.emit(tool_note(name))
    };
    lemma_tool_start_is_silent(s.next_index, id, name);
    lemma_silent_step(a, tool_start(s.next_index, id, name));
}

proof fn lemma_reasoning_step(s: StreamingV, v: JsonV)
    ensures
        step_tells(
            s,
            s.with_reasoning(v),
            (None, Seq::empty()),
            (None, Seq::empty()),
            text_of_summary(v.items_at("summary"@)),
        ),
{
    let index = s.next_index;
    let text = joined_texts(v.items_at("summary"@));
    lemma_summary_text(v.items_at("summary"@));
    let block = thinking_block(Seq::empty());
    lemma_starts_and_stops_are_silent(index, block);
    let a = s.emit(block_start(index, block));
    lemma_silent_step(s, block_start(index, block));
    lemma_same_is_nothing(s, a);
    assert(told(a.out, None, "thinking_delta"@, "thinking"@) == told(s.out, None, "thinking_delta"@, "thinking"@));
    if text.len() > 0 {
        let b = a.emit(OutV::Log(text));
        lemma_notes_are_silent(text);
        lemma_silent_step(a, OutV::Log(text));
        lemma_delta_names();
        lemma_delta_steps(b, index, "thinking_delta"@, "thinking"@, text);
        let o = block_delta(index, text_delta("thinking_delta"@, "thinking"@, text));
        assert(s.with_reasoning(v).out == b.emit(o).out);
        assert(told(b.out, None, "thinking_delta"@, "thinking"@) == told(a.out, None, "thinking_delta"@, "thinking"@));
    } else {
        assert(text =~= Seq::empty());
        assert(s.with_reasoning(v).out == a.out);
    }
}

proof fn lemma_arguments_step(s: StreamingV, v: JsonV)
    ensures
        step_tells(
            s,
            s.with_arguments(v),
            (None, Seq::empty()),
            match (v.str_at("delta"@), entry_of(s.tools, v.str_or("item_id"@, Seq::empty()))) {
                (Some(t), Some(e)) => if trailing_bytes(e.text + t) > 500 {
                    (None, Seq::empty())
                } else {
                    (Some(e.index), t)
                },
                _ => (None, Seq::empty()),
            },
            Seq::empty(),
        ),
        forall|key: Seq<char>| #[trigger]
            entry_of(s.with_arguments(v).tools, key) == match (v.str_at("delta"@), entry_of(s.tools, key)) {
                (Some(t), Some(e)) => if key == v.str_or("item_id"@, Seq::empty()) {
                    Some(EntryV { text: e.text + t, ..e })
                } else {
                    Some(e)
                },
                _ => entry_of(s.tools, key),
            },
{
    lemma_same_is_nothing(s, s);
    let id = v.str_or("item_id"@, Seq::empty());
    let i = entry_at(s.tools, id);
    lemma_entry_at(s.tools, id);
    if let Some(t) = v.str_at("delta"@) {
        if i < s.tools.len() {
            let e = s.tools[i];
            let f = EntryV { text: e.text + t, ..e };
            let a = StreamingV { tools: s.tools.update(i, f), ..s };
            lemma_delta_names();
            lemma_delta_steps(a, e.index, "input_json_delta"@, "partial_json"@, t);
            assert forall|key: Seq<char>| #[trigger] entry_of(s.with_arguments(v).tools, key) == if key == id {
                Some(f)
            } else {
                entry_of(s.tools, key)
            } by {
                lemma_entry_update(s.tools, i, f, key);
            }
        }
    }
}

proof fn lemma_item_done_step(s: StreamingV, v: JsonV)
    ensures
        same_told(s, s.with_item_done(v)),
        forall|key: Seq<char>| #[trigger]
            entry_of(s.with_item_done(v).tools, key) == if is_call(v) && key == v.str_or("id"@, Seq::empty()) {
                None
            } else {
                entry_of(s.tools, key)
            },
{
    let id = v.str_or("id"@, Seq::empty());
    if is_call(v) {
        let i = entry_at(s.tools, id);
        if i < s.tools.len() {
            lemma_starts_and_stops_are_silent(s.tools[i].index, JsonV::Null);
            lemma_silent_step(s, block_stop(s.tools[i].index));
            assert forall|key: Seq<char>| #[trigger] entry_of(s.with_item_done(v).tools, key) == if key == id {
                None
            } else {
                entry_of(s.tools, key)
            } by {
                lemma_entry_without(s.tools, id, key);
            }
        }
    } else if is_reasoning(v) {
        let i = entry_at(s.reasonings, id);
        if i < s.reasonings.len() {
            let e = s.reasonings[i];
            let a = if is_reasoning(e.item) && e.text.len() > 0 {
                s.emit(signature(e.index, e.item))
            } else {
                s
            };
            lemma_delta_names();
            lemma_delta_steps(s, e.index, "signature_delta"@, "signature"@, envelope(e.item));
            assert forall|t: Seq<char>| #[trigger] (t + Seq::<char>::empty()) == t by {
                lemma_nothing_added(t);
            }
            assert(same_told(s, a));
            lemma_starts_and_stops_are_silent(e.index, JsonV::Null);
            lemma_silent_step(a, block_stop(e.index));
        }
    }
}

proof fn lemma_stops_step(s: StreamingV, n: int)
    ensures
        same_told(s, s.stops(n)),
        s.stops(n).parts == s.parts,
        s.stops(n).tools == s.tools,
        s.stops(n).next_index == s.next_index,
    decreases n,
{
    if n > 0 {
        lemma_stops_step(s, n - 1);
        let index = s.open[n - 1];
        lemma_starts_and_stops_are_silent(index, JsonV::Null);
        lemma_silent_step(s.stops(n - 1), block_stop(index));
    }
}

/// The text that an event adds to a block of a state.
pub open spec fn event_text(s: StreamingV, e: EventV) -> (Option<u64>, Seq<char>) {
    if e.kind == "response.output_text.delta"@ && e.document is Some {
        match entry_of(s.parts, part_key(e.document->0)) {
            Some(x) => (Some(x.index), e.document->0.str_or("delta"@, Seq::empty())),
            None => (None, Seq::empty()),
        }
    } else {
        (None, Seq::empty())
    }
}

/// The arguments that an event adds to a block of a state.
pub open spec fn event_arguments(s: StreamingV, e: EventV) -> (Option<u64>, Seq<char>) {
    if e.kind == "response.function_call_arguments.delta"@ && e.document is Some {
        let v = e.document->0;
        match (v.str_at("delta"@), entry_of(s.tools, v.str_or("item_id"@, Seq::empty()))) {
            (Some(t), Some(x)) => if trailing_bytes(x.text + t) > 500 {
                (None, Seq::empty())
            } else {
                (Some(x.index), t)
            },
            _ => (None, Seq::empty()),
        }
    } else {
        (None, Seq::empty())
    }
}

/// The thinking that an event brings.
pub open spec fn event_thought(e: EventV) -> Seq<char> {
    if adds_item(e, "reasoning"@) {
        text_of_summary(e.document->0.items_at("summary"@))
    } else {
        Seq::empty()
    }
}

pub proof fn lemma_item_kinds()
    ensures
        "function_call"@ != "reasoning"@,
{
    reveal_strlit("function_call");
    reveal_strlit("reasoning");
    assert("function_call"@.len() == 13 && "reasoning"@.len() == 9);
}

proof fn lemma_event_tells(s: StreamingV, e: EventV)
    ensures
        step_tells(
            s,
            s.with_event(e.kind, e.document),
            event_text(s, e),
            event_arguments(s, e),
            event_thought(e),
        ),
{
    reveal(StreamingV::with_event);
    lemma_event_kinds();
    lemma_item_kinds();
    let b = s.with_event(e.kind, e.document);
    if e.kind == "response.output_text.done"@ {
        if let Some(index) = s.block {
            lemma_starts_and_stops_are_silent(index, JsonV::Null);
            lemma_silent_step(s, block_stop(index));
        }
        lemma_same_is_nothing(s, b);
    } else if e.kind == "response.completed"@ || e.kind == "response.incomplete"@ {
        let t = StreamingV { sent_delta: true, ..s };
        lemma_stops_step(t, t.open.len() as int);
        lemma_same_is_nothing(s, b);
    } else if reports_failure_kind(e.kind) {
        let message = failure_message(e.document);
        lemma_errors_are_silent("api_error"@, message);
        lemma_notes_are_silent(message);
        let o = stream_error("api_error"@, message);
        lemma_silent_step(s, o);
        lemma_silent_step(s.emit(o), OutV::LogError(message));
        lemma_same_is_nothing(s, b);
    } else {
        match e.document {
            None => {
                lemma_same_is_nothing(s, b);
            },
            Some(v) => {
                if e.kind == "response.created"@ || e.kind == "response.in_progress"@ {
                    lemma_created_step(s, v);
                    lemma_same_is_nothing(s, b);
                } else if e.kind == "response.content_part.added"@ {
                    lemma_part_step(s, v);
                    lemma_same_is_nothing(s, b);
                } else if e.kind == "response.output_text.delta"@ {
                    lemma_text_step(s, v);
                } else if e.kind == "response.output_item.added"@ {
                    if is_call(v) {
                        lemma_tool_step(s, v);
                        lemma_same_is_nothing(s, b);
                    } else if is_reasoning(v) {
                        lemma_reasoning_step(s, v);
                    } else {
                        lemma_same_is_nothing(s, b);
                    }
                } else if e.kind == "response.function_call_arguments.delta"@ {
                    lemma_arguments_step(s, v);
                } else if e.kind == "response.output_item.done"@ {
                    lemma_item_done_step(s, v);
                    lemma_same_is_nothing(s, b);
                } else {
                    lemma_same_is_nothing(s, b);
                }
            },
        }
    }
}

/// The entry of a block that begins at a place.
pub open spec fn fresh_entry(key: Seq<char>, index: u64) -> EntryV {
    EntryV { key, index, text: Seq::empty(), item: JsonV::Null }
}

proof fn lemma_event_places(s: StreamingV, e: EventV)
    ensures
        ({
            let b = s.with_event(e.kind, e.document);
            &&& b.next_index == if begins_block(e) {
                next_number(s.next_index)
            } else {
                s.next_index
            }
            &&& forall|key: Seq<char>| #[trigger]
                entry_of(b.parts, key) == if adds_part(e) && key == part_key(e.document->0) {
                    Some(fresh_entry(key, s.next_index))
                } else {
                    entry_of(s.parts, key)
                }
            &&& forall|key: Seq<char>| #[trigger]
                entry_of(b.tools, key) == if adds_item(e, "function_call"@) && key == item_id(e.document->0) {
                    Some(fresh_entry(key, s.next_index))
                } else if ends_item(e, "function_call"@) && key == item_id(e.document->0) {
                    None
                } else {
                    match entry_of(s.tools, key) {
                        Some(x) => if feeds_call(e, key) {
                            Some(EntryV { text: x.text + e.document->0.str_at("delta"@)->0, ..x })
                        } else {
                            Some(x)
                        },
                        None => None,
                    }
                }
        }),
{
    reveal(StreamingV::with_event);
    lemma_event_kinds();
    lemma_item_kinds();
    let b = s.with_event(e.kind, e.document);
    if e.kind == "response.completed"@ || e.kind == "response.incomplete"@ {
        let t = StreamingV { sent_delta: true, ..s };
        lemma_stops_step(t, t.open.len() as int);
    } else if e.kind == "response.output_text.done"@ || reports_failure_kind(e.kind) {
    } else if let Some(v) = e.document {
        if adds_part(e) {
            assert forall|key: Seq<char>| #[trigger] entry_of(b.parts, key) == if key == part_key(v) {
                Some(fresh_entry(key, s.next_index))
            } else {
                entry_of(s.parts, key)
            } by {
                lemma_entry_put(s.parts, fresh_entry(part_key(v), s.next_index), key);
            }
        } else if adds_item(e, "function_call"@) {
            assert forall|key: Seq<char>| #[trigger] entry_of(b.tools, key) == if key == item_id(v) {
                Some(fresh_entry(key, s.next_index))
            } else {
                entry_of(s.tools, key)
            } by {
                lemma_entry_put(s.tools, fresh_entry(item_id(v), s.next_index), key);
            }
        } else if e.kind == "response.function_call_arguments.delta"@ {
            lemma_arguments_step(s, v);
        } else if e.kind == "response.output_item.done"@ {
            lemma_item_done_step(s, v);
        }
    }
}

/// The digits of a number hold no colon, and no two numbers have the same digits.
proof fn lemma_decimal_digits(n: nat)
    ensures
        decimal(n).len() > 0,
        forall|i: int| 0 <= i < decimal(n).len() ==> #[trigger] decimal(n)[i] != ':',
    decreases n,
{
    if n >= 10 {
        lemma_decimal_digits(n / 10);
    }
}

proof fn lemma_decimal_differs(n: nat, m: nat)
    requires
        decimal(n) == decimal(m),
    ensures
        n == m,
    decreases n,
{
    lemma_decimal_digits(n / 10);
    lemma_decimal_digits(m / 10);
    if n < 10 && m < 10 {
        assert(decimal(n)[0] == digit(n) && decimal(m)[0] == digit(m));
    } else if n < 10 || m < 10 {
        let small = if n < 10 {
            n
        } else {
            m
        };
        let large = if n < 10 {
            m
        } else {
            n
        };
        assert(decimal(small).len() == 1);
        assert(decimal(large) == decimal(large / 10).push(digit(large % 10)));
    } else {
        assert(decimal(n).drop_last() =~= decimal(n / 10));
        assert(decimal(m).drop_last() =~= decimal(m / 10));
        lemma_decimal_differs(n / 10, m / 10);
        assert(decimal(n).last() == digit(n % 10) && decimal(m).last() == digit(m % 10));
    }
}

/// Two parts have the same key only where they are the same.
proof fn lemma_part_keys(v: JsonV, w: JsonV)
    ensures
        part_key(v) == part_key(w) <==> part_of(v) == part_of(w),
{
    let (a, m) = part_of(v);
    let (b, n) = part_of(w);
    let x = decimal(m);
    let y = decimal(n);
    assert(part_key(v) == a + ":"@ + x);
    assert(part_key(w) == b + ":"@ + y);
    reveal_strlit(":");
    if part_key(v) == part_key(w) {
        lemma_decimal_digits(m);
        lemma_decimal_digits(n);
        let k = part_key(v);
        assert(k[a.len() as int] == ':');
        assert(k[b.len() as int] == ':');
        if a.len() < b.len() {
            assert(k[b.len() as int] == x[b.len() - a.len() - 1]);
        }
        if b.len() < a.len() {
            assert(k[a.len() as int] == y[a.len() - b.len() - 1]);
        }
        assert(a =~= k.take(a.len() as int));
        assert(b =~= k.take(b.len() as int));
        assert(x =~= k.skip(a.len() as int + 1));
        assert(y =~= k.skip(b.len() as int + 1));
        lemma_decimal_differs(m, n);
    }
}

proof fn lemma_block_in_range(list: Seq<EventV>, part: (Seq<char>, nat), id: Seq<char>)
    ensures
        block_of_part(list, part) is Some ==> block_of_part(list, part)->0 < blocks_begun(list),
        block_of_call(list, id) is Some ==> block_of_call(list, id)->0 < blocks_begun(list),
        blocks_begun(list) <= list.len(),
    decreases list.len(),
{
    if list.len() > 0 {
        lemma_block_in_range(list.drop_last(), part, id);
    }
}

/// Two parts have two blocks, and a part and a call too.
proof fn lemma_blocks_differ(list: Seq<EventV>, p: (Seq<char>, nat), q: (Seq<char>, nat), a: Seq<char>, b: Seq<char>)
    ensures
        block_of_part(list, p) is Some && block_of_part(list, p) == block_of_part(list, q) ==> p == q,
        block_of_call(list, a) is Some && block_of_call(list, a) == block_of_call(list, b) ==> a == b,
    decreases list.len(),
{
    if list.len() > 0 {
        let front = list.drop_last();
        lemma_item_kinds();
        lemma_event_kinds();
        lemma_blocks_differ(front, p, q, a, b);
        lemma_block_in_range(front, p, a);
        lemma_block_in_range(front, q, b);
    }
}

/// Whether a state agrees with the events before it.
pub open spec fn matches_events(s: StreamingV, list: Seq<EventV>) -> bool {
    &&& s.next_index == blocks_begun(list)
    &&& forall|v: JsonV| #[trigger]
        entry_of(s.parts, part_key(v)) == match block_of_part(list, part_of(v)) {
            Some(n) => Some(fresh_entry(part_key(v), n as u64)),
            None => None,
        }
    &&& forall|id: Seq<char>| #[trigger]
        entry_of(s.tools, id) == match block_of_call(list, id) {
            Some(n) => Some(EntryV { text: arguments_since_begun(list, id).0, ..fresh_entry(id, n as u64) }),
            None => None,
        }
}

proof fn lemma_matches_events(model: Seq<char>, list: Seq<EventV>)
    requires
        list.len() < u64::MAX,
    ensures
        matches_events(after_events(StreamingV::initial(model), list), list),
    decreases list.len(),
{
    if list.len() > 0 {
        let front = list.drop_last();
        let e = list.last();
        lemma_matches_events(model, front);
        let s = after_events(StreamingV::initial(model), front);
        let b = s.with_event(e.kind, e.document);
        lemma_event_places(s, e);
        lemma_event_kinds();
        lemma_item_kinds();
        lemma_block_in_range(front, (Seq::empty(), 0), Seq::empty());
        assert forall|v: JsonV| #[trigger]
            entry_of(b.parts, part_key(v)) == match block_of_part(list, part_of(v)) {
                Some(n) => Some(fresh_entry(part_key(v), n as u64)),
                None => None,
            } by {
            if let Some(w) = e.document {
                lemma_part_keys(v, w);
            }
            assert(entry_of(s.parts, part_key(v)) == match block_of_part(front, part_of(v)) {
                Some(n) => Some(fresh_entry(part_key(v), n as u64)),
                None => None,
            });
        }
        assert forall|id: Seq<char>| #[trigger]
            entry_of(b.tools, id) == match block_of_call(list, id) {
                Some(n) => Some(EntryV { text: arguments_since_begun(list, id).0, ..fresh_entry(id, n as u64) }),
                None => None,
            } by {
            assert(entry_of(s.tools, id) == match block_of_call(front, id) {
                Some(n) => Some(EntryV { text: arguments_since_begun(front, id).0, ..fresh_entry(id, n as u64) }),
                None => None,
            });
        }
    } else {
        let s = StreamingV::initial(model);
        assert forall|id: Seq<char>| #[trigger] entry_of(s.tools, id) is None by {}
    }
}

/// Nothing is told of a block that has not begun.
proof fn lemma_nothing_ahead(model: Seq<char>, list: Seq<EventV>, i: u64)
    requires
        list.len() < u64::MAX,
        i >= blocks_begun(list),
    ensures
        text_told_at(after_events(StreamingV::initial(model), list).out, i) == Seq::<char>::empty(),
        arguments_told_at(after_events(StreamingV::initial(model), list).out, i) == Seq::<char>::empty(),
    decreases list.len(),
{
    if list.len() > 0 {
        let front = list.drop_last();
        let e = list.last();
        lemma_nothing_ahead(model, front, i);
        lemma_matches_events(model, front);
        let s = after_events(StreamingV::initial(model), front);
        let b = s.with_event(e.kind, e.document);
        lemma_event_tells(s, e);
        lemma_nothing_added(Seq::empty());
        if let Some(v) = e.document {
            lemma_block_in_range(front, part_of(v), v.str_or("item_id"@, Seq::empty()));
            assert(event_text(s, e).0 != Some(i));
            assert(event_arguments(s, e).0 != Some(i));
        }
        assert(told(b.out, Some(i), "text_delta"@, "text"@) == told(s.out, Some(i), "text_delta"@, "text"@));
        assert(told(b.out, Some(i), "input_json_delta"@, "partial_json"@) == told(
            s.out,
            Some(i),
            "input_json_delta"@,
            "partial_json"@,
        ));
    }
}

/// The texts given out for a part, put one after another at the index of its block,
/// are the deltas of that part since it was added, put one after another.
pub proof fn law_part_is_told_in_its_block(model: Seq<char>, list: Seq<EventV>, part: (Seq<char>, nat))
    requires
        list.len() < u64::MAX,
        block_of_part(list, part) is Some,
    ensures
        text_told_at(after_events(StreamingV::initial(model), list).out, block_of_part(list, part)->0 as u64)
            == text_since_added(list, part),
    decreases list.len(),
{
    let front = list.drop_last();
    let e = list.last();
    let n = block_of_part(list, part)->0;
    let i = n as u64;
    let s = after_events(StreamingV::initial(model), front);
    let b = s.with_event(e.kind, e.document);
    lemma_matches_events(model, front);
    lemma_event_tells(s, e);
    lemma_event_kinds();
    lemma_block_in_range(front, part, Seq::empty());
    assert(told(b.out, Some(i), "text_delta"@, "text"@) == told(s.out, Some(i), "text_delta"@, "text"@) + if event_text(
        s,
        e,
    ).0 == Some(i) {
        event_text(s, e).1
    } else {
        Seq::empty()
    });
    if adds_part(e) && part_of(e.document->0) == part {
        lemma_nothing_ahead(model, front, i);
        lemma_nothing_added(Seq::empty());
        assert(event_text(s, e).0 is None);
    } else {
        law_part_is_told_in_its_block(model, front, part);
        if e.kind == "response.output_text.delta"@ && e.document is Some {
            let w = e.document->0;
            lemma_blocks_differ(front, part, part_of(w), Seq::empty(), Seq::empty());
            lemma_block_in_range(front, part_of(w), Seq::empty());
            lemma_nothing_added(told(s.out, Some(i), "text_delta"@, "text"@));
            assert(entry_of(s.parts, part_key(w)) == match block_of_part(front, part_of(w)) {
                Some(n) => Some(fresh_entry(part_key(w), n as u64)),
                None => None,
            });
        } else {
            assert(event_text(s, e).0 is None);
        }
    }
}

/// The arguments given out for a call, put one after another at the index of its
/// block, are the deltas of that call since it was begun, put one after another; once
/// they end in more than 500 bytes of white space, they are held back.
pub proof fn law_arguments_are_told_in_their_block(model: Seq<char>, list: Seq<EventV>, id: Seq<char>)
    requires
        list.len() < u64::MAX,
        block_of_call(list, id) is Some,
    ensures
        arguments_told_at(after_events(StreamingV::initial(model), list).out, block_of_call(list, id)->0 as u64)
            == arguments_since_begun(list, id).1,
    decreases list.len(),
{
    let front = list.drop_last();
    let e = list.last();
    let i = block_of_call(list, id)->0 as u64;
    let s = after_events(StreamingV::initial(model), front);
    let b = s.with_event(e.kind, e.document);
    lemma_matches_events(model, front);
    lemma_event_tells(s, e);
    lemma_event_kinds();
    lemma_item_kinds();
    lemma_block_in_range(front, (Seq::empty(), 0), id);
    let was = told(s.out, Some(i), "input_json_delta"@, "partial_json"@);
    assert(told(b.out, Some(i), "input_json_delta"@, "partial_json"@) == was + if event_arguments(s, e).0 == Some(i) {
        event_arguments(s, e).1
    } else {
        Seq::empty()
    });
    lemma_nothing_added(was);
    if adds_item(e, "function_call"@) && item_id(e.document->0) == id {
        lemma_nothing_ahead(model, front, i);
        assert(event_arguments(s, e).0 is None);
    } else {
        law_arguments_are_told_in_their_block(model, front, id);
        if e.kind == "response.function_call_arguments.delta"@ && e.document is Some {
            let other = e.document->0.str_or("item_id"@, Seq::empty());
            lemma_blocks_differ(front, (Seq::empty(), 0), (Seq::empty(), 0), id, other);
            lemma_block_in_range(front, (Seq::empty(), 0), other);
            assert(entry_of(s.tools, other) == match block_of_call(front, other) {
                Some(n) => Some(
                    EntryV { text: arguments_since_begun(front, other).0, ..fresh_entry(other, n as u64) },
                ),
                None => None,
            });
        } else {
            assert(event_arguments(s, e).0 is None);
        }
    }
}

/// The text given out is that of the deltas of all parts that were added, put one
/// after another, and the thinking is that of the summaries of the reasoning items.
pub proof fn law_events_tell_their_text(model: Seq<char>, list: Seq<EventV>)
    requires
        list.len() < u64::MAX,
    ensures
        text_told(after_events(StreamingV::initial(model), list).out) == text_of_parts(list),
        thinking_told(after_events(StreamingV::initial(model), list).out) == summaries(list),
    decreases list.len(),
{
    if list.len() > 0 {
        let front = list.drop_last();
        let e = list.last();
        law_events_tell_their_text(model, front);
        let s = after_events(StreamingV::initial(model), front);
        let b = s.with_event(e.kind, e.document);
        lemma_matches_events(model, front);
        lemma_event_tells(s, e);
        lemma_nothing_added(text_told(s.out));
        lemma_nothing_added(thinking_told(s.out));
        assert(told(b.out, None, "text_delta"@, "text"@) == told(s.out, None, "text_delta"@, "text"@) + if event_text(
            s,
            e,
        ).0 is Some {
            event_text(s, e).1
        } else {
            Seq::empty()
        });
        if let Some(v) = e.document {
            assert(entry_of(s.parts, part_key(v)) == match block_of_part(front, part_of(v)) {
                Some(n) => Some(fresh_entry(part_key(v), n as u64)),
                None => None,
            });
        }
    }
}

/// Each delta of a part that was added gives out one text delta with the same text, at
/// the index of the block of that part; a delta of any other part gives out nothing.
pub proof fn law_delta_gives_out_its_text(model: Seq<char>, list: Seq<EventV>, v: JsonV, t: Seq<char>)
    requires
        list.len() < u64::MAX,
        v.str_at("delta"@) == Some(t),
    ensures
        ({
            let s = after_events(StreamingV::initial(model), list);
            let b = s.with_event("response.output_text.delta"@, Some(v));
            match block_of_part(list, part_of(v)) {
                Some(n) => {
                    &&& b.out.len() == s.out.len() + 2
                    &&& b.out.take(s.out.len() as int) == s.out
                    &&& b.out[s.out.len() as int] == OutV::Log(t)
                    &&& b.out.last() == (OutV::Event {
                        name: "content_block_delta"@,
                        data: JsonV::Object(
                            map![
                                "type"@ => JsonV::Text("content_block_delta"@),
                                "index"@ => JsonV::Number(NumV::Int(n as int)),
                                "delta"@ => JsonV::Object(
                                    map!["type"@ => JsonV::Text("text_delta"@), "text"@ => JsonV::Text(t)],
                                ),
                            ],
                        ),
                    })
                },
                None => b.out == s.out,
            }
        }),
{
    let s = after_events(StreamingV::initial(model), list);
    let b = s.with_event("response.output_text.delta"@, Some(v));
    reveal(StreamingV::with_event);
    lemma_event_kinds();
    lemma_matches_events(model, list);
    lemma_entry_at(s.parts, part_key(v));
    lemma_block_in_range(list, part_of(v), Seq::empty());
    assert(entry_of(s.parts, part_key(v)) == match block_of_part(list, part_of(v)) {
        Some(n) => Some(fresh_entry(part_key(v), n as u64)),
        None => None,
    });
    if block_of_part(list, part_of(v)) is Some {
        assert(b.out.take(s.out.len() as int) =~= s.out);
    }
}

/// A state in which `before` was given out ahead of the rest.
pub open spec fn preceded(before: Seq<OutV>, s: StreamingV) -> StreamingV {
    StreamingV { out: before + s.out, ..s }
}

proof fn lemma_preceded_emit(before: Seq<OutV>, s: StreamingV, o: OutV)
    ensures
        preceded(before, s).emit(o) == preceded(before, s.emit(o)),
{
    assert(before + s.out.push(o) =~= (before + s.out).push(o));
}

proof fn lemma_preceded_stops(before: Seq<OutV>, s: StreamingV, n: int)
    requires
        n <= s.open.len(),
    ensures
        preceded(before, s).stops(n) == preceded(before, s.stops(n)),
    decreases n,
{
    if n > 0 {
        lemma_preceded_stops(before, s, n - 1);
        lemma_preceded_emit(before, s.stops(n - 1), block_stop(s.open[n - 1]));
    }
}

proof fn lemma_preceded_document(before: Seq<OutV>, s: StreamingV, kind: Seq<char>, v: JsonV)
    ensures
        preceded(before, s).with_document(kind, v) == preceded(before, s.with_document(kind, v)),
{
    assert forall|x: StreamingV, o: OutV| #[trigger] preceded(before, x.emit(o)) == preceded(before, x).emit(o) by {
        lemma_preceded_emit(before, x, o);
    }
}

/// What an event gives out does not depend on what was given out before it.
pub proof fn law_event_goes_by_the_state_alone(before: Seq<OutV>, s: StreamingV, kind: Seq<char>, document: Option<JsonV>)
    ensures
        preceded(before, s).with_event(kind, document) == preceded(before, s.with_event(kind, document)),
{
    reveal(StreamingV::with_event);
    assert forall|x: StreamingV, o: OutV| #[trigger] preceded(before, x.emit(o)) == preceded(before, x).emit(o) by {
        lemma_preceded_emit(before, x, o);
    }
    if kind == "response.output_text.done"@ {
    } else if kind == "response.completed"@ || kind == "response.incomplete"@ {
        let t = StreamingV { sent_delta: true, ..s };
        lemma_preceded_stops(before, t, t.open.len() as int);
    } else if reports_failure_kind(kind) {
        let message = failure_message(document);
        let o = stream_error("api_error"@, message);
        lemma_preceded_emit(before, s, o);
        lemma_preceded_emit(before, s.emit(o), OutV::LogError(message));
    } else if let Some(v) = document {
        lemma_preceded_document(before, s, kind, v);
    }
}

proof fn lemma_preceded_events(before: Seq<OutV>, s: StreamingV, list: Seq<EventV>)
    ensures
        after_events(preceded(before, s), list) == preceded(before, after_events(s, list)),
    decreases list.len(),
{
    if list.len() > 0 {
        lemma_preceded_events(before, s, list.drop_last());
        law_event_goes_by_the_state_alone(
            before,
            after_events(s, list.drop_last()),
            list.last().kind,
            list.last().document,
        );
    }
}

proof fn lemma_events_in_turn(s: StreamingV, a: Seq<EventV>, b: Seq<EventV>)
    ensures
        after_events(s, a + b) == after_events(after_events(s, a), b),
    decreases b.len(),
{
    if b.len() == 0 {
        assert(a + b =~= a);
    } else {
        lemma_events_in_turn(s, a, b.drop_last());
        assert((a + b).drop_last() =~= a + b.drop_last());
    }
}

/// The event of a block: one where the block has data, and none else.
pub open spec fn event_of_block(block: Seq<char>) -> Seq<EventV> {
    let f = frame(lines(block));
    if trim(block).len() == 0 || f.data.len() == 0 {
        Seq::empty()
    } else {
        seq![EventV { kind: f.kind, document: document_in(f.data) }]
    }
}

/// The events of a text up to the first that reports a failure, and the text that is
/// left.
pub open spec fn events_of_text(text: Seq<char>) -> (Seq<EventV>, Seq<char>)
    decreases text.len(),
{
    match block_end(text) {
        Some((at, len)) => if 0 <= at && 0 < len && at + len <= text.len() {
            let first = event_of_block(text.take(at));
            let rest = text.skip(at + len);
            if first.len() > 0 && (first[0].kind == "response.failed"@ || first[0].kind == "error"@) {
                (first, rest)
            } else {
                (first + events_of_text(rest).0, events_of_text(rest).1)
            }
        } else {
            (Seq::empty(), text)
        },
        None => (Seq::empty(), text),
    }
}

/// The events of a stream, up to its end or its failure.
pub open spec fn events_of_stream(buffer: Seq<char>, remainder: Seq<u8>, stream: Seq<PieceV>) -> Seq<EventV>
    decreases stream.len(),
{
    if stream.len() == 0 {
        Seq::empty()
    } else {
        match stream[0] {
            PieceV::Bytes(b) => {
                let d = decoded(remainder + b);
                let (events, rest) = events_of_text(buffer + d.text);
                events + events_of_stream(rest, d.rest, stream.drop_first())
            },
            PieceV::Failure(m) => Seq::empty(),
        }
    }
}

proof fn lemma_text_is_events(s: StreamingV, text: Seq<char>)
    ensures
        after_text(s, text) == (after_events(s, events_of_text(text).0), events_of_text(text).1),
    decreases text.len(),
{
    if let Some((at, len)) = block_end(text) {
        if 0 <= at && 0 < len && at + len <= text.len() {
            let block = text.take(at);
            let rest = text.skip(at + len);
            let f = frame(lines(block));
            let first = event_of_block(block);
            let a = after_events(s, first);
            reveal_with_fuel(after_events, 2);
            if first.len() > 0 {
                let e = EventV { kind: f.kind, document: document_in(f.data) };
                assert(first.drop_last() =~= Seq::empty());
                assert(first.last() == e);
                assert(a == s.with_event(e.kind, e.document));
            }
            lemma_text_is_events(a, rest);
            lemma_events_in_turn(s, first, events_of_text(rest).0);
        }
    }
}

/// How a stream ends: with its failure, or where it came to its end.
pub open spec fn stream_failure(stream: Seq<PieceV>) -> Option<Seq<char>>
    decreases stream.len(),
{
    if stream.len() == 0 {
        None
    } else {
        match stream[0] {
            PieceV::Bytes(b) => stream_failure(stream.drop_first()),
            PieceV::Failure(m) => Some(m),
        }
    }
}

/// A state after the end of a stream.
pub open spec fn finished(s: StreamingV, failure: Option<Seq<char>>) -> StreamingV {
    match failure {
        Some(m) => s.broken(m),
        None => s.ended(),
    }
}

proof fn lemma_preceded_end(before: Seq<OutV>, s: StreamingV, failure: Option<Seq<char>>)
    ensures
        finished(preceded(before, s), failure) == preceded(before, finished(s, failure)),
{
    assert forall|x: StreamingV, o: OutV| #[trigger] preceded(before, x.emit(o)) == preceded(before, x).emit(o) by {
        lemma_preceded_emit(before, x, o);
    }
    match failure {
        Some(m) => {
            let text = "Stream error: "@ + m;
            let o = stream_error("stream_error"@, text);
            lemma_preceded_emit(before, s, o);
            lemma_preceded_emit(before, s.emit(o), OutV::LogError(text));
        },
        None => {
            if !s.failed {
                lemma_preceded_stops(before, s, s.open.len() as int);
                let a = s.all_closed();
                assert(preceded(before, s).all_closed() == preceded(before, a));
                let b = match a.pending {
                    Some(p) => StreamingV { pending: None, ..a.emit(message_delta(p.stop, p.usage)) },
                    None => a,
                };
                if let Some(p) = a.pending {
                    lemma_preceded_emit(before, a, message_delta(p.stop, p.usage));
                }
                lemma_preceded_emit(before, b, message_stop());
                lemma_preceded_emit(before, b.emit(message_stop()), OutV::LogDone);
            }
        },
    }
}

proof fn lemma_whole_is_events(s: ResponsesV, stream: Seq<PieceV>)
    requires
        s.progress.out.len() == 0,
    ensures
        s.whole(stream) == finished(
            after_events(s.progress, events_of_stream(s.buffer, s.remainder, stream)),
            stream_failure(stream),
        ).out,
    decreases stream.len(),
{
    if stream.len() > 0 {
        match stream[0] {
            PieceV::Bytes(b) => {
                let rest = stream.drop_first();
                let d = decoded(s.remainder + b);
                let text = s.buffer + d.text;
                lemma_text_is_events(s.progress, text);
                let next = s.with_bytes(b);
                let first = events_of_text(text).0;
                let more = events_of_stream(next.buffer, next.remainder, rest);
                lemma_whole_is_events(next.drained(), rest);
                lemma_events_in_turn(s.progress, first, more);
                let mid = next.progress;
                assert(preceded(mid.out, mid.drained()).out =~= mid.out);
                assert(preceded(mid.out, mid.drained()) == mid);
                lemma_preceded_events(mid.out, mid.drained(), more);
                lemma_preceded_end(mid.out, after_events(mid.drained(), more), stream_failure(rest));
            },
            PieceV::Failure(m) => {},
        }
    }
}

/// A whole Responses stream gives out what its events give out, in the order in which
/// they came, and then what its end or its failure gives out.
pub proof fn law_responses_stream_is_its_events(model: Seq<char>, stream: Seq<PieceV>)
    ensures
        ResponsesV::initial(model).whole(stream) == finished(
            after_events(StreamingV::initial(model), events_of_stream(Seq::empty(), Seq::empty(), stream)),
            stream_failure(stream),
        ).out,
{
    lemma_whole_is_events(ResponsesV::initial(model), stream);
}

proof fn lemma_finished_told(s: StreamingV, failure: Option<Seq<char>>)
    ensures
        same_told(s, finished(s, failure)),
{
    match failure {
        Some(m) => {
            let text = "Stream error: "@ + m;
            let o = stream_error("stream_error"@, text);
            lemma_errors_are_silent("stream_error"@, text);
            lemma_notes_are_silent(text);
            lemma_silent_step(s, o);
            lemma_silent_step(s.emit(o), OutV::LogError(text));
        },
        None => {
            if !s.failed {
                lemma_stops_step(s, s.open.len() as int);
                let a = s.all_closed();
                let b = match a.pending {
                    Some(p) => StreamingV { pending: None, ..a.emit(message_delta(p.stop, p.usage)) },
                    None => a,
                };
                if let Some(p) = a.pending {
                    lemma_message_events_are_silent(Seq::empty(), Seq::empty(), JsonV::Null, p.stop, p.usage);
                    lemma_silent_step(a, message_delta(p.stop, p.usage));
                }
                lemma_message_events_are_silent(Seq::empty(), Seq::empty(), JsonV::Null, None, None);
                lemma_silent_step(b, message_stop());
                lemma_notes_are_silent(Seq::empty());
                lemma_silent_step(b.emit(message_stop()), OutV::LogDone);
            }
        },
    }
}

/// Over a whole Responses stream, the texts given out at the index of the block of a
/// part, put one after another, are the deltas of that part since it was added; the
/// texts given out in all are the deltas of all parts that were added, and the thinking
/// is that of the summaries of the reasoning items.
pub proof fn law_responses_stream_tells_its_text(model: Seq<char>, stream: Seq<PieceV>, part: (Seq<char>, nat))
    requires
        events_of_stream(Seq::empty(), Seq::empty(), stream).len() < u64::MAX,
    ensures
        ({
            let events = events_of_stream(Seq::empty(), Seq::empty(), stream);
            let all = ResponsesV::initial(model).whole(stream);
            &&& text_told(all) == text_of_parts(events)
            &&& thinking_told(all) == summaries(events)
            &&& block_of_part(events, part) is Some ==> text_told_at(all, block_of_part(events, part)->0 as u64)
                == text_since_added(events, part)
        }),
{
    let events = events_of_stream(Seq::empty(), Seq::empty(), stream);
    let s = after_events(StreamingV::initial(model), events);
    let b = finished(s, stream_failure(stream));
    law_responses_stream_is_its_events(model, stream);
    law_events_tell_their_text(model, events);
    lemma_finished_told(s, stream_failure(stream));
    assert(told(b.out, None, "text_delta"@, "text"@) == told(s.out, None, "text_delta"@, "text"@));
    assert(told(b.out, None, "thinking_delta"@, "thinking"@) == told(s.out, None, "thinking_delta"@, "thinking"@));
    if block_of_part(events, part) is Some {
        law_part_is_told_in_its_block(model, events, part);
        let i = block_of_part(events, part)->0 as u64;
        assert(told(b.out, Some(i), "text_delta"@, "text"@) == told(s.out, Some(i), "text_delta"@, "text"@));
    }
}

} // verus!
