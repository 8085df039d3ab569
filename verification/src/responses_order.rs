//! The content blocks of a converted Responses stream: as long as the events of the
//! upstream are regular, each block is started once, added to only while it is
//! open, and closed once.

use vstd::prelude::*;
use crate::block_order::{BlockEvent, block_event, lemma_args_event, lemma_delta_event, lemma_other_events, lemma_start_event, lemma_stop_event, lemma_text_delta_type, lemma_tool_start_event};
use crate::convert_response::thinking_block;
use crate::json::{JsonV, text_block};
use crate::reasoning_bridge::{envelope, is_reasoning};
use crate::responses_response::{is_call, no_usage};
use crate::stream_out::{OutV, args_delta, block_delta, block_start, block_stop, message_delta, message_start, message_stop, signature, stream_error, text_delta, tool_note, tool_start};
use crate::streaming_responses::{EntryV, StreamingV, entry_at, failure_message, joined_texts, lemma_entry_at, part_key, put_entry, reports_failure_kind, without_index};

verus! {

/// What is known of the content blocks after some events.
pub struct Placement {
    /// The open blocks.
    pub open: Set<u64>,
    /// The indices that were given to a block.
    pub used: Set<u64>,
    /// Whether all events were about open blocks.
    pub ok: bool,
}

/// What is known after one more event.
pub open spec fn placed_event(p: Placement, e: BlockEvent) -> Placement {
    match e {
        BlockEvent::Start(i, _) => Placement {
            open: p.open.insert(i),
            used: p.used.insert(i),
            ok: p.ok && !p.used.contains(i),
        },
        BlockEvent::Delta(i) => Placement { ok: p.ok && p.open.contains(i), ..p },
        BlockEvent::Signature(i) => Placement { ok: p.ok && p.open.contains(i), ..p },
        BlockEvent::Stop(i) => Placement { open: p.open.remove(i), ok: p.ok && p.open.contains(i), ..p },
        BlockEvent::Other => p,
    }
}

/// What is known of the content blocks after a list of steps.
pub open spec fn placement(list: Seq<OutV>) -> Placement
    decreases list.len(),
{
    if list.len() == 0 {
        Placement { open: Set::empty(), used: Set::empty(), ok: true }
    } else {
        placed_event(placement(list.drop_last()), block_event(list.last()))
    }
}

/// Whether every event so far was about a block that was open, and the state knows
/// which blocks are.
pub open spec fn placed(s: StreamingV) -> bool {
    let p = placement(s.out);
    &&& p.ok
    &&& forall|i: u64| #[trigger] p.used.contains(i) ==> i < s.next_index
    &&& forall|i: u64| #[trigger] p.open.contains(i) <==> s.open.contains(i)
    &&& forall|i: u64| #[trigger] s.open.contains(i) ==> p.used.contains(i)
    &&& s.open.no_duplicates()
}

/// Whether the item of a key, where there is one, stands as an open block.
pub open spec fn is_open_item(s: StreamingV, list: Seq<EntryV>, key: Seq<char>) -> bool {
    entry_at(list, key) < list.len() ==> s.open.contains(list[entry_at(list, key)].index)
}

/// Whether an event adds to and ends only what is open, and begins no text before
/// the last one ended.
pub open spec fn is_regular(s: StreamingV, kind: Seq<char>, document: Option<JsonV>) -> bool {
    if kind == "response.output_text.done"@ {
        s.block matches Some(i) ==> s.open.contains(i)
    } else {
        document matches Some(v) ==> {
            if kind == "response.content_part.added"@ {
                s.block is None
            } else if kind == "response.output_text.delta"@ {
                is_open_item(s, s.parts, part_key(v))
            } else if kind == "response.function_call_arguments.delta"@ {
                is_open_item(s, s.tools, v.str_or("item_id"@, Seq::empty()))
            } else if kind == "response.output_item.done"@ {
                &&& is_open_item(s, s.tools, v.str_or("id"@, Seq::empty()))
                &&& is_open_item(s, s.reasonings, v.str_or("id"@, Seq::empty()))
            } else {
                true
            }
        }
    }
}

proof fn lemma_placement_push(list: Seq<OutV>, o: OutV)
    ensures
        placement(list.push(o)) == placed_event(placement(list), block_event(o)),
{
    assert(list.push(o).drop_last() =~= list);
}

/// Fields that have no part in the blocks.
proof fn lemma_same_blocks(a: StreamingV, b: StreamingV)
    requires
        placed(a),
        b.out == a.out,
        b.open == a.open,
        b.next_index == a.next_index,
    ensures
        placed(b),
{
}

proof fn lemma_placed_other(s: StreamingV, o: OutV)
    requires
        placed(s),
        block_event(o) is Other,
    ensures
        placed(s.emit(o)),
{
    lemma_placement_push(s.out, o);
}

proof fn lemma_placed_delta(s: StreamingV, i: u64, o: OutV)
    requires
        placed(s),
        block_event(o) == BlockEvent::Delta(i) || block_event(o) == BlockEvent::Signature(i),
        s.open.contains(i),
    ensures
        placed(s.emit(o)),
{
    lemma_placement_push(s.out, o);
    assert(placement(s.out).open.contains(i));
}

proof fn lemma_placed_start(s: StreamingV, o: OutV, thinking: bool)
    requires
        placed(s),
        s.next_index < u64::MAX,
        block_event(o) == BlockEvent::Start(s.next_index, thinking),
    ensures
        placed(s.block_opened(o)),
        s.block_opened(o).open.contains(s.next_index),
{
    lemma_placement_push(s.out, o);
    let i = s.next_index;
    let r = s.block_opened(o);
    let p = placement(s.out);
    assert(!p.used.contains(i));
    assert(!s.open.contains(i));
    assert(r.open[s.open.len() as int] == i);
    assert forall|j: u64| #[trigger] placement(r.out).open.contains(j) <==> r.open.contains(j) by {
        if s.open.contains(j) {
            let k = choose|k: int| 0 <= k < s.open.len() && s.open[k] == j;
            assert(r.open[k] == j);
        }
        if r.open.contains(j) && j != i {
            let k = choose|k: int| 0 <= k < r.open.len() && r.open[k] == j;
            assert(s.open[k] == j);
        }
        assert(p.open.contains(j) <==> s.open.contains(j));
    }
    assert forall|j: u64| #[trigger] r.open.contains(j) implies placement(r.out).used.contains(j) by {
        if j != i {
            let k = choose|k: int| 0 <= k < r.open.len() && r.open[k] == j;
            assert(s.open[k] == j);
            assert(s.open.contains(j));
        }
    }
}

proof fn lemma_without_index(v: Seq<u64>, i: u64)
    requires
        v.no_duplicates(),
    ensures
        without_index(v, i).no_duplicates(),
        forall|j: u64| #[trigger] without_index(v, i).contains(j) <==> v.contains(j) && j != i,
    decreases v.len(),
{
    if v.len() > 0 {
        let front = v.drop_last();
        assert(front.no_duplicates());
        lemma_without_index(front, i);
        let w = without_index(front, i);
        let r = without_index(v, i);
        assert(!w.contains(v.last())) by {
            if w.contains(v.last()) {
                assert(front.contains(v.last()));
                let k = choose|k: int| 0 <= k < front.len() && front[k] == v.last();
                assert(v[k] == v[v.len() - 1]);
            }
        }
        assert forall|j: u64| #[trigger] r.contains(j) <==> v.contains(j) && j != i by {
            if front.contains(j) {
                let k = choose|k: int| 0 <= k < front.len() && front[k] == j;
                assert(v[k] == j);
            }
            if v.contains(j) && j != v.last() {
                let k = choose|k: int| 0 <= k < v.len() && v[k] == j;
                assert(front[k] == j);
            }
            assert(v[v.len() - 1] == v.last());
            if v.last() != i {
                assert(r == w.push(v.last()));
                if w.contains(j) {
                    let k = choose|k: int| 0 <= k < w.len() && w[k] == j;
                    assert(r[k] == j);
                }
                assert(r[w.len() as int] == v.last());
                if r.contains(j) && j != v.last() {
                    let k = choose|k: int| 0 <= k < r.len() && r[k] == j;
                    assert(w[k] == j);
                }
            }
        }
        if v.last() != i {
            assert forall|a: int, b: int| 0 <= a < b < r.len() implies r[a] != r[b] by {
                if b == w.len() {
                    assert(w.contains(w[a]));
                }
            }
        }
    }
}

proof fn lemma_placed_stop(s: StreamingV, i: u64)
    requires
        placed(s),
        s.open.contains(i),
    ensures
        placed(s.block_closed(i)),
{
    lemma_stop_event(i);
    lemma_placement_push(s.out, block_stop(i));
    lemma_without_index(s.open, i);
    assert(placement(s.out).open.contains(i));
    let r = s.block_closed(i);
    assert forall|j: u64| #[trigger] placement(r.out).open.contains(j) <==> r.open.contains(j) by {
        assert(placement(s.out).open.contains(j) <==> s.open.contains(j));
    }
}

proof fn lemma_placed_stops(s: StreamingV, n: int)
    requires
        placed(s),
        0 <= n <= s.open.len(),
    ensures
        placement(s.stops(n).out).ok,
        placement(s.stops(n).out).used == placement(s.out).used,
        s.stops(n).next_index == s.next_index,
        forall|j: u64| #[trigger]
            placement(s.stops(n).out).open.contains(j) <==> s.open.skip(n).contains(j),
    decreases n,
{
    if n > 0 {
        lemma_placed_stops(s, n - 1);
        let before = s.stops(n - 1);
        let i = s.open[n - 1];
        lemma_stop_event(i);
        lemma_placement_push(before.out, block_stop(i));
        assert(s.open.skip(n - 1)[0] == i);
        assert(s.open.skip(n - 1).contains(i));
        assert(placement(before.out).open.contains(i));
        assert forall|j: u64| #[trigger] placement(s.stops(n).out).open.contains(j) <==> s.open.skip(n).contains(
            j,
        ) by {
            let a = s.open.skip(n - 1);
            let b = s.open.skip(n);
            if b.contains(j) {
                let k = choose|k: int| 0 <= k < b.len() && b[k] == j;
                assert(a[k + 1] == j);
                assert(s.open[n + k] == j && s.open[n - 1] == i);
                assert(j != i);
            }
            if a.contains(j) && j != i {
                let k = choose|k: int| 0 <= k < a.len() && a[k] == j;
                assert(b[k - 1] == j);
            }
            assert(placement(before.out).open.contains(j) <==> a.contains(j));
        }
    } else {
        assert(s.open.skip(0) =~= s.open);
    }
}

proof fn lemma_placed_all_closed(s: StreamingV)
    requires
        placed(s),
    ensures
        placed(s.all_closed()),
        placement(s.all_closed().out).open == Set::<u64>::empty(),
{
    let n = s.open.len() as int;
    lemma_placed_stops(s, n);
    let r = s.all_closed();
    assert(s.open.skip(n) =~= Seq::empty());
    assert forall|j: u64| !(#[trigger] placement(r.out).open.contains(j)) by {
        assert(!s.open.skip(n).contains(j));
    }
    assert(placement(r.out).open =~= Set::<u64>::empty());
    assert forall|j: u64| #[trigger] placement(r.out).open.contains(j) <==> r.open.contains(j) by {}
}

proof fn lemma_placed_part(s: StreamingV, v: JsonV)
    requires
        placed(s),
        s.next_index < u64::MAX,
        s.block is None,
    ensures
        placed(s.with_part(v)),
{
    if v.str_at("type"@) == Some("output_text"@) {
        let o = block_start(s.next_index, text_block(Seq::empty()));
        lemma_start_event(s.next_index, text_block(Seq::empty()));
        let thinking = text_block(Seq::empty()).get("type"@) == Some(JsonV::Text("thinking"@));
        lemma_placed_start(s, o, thinking);
        lemma_same_blocks(s.block_opened(o), s.with_part(v));
    }
}

proof fn lemma_placed_text(s: StreamingV, v: JsonV)
    requires
        placed(s),
        is_open_item(s, s.parts, part_key(v)),
    ensures
        placed(s.with_text(v)),
{
    if let Some(t) = v.str_at("delta"@) {
        let i = entry_at(s.parts, part_key(v));
        if i < s.parts.len() {
            let index = s.parts[i].index;
            reveal_strlit("text");
            reveal_strlit("type");
            assert("text"@[1] != "type"@[1]);
            lemma_text_delta_type("text_delta"@, "text"@, t);
            lemma_delta_event(index, text_delta("text_delta"@, "text"@, t));
            lemma_placed_other(s, OutV::Log(t));
            let a = s.emit(OutV::Log(t));
            let o = block_delta(index, text_delta("text_delta"@, "text"@, t));
            lemma_placed_delta(a, index, o);
            lemma_same_blocks(a.emit(o), s.with_text(v));
        }
    }
}

proof fn lemma_placed_item(s: StreamingV, v: JsonV)
    requires
        placed(s),
        s.next_index < u64::MAX,
    ensures
        placed(s.with_item(v)),
{
    let index = s.next_index;
    if is_call(v) {
        let name = v.str_or("name"@, Seq::empty());
        let id = v.str_or("call_id"@, Seq::empty());
        lemma_placed_other(s, tool_note(name));
        let a = if s.has_text {
            s
        } else {
            s.emit(tool_note(name))
        };
        lemma_tool_start_event(index, id, name);
        lemma_placed_start(a, tool_start(index, id, name), false);
        lemma_same_blocks(a.block_opened(tool_start(index, id, name)), s.with_tool(v));
    } else if is_reasoning(v) {
        let block = thinking_block(Seq::empty());
        let o = block_start(index, block);
        lemma_start_event(index, block);
        lemma_placed_start(s, o, block.get("type"@) == Some(JsonV::Text("thinking"@)));
        let text = joined_texts(v.items_at("summary"@));
        let a = StreamingV {
            reasonings: put_entry(
                s.reasonings,
                EntryV { key: v.str_or("id"@, Seq::empty()), index, text, item: v },
            ),
            ..s.block_opened(o)
        };
        lemma_same_blocks(s.block_opened(o), a);
        if text.len() > 0 {
            reveal_strlit("thinking");
            reveal_strlit("type");
            assert("thinking"@.len() != "type"@.len());
            lemma_text_delta_type("thinking_delta"@, "thinking"@, text);
            lemma_delta_event(index, text_delta("thinking_delta"@, "thinking"@, text));
            lemma_placed_other(a, OutV::Log(text));
            lemma_placed_delta(
                a.emit(OutV::Log(text)),
                index,
                block_delta(index, text_delta("thinking_delta"@, "thinking"@, text)),
            );
        }
    }
}

proof fn lemma_placed_arguments(s: StreamingV, v: JsonV)
    requires
        placed(s),
        is_open_item(s, s.tools, v.str_or("item_id"@, Seq::empty())),
    ensures
        placed(s.with_arguments(v)),
{
    if let Some(t) = v.str_at("delta"@) {
        let i = entry_at(s.tools, v.str_or("item_id"@, Seq::empty()));
        lemma_entry_at(s.tools, v.str_or("item_id"@, Seq::empty()));
        if i < s.tools.len() {
            let e = s.tools[i];
            let a = StreamingV { tools: s.tools.update(i, EntryV { text: e.text + t, ..e }), ..s };
            lemma_same_blocks(s, a);
            lemma_args_event(e.index, t);
            lemma_placed_delta(a, e.index, args_delta(e.index, t));
        }
    }
}

proof fn lemma_placed_item_done(s: StreamingV, v: JsonV)
    requires
        placed(s),
        is_open_item(s, s.tools, v.str_or("id"@, Seq::empty())),
        is_open_item(s, s.reasonings, v.str_or("id"@, Seq::empty())),
    ensures
        placed(s.with_item_done(v)),
{
    let key = v.str_or("id"@, Seq::empty());
    if is_call(v) {
        let i = entry_at(s.tools, key);
        if i < s.tools.len() {
            lemma_placed_stop(s, s.tools[i].index);
            lemma_same_blocks(s.block_closed(s.tools[i].index), s.with_item_done(v));
        }
    } else if is_reasoning(v) {
        let i = entry_at(s.reasonings, key);
        if i < s.reasonings.len() {
            let e = s.reasonings[i];
            let a = if is_reasoning(e.item) && e.text.len() > 0 {
                reveal_strlit("signature");
                reveal_strlit("type");
                assert("signature"@.len() != "type"@.len());
                lemma_text_delta_type("signature_delta"@, "signature"@, envelope(e.item));
                lemma_delta_event(e.index, text_delta("signature_delta"@, "signature"@, envelope(e.item)));
                lemma_placed_delta(s, e.index, signature(e.index, e.item));
                s.emit(signature(e.index, e.item))
            } else {
                s
            };
            lemma_placed_stop(a, e.index);
            lemma_same_blocks(a.block_closed(e.index), s.with_item_done(v));
        }
    }
}

/// A report of failure is about no block.
pub proof fn lemma_error_event(kind: Seq<char>, message: Seq<char>)
    ensures
        block_event(stream_error(kind, message)) is Other,
{
    reveal_strlit("error");
    reveal_strlit("content_block_start");
    reveal_strlit("content_block_delta");
    reveal_strlit("content_block_stop");
    assert("error"@.len() == 5 && "content_block_start"@.len() == 19);
    assert("content_block_delta"@.len() == 19 && "content_block_stop"@.len() == 18);
}

/// Before any event the blocks are in place.
pub proof fn law_blocks_start_in_place(model: Seq<char>)
    ensures
        placed(StreamingV::initial(model)),
{
}

/// A regular event keeps the blocks in place: each is started once, added to only
/// while it is open, and closed once.
pub proof fn law_regular_event_keeps_blocks_in_place(s: StreamingV, kind: Seq<char>, document: Option<JsonV>)
    requires
        placed(s),
        is_regular(s, kind, document),
        s.next_index < u64::MAX,
    ensures
        placed(s.with_event(kind, document)),
{
    reveal(StreamingV::with_event);
    let r = s.with_event(kind, document);
    if kind == "response.output_text.done"@ {
        if let Some(i) = s.block {
            lemma_placed_stop(s, i);
            lemma_same_blocks(s.block_closed(i), r);
        }
    } else if kind == "response.completed"@ || kind == "response.incomplete"@ {
        let a = StreamingV { sent_delta: true, ..s };
        lemma_same_blocks(s, a);
        lemma_placed_all_closed(a);
        if document is Some && !s.sent_delta {
            lemma_same_blocks(a.all_closed(), r);
        }
    } else if reports_failure_kind(kind) {
        let message = failure_message(document);
        let o = stream_error("api_error"@, message);
        lemma_error_event("api_error"@, message);
        lemma_placed_other(s, o);
        lemma_placed_other(s.emit(o), OutV::LogError(message));
        lemma_same_blocks(s.emit(o).emit(OutV::LogError(message)), r);
    } else if let Some(v) = document {
        if kind == "response.created"@ || kind == "response.in_progress"@ {
            if !s.sent_start {
                let id = if s.message_id.len() == 0 {
                    v.str_or("id"@, Seq::empty())
                } else {
                    s.message_id
                };
                lemma_other_events(id, s.model, no_usage(), None, None);
                lemma_placed_other(s, message_start(id, s.model, no_usage()));
                lemma_same_blocks(s.emit(message_start(id, s.model, no_usage())), r);
            }
        } else if kind == "response.content_part.added"@ {
            lemma_placed_part(s, v);
        } else if kind == "response.output_text.delta"@ {
            lemma_placed_text(s, v);
        } else if kind == "response.output_item.added"@ {
            lemma_placed_item(s, v);
        } else if kind == "response.function_call_arguments.delta"@ {
            lemma_placed_arguments(s, v);
        } else if kind == "response.output_item.done"@ {
            lemma_placed_item_done(s, v);
        }
    }
}

/// Where the blocks are in place and no failure was reported, the end of the
/// upstream leaves none open.
pub proof fn law_end_leaves_no_block_open(s: StreamingV)
    requires
        placed(s),
        !s.failed,
    ensures
        placement(s.ended().out).ok,
        placement(s.ended().out).open == Set::<u64>::empty(),
{
    lemma_placed_all_closed(s);
    let a = s.all_closed();
    let b = match a.pending {
        Some(p) => {
            lemma_other_events(Seq::empty(), Seq::empty(), JsonV::Null, p.stop, p.usage);
            lemma_placement_push(a.out, message_delta(p.stop, p.usage));
            StreamingV { pending: None, ..a.emit(message_delta(p.stop, p.usage)) }
        },
        None => a,
    };
    lemma_other_events(Seq::empty(), Seq::empty(), JsonV::Null, None, None);
    lemma_placement_push(b.out, message_stop());
    lemma_placement_push(b.out.push(message_stop()), OutV::LogDone);
}

} // verus!
