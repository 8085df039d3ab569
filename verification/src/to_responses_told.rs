//! What the blocks of an Anthropic stream hold and what the Responses events that come
//! of it carry are the same: the arguments of each call, and the text.

use vstd::prelude::*;
use crate::json::{JsonV, NumV, or_zero};
use crate::responses_reverse::usage_for_responses;
use crate::responses_reverse_stream::{BlockPlace, CallItemV, IndexedTextV, ToResponsesV, finished_calls, place_of, text_added, text_of_index, whole_text};
use crate::responses_told::stream_failure;
use crate::reverse_told::{documents_in, lemma_documents_add, lemma_documents_one};
use crate::sse::{SseReaderV, sse_field};
use crate::stream_data::{data_of_blocks, data_of_lines, data_of_stream, lemma_blank_block, stream_data};
use crate::stream_out::{OutV, PieceV, lemma_shown_push, shown};
use crate::text::{decimal, lines, trim};

verus! {

/// The state after a list of events.
pub open spec fn after_all(s: ToResponsesV, list: Seq<JsonV>) -> ToResponsesV
    decreases list.len(),
{
    if list.len() == 0 {
        s
    } else {
        after_all(s, list.drop_last()).with_event(list.last())
    }
}

/// The content block that an event begins, where it is of a type.
pub open spec fn begins(ev: JsonV, kind: Seq<char>) -> bool {
    ev.str_at("type"@) == Some("content_block_start"@) && ev.path2("content_block"@, "type"@) == Some(
        JsonV::Text(kind),
    )
}

/// The index of the content block that an event speaks of.
pub open spec fn index_in(ev: JsonV) -> u64 {
    or_zero(ev.u64_at("index"@))
}

/// The piece that an event adds to a content block, where its delta is of a type.
pub open spec fn piece_in(ev: JsonV, kind: Seq<char>, key: Seq<char>) -> Seq<char> {
    if ev.str_at("type"@) == Some("content_block_delta"@) && ev.path2("delta"@, "type"@) == Some(JsonV::Text(kind)) {
        ev.at("delta"@).str_or(key, Seq::empty())
    } else {
        Seq::empty()
    }
}

/// The number of calls that events begin.
pub open spec fn calls_begun(list: Seq<JsonV>) -> nat
    decreases list.len(),
{
    if list.len() == 0 {
        0
    } else {
        calls_begun(list.drop_last()) + if begins(list.last(), "tool_use"@) {
            1nat
        } else {
            0nat
        }
    }
}

/// The block that begins the `n`th call.
pub open spec fn block_of_nth(list: Seq<JsonV>, n: nat) -> JsonV
    decreases list.len(),
{
    if list.len() == 0 {
        JsonV::Null
    } else if begins(list.last(), "tool_use"@) && calls_begun(list) == n {
        list.last().at("content_block"@)
    } else {
        block_of_nth(list.drop_last(), n)
    }
}

/// The arguments of the `n`th call: the pieces that came since it began and before the
/// next began, put one after another.
pub open spec fn arguments_of_nth(list: Seq<JsonV>, n: nat) -> Seq<char>
    decreases list.len(),
{
    if list.len() == 0 {
        Seq::empty()
    } else if calls_begun(list.drop_last()) == n {
        arguments_of_nth(list.drop_last(), n) + piece_in(list.last(), "input_json_delta"@, "partial_json"@)
    } else {
        arguments_of_nth(list.drop_last(), n)
    }
}

/// The call whose block has an index, where the last such block is a call.
pub open spec fn call_at_index(list: Seq<JsonV>, index: u64) -> Option<nat>
    decreases list.len(),
{
    if list.len() == 0 {
        None
    } else if begins(list.last(), "tool_use"@) && index_in(list.last()) == index {
        Some(calls_begun(list))
    } else if begins(list.last(), "text"@) && index_in(list.last()) == index {
        None
    } else {
        call_at_index(list.drop_last(), index)
    }
}

/// The index of the text block that began last.
pub open spec fn last_text_index(list: Seq<JsonV>) -> u64
    decreases list.len(),
{
    if list.len() == 0 {
        0
    } else if begins(list.last(), "text"@) {
        index_in(list.last())
    } else {
        last_text_index(list.drop_last())
    }
}

/// The text of the blocks of an index, put one after another.
pub open spec fn text_at_index(list: Seq<JsonV>, index: u64) -> Seq<char>
    decreases list.len(),
{
    if list.len() == 0 {
        Seq::empty()
    } else if last_text_index(list.drop_last()) == index {
        text_at_index(list.drop_last(), index) + piece_in(list.last(), "text_delta"@, "text"@)
    } else {
        text_at_index(list.drop_last(), index)
    }
}

/// All text that events bring, put one after another.
pub open spec fn text_in_all(list: Seq<JsonV>) -> Seq<char>
    decreases list.len(),
{
    if list.len() == 0 {
        Seq::empty()
    } else {
        text_in_all(list.drop_last()) + piece_in(list.last(), "text_delta"@, "text"@)
    }
}

/// Whether the text blocks came in the order of their indices.
pub open spec fn texts_in_order(list: Seq<JsonV>) -> bool
    decreases list.len(),
{
    list.len() == 0 || {
        &&& texts_in_order(list.drop_last())
        &&& begins(list.last(), "text"@) ==> last_text_index(list.drop_last()) <= index_in(list.last())
    }
}

/// A call as an item of the output.
pub open spec fn call_item(n: nat, block: JsonV, arguments: Seq<char>, status: Seq<char>) -> JsonV {
    JsonV::Object(
        map![
            "id"@ => JsonV::Text("fc_"@ + decimal(n)),
            "type"@ => JsonV::Text("function_call"@),
            "call_id"@ => JsonV::Text(block.str_or("id"@, Seq::empty())),
            "name"@ => JsonV::Text(block.str_or("name"@, Seq::empty())),
            "arguments"@ => JsonV::Text(arguments),
            "status"@ => JsonV::Text(status),
        ],
    )
}

/// An event of the Responses format.
pub open spec fn responses_event(name: Seq<char>, data: Map<Seq<char>, JsonV>) -> OutV {
    OutV::Event { name, data: JsonV::Object(data.insert("type"@, JsonV::Text(name))) }
}

/// The kinds of events are all different.
pub proof fn lemma_anthropic_kinds()
    ensures
        "message_start"@ != "content_block_start"@,
        "message_start"@ != "content_block_delta"@,
        "message_start"@ != "content_block_stop"@,
        "message_start"@ != "message_delta"@,
        "message_start"@ != "message_stop"@,
        "content_block_start"@ != "content_block_delta"@,
        "content_block_start"@ != "content_block_stop"@,
        "content_block_start"@ != "message_delta"@,
        "content_block_start"@ != "message_stop"@,
        "content_block_delta"@ != "content_block_stop"@,
        "content_block_delta"@ != "message_delta"@,
        "content_block_delta"@ != "message_stop"@,
        "content_block_stop"@ != "message_delta"@,
        "content_block_stop"@ != "message_stop"@,
        "message_delta"@ != "message_stop"@,
{
    reveal_strlit("message_start");
    reveal_strlit("content_block_start");
    reveal_strlit("content_block_delta");
    reveal_strlit("content_block_stop");
    reveal_strlit("message_delta");
    reveal_strlit("message_stop");
    assert("message_start"@.len() == 13 && "content_block_start"@.len() == 19 && "content_block_delta"@.len() == 19 && "content_block_stop"@.len() == 18 && "message_delta"@.len() == 13 && "message_stop"@.len() == 12);
    assert("message_start"@[8] == 's' && "message_delta"@[8] == 'd');
    assert("content_block_start"@[14] == 's' && "content_block_delta"@[14] == 'd');
}
/// The types of blocks are different.
proof fn lemma_block_types()
    ensures
        "text"@ != "tool_use"@,
{
    reveal_strlit("text");
    reveal_strlit("tool_use");
    assert("text"@.len() == 4 && "tool_use"@.len() == 8);
}
/// The types of deltas are different.
proof fn lemma_delta_types()
    ensures
        "text_delta"@ != "input_json_delta"@,
{
    reveal_strlit("text_delta");
    reveal_strlit("input_json_delta");
    assert("text_delta"@.len() == 10 && "input_json_delta"@.len() == 16);
}

/// Whether the texts of a list stand in the order of their indices, each index once.
pub open spec fn is_sorted(v: Seq<IndexedTextV>) -> bool {
    forall|i: int, j: int| 0 <= i < j < v.len() ==> (#[trigger] v[i]).index < (#[trigger] v[j]).index
}

proof fn lemma_text_added(v: Seq<IndexedTextV>, index: u64, t: Seq<char>, at: u64)
    requires
        is_sorted(v),
    ensures
        is_sorted(text_added(v, index, t)),
        text_added(v, index, t).len() > 0,
        v.len() > 0 && v.last().index > index ==> text_added(v, index, t).last().index == v.last().index,
        v.len() == 0 || v.last().index <= index ==> text_added(v, index, t).last().index == index,
        text_of_index(text_added(v, index, t), at) == if at == index {
            text_of_index(v, at) + t
        } else {
            text_of_index(v, at)
        },
        v.len() == 0 || v.last().index <= index ==> whole_text(text_added(v, index, t)) == whole_text(v) + t,
    decreases v.len(),
{
    let r = text_added(v, index, t);
    if v.len() == 0 || v.last().index < index {
        let e = IndexedTextV { index, text: t };
        assert(r.drop_last() =~= v);
        lemma_absent(v, index);
        assert(Seq::<char>::empty() + t =~= t);
        assert forall|i: int, j: int| 0 <= i < j < r.len() implies (#[trigger] r[i]).index < (#[trigger] r[j]).index by {
            if j == v.len() {
                assert(r[i] == v[i]);
                if i < v.len() - 1 {
                    assert(v[i].index < v[v.len() - 1].index);
                }
            }
        }
    } else if v.last().index == index {
        assert(r.drop_last() =~= v.drop_last());
        assert forall|i: int, j: int| 0 <= i < j < r.len() implies (#[trigger] r[i]).index < (#[trigger] r[j]).index by {
            assert(v[i].index < v[j].index);
        }
        assert(whole_text(v.drop_last()) + (v.last().text + t) =~= whole_text(v) + t);
    } else {
        let front = v.drop_last();
        assert(is_sorted(front)) by {
            assert forall|i: int, j: int| 0 <= i < j < front.len() implies (#[trigger] front[i]).index < (
            #[trigger] front[j]).index by {
                assert(v[i].index < v[j].index);
            }
        }
        lemma_text_added(front, index, t, at);
        let g = text_added(front, index, t);
        assert(r.drop_last() =~= g);
        if front.len() > 0 {
            assert(v[front.len() - 1].index < v[v.len() - 1].index);
        }
        assert forall|i: int, j: int| 0 <= i < j < r.len() implies (#[trigger] r[i]).index < (#[trigger] r[j]).index by {
            if j == g.len() {
                assert(r[i] == g[i]);
                assert(g[g.len() - 1].index < v.last().index);
                if i < g.len() - 1 {
                    assert(g[i].index < g[g.len() - 1].index);
                }
            } else {
                assert(g[i].index < g[j].index);
            }
        }
    }
}

proof fn lemma_absent(v: Seq<IndexedTextV>, index: u64)
    requires
        is_sorted(v),
        v.len() == 0 || v.last().index < index,
    ensures
        text_of_index(v, index) == Seq::<char>::empty(),
    decreases v.len(),
{
    if v.len() > 0 {
        let front = v.drop_last();
        assert forall|i: int, j: int| 0 <= i < j < front.len() implies (#[trigger] front[i]).index < (
        #[trigger] front[j]).index by {
            assert(v[i].index < v[j].index);
        }
        if front.len() > 0 {
            assert(v[front.len() - 1].index < v[v.len() - 1].index);
        }
        lemma_absent(front, index);
    }
}

/// Whether a state agrees with the events before it.
pub open spec fn holds_events(s: ToResponsesV, list: Seq<JsonV>) -> bool {
    &&& s.calls.len() == calls_begun(list)
    &&& forall|k: int|
        0 <= k < s.calls.len() ==> #[trigger] s.calls[k] == (CallItemV {
            call_id: block_of_nth(list, (k + 1) as nat).str_or("id"@, Seq::empty()),
            name: block_of_nth(list, (k + 1) as nat).str_or("name"@, Seq::empty()),
            arguments: arguments_of_nth(list, (k + 1) as nat),
        })
    &&& s.content_index == last_text_index(list)
    &&& is_sorted(s.gathered)
    &&& forall|i: u64| #[trigger] text_of_index(s.gathered, i) == text_at_index(list, i)
    &&& texts_in_order(list) ==> whole_text(s.gathered) == text_in_all(list) && (s.gathered.len() == 0
        || s.gathered.last().index <= last_text_index(list))
    &&& forall|i: u64| #[trigger]
        place_of(s.places, i) matches Some(p) && p.is_tool <==> call_at_index(list, i) is Some
    &&& forall|i: u64|
        call_at_index(list, i) is Some ==> (#[trigger] place_of(s.places, i))->0.output == call_at_index(list, i)->0
    &&& forall|i: u64|
        place_of(s.places, i) is Some && !(#[trigger] place_of(s.places, i))->0.is_tool ==> place_of(
            s.places,
            i,
        )->0.output == i
}

proof fn lemma_begun_bounds(list: Seq<JsonV>, n: nat)
    ensures
        calls_begun(list) <= list.len(),
        n > calls_begun(list) ==> arguments_of_nth(list, n) == Seq::<char>::empty(),
    decreases list.len(),
{
    if list.len() > 0 {
        lemma_begun_bounds(list.drop_last(), n);
    }
}

proof fn lemma_place_push(v: Seq<BlockPlace>, p: BlockPlace, index: u64)
    ensures
        place_of(v.push(p), index) == if p.index == index {
            Some(p)
        } else {
            place_of(v, index)
        },
{
    assert(v.push(p).drop_last() =~= v);
}

proof fn lemma_no_piece(t: Seq<char>)
    ensures
        t + Seq::<char>::empty() == t,
{
    assert(t + Seq::<char>::empty() =~= t);
}

proof fn lemma_holds_events(model: Seq<char>, log_resp: bool, list: Seq<JsonV>)
    requires
        list.len() < u64::MAX,
    ensures
        holds_events(after_all(ToResponsesV::initial(model, log_resp), list), list),
    decreases list.len(),
{
    if list.len() > 0 {
        let front = list.drop_last();
        let ev = list.last();
        lemma_holds_events(model, log_resp, front);
        let s = after_all(ToResponsesV::initial(model, log_resp), front);
        let b = s.with_event(ev);
        lemma_anthropic_kinds();
        lemma_block_types();
        lemma_delta_types();
        assert forall|t: Seq<char>| #[trigger] (t + Seq::<char>::empty()) == t by {
            lemma_no_piece(t);
        }
        let kind = ev.str_or("type"@, Seq::empty());
        if kind != Seq::<char>::empty() {
            assert(ev.str_at("type"@) == Some(kind));
        }
        reveal_strlit("content_block_start");
        reveal_strlit("content_block_delta");
        lemma_begun_bounds(front, calls_begun(front) + 1);
        if begins(ev, "text"@) {
            assert(b.gathered == s.gathered && b.calls == s.calls);
            assert forall|i: u64| #[trigger] place_of(b.places, i) == if i == index_in(ev) {
                Some(BlockPlace { index: i, output: i, is_tool: false })
            } else {
                place_of(s.places, i)
            } by {
                lemma_place_push(s.places, BlockPlace { index: index_in(ev), output: index_in(ev), is_tool: false }, i);
            }
        } else if begins(ev, "tool_use"@) {
            let n = s.calls.len() + 1;
            assert(b.gathered == s.gathered && b.calls.len() == n);
            assert forall|i: u64| #[trigger] place_of(b.places, i) == if i == index_in(ev) {
                Some(BlockPlace { index: i, output: n as u64, is_tool: true })
            } else {
                place_of(s.places, i)
            } by {
                lemma_place_push(s.places, BlockPlace { index: index_in(ev), output: n as u64, is_tool: true }, i);
            }
            assert forall|k: int| 0 <= k < b.calls.len() implies #[trigger] b.calls[k] == (CallItemV {
                call_id: block_of_nth(list, (k + 1) as nat).str_or("id"@, Seq::empty()),
                name: block_of_nth(list, (k + 1) as nat).str_or("name"@, Seq::empty()),
                arguments: arguments_of_nth(list, (k + 1) as nat),
            }) by {
                if k < s.calls.len() {
                    assert(b.calls[k] == s.calls[k]);
                }
            }
        } else if piece_in(ev, "text_delta"@, "text"@).len() > 0 || ev.str_at("type"@) == Some("content_block_delta"@)
            && ev.path2("delta"@, "type"@) == Some(JsonV::Text("text_delta"@)) {
            let t = piece_in(ev, "text_delta"@, "text"@);
            assert(b.calls == s.calls && b.places == s.places);
            assert(b.gathered == text_added(s.gathered, s.content_index, t));
            assert forall|i: u64| #[trigger] text_of_index(b.gathered, i) == text_at_index(list, i) by {
                lemma_text_added(s.gathered, s.content_index, t, i);
                assert(text_of_index(s.gathered, i) == text_at_index(front, i));
            }
            lemma_text_added(s.gathered, s.content_index, t, 0);
        } else {
            assert(b.gathered == s.gathered && b.places == s.places && b.content_index == s.content_index);
            assert forall|k: int| 0 <= k < b.calls.len() implies #[trigger] b.calls[k] == (CallItemV {
                call_id: block_of_nth(list, (k + 1) as nat).str_or("id"@, Seq::empty()),
                name: block_of_nth(list, (k + 1) as nat).str_or("name"@, Seq::empty()),
                arguments: arguments_of_nth(list, (k + 1) as nat),
            }) by {
                assert(s.calls[k].call_id == block_of_nth(front, (k + 1) as nat).str_or("id"@, Seq::empty()));
            }
        }
    }
}

/// What one more event gives out to the client.
pub open spec fn gives(model: Seq<char>, log_resp: bool, list: Seq<JsonV>, ev: JsonV, new: Seq<OutV>) -> bool {
    let s = after_all(ToResponsesV::initial(model, log_resp), list);
    shown(s.with_event(ev).out) == shown(s.out) + new
}

/// A call that begins is added to the output at its number, with its id and its name.
pub proof fn law_call_is_added_at_its_number(model: Seq<char>, log_resp: bool, list: Seq<JsonV>, ev: JsonV)
    requires
        list.len() < u64::MAX,
        begins(ev, "tool_use"@),
    ensures
        gives(
            model,
            log_resp,
            list,
            ev,
            seq![
                responses_event(
                    "response.output_item.added"@,
                    map![
                        "output_index"@ => JsonV::Number(NumV::Int(calls_begun(list) as int + 1)),
                        "item"@ => call_item(
                            calls_begun(list) + 1,
                            ev.at("content_block"@),
                            Seq::empty(),
                            "in_progress"@,
                        ),
                    ],
                ),
            ],
        ),
{
    broadcast use lemma_shown_push;

    lemma_holds_events(model, log_resp, list);
    lemma_begun_bounds(list, 0);
    lemma_anthropic_kinds();
    lemma_block_types();
    let s = after_all(ToResponsesV::initial(model, log_resp), list);
    let b = s.with_event(ev);
    let o = b.out.last();
    assert(shown(b.out) =~= shown(s.out) + seq![o]);
}

/// A piece of the arguments of a call is passed on as it came, for the call that began
/// last.
pub proof fn law_arguments_are_passed_on(model: Seq<char>, log_resp: bool, list: Seq<JsonV>, ev: JsonV)
    requires
        list.len() < u64::MAX,
        ev.str_at("type"@) == Some("content_block_delta"@),
        ev.path2("delta"@, "type"@) == Some(JsonV::Text("input_json_delta"@)),
    ensures
        gives(
            model,
            log_resp,
            list,
            ev,
            seq![
                responses_event(
                    "response.function_call_arguments.delta"@,
                    map![
                        "item_id"@ => JsonV::Text("fc_"@ + decimal(calls_begun(list))),
                        "output_index"@ => JsonV::Number(NumV::Int(calls_begun(list) as int)),
                        "delta"@ => JsonV::Text(piece_in(ev, "input_json_delta"@, "partial_json"@)),
                    ],
                ),
            ],
        ),
{
    broadcast use lemma_shown_push;

    lemma_holds_events(model, log_resp, list);
    lemma_begun_bounds(list, 0);
    lemma_anthropic_kinds();
    lemma_delta_types();
    let s = after_all(ToResponsesV::initial(model, log_resp), list);
    let b = s.with_event(ev);
    assert(shown(b.out) =~= shown(s.out) + seq![b.out.last()]);
}

/// A piece of text is passed on as it came, for the text block that began last.
pub proof fn law_text_is_passed_on(model: Seq<char>, log_resp: bool, list: Seq<JsonV>, ev: JsonV)
    requires
        list.len() < u64::MAX,
        ev.str_at("type"@) == Some("content_block_delta"@),
        ev.path2("delta"@, "type"@) == Some(JsonV::Text("text_delta"@)),
    ensures
        gives(
            model,
            log_resp,
            list,
            ev,
            seq![
                responses_event(
                    "response.output_text.delta"@,
                    map![
                        "item_id"@ => JsonV::Text("msg_"@ + decimal(last_text_index(list) as nat)),
                        "output_index"@ => JsonV::Number(NumV::Int(last_text_index(list) as int)),
                        "content_index"@ => JsonV::Number(NumV::Int(0)),
                        "delta"@ => JsonV::Text(piece_in(ev, "text_delta"@, "text"@)),
                    ],
                ),
            ],
        ),
{
    broadcast use lemma_shown_push;

    lemma_holds_events(model, log_resp, list);
    lemma_anthropic_kinds();
    lemma_delta_types();
    let s = after_all(ToResponsesV::initial(model, log_resp), list);
    let b = s.with_event(ev);
    assert(shown(b.out) =~= shown(s.out) + seq![b.out.last()]);
}

/// A call that comes to its end is reported with its id, its name and all of its
/// arguments: the pieces that came for it, put one after another in the order they came.
pub proof fn law_call_is_done_with_all_its_arguments(
    model: Seq<char>,
    log_resp: bool,
    list: Seq<JsonV>,
    ev: JsonV,
    n: nat,
)
    requires
        list.len() < u64::MAX,
        ev.str_at("type"@) == Some("content_block_stop"@),
        call_at_index(list, index_in(ev)) == Some(n),
    ensures
        gives(
            model,
            log_resp,
            list,
            ev,
            seq![
                responses_event(
                    "response.function_call_arguments.done"@,
                    map![
                        "item_id"@ => JsonV::Text("fc_"@ + decimal(n)),
                        "output_index"@ => JsonV::Number(NumV::Int(n as int)),
                        "arguments"@ => JsonV::Text(arguments_of_nth(list, n)),
                    ],
                ),
                responses_event(
                    "response.output_item.done"@,
                    map![
                        "output_index"@ => JsonV::Number(NumV::Int(n as int)),
                        "item"@ => call_item(n, block_of_nth(list, n), arguments_of_nth(list, n), "completed"@),
                    ],
                ),
            ],
        ),
{
    broadcast use lemma_shown_push;

    lemma_holds_events(model, log_resp, list);
    lemma_call_in_range(list, index_in(ev));
    lemma_anthropic_kinds();
    let s = after_all(ToResponsesV::initial(model, log_resp), list);
    let b = s.with_event(ev);
    let place = place_of(s.places, index_in(ev));
    assert(place matches Some(p) && p.is_tool);
    assert(place->0.output == n);
    assert(s.call_at(n as u64) == s.calls[n - 1]);
    let x = s.out.push(b.out[s.out.len() as int]);
    assert(b.out =~= x.push(b.out.last()));
    assert(shown(b.out) =~= shown(s.out) + seq![b.out[s.out.len() as int], b.out.last()]);
}

proof fn lemma_call_in_range(list: Seq<JsonV>, index: u64)
    ensures
        call_at_index(list, index) is Some ==> 0 < call_at_index(list, index)->0 <= calls_begun(list),
        calls_begun(list) <= list.len(),
    decreases list.len(),
{
    if list.len() > 0 {
        lemma_call_in_range(list.drop_last(), index);
    }
}

/// A block that is no call is reported at its end with all of its text: the pieces that
/// came for its index, put one after another.
pub proof fn law_text_is_done_with_all_of_it(model: Seq<char>, log_resp: bool, list: Seq<JsonV>, ev: JsonV)
    requires
        list.len() < u64::MAX,
        ev.str_at("type"@) == Some("content_block_stop"@),
        call_at_index(list, index_in(ev)) is None,
    ensures
        gives(
            model,
            log_resp,
            list,
            ev,
            seq![
                responses_event(
                    "response.content_part.done"@,
                    map![
                        "item_id"@ => JsonV::Text("msg_"@ + decimal(index_in(ev) as nat)),
                        "output_index"@ => JsonV::Number(NumV::Int(index_in(ev) as int)),
                        "content_index"@ => JsonV::Number(NumV::Int(0)),
                        "part"@ => JsonV::Object(
                            map![
                                "type"@ => JsonV::Text("output_text"@),
                                "text"@ => JsonV::Text(text_at_index(list, index_in(ev))),
                            ],
                        ),
                    ],
                ),
            ],
        ),
{
    broadcast use lemma_shown_push;

    lemma_holds_events(model, log_resp, list);
    lemma_anthropic_kinds();
    let s = after_all(ToResponsesV::initial(model, log_resp), list);
    let b = s.with_event(ev);
    let place = place_of(s.places, index_in(ev));
    assert(!(place matches Some(p) && p.is_tool));
    assert(text_of_index(s.gathered, index_in(ev)) == text_at_index(list, index_in(ev)));
    assert(shown(b.out) =~= shown(s.out) + seq![b.out.last()]);
}

/// The calls as items of the output, all of them done.
pub open spec fn calls_in_output(list: Seq<JsonV>, n: nat) -> Seq<JsonV> {
    Seq::new(
        n,
        |k: int|
            call_item(
                (k + 1) as nat,
                block_of_nth(list, (k + 1) as nat),
                arguments_of_nth(list, (k + 1) as nat),
                "completed"@,
            ),
    )
}

proof fn lemma_finished_calls(s: ToResponsesV, list: Seq<JsonV>, n: nat)
    requires
        holds_events(s, list),
        n <= s.calls.len(),
    ensures
        finished_calls(s.calls, n) == calls_in_output(list, n),
    decreases n,
{
    if n > 0 {
        lemma_finished_calls(s, list, (n - 1) as nat);
        assert(s.calls[n - 1].arguments == arguments_of_nth(list, n));
        assert(calls_in_output(list, n) =~= calls_in_output(list, (n - 1) as nat).push(
            call_item(n, block_of_nth(list, n), arguments_of_nth(list, n), "completed"@),
        ));
    }
    assert(calls_in_output(list, 0) =~= Seq::empty());
}

/// The output of a state: the calls that began, each with all of its arguments, after
/// one message with all text, where there is any.
proof fn lemma_final_output(model: Seq<char>, log_resp: bool, list: Seq<JsonV>)
    requires
        list.len() < u64::MAX,
    ensures
        ({
            let s = after_all(ToResponsesV::initial(model, log_resp), list);
            let calls = calls_in_output(list, calls_begun(list));
            &&& s.final_output() == calls || s.final_output().len() == calls.len() + 1 && s.final_output().drop_first()
                == calls && s.final_output()[0].str_at("type"@) == Some("message"@)
            &&& texts_in_order(list) && text_in_all(list).len() == 0 ==> s.final_output() == calls
            &&& texts_in_order(list) && text_in_all(list).len() > 0 ==> s.final_output() == seq![
                JsonV::Object(
                    map![
                        "id"@ => JsonV::Text("msg_"@ + decimal(last_text_index(list) as nat)),
                        "type"@ => JsonV::Text("message"@),
                        "role"@ => JsonV::Text("assistant"@),
                        "content"@ => JsonV::Array(
                            seq![
                                JsonV::Object(
                                    map![
                                        "type"@ => JsonV::Text("output_text"@),
                                        "text"@ => JsonV::Text(text_in_all(list)),
                                        "annotations"@ => JsonV::Array(Seq::empty()),
                                    ],
                                ),
                            ],
                        ),
                        "status"@ => JsonV::Text(s.status),
                    ],
                ),
            ] + calls
        }),
{
    let s = after_all(ToResponsesV::initial(model, log_resp), list);
    lemma_holds_events(model, log_resp, list);
    lemma_finished_calls(s, list, s.calls.len());
    let calls = calls_in_output(list, calls_begun(list));
    reveal_strlit("id");
    reveal_strlit("type");
    reveal_strlit("role");
    reveal_strlit("content");
    reveal_strlit("status");
    assert("type"@[0] == 't' && "role"@[0] == 'r');
    if whole_text(s.gathered).len() > 0 {
        assert(s.final_output().drop_first() =~= calls);
    }
}

/// The response that is completed lists every call that began, in order, with its id,
/// its name and all of its arguments, and before them, where any text came, one message
/// with all of it.
pub proof fn law_response_is_completed_with_all_that_came(
    model: Seq<char>,
    log_resp: bool,
    list: Seq<JsonV>,
    ev: JsonV,
)
    requires
        list.len() < u64::MAX,
        ev.str_at("type"@) == Some("message_stop"@),
        forall|i: int| 0 <= i < list.len() ==> (#[trigger] list[i]).str_at("type"@) != Some("message_stop"@),
    ensures
        ({
            let s = after_all(ToResponsesV::initial(model, log_resp), list);
            let b = s.with_event(ev);
            let calls = calls_in_output(list, calls_begun(list));
            let done = b.out[s.out.len() as int];
            &&& b.out.len() == s.out.len() + 2
            &&& b.out.last() == OutV::Raw("data: [DONE]\n\n"@)
            &&& done matches OutV::Event { name, data } && {
                let response = data.at("response"@);
                let output = response.items_at("output"@);
                &&& name == "response.completed"@
                &&& data.str_at("type"@) == Some(name)
                &&& response.str_at("object"@) == Some("response"@)
                &&& response.str_at("model"@) == Some(model)
                &&& output == calls || output.len() == calls.len() + 1 && output.drop_first() == calls
                    && output[0].str_at("type"@) == Some("message"@)
                &&& texts_in_order(list) ==> (output.len() > calls.len() <==> text_in_all(list).len() > 0)
                &&& texts_in_order(list) && text_in_all(list).len() > 0 ==> output[0].items_at("content"@).len() == 1
                    && output[0].items_at("content"@)[0].str_at("text"@) == Some(text_in_all(list))
            }
        }),
{
    let s = after_all(ToResponsesV::initial(model, log_resp), list);
    let b = s.with_event(ev);
    lemma_anthropic_kinds();
    lemma_not_done(model, log_resp, list);
    lemma_final_output(model, log_resp, list);
    reveal_strlit("id");
    reveal_strlit("type");
    reveal_strlit("role");
    reveal_strlit("content");
    reveal_strlit("status");
    reveal_strlit("object");
    reveal_strlit("created_at");
    reveal_strlit("model");
    reveal_strlit("output");
    reveal_strlit("usage");
    reveal_strlit("text");
    reveal_strlit("annotations");
    reveal_strlit("response");
    assert("type"@[1] == 'y' && "role"@[0] == 'r' && "text"@[1] == 'e');
    assert("status"@[0] == 's' && "object"@[0] == 'o' && "output"@[0] == 'o' && "object"@[1] == 'b' && "output"@[1] == 'u');
    assert("model"@[0] == 'm' && "usage"@[0] == 'u');
    assert("response"@.len() == 8 && "type"@.len() == 4);
    assert("content"@.len() == 7 && "annotations"@.len() == 11 && "created_at"@.len() == 10 && "id"@.len() == 2);
    let data = b.out[s.out.len() as int]->Event_data;
    let response = data.at("response"@);
    assert(response.items_at("output"@) == s.final_output());
}

proof fn lemma_not_done(model: Seq<char>, log_resp: bool, list: Seq<JsonV>)
    requires
        forall|i: int| 0 <= i < list.len() ==> (#[trigger] list[i]).str_at("type"@) != Some("message_stop"@),
    ensures
        !after_all(ToResponsesV::initial(model, log_resp), list).done,
        after_all(ToResponsesV::initial(model, log_resp), list).model == model,
    decreases list.len(),
{
    if list.len() > 0 {
        let front = list.drop_last();
        assert forall|i: int| 0 <= i < front.len() implies (#[trigger] front[i]).str_at("type"@) != Some(
            "message_stop"@,
        ) by {
            assert(front[i] == list[i]);
        }
        assert(list[list.len() - 1].str_at("type"@) != Some("message_stop"@));
        lemma_not_done(model, log_resp, front);
        reveal_strlit("message_stop");
        assert("message_stop"@.len() == 12);
    }
}

proof fn lemma_to_responses_in_turn(s: ToResponsesV, a: Seq<JsonV>, b: Seq<JsonV>)
    ensures
        after_all(s, a + b) == after_all(after_all(s, a), b),
    decreases b.len(),
{
    if b.len() == 0 {
        assert(a + b =~= a);
    } else {
        lemma_to_responses_in_turn(s, a, b.drop_last());
        assert((a + b).drop_last() =~= a + b.drop_last());
    }
}

/// A state in which `before` was given out ahead of the rest.
pub open spec fn to_responses_preceded(before: Seq<OutV>, s: ToResponsesV) -> ToResponsesV {
    ToResponsesV { out: before + s.out, ..s }
}

/// What an event gives out does not depend on what was given out before it.
pub proof fn law_to_responses_event_goes_by_the_state_alone(before: Seq<OutV>, s: ToResponsesV, ev: JsonV)
    ensures
        to_responses_preceded(before, s).with_event(ev) == to_responses_preceded(before, s.with_event(ev)),
{
    assert forall|x: ToResponsesV, o: OutV| #[trigger]
        to_responses_preceded(before, x.emit(o)) == to_responses_preceded(before, x).emit(o) by {
        assert(before + x.out.push(o) =~= (before + x.out).push(o));
    }
    assert forall|x: ToResponsesV, t: Seq<char>| #[trigger]
        to_responses_preceded(before, x.logged(t)) == to_responses_preceded(before, x).logged(t) by {
        assert(to_responses_preceded(before, x.emit(OutV::Log(t))) == to_responses_preceded(before, x).emit(OutV::Log(t)));
    }
}

pub proof fn lemma_to_responses_preceded(before: Seq<OutV>, s: ToResponsesV, list: Seq<JsonV>)
    ensures
        after_all(to_responses_preceded(before, s), list) == to_responses_preceded(before, after_all(s, list)),
    decreases list.len(),
{
    if list.len() > 0 {
        lemma_to_responses_preceded(before, s, list.drop_last());
        law_to_responses_event_goes_by_the_state_alone(before, after_all(s, list.drop_last()), list.last());
    }
}

proof fn lemma_to_responses_lines(s: ToResponsesV, all: Seq<Seq<char>>)
    ensures
        s.with_lines(all) == after_all(s, documents_in(data_of_lines(all))),
    decreases all.len(),
{
    reveal_with_fuel(ToResponsesV::with_lines, 1);
    reveal(ToResponsesV::with_data);
    if all.len() > 0 {
        let front = all.drop_last();
        lemma_to_responses_lines(s, front);
        if let Some(d) = sse_field(all.last(), "data"@) {
            let done = documents_in(data_of_lines(front));
            let more = documents_in(seq![d]);
            lemma_documents_one(d);
            assert(data_of_lines(all) =~= data_of_lines(front) + seq![d]);
            lemma_documents_add(data_of_lines(front), seq![d]);
            lemma_to_responses_in_turn(s, done, more);
            reveal_with_fuel(after_all, 2);
            if more.len() > 0 {
                assert(more.drop_last() =~= Seq::empty());
            }
        }
    }
}

pub proof fn lemma_to_responses_all_blocks(s: ToResponsesV, all: Seq<Seq<char>>)
    ensures
        s.with_blocks(all) == after_all(s, documents_in(data_of_blocks(all))),
    decreases all.len(),
{
    if all.len() > 0 {
        let front = all.drop_last();
        let last = data_of_lines(lines(all.last()));
        lemma_to_responses_all_blocks(s, front);
        lemma_documents_add(data_of_blocks(front), last);
        lemma_to_responses_in_turn(s, documents_in(data_of_blocks(front)), documents_in(last));
        if trim(all.last()).len() == 0 {
            lemma_blank_block(all.last());
            assert(documents_in(last).len() == 0);
        } else {
            lemma_to_responses_lines(s.with_blocks(front), lines(all.last()));
        }
    }
}

/// A state after the end of a stream.
pub open spec fn to_responses_finished(s: ToResponsesV, failure: Option<Seq<char>>) -> ToResponsesV {
    match failure {
        Some(m) => s.failed(m),
        None => s.ended(),
    }
}

proof fn lemma_to_responses_reader(s: ToResponsesV, r: SseReaderV, list: Seq<JsonV>)
    ensures
        after_all(ToResponsesV { reader: r, ..s }, list) == (ToResponsesV { reader: r, ..after_all(s, list) }),
    decreases list.len(),
{
    if list.len() > 0 {
        lemma_to_responses_reader(s, r, list.drop_last());
    }
}

proof fn lemma_to_responses_whole(s: ToResponsesV, stream: Seq<PieceV>)
    requires
        s.out.len() == 0,
    ensures
        s.whole(stream) == to_responses_finished(
            after_all(s, documents_in(data_of_stream(s.reader, stream))),
            stream_failure(stream),
        ).out,
    decreases stream.len(),
{
    if stream.len() > 0 {
        match stream[0] {
            PieceV::Bytes(b) => {
                let rest = stream.drop_first();
                let r = s.reader.fed(b);
                let fed = ToResponsesV { reader: r, ..s };
                let first = data_of_blocks(s.reader.fed_blocks(b));
                let more = data_of_stream(r, rest);
                lemma_to_responses_all_blocks(fed, s.reader.fed_blocks(b));
                lemma_to_responses_reader(s, r, documents_in(first));
                let next = s.with_bytes(b);
                assert(next.reader == r);
                lemma_to_responses_whole(next.drained(), rest);
                lemma_documents_add(first, more);
                lemma_to_responses_in_turn(s, documents_in(first), documents_in(more));
                lemma_to_responses_in_turn(fed, documents_in(first), documents_in(more));
                lemma_to_responses_reader(s, r, documents_in(first) + documents_in(more));
                assert(to_responses_preceded(next.out, next.drained()).out =~= next.out);
                assert(to_responses_preceded(next.out, next.drained()) == next);
                lemma_to_responses_preceded(next.out, next.drained(), documents_in(more));
                let last = after_all(next.drained(), documents_in(more));
                lemma_to_responses_end(next.out, last, stream_failure(rest));
            },
            PieceV::Failure(m) => {},
        }
    }
}

proof fn lemma_to_responses_end(before: Seq<OutV>, s: ToResponsesV, failure: Option<Seq<char>>)
    ensures
        to_responses_finished(to_responses_preceded(before, s), failure).out == before + to_responses_finished(s, failure).out,
{
    assert forall|x: ToResponsesV, o: OutV| #[trigger]
        to_responses_preceded(before, x.emit(o)) == to_responses_preceded(before, x).emit(o) by {
        assert(before + x.out.push(o) =~= (before + x.out).push(o));
    }
    match failure {
        Some(m) => {
            let o = OutV::LogError("Stream error: "@ + m);
            assert(to_responses_preceded(before, s.emit(o)) == to_responses_preceded(before, s).emit(o));
            assert(to_responses_preceded(before, s.emit(o).emit(OutV::LogDone)) == to_responses_preceded(before, s.emit(o)).emit(
                OutV::LogDone,
            ));
            assert(to_responses_preceded(before, s.emit(OutV::LogDone)) == to_responses_preceded(before, s).emit(OutV::LogDone));
        },
        None => {
            assert(to_responses_preceded(before, s.emit(OutV::LogDone)) == to_responses_preceded(before, s).emit(OutV::LogDone));
        },
    }
}

/// A whole Anthropic stream gives out Responses events for its events, one event after
/// the other as they came.
pub proof fn law_to_responses_stream_is_its_events(model: Seq<char>, log_resp: bool, stream: Seq<PieceV>)
    ensures
        ToResponsesV::initial(model, log_resp).whole(stream) == to_responses_finished(
            after_all(ToResponsesV::initial(model, log_resp), documents_in(stream_data(stream))),
            stream_failure(stream),
        ).out,
{
    lemma_to_responses_whole(ToResponsesV::initial(model, log_resp), stream);
}

/// A message that begins is reported as a response in progress, with its id and the model
/// that was asked for.
pub proof fn law_response_begins(model: Seq<char>, log_resp: bool, list: Seq<JsonV>, ev: JsonV)
    requires
        ev.str_at("type"@) == Some("message_start"@),
    ensures
        gives(
            model,
            log_resp,
            list,
            ev,
            seq![
                responses_event(
                    "response.created"@,
                    map![
                        "response"@ => JsonV::Object(
                            map![
                                "id"@ => JsonV::Text(ev.at("message"@).str_or("id"@, "resp_"@)),
                                "object"@ => JsonV::Text("response"@),
                                "created_at"@ => JsonV::Number(NumV::Int(0)),
                                "status"@ => JsonV::Text("in_progress"@),
                                "model"@ => JsonV::Text(model),
                                "output"@ => JsonV::Array(Seq::empty()),
                            ],
                        ),
                    ],
                ),
            ],
        ),
{
    broadcast use lemma_shown_push;

    lemma_anthropic_kinds();
    lemma_model_stays(model, log_resp, list);
    let s = after_all(ToResponsesV::initial(model, log_resp), list);
    let b = s.with_event(ev);
    if ev.get("message"@) is None {
        assert(ev.at("message"@) == JsonV::Null);
    }
    assert(shown(b.out) =~= shown(s.out) + seq![b.out.last()]);
}

proof fn lemma_model_stays(model: Seq<char>, log_resp: bool, list: Seq<JsonV>)
    ensures
        after_all(ToResponsesV::initial(model, log_resp), list).model == model,
    decreases list.len(),
{
    if list.len() > 0 {
        lemma_model_stays(model, log_resp, list.drop_last());
    }
}

/// A text block that begins is added to the output as a message in progress, at its
/// index.
pub proof fn law_text_block_is_added(model: Seq<char>, log_resp: bool, list: Seq<JsonV>, ev: JsonV)
    requires
        begins(ev, "text"@),
    ensures
        gives(
            model,
            log_resp,
            list,
            ev,
            seq![
                responses_event(
                    "response.output_item.added"@,
                    map![
                        "output_index"@ => JsonV::Number(NumV::Int(index_in(ev) as int)),
                        "item"@ => JsonV::Object(
                            map![
                                "id"@ => JsonV::Text("msg_"@ + decimal(index_in(ev) as nat)),
                                "type"@ => JsonV::Text("message"@),
                                "role"@ => JsonV::Text("assistant"@),
                                "content"@ => JsonV::Array(Seq::empty()),
                                "status"@ => JsonV::Text("in_progress"@),
                            ],
                        ),
                    ],
                ),
            ],
        ),
{
    broadcast use lemma_shown_push;

    lemma_anthropic_kinds();
    lemma_block_types();
    let s = after_all(ToResponsesV::initial(model, log_resp), list);
    let b = s.with_event(ev);
    assert(shown(b.out) =~= shown(s.out) + seq![b.out.last()]);
}

/// The status that a reason to end stands for.
pub open spec fn status_for(ev: JsonV) -> Seq<char> {
    let stop = ev.at("delta"@).str_at("stop_reason"@);
    if stop == Some("max_tokens"@) {
        "incomplete"@
    } else if stop == Some("tool_use"@) {
        "in_progress"@
    } else {
        "completed"@
    }
}

/// The status that the last report of why the message ended stands for.
pub open spec fn last_status(list: Seq<JsonV>) -> Seq<char>
    decreases list.len(),
{
    if list.len() == 0 {
        "completed"@
    } else if list.last().str_at("type"@) == Some("message_delta"@) {
        status_for(list.last())
    } else {
        last_status(list.drop_last())
    }
}

/// The last usage that was reported with why the message ended.
pub open spec fn last_usage(list: Seq<JsonV>) -> Option<JsonV>
    decreases list.len(),
{
    if list.len() == 0 {
        None
    } else if list.last().str_at("type"@) == Some("message_delta"@) && list.last().get("usage"@) is Some {
        list.last().get("usage"@)
    } else {
        last_usage(list.drop_last())
    }
}

/// The id of the last message that began.
pub open spec fn last_id(list: Seq<JsonV>) -> Seq<char>
    decreases list.len(),
{
    if list.len() == 0 {
        Seq::empty()
    } else if list.last().str_at("type"@) == Some("message_start"@) {
        list.last().at("message"@).str_or("id"@, "resp_"@)
    } else {
        last_id(list.drop_last())
    }
}

proof fn lemma_last_reports(model: Seq<char>, log_resp: bool, list: Seq<JsonV>)
    ensures
        ({
            let s = after_all(ToResponsesV::initial(model, log_resp), list);
            &&& s.status == last_status(list)
            &&& s.usage == last_usage(list)
            &&& s.response_id == last_id(list)
        }),
    decreases list.len(),
{
    if list.len() > 0 {
        let front = list.drop_last();
        let ev = list.last();
        lemma_last_reports(model, log_resp, front);
        lemma_anthropic_kinds();
        reveal_strlit("message_delta");
        reveal_strlit("message_start");
        assert("message_delta"@.len() == 13 && "message_start"@.len() == 13);
        let kind = ev.str_or("type"@, Seq::empty());
        if ev.str_at("type"@) is Some {
            assert(ev.str_at("type"@) == Some(kind));
        }
        if ev.get("message"@) is None {
            assert(ev.at("message"@) == JsonV::Null);
        }
        if ev.get("delta"@) is None {
            assert(ev.at("delta"@) == JsonV::Null);
        }
    }
}

/// The response that is completed has the id of the message, the status for why it ended,
/// and the usage that was reported last.
pub proof fn law_response_is_completed_as_it_ended(model: Seq<char>, log_resp: bool, list: Seq<JsonV>, ev: JsonV)
    requires
        ev.str_at("type"@) == Some("message_stop"@),
        forall|i: int| 0 <= i < list.len() ==> (#[trigger] list[i]).str_at("type"@) != Some("message_stop"@),
    ensures
        ({
            let s = after_all(ToResponsesV::initial(model, log_resp), list);
            let b = s.with_event(ev);
            let response = b.out[s.out.len() as int]->Event_data.at("response"@);
            &&& response.str_at("id"@) == Some(last_id(list))
            &&& response.str_at("status"@) == Some(last_status(list))
            &&& response.get("usage"@) == Some(usage_for_responses(last_usage(list)))
        }),
{
    lemma_anthropic_kinds();
    lemma_not_done(model, log_resp, list);
    lemma_last_reports(model, log_resp, list);
    lemma_response_keys();
}

/// The keys of a response are all different.
proof fn lemma_response_keys()
    ensures
        "id"@ != "object"@,
        "id"@ != "created_at"@,
        "id"@ != "status"@,
        "id"@ != "model"@,
        "id"@ != "output"@,
        "id"@ != "usage"@,
        "id"@ != "type"@,
        "id"@ != "response"@,
        "object"@ != "created_at"@,
        "object"@ != "status"@,
        "object"@ != "model"@,
        "object"@ != "output"@,
        "object"@ != "usage"@,
        "object"@ != "type"@,
        "object"@ != "response"@,
        "created_at"@ != "status"@,
        "created_at"@ != "model"@,
        "created_at"@ != "output"@,
        "created_at"@ != "usage"@,
        "created_at"@ != "type"@,
        "created_at"@ != "response"@,
        "status"@ != "model"@,
        "status"@ != "output"@,
        "status"@ != "usage"@,
        "status"@ != "type"@,
        "status"@ != "response"@,
        "model"@ != "output"@,
        "model"@ != "usage"@,
        "model"@ != "type"@,
        "model"@ != "response"@,
        "output"@ != "usage"@,
        "output"@ != "type"@,
        "output"@ != "response"@,
        "usage"@ != "type"@,
        "usage"@ != "response"@,
        "type"@ != "response"@,
{
    reveal_strlit("id");
    reveal_strlit("object");
    reveal_strlit("created_at");
    reveal_strlit("status");
    reveal_strlit("model");
    reveal_strlit("output");
    reveal_strlit("usage");
    reveal_strlit("type");
    reveal_strlit("response");
    assert("id"@.len() == 2 && "object"@.len() == 6 && "created_at"@.len() == 10 && "status"@.len() == 6 && "model"@.len() == 5 && "output"@.len() == 6 && "usage"@.len() == 5 && "type"@.len() == 4 && "response"@.len() == 8);
    assert("object"@[0] == 'o' && "status"@[0] == 's');
    assert("object"@[1] == 'b' && "output"@[1] == 'u');
    assert("status"@[0] == 's' && "output"@[0] == 'o');
    assert("model"@[0] == 'm' && "usage"@[0] == 'u');
}

/// Why the message ended closes its text: all text that came, where the blocks of it came
/// in the order of their indices, with the status that it stands for.
pub proof fn law_text_is_closed_with_the_status(model: Seq<char>, log_resp: bool, list: Seq<JsonV>, ev: JsonV)
    requires
        list.len() < u64::MAX,
        ev.str_at("type"@) == Some("message_delta"@),
        texts_in_order(list),
        text_in_all(list).len() > 0,
    ensures
        gives(
            model,
            log_resp,
            list,
            ev,
            seq![
                responses_event(
                    "response.output_item.done"@,
                    map![
                        "output_index"@ => JsonV::Number(NumV::Int(last_text_index(list) as int)),
                        "item"@ => JsonV::Object(
                            map![
                                "id"@ => JsonV::Text("msg_"@ + decimal(last_text_index(list) as nat)),
                                "type"@ => JsonV::Text("message"@),
                                "role"@ => JsonV::Text("assistant"@),
                                "content"@ => JsonV::Array(
                                    seq![
                                        JsonV::Object(
                                            map![
                                                "type"@ => JsonV::Text("output_text"@),
                                                "text"@ => JsonV::Text(text_in_all(list)),
                                                "annotations"@ => JsonV::Array(Seq::empty()),
                                            ],
                                        ),
                                    ],
                                ),
                                "status"@ => JsonV::Text(status_for(ev)),
                            ],
                        ),
                    ],
                ),
            ],
        ),
{
    broadcast use lemma_shown_push;

    lemma_anthropic_kinds();
    lemma_holds_events(model, log_resp, list);
    let s = after_all(ToResponsesV::initial(model, log_resp), list);
    let b = s.with_event(ev);
    if ev.get("delta"@) is None {
        assert(ev.at("delta"@) == JsonV::Null);
    }
    assert(shown(b.out) =~= shown(s.out) + seq![b.out.last()]);
}

/// An event of another kind alters nothing, and so does a block or a delta of another
/// type.
pub proof fn law_other_anthropic_events_alter_nothing(s: ToResponsesV, ev: JsonV)
    ensures
        ev.str_at("type"@) != Some("message_start"@) && ev.str_at("type"@) != Some("content_block_start"@) && ev.str_at(
            "type"@,
        ) != Some("content_block_delta"@) && ev.str_at("type"@) != Some("content_block_stop"@) && ev.str_at("type"@)
            != Some("message_delta"@) && ev.str_at("type"@) != Some("message_stop"@) ==> s.with_event(ev) == s,
        ev.str_at("type"@) == Some("content_block_start"@) && !begins(ev, "text"@) && !begins(ev, "tool_use"@)
            ==> s.with_event(ev) == s,
{
    lemma_anthropic_kinds();
    lemma_block_types();
    reveal_strlit("message_start");
    reveal_strlit("content_block_start");
    reveal_strlit("content_block_delta");
    reveal_strlit("content_block_stop");
    reveal_strlit("message_delta");
    reveal_strlit("message_stop");
    assert("message_start"@.len() == 13 && "content_block_start"@.len() == 19 && "content_block_delta"@.len() == 19
        && "content_block_stop"@.len() == 18 && "message_delta"@.len() == 13 && "message_stop"@.len() == 12);
}

} // verus!
