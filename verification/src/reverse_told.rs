//! What the blocks of an Anthropic stream hold and what the Chat chunks that come of it
//! carry are the same.

use vstd::prelude::*;
use crate::json::{JsonV, NumV, or_zero};
use crate::json_text::json_parse;
use crate::responses_told::stream_failure;
use crate::reverse_stream::ReverseV;
use crate::sse::{SseReaderV, sse_field};
use crate::stream_data::{data_of_blocks, data_of_lines, data_of_stream, lemma_blank_block, stream_data};
use crate::stream_out::{OutV, PieceV, lemma_shown_push, shown};
use crate::text::{decimal, lines, trim};

verus! {

/// The events that data hold, in order: what is blank or no document is passed over.
pub open spec fn documents_in(data: Seq<Seq<char>>) -> Seq<JsonV>
    decreases data.len(),
{
    if data.len() == 0 {
        Seq::empty()
    } else {
        match json_parse(data.last()) {
            Ok(v) => if trim(data.last()).len() == 0 {
                documents_in(data.drop_last())
            } else {
                documents_in(data.drop_last()).push(v)
            },
            Err(_) => documents_in(data.drop_last()),
        }
    }
}

pub proof fn lemma_documents_add(a: Seq<Seq<char>>, b: Seq<Seq<char>>)
    ensures
        documents_in(a + b) == documents_in(a) + documents_in(b),
    decreases b.len(),
{
    if b.len() == 0 {
        assert(a + b =~= a);
        assert(documents_in(a) + documents_in(b) =~= documents_in(a));
    } else {
        lemma_documents_add(a, b.drop_last());
        assert((a + b).drop_last() =~= a + b.drop_last());
        assert(documents_in(a + b) =~= documents_in(a) + documents_in(b));
    }
}

/// The documents of one piece of data.
pub proof fn lemma_documents_one(d: Seq<char>)
    ensures
        documents_in(seq![d]) == match json_parse(d) {
            Ok(v) => if trim(d).len() == 0 {
                Seq::empty()
            } else {
                seq![v]
            },
            Err(_) => Seq::empty(),
        },
{
    reveal_with_fuel(documents_in, 2);
    assert(seq![d].drop_last() =~= Seq::empty());
    assert(seq![d].last() == d);
    assert(documents_in(Seq::empty()) == Seq::<JsonV>::empty());
    if let Ok(v) = json_parse(d) {
        assert(Seq::<JsonV>::empty().push(v) =~= seq![v]);
    }
}


/// The state after a list of events.
pub open spec fn reverse_after(s: ReverseV, list: Seq<JsonV>) -> ReverseV
    decreases list.len(),
{
    if list.len() == 0 {
        s
    } else {
        reverse_after(s, list.drop_last()).with_event(list.last())
    }
}

proof fn lemma_reverse_in_turn(s: ReverseV, a: Seq<JsonV>, b: Seq<JsonV>)
    ensures
        reverse_after(s, a + b) == reverse_after(reverse_after(s, a), b),
    decreases b.len(),
{
    if b.len() == 0 {
        assert(a + b =~= a);
    } else {
        lemma_reverse_in_turn(s, a, b.drop_last());
        assert((a + b).drop_last() =~= a + b.drop_last());
    }
}

/// A state in which `before` was given out ahead of the rest.
pub open spec fn reverse_preceded(before: Seq<OutV>, s: ReverseV) -> ReverseV {
    ReverseV { out: before + s.out, ..s }
}

/// What an event gives out does not depend on what was given out before it.
pub proof fn law_reverse_event_goes_by_the_state_alone(before: Seq<OutV>, s: ReverseV, ev: JsonV)
    ensures
        reverse_preceded(before, s).with_event(ev) == reverse_preceded(before, s.with_event(ev)),
{
    assert forall|x: ReverseV, o: OutV| #[trigger]
        reverse_preceded(before, x.emit(o)) == reverse_preceded(before, x).emit(o) by {
        assert(before + x.out.push(o) =~= (before + x.out).push(o));
    }
    assert forall|x: ReverseV, t: Seq<char>| #[trigger]
        reverse_preceded(before, x.logged(t)) == reverse_preceded(before, x).logged(t) by {
        assert(reverse_preceded(before, x.emit(OutV::Log(t))) == reverse_preceded(before, x).emit(OutV::Log(t)));
    }
}

pub proof fn lemma_reverse_preceded(before: Seq<OutV>, s: ReverseV, list: Seq<JsonV>)
    ensures
        reverse_after(reverse_preceded(before, s), list) == reverse_preceded(before, reverse_after(s, list)),
    decreases list.len(),
{
    if list.len() > 0 {
        lemma_reverse_preceded(before, s, list.drop_last());
        law_reverse_event_goes_by_the_state_alone(before, reverse_after(s, list.drop_last()), list.last());
    }
}

proof fn lemma_reverse_lines(s: ReverseV, all: Seq<Seq<char>>)
    ensures
        s.with_lines(all) == reverse_after(s, documents_in(data_of_lines(all))),
    decreases all.len(),
{
    reveal_with_fuel(ReverseV::with_lines, 1);
    reveal(ReverseV::with_data);
    if all.len() > 0 {
        let front = all.drop_last();
        lemma_reverse_lines(s, front);
        if let Some(d) = sse_field(all.last(), "data"@) {
            let done = documents_in(data_of_lines(front));
            let more = documents_in(seq![d]);
            lemma_documents_one(d);
            assert(data_of_lines(all) =~= data_of_lines(front) + seq![d]);
            lemma_documents_add(data_of_lines(front), seq![d]);
            lemma_reverse_in_turn(s, done, more);
            reveal_with_fuel(reverse_after, 2);
            if more.len() > 0 {
                assert(more.drop_last() =~= Seq::empty());
            }
        }
    }
}

pub proof fn lemma_reverse_all_blocks(s: ReverseV, all: Seq<Seq<char>>)
    ensures
        s.with_blocks(all) == reverse_after(s, documents_in(data_of_blocks(all))),
    decreases all.len(),
{
    if all.len() > 0 {
        let front = all.drop_last();
        let last = data_of_lines(lines(all.last()));
        lemma_reverse_all_blocks(s, front);
        lemma_documents_add(data_of_blocks(front), last);
        lemma_reverse_in_turn(s, documents_in(data_of_blocks(front)), documents_in(last));
        if trim(all.last()).len() == 0 {
            lemma_blank_block(all.last());
            assert(documents_in(last).len() == 0);
        } else {
            lemma_reverse_lines(s.with_blocks(front), lines(all.last()));
        }
    }
}

/// A state after the end of a stream.
pub open spec fn reverse_finished(s: ReverseV, failure: Option<Seq<char>>) -> ReverseV {
    match failure {
        Some(m) => s.failed(m),
        None => s.ended(),
    }
}

proof fn lemma_reverse_reader(s: ReverseV, r: SseReaderV, list: Seq<JsonV>)
    ensures
        reverse_after(ReverseV { reader: r, ..s }, list) == (ReverseV { reader: r, ..reverse_after(s, list) }),
    decreases list.len(),
{
    if list.len() > 0 {
        lemma_reverse_reader(s, r, list.drop_last());
    }
}

proof fn lemma_reverse_whole(s: ReverseV, stream: Seq<PieceV>)
    requires
        s.out.len() == 0,
    ensures
        s.whole(stream) == reverse_finished(
            reverse_after(s, documents_in(data_of_stream(s.reader, stream))),
            stream_failure(stream),
        ).out,
    decreases stream.len(),
{
    if stream.len() > 0 {
        match stream[0] {
            PieceV::Bytes(b) => {
                let rest = stream.drop_first();
                let r = s.reader.fed(b);
                let fed = ReverseV { reader: r, ..s };
                let first = data_of_blocks(s.reader.fed_blocks(b));
                let more = data_of_stream(r, rest);
                lemma_reverse_all_blocks(fed, s.reader.fed_blocks(b));
                lemma_reverse_reader(s, r, documents_in(first));
                let next = s.with_bytes(b);
                assert(next.reader == r);
                lemma_reverse_whole(next.drained(), rest);
                lemma_documents_add(first, more);
                lemma_reverse_in_turn(s, documents_in(first), documents_in(more));
                lemma_reverse_in_turn(fed, documents_in(first), documents_in(more));
                lemma_reverse_reader(s, r, documents_in(first) + documents_in(more));
                assert(reverse_preceded(next.out, next.drained()).out =~= next.out);
                assert(reverse_preceded(next.out, next.drained()) == next);
                lemma_reverse_preceded(next.out, next.drained(), documents_in(more));
                let last = reverse_after(next.drained(), documents_in(more));
                lemma_reverse_end(next.out, last, stream_failure(rest));
            },
            PieceV::Failure(m) => {},
        }
    }
}

proof fn lemma_reverse_end(before: Seq<OutV>, s: ReverseV, failure: Option<Seq<char>>)
    ensures
        reverse_finished(reverse_preceded(before, s), failure).out == before + reverse_finished(s, failure).out,
{
    assert forall|x: ReverseV, o: OutV| #[trigger]
        reverse_preceded(before, x.emit(o)) == reverse_preceded(before, x).emit(o) by {
        assert(before + x.out.push(o) =~= (before + x.out).push(o));
    }
    match failure {
        Some(m) => {
            let o = OutV::LogError("Stream error: "@ + m);
            assert(reverse_preceded(before, s.emit(o)) == reverse_preceded(before, s).emit(o));
            assert(reverse_preceded(before, s.emit(o).emit(OutV::LogDone)) == reverse_preceded(before, s.emit(o)).emit(
                OutV::LogDone,
            ));
            assert(reverse_preceded(before, s.emit(OutV::LogDone)) == reverse_preceded(before, s).emit(OutV::LogDone));
        },
        None => {
            assert(reverse_preceded(before, s.emit(OutV::LogDone)) == reverse_preceded(before, s).emit(OutV::LogDone));
        },
    }
}

/// A whole Anthropic stream gives out Chat chunks for its events, one event after the
/// other as they came.
pub proof fn law_reverse_stream_is_its_events(model: Seq<char>, log_resp: bool, stream: Seq<PieceV>)
    ensures
        ReverseV::initial(model, log_resp).whole(stream) == reverse_finished(
            reverse_after(ReverseV::initial(model, log_resp), documents_in(stream_data(stream))),
            stream_failure(stream),
        ).out,
{
    lemma_reverse_whole(ReverseV::initial(model, log_resp), stream);
}

/// The kinds of events are all different.
proof fn lemma_reverse_kinds()
    ensures
        "content_block_start"@ != "content_block_delta"@,
        "content_block_start"@ != "message_delta"@,
        "content_block_start"@ != "message_stop"@,
        "content_block_delta"@ != "message_delta"@,
        "content_block_delta"@ != "message_stop"@,
        "message_delta"@ != "message_stop"@,
{
    reveal_strlit("content_block_start");
    reveal_strlit("content_block_delta");
    reveal_strlit("message_delta");
    reveal_strlit("message_stop");
    assert("content_block_start"@.len() == 19 && "content_block_delta"@.len() == 19 && "message_delta"@.len() == 13 && "message_stop"@.len() == 12);
    assert("content_block_start"@[14] == 's' && "content_block_delta"@[14] == 'd');
}
/// The types of blocks and deltas are all different.
proof fn lemma_reverse_types()
    ensures
        "thinking"@ != "tool_use"@,
        "thinking"@ != "text_delta"@,
        "thinking"@ != "thinking_delta"@,
        "thinking"@ != "input_json_delta"@,
        "tool_use"@ != "text_delta"@,
        "tool_use"@ != "thinking_delta"@,
        "tool_use"@ != "input_json_delta"@,
        "text_delta"@ != "thinking_delta"@,
        "text_delta"@ != "input_json_delta"@,
        "thinking_delta"@ != "input_json_delta"@,
{
    reveal_strlit("thinking");
    reveal_strlit("tool_use");
    reveal_strlit("text_delta");
    reveal_strlit("thinking_delta");
    reveal_strlit("input_json_delta");
    assert("thinking"@.len() == 8 && "tool_use"@.len() == 8 && "text_delta"@.len() == 10 && "thinking_delta"@.len() == 14 && "input_json_delta"@.len() == 16);
    assert("thinking"@[1] == 'h' && "tool_use"@[1] == 'o');
}

/// Whether an event begins a block of a type.
pub open spec fn starts_a(ev: JsonV, kind: Seq<char>) -> bool {
    ev.str_at("type"@) == Some("content_block_start"@) && ev.at("content_block"@).str_at("type"@) == Some(kind)
}

/// Whether an event adds to a block by a delta of a type.
pub open spec fn adds_a(ev: JsonV, kind: Seq<char>) -> bool {
    ev.str_at("type"@) == Some("content_block_delta"@) && ev.at("delta"@).str_at("type"@) == Some(kind)
}

/// A Chat chunk with one delta.
pub open spec fn chunk_with(n: u64, model: Seq<char>, delta: Map<Seq<char>, JsonV>, finish: JsonV) -> OutV {
    OutV::Data(
        JsonV::Object(
            map![
                "id"@ => JsonV::Text("chatcmpl-"@ + decimal(n as nat)),
                "object"@ => JsonV::Text("chat.completion.chunk"@),
                "model"@ => JsonV::Text(model),
                "choices"@ => JsonV::Array(
                    seq![
                        JsonV::Object(
                            map![
                                "index"@ => JsonV::Number(NumV::Int(0)),
                                "delta"@ => JsonV::Object(delta),
                                "finish_reason"@ => finish,
                            ],
                        ),
                    ],
                ),
            ],
        ),
    )
}

/// Whether an event gives out one chunk, numbered next, with a delta.
pub open spec fn gives_chunk(s: ReverseV, ev: JsonV, delta: Map<Seq<char>, JsonV>, finish: JsonV) -> bool {
    let b = s.with_event(ev);
    &&& shown(b.out) == shown(s.out).push(chunk_with(s.chunk_id, s.model, delta, finish))
    &&& s.chunk_id < u64::MAX ==> b.chunk_id == s.chunk_id + 1
    &&& b.model == s.model
}

/// A piece of text or of thinking is passed on as it came; so is the thinking that a
/// block begins with.
pub proof fn law_reverse_stream_passes_text_on(s: ReverseV, ev: JsonV)
    ensures
        adds_a(ev, "text_delta"@) ==> gives_chunk(
            s,
            ev,
            map!["content"@ => JsonV::Text(ev.at("delta"@).str_or("text"@, Seq::empty()))],
            JsonV::Null,
        ),
        adds_a(ev, "thinking_delta"@) ==> gives_chunk(
            s,
            ev,
            map!["reasoning_content"@ => JsonV::Text(ev.at("delta"@).str_or("thinking"@, Seq::empty()))],
            JsonV::Null,
        ),
        starts_a(ev, "thinking"@) ==> gives_chunk(
            s,
            ev,
            map!["reasoning_content"@ => JsonV::Text(ev.at("content_block"@).str_or("thinking"@, Seq::empty()))],
            JsonV::Null,
        ),
        adds_a(ev, "text_delta"@) || adds_a(ev, "thinking_delta"@) || starts_a(ev, "thinking"@) ==> s.with_event(
            ev,
        ).tool_index == s.tool_index,
{
    broadcast use lemma_shown_push;

    lemma_reverse_kinds();
    lemma_reverse_types();
}

/// A tool call that begins is passed on with its index, its id and its name, and the
/// pieces of its arguments are passed on as they came, with the index of the call that
/// began last.
pub proof fn law_reverse_stream_passes_calls_on(s: ReverseV, ev: JsonV)
    ensures
        starts_a(ev, "tool_use"@) ==> gives_chunk(
            s,
            ev,
            map![
                "tool_calls"@ => JsonV::Array(
                    seq![
                        JsonV::Object(
                            map![
                                "index"@ => JsonV::Number(NumV::Int(or_zero(ev.u64_at("index"@)) as int)),
                                "id"@ => JsonV::Text(ev.at("content_block"@).str_or("id"@, Seq::empty())),
                                "type"@ => JsonV::Text("function"@),
                                "function"@ => JsonV::Object(
                                    map![
                                        "name"@ => JsonV::Text(
                                            ev.at("content_block"@).str_or("name"@, Seq::empty()),
                                        ),
                                        "arguments"@ => JsonV::Text(Seq::empty()),
                                    ],
                                ),
                            ],
                        ),
                    ],
                ),
            ],
            JsonV::Null,
        ) && s.with_event(ev).tool_index == or_zero(ev.u64_at("index"@)),
        adds_a(ev, "input_json_delta"@) ==> gives_chunk(
            s,
            ev,
            map![
                "tool_calls"@ => JsonV::Array(
                    seq![
                        JsonV::Object(
                            map![
                                "index"@ => JsonV::Number(NumV::Int(s.tool_index as int)),
                                "function"@ => JsonV::Object(
                                    map![
                                        "arguments"@ => JsonV::Text(
                                            ev.at("delta"@).str_or("partial_json"@, Seq::empty()),
                                        ),
                                    ],
                                ),
                            ],
                        ),
                    ],
                ),
            ],
            JsonV::Null,
        ) && s.with_event(ev).tool_index == s.tool_index,
{
    broadcast use lemma_shown_push;

    lemma_reverse_kinds();
    lemma_reverse_types();
}

/// The end of a message gives out one chunk with an empty delta and why it ended, and
/// the mark of the end follows; any other event gives out nothing.
pub proof fn law_reverse_stream_passes_the_end_on(s: ReverseV, ev: JsonV)
    ensures
        ev.str_at("type"@) == Some("message_delta"@) ==> gives_chunk(
            s,
            ev,
            Map::empty(),
            JsonV::Text(
                if ev.at("delta"@).str_at("stop_reason"@) == Some("max_tokens"@) {
                    "length"@
                } else if ev.at("delta"@).str_at("stop_reason"@) == Some("tool_use"@) {
                    "tool_calls"@
                } else if ev.at("delta"@).str_at("stop_reason"@) == Some("refusal"@) {
                    "content_filter"@
                } else {
                    "stop"@
                },
            ),
        ),
        ev.str_at("type"@) == Some("message_stop"@) ==> s.with_event(ev).out == s.out.push(
            OutV::Raw("[DONE]\n\n"@),
        ),
        !(ev.str_at("type"@) == Some("content_block_start"@) && (starts_a(ev, "thinking"@) || starts_a(
            ev,
            "tool_use"@,
        )) || ev.str_at("type"@) == Some("content_block_delta"@) && (adds_a(ev, "text_delta"@) || adds_a(
            ev,
            "thinking_delta"@,
        ) || adds_a(ev, "input_json_delta"@)) || ev.str_at("type"@) == Some("message_delta"@) || ev.str_at("type"@)
            == Some("message_stop"@)) ==> s.with_event(ev) == s,
{
    broadcast use lemma_shown_push;

    lemma_reverse_kinds();
    lemma_reverse_types();
    reveal_strlit("content_block_start");
    reveal_strlit("content_block_delta");
    reveal_strlit("message_delta");
    reveal_strlit("message_stop");
    assert("content_block_start"@.len() == 19 && "content_block_delta"@.len() == 19 && "message_delta"@.len() == 13
        && "message_stop"@.len() == 12);
}

} // verus!
