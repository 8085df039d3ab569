//! What a list of Anthropic events tells its reader: the pieces of text, thinking
//! and arguments in it, put one after another.

use vstd::prelude::*;
use crate::json::JsonV;
use crate::stream_out::{OutV, block_delta, block_start, block_stop, message_delta, message_start, message_stop, stream_error, text_delta, tool_note, tool_start};

verus! {

/// The piece that an event adds to a block: the text under `key` of its delta, where
/// it is a delta of the type `kind`, of the block `at` where one is asked for.
pub open spec fn piece_of(o: OutV, at: Option<u64>, kind: Seq<char>, key: Seq<char>) -> Seq<char> {
    match o {
        OutV::Event { name, data } => if name == "content_block_delta"@ && (at is None || data.u64_at("index"@) == at) {
            match data.get("delta"@) {
                Some(d) => if d.str_at("type"@) == Some(kind) {
                    d.str_or(key, Seq::empty())
                } else {
                    Seq::empty()
                },
                None => Seq::empty(),
            }
        } else {
            Seq::empty()
        },
        _ => Seq::empty(),
    }
}

/// The pieces of a list of events, put one after another.
pub open spec fn told(list: Seq<OutV>, at: Option<u64>, kind: Seq<char>, key: Seq<char>) -> Seq<char>
    decreases list.len(),
{
    if list.len() == 0 {
        Seq::empty()
    } else {
        told(list.drop_last(), at, kind, key) + piece_of(list.last(), at, kind, key)
    }
}

/// The text that a list of events tells.
pub open spec fn text_told(list: Seq<OutV>) -> Seq<char> {
    told(list, None, "text_delta"@, "text"@)
}

/// The thinking that a list of events tells.
pub open spec fn thinking_told(list: Seq<OutV>) -> Seq<char> {
    told(list, None, "thinking_delta"@, "thinking"@)
}

/// The text that a list of events tells of one block.
pub open spec fn text_told_at(list: Seq<OutV>, index: u64) -> Seq<char> {
    told(list, Some(index), "text_delta"@, "text"@)
}

/// The arguments that a list of events tells of one block.
pub open spec fn arguments_told_at(list: Seq<OutV>, index: u64) -> Seq<char> {
    told(list, Some(index), "input_json_delta"@, "partial_json"@)
}

/// Texts put one after another.
pub open spec fn joined_up(texts: Seq<Seq<char>>) -> Seq<char>
    decreases texts.len(),
{
    if texts.len() == 0 {
        Seq::empty()
    } else {
        joined_up(texts.drop_last()) + texts.last()
    }
}

/// Whether an event adds nothing to any block.
pub open spec fn is_silent(o: OutV) -> bool {
    forall|at: Option<u64>, kind: Seq<char>, key: Seq<char>| #[trigger] piece_of(o, at, kind, key).len() == 0
}

pub proof fn lemma_told_push(list: Seq<OutV>, o: OutV, at: Option<u64>, kind: Seq<char>, key: Seq<char>)
    ensures
        told(list.push(o), at, kind, key) == told(list, at, kind, key) + piece_of(o, at, kind, key),
        is_silent(o) ==> told(list.push(o), at, kind, key) == told(list, at, kind, key),
{
    assert(list.push(o).drop_last() =~= list);
    if is_silent(o) {
        assert(piece_of(o, at, kind, key).len() == 0);
        assert(told(list, at, kind, key) + piece_of(o, at, kind, key) =~= told(list, at, kind, key));
    }
}

pub proof fn lemma_told_add(a: Seq<OutV>, b: Seq<OutV>, at: Option<u64>, kind: Seq<char>, key: Seq<char>)
    ensures
        told(a + b, at, kind, key) == told(a, at, kind, key) + told(b, at, kind, key),
    decreases b.len(),
{
    if b.len() == 0 {
        assert(a + b =~= a);
        assert(told(a, at, kind, key) + told(b, at, kind, key) =~= told(a, at, kind, key));
    } else {
        lemma_told_add(a, b.drop_last(), at, kind, key);
        assert((a + b).drop_last() =~= a + b.drop_last());
        assert(told(a + b, at, kind, key) =~= told(a, at, kind, key) + told(b, at, kind, key));
    }
}

pub proof fn lemma_joined_up_add(a: Seq<Seq<char>>, b: Seq<Seq<char>>)
    ensures
        joined_up(a + b) == joined_up(a) + joined_up(b),
    decreases b.len(),
{
    if b.len() == 0 {
        assert(a + b =~= a);
        assert(joined_up(a) + joined_up(b) =~= joined_up(a));
    } else {
        lemma_joined_up_add(a, b.drop_last());
        assert((a + b).drop_last() =~= a + b.drop_last());
        assert(joined_up(a + b) =~= joined_up(a) + joined_up(b));
    }
}

/// The piece of a delta of text.
pub proof fn lemma_delta_piece(i: u64, kind: Seq<char>, key: Seq<char>, t: Seq<char>, at: Option<u64>, of: Seq<char>)
    requires
        key != "type"@,
    ensures
        piece_of(block_delta(i, text_delta(kind, key, t)), at, of, key) == if kind == of && (at is None || at == Some(i)) {
            t
        } else {
            Seq::empty()
        },
        kind != of ==> forall|k: Seq<char>| #[trigger]
            piece_of(block_delta(i, text_delta(kind, key, t)), at, of, k).len() == 0,
{
    reveal_strlit("type");
    reveal_strlit("index");
    reveal_strlit("delta");
    assert("type"@[0] == 't' && "index"@[0] == 'i' && "delta"@[0] == 'd');
    let d = text_delta(kind, key, t);
    assert(d.str_at("type"@) == Some(kind));
    assert(d.str_at(key) == Some(t));
}

/// The kinds of deltas and their keys.
pub proof fn lemma_delta_names()
    ensures
        "text_delta"@ != "thinking_delta"@,
        "text_delta"@ != "input_json_delta"@,
        "text_delta"@ != "signature_delta"@,
        "thinking_delta"@ != "input_json_delta"@,
        "thinking_delta"@ != "signature_delta"@,
        "input_json_delta"@ != "signature_delta"@,
        "text"@ != "type"@,
        "thinking"@ != "type"@,
        "signature"@ != "type"@,
        "partial_json"@ != "type"@,
{
    reveal_strlit("text_delta");
    reveal_strlit("thinking_delta");
    reveal_strlit("input_json_delta");
    reveal_strlit("signature_delta");
    reveal_strlit("text");
    reveal_strlit("type");
    reveal_strlit("thinking");
    reveal_strlit("signature");
    reveal_strlit("partial_json");
    assert("text"@[1] == 'e' && "type"@[1] == 'y');
    assert("thinking_delta"@.len() == 14 && "signature_delta"@.len() == 15 && "input_json_delta"@.len() == 16);
}

pub proof fn lemma_starts_and_stops_are_silent(i: u64, block: JsonV)
    ensures
        is_silent(block_start(i, block)),
        is_silent(block_stop(i)),
{
    reveal_strlit("content_block_start");
    reveal_strlit("content_block_stop");
    reveal_strlit("content_block_delta");
    assert("content_block_start"@[14] == 's' && "content_block_delta"@[14] == 'd');
    assert("content_block_start"@ != "content_block_delta"@);
    assert("content_block_stop"@.len() == 18 && "content_block_delta"@.len() == 19);
}

pub proof fn lemma_notes_are_silent(t: Seq<char>)
    ensures
        is_silent(OutV::Log(t)),
        is_silent(OutV::LogError(t)),
        is_silent(OutV::LogDone),
        is_silent(OutV::Raw(t)),
        is_silent(tool_note(t)),
{
}

pub proof fn lemma_tool_start_is_silent(i: u64, id: Seq<char>, name: Seq<char>)
    ensures
        is_silent(tool_start(i, id, name)),
{
    lemma_starts_and_stops_are_silent(
        i,
        JsonV::Object(map!["type"@ => JsonV::Text("tool_use"@), "id"@ => JsonV::Text(id), "name"@ => JsonV::Text(name)]),
    );
}

pub proof fn lemma_message_events_are_silent(
    id: Seq<char>,
    model: Seq<char>,
    usage: JsonV,
    stop: Option<Seq<char>>,
    u: Option<JsonV>,
)
    ensures
        is_silent(message_start(id, model, usage)),
        is_silent(message_delta(stop, u)),
        is_silent(message_stop()),
{
    reveal_strlit("message_start");
    reveal_strlit("message_delta");
    reveal_strlit("message_stop");
    reveal_strlit("content_block_delta");
    assert("content_block_delta"@.len() == 19);
}

pub proof fn lemma_errors_are_silent(kind: Seq<char>, message: Seq<char>)
    ensures
        is_silent(stream_error(kind, message)),
{
    reveal_strlit("error");
    reveal_strlit("content_block_delta");
    assert("content_block_delta"@.len() == 19);
}

} // verus!
