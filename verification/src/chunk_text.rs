//! The text of one chunk of a streamed Chat response: the members that count are
//! read strictly, and may stand there once only; all others are passed over unread.

use vstd::prelude::*;
use vstd::string::*;
use crate::chat_chunk::{ChunkV, Delta, OpenAIStreamChunk, Usage, chunk_from_json, read_chunk};
use crate::json::{Json, JsonObject, JsonV, group_models, lemma_step, lemma_whole, models, opt_json};
use crate::json_text::{document_in, read_document};
use crate::text::{chars_of, lemma_texts_push, texts, trim, trimmed};

verus! {

/// Whether `serde_json` takes a text for one JSON document, whatever its strings
/// and numbers hold.
pub uninterp spec fn json_well_formed(text: Seq<char>) -> bool;

/// Calls `serde_json::from_str` for `serde::de::IgnoredAny`, which passes over one
/// document without reading its strings and numbers. Whether it succeeds depends on
/// the text alone.
#[verifier::external_body]
fn is_well_formed(text: &str) -> (r: bool)
    ensures
        r == json_well_formed(text@),
{
    serde_json::from_str::<serde::de::IgnoredAny>(text).is_ok()
}

/// The pieces of a text so far, and where in the text one is.
pub struct SplitV {
    /// How many brackets are open.
    pub depth: nat,
    /// Whether one is in a string.
    pub quoted: bool,
    /// Whether a backslash came right before, in a string.
    pub escaped: bool,
    pub done: Seq<Seq<char>>,
    pub current: Seq<char>,
}

/// The pieces after one more character.
pub open spec fn after_char(s: SplitV, c: char, sep: char) -> SplitV {
    let more = SplitV { current: s.current.push(c), ..s };
    if s.quoted {
        if s.escaped {
            SplitV { escaped: false, ..more }
        } else if c == '\\' {
            SplitV { escaped: true, ..more }
        } else if c == '"' {
            SplitV { quoted: false, ..more }
        } else {
            more
        }
    } else if c == '"' {
        SplitV { quoted: true, ..more }
    } else if c == '{' || c == '[' {
        SplitV { depth: s.depth + 1, ..more }
    } else if c == '}' || c == ']' {
        SplitV {
            depth: if s.depth > 0 {
                (s.depth - 1) as nat
            } else {
                0
            },
            ..more
        }
    } else if c == sep && s.depth == 0 {
        SplitV { done: s.done.push(s.current), current: Seq::empty(), ..s }
    } else {
        more
    }
}

/// The pieces of a text.
pub open spec fn split(s: Seq<char>, sep: char) -> SplitV
    decreases s.len(),
{
    if s.len() == 0 {
        SplitV { depth: 0, quoted: false, escaped: false, done: Seq::empty(), current: Seq::empty() }
    } else {
        after_char(split(s.drop_last(), sep), s.last(), sep)
    }
}

/// The pieces of a text between the separators that stand in no bracket and no
/// string.
pub open spec fn top_pieces(s: Seq<char>, sep: char) -> Seq<Seq<char>> {
    split(s, sep).done.push(split(s, sep).current)
}

/// What stands between the brackets of the text of an array or an object.
pub open spec fn between_brackets(text: Seq<char>) -> Seq<char> {
    let t = trim(text);
    if t.len() < 2 {
        Seq::empty()
    } else {
        t.subrange(1, t.len() - 1)
    }
}

/// The texts of the items of an array, or of the members of an object.
pub open spec fn items_in(text: Seq<char>) -> Seq<Seq<char>> {
    let body = between_brackets(text);
    if trim(body).len() == 0 {
        Seq::empty()
    } else {
        top_pieces(body, ',')
    }
}

/// Whether a text begins with a bracket of a kind.
pub open spec fn opens_with(text: Seq<char>, c: char) -> bool {
    trim(text).len() > 0 && trim(text)[0] == c
}

/// The parts of a chunk.
#[derive(Clone, Copy, PartialEq, Eq, Structural)]
pub enum Part {
    Chunk,
    Choices,
    Choice,
    Delta,
    Calls,
    Call,
    Function,
    Usage,
    Details,
    /// A string, a number or nothing.
    Leaf,
}

/// How deep a part goes.
pub open spec fn height(p: Part) -> nat {
    match p {
        Part::Chunk => 7,
        Part::Choices => 6,
        Part::Choice => 5,
        Part::Delta => 4,
        Part::Calls => 3,
        Part::Call => 2,
        Part::Usage => 2,
        Part::Function => 1,
        Part::Details => 1,
        Part::Leaf => 0,
    }
}

/// The part that a member of a part is, where the member counts.
pub open spec fn member_part(p: Part, key: Seq<char>) -> Option<Part> {
    match p {
        Part::Chunk => if key == "id"@ {
            Some(Part::Leaf)
        } else if key == "choices"@ {
            Some(Part::Choices)
        } else if key == "usage"@ {
            Some(Part::Usage)
        } else {
            None
        },
        Part::Choice => if key == "delta"@ {
            Some(Part::Delta)
        } else if key == "finish_reason"@ {
            Some(Part::Leaf)
        } else {
            None
        },
        Part::Delta => if key == "tool_calls"@ {
            Some(Part::Calls)
        } else if key == "content"@ || key == "reasoning"@ || key == "reasoning_content"@ || key == "role"@ {
            Some(Part::Leaf)
        } else {
            None
        },
        Part::Call => if key == "function"@ {
            Some(Part::Function)
        } else if key == "index"@ || key == "id"@ || key == "type"@ {
            Some(Part::Leaf)
        } else {
            None
        },
        Part::Function => if key == "name"@ || key == "arguments"@ {
            Some(Part::Leaf)
        } else {
            None
        },
        Part::Usage => if key == "prompt_tokens_details"@ {
            Some(Part::Details)
        } else if key == "prompt_tokens"@ || key == "completion_tokens"@ || key == "cache_read_input_tokens"@ || key
            == "cache_creation_input_tokens"@ {
            Some(Part::Leaf)
        } else {
            None
        },
        Part::Details => if key == "cached_tokens"@ || key == "cache_write_tokens"@ {
            Some(Part::Leaf)
        } else {
            None
        },
        _ => None,
    }
}

/// The part that an item of a part is, where the part is written as an array: one
/// kind of item in a list, and the members in their order in all else.
pub open spec fn item_part(p: Part, place: int) -> Part {
    match p {
        Part::Choices => Part::Choice,
        Part::Calls => Part::Call,
        Part::Chunk => if place == 1 {
            Part::Choices
        } else if place == 2 {
            Part::Usage
        } else {
            Part::Leaf
        },
        Part::Choice => if place == 0 {
            Part::Delta
        } else {
            Part::Leaf
        },
        Part::Delta => if place == 2 {
            Part::Calls
        } else {
            Part::Leaf
        },
        Part::Call => if place == 3 {
            Part::Function
        } else {
            Part::Leaf
        },
        Part::Usage => if place == 2 {
            Part::Details
        } else {
            Part::Leaf
        },
        _ => Part::Leaf,
    }
}

/// The document of the members of a part that count; none where one of them cannot
/// be read or stands there twice. What is an array or an object where a string or a
/// number belongs is told by an empty one.
pub open spec fn known(text: Seq<char>, p: Part) -> Option<JsonV>
    decreases height(p), 1int, 0nat,
{
    if opens_with(text, '{') {
        match known_members(items_in(text), p) {
            Some(m) => Some(JsonV::Object(m)),
            None => None,
        }
    } else if opens_with(text, '[') {
        if p == Part::Leaf {
            Some(JsonV::Array(Seq::empty()))
        } else {
            match known_items(items_in(text), p) {
                Some(a) => Some(JsonV::Array(a)),
                None => None,
            }
        }
    } else {
        document_in(text)
    }
}

/// The members that count, of those with these texts.
pub open spec fn known_members(list: Seq<Seq<char>>, p: Part) -> Option<Map<Seq<char>, JsonV>>
    decreases height(p), 0int, list.len(),
{
    if p == Part::Leaf || p == Part::Choices || p == Part::Calls || list.len() == 0 {
        Some(Map::empty())
    } else {
        match known_members(list.drop_last(), p) {
            Some(m) => with_member(m, list.last(), p),
            None => None,
        }
    }
}

/// The members with one more, whose text this is.
pub open spec fn with_member(m: Map<Seq<char>, JsonV>, text: Seq<char>, p: Part) -> Option<Map<Seq<char>, JsonV>>
    decreases height(p), 0int, 0nat,
{
    let sides = top_pieces(text, ':');
    if sides.len() != 2 {
        None
    } else {
        match document_in(sides[0]) {
            Some(JsonV::Text(key)) => match member_part(p, key) {
                Some(q) => if m.contains_key(key) {
                    None
                } else {
                    match known(sides[1], q) {
                        Some(v) => Some(m.insert(key, v)),
                        None => None,
                    }
                },
                None => Some(m),
            },
            _ => None,
        }
    }
}

/// The items of a part that is written as an array.
pub open spec fn known_items(list: Seq<Seq<char>>, p: Part) -> Option<Seq<JsonV>>
    decreases height(p), 0int, list.len(),
{
    if p == Part::Leaf || list.len() == 0 {
        Some(Seq::empty())
    } else {
        match (known_items(list.drop_last(), p), known(list.last(), item_part(p, list.len() - 1))) {
            (Some(front), Some(last)) => Some(front.push(last)),
            _ => None,
        }
    }
}

/// The chunk that a text is, where it is one.
pub open spec fn chunk_in(text: Seq<char>) -> Option<ChunkV> {
    if json_well_formed(text) {
        match known(text, Part::Chunk) {
            Some(v) => read_chunk(v),
            None => None,
        }
    } else {
        None
    }
}

/// The pieces of a text between the separators that stand in no bracket and no
/// string.
pub(crate) fn split_top(s: &str, sep: char) -> (r: Vec<String>)
    ensures
        texts(r@) == top_pieces(s@, sep),
{
    broadcast use lemma_texts_push;

    let cs = chars_of(s);
    let ghost all = cs@;
    let mut depth: usize = 0;
    let mut quoted = false;
    let mut escaped = false;
    let mut done: Vec<String> = Vec::new();
    let mut current = String::new();
    let mut i: usize = 0;
    assert(texts(done@) =~= Seq::empty());
    while i < cs.len()
        invariant
            i <= cs@.len(),
            all == cs@,
            depth <= i,
            split(all.take(i as int), sep) == (SplitV {
                depth: depth as nat,
                quoted,
                escaped,
                done: texts(done@),
                current: current@,
            }),
        decreases cs@.len() - i,
    {
        proof {
            lemma_step(all, i as int);
        }
        let c = cs[i];
        if quoted {
            current.push(c);
            if escaped {
                escaped = false;
            } else if c == '\\' {
                escaped = true;
            } else if c == '"' {
                quoted = false;
            }
        } else if c == '"' {
            current.push(c);
            quoted = true;
        } else if c == '{' || c == '[' {
            current.push(c);
            depth = depth + 1;
        } else if c == '}' || c == ']' {
            current.push(c);
            if depth > 0 {
                depth = depth - 1;
            }
        } else if c == sep && depth == 0 {
            let ghost before = texts(done@);
            let ghost piece = current@;
            done.push(current);
            current = String::new();
            assert(texts(done@) =~= before.push(piece));
            assert(current@ =~= Seq::empty());
        } else {
            current.push(c);
        }
        i += 1;
    }
    proof {
        lemma_whole(all);
    }
    done.push(current);
    done
}

fn split_items(text: &str) -> (r: Vec<String>)
    ensures
        texts(r@) == items_in(text@),
{
    let t = trimmed(text);
    let n = t.unicode_len();
    if n < 2 {
        let none: Vec<String> = Vec::new();
        assert(texts(none@) =~= Seq::empty());
        assert(trim(Seq::<char>::empty()).len() == 0);
        return none;
    }
    let body = t.substring_char(1, n - 1);
    if trimmed(body).is_empty() {
        let none: Vec<String> = Vec::new();
        assert(texts(none@) =~= Seq::empty());
        none
    } else {
        split_top(body, ',')
    }
}

fn begins_with(text: &str, c: char) -> (r: bool)
    ensures
        r == opens_with(text@, c),
{
    let cs = chars_of(trimmed(text));
    cs.len() > 0 && cs[0] == c
}

fn part_of_member(p: Part, key: &str) -> (r: Option<Part>)
    ensures
        r == member_part(p, key@),
{
    match p {
        Part::Chunk => if key.eq("id") {
            Some(Part::Leaf)
        } else if key.eq("choices") {
            Some(Part::Choices)
        } else if key.eq("usage") {
            Some(Part::Usage)
        } else {
            None
        },
        Part::Choice => if key.eq("delta") {
            Some(Part::Delta)
        } else if key.eq("finish_reason") {
            Some(Part::Leaf)
        } else {
            None
        },
        Part::Delta => if key.eq("tool_calls") {
            Some(Part::Calls)
        } else if key.eq("content") || key.eq("reasoning") || key.eq("reasoning_content") || key.eq("role") {
            Some(Part::Leaf)
        } else {
            None
        },
        Part::Call => if key.eq("function") {
            Some(Part::Function)
        } else if key.eq("index") || key.eq("id") || key.eq("type") {
            Some(Part::Leaf)
        } else {
            None
        },
        Part::Function => if key.eq("name") || key.eq("arguments") {
            Some(Part::Leaf)
        } else {
            None
        },
        Part::Usage => if key.eq("prompt_tokens_details") {
            Some(Part::Details)
        } else if key.eq("prompt_tokens") || key.eq("completion_tokens") || key.eq("cache_read_input_tokens")
            || key.eq("cache_creation_input_tokens") {
            Some(Part::Leaf)
        } else {
            None
        },
        Part::Details => if key.eq("cached_tokens") || key.eq("cache_write_tokens") {
            Some(Part::Leaf)
        } else {
            None
        },
        _ => None,
    }
}

fn part_of_item(p: Part, place: usize) -> (r: Part)
    ensures
        r == item_part(p, place as int),
{
    match p {
        Part::Choices => Part::Choice,
        Part::Calls => Part::Call,
        Part::Chunk => if place == 1 {
            Part::Choices
        } else if place == 2 {
            Part::Usage
        } else {
            Part::Leaf
        },
        Part::Choice => if place == 0 {
            Part::Delta
        } else {
            Part::Leaf
        },
        Part::Delta => if place == 2 {
            Part::Calls
        } else {
            Part::Leaf
        },
        Part::Call => if place == 3 {
            Part::Function
        } else {
            Part::Leaf
        },
        Part::Usage => if place == 2 {
            Part::Details
        } else {
            Part::Leaf
        },
        _ => Part::Leaf,
    }
}

fn read_known(text: &str, p: Part) -> (r: Option<Json>)
    ensures
        opt_json(r) == known(text@, p),
    decreases height(p), 1int, 0nat,
{
    broadcast use group_models;

    if begins_with(text, '{') {
        match read_members(&split_items(text), p) {
            Some(m) => Some(Json::Object(m)),
            None => None,
        }
    } else if begins_with(text, '[') {
        if p == Part::Leaf {
            let none: Vec<Json> = Vec::new();
            Some(Json::array(none))
        } else {
            match read_items(&split_items(text), p) {
                Some(a) => Some(Json::array(a)),
                None => None,
            }
        }
    } else {
        read_document(text)
    }
}

proof fn lemma_no_members(list: Seq<Seq<char>>, p: Part, n: int)
    requires
        0 <= n <= list.len(),
        known_members(list.take(n), p) is None,
    ensures
        known_members(list, p) is None,
    decreases list.len() - n,
{
    if n < list.len() {
        lemma_step(list, n);
        assert(list.take(n + 1).len() > 0);
        if list.take(n).len() == 0 {
            assert(known_members(list.take(n), p) is Some);
        }
        lemma_no_members(list, p, n + 1);
    } else {
        lemma_whole(list);
    }
}

fn read_members(list: &Vec<String>, p: Part) -> (r: Option<JsonObject>)
    ensures
        match r {
            Some(m) => known_members(texts(list@), p) == Some(m@),
            None => known_members(texts(list@), p) is None,
        },
    decreases height(p), 0int, 0nat,
{
    let mut m = JsonObject::new();
    if p == Part::Leaf || p == Part::Choices || p == Part::Calls {
        return Some(m);
    }
    let ghost all = texts(list@);
    let mut i: usize = 0;
    while i < list.len()
        invariant
            i <= list@.len(),
            all == texts(list@),
            p != Part::Leaf && p != Part::Choices && p != Part::Calls,
            known_members(all.take(i as int), p) == Some(m@),
        decreases list@.len() - i,
    {
        proof {
            lemma_step(all, i as int);
        }
        let sides = split_top(list[i].as_str(), ':');
        let ghost before = m@;
        let ghost text = list@[i as int]@;
        proof {
            assert(texts(sides@).len() == sides@.len());
            if with_member(before, text, p) is None {
                lemma_no_members(all, p, i + 1);
            }
        }
        if sides.len() != 2 {
            return None;
        }
        assert(sides@[0]@ == top_pieces(text, ':')[0]);
        assert(sides@[1]@ == top_pieces(text, ':')[1]);
        let key = match read_document(sides[0].as_str()) {
            Some(Json::Text(key)) => key,
            _ => {
                return None;
            },
        };
        if let Some(q) = part_of_member(p, key.as_str()) {
            if m.contains_key(key.as_str()) {
                return None;
            }
            match read_known(sides[1].as_str(), q) {
                Some(v) => {
                    m = m.with(key.as_str(), v);
                },
                None => {
                    return None;
                },
            }
        }
        i += 1;
    }
    proof {
        lemma_whole(all);
    }
    Some(m)
}

proof fn lemma_no_items(list: Seq<Seq<char>>, p: Part, n: int)
    requires
        0 <= n <= list.len(),
        known_items(list.take(n), p) is None,
    ensures
        known_items(list, p) is None,
    decreases list.len() - n,
{
    if n < list.len() {
        lemma_step(list, n);
        lemma_no_items(list, p, n + 1);
    } else {
        lemma_whole(list);
    }
}

fn read_items(list: &Vec<String>, p: Part) -> (r: Option<Vec<Json>>)
    requires
        p != Part::Leaf,
    ensures
        match r {
            Some(a) => known_items(texts(list@), p) == Some(models(a@)),
            None => known_items(texts(list@), p) is None,
        },
    decreases height(p), 0int, 0nat,
{
    broadcast use group_models;

    let ghost all = texts(list@);
    let mut out: Vec<Json> = Vec::new();
    let mut i: usize = 0;
    while i < list.len()
        invariant
            i <= list@.len(),
            p != Part::Leaf,
            all == texts(list@),
            known_items(all.take(i as int), p) == Some(models(out@)),
        decreases list@.len() - i,
    {
        proof {
            lemma_step(all, i as int);
        }
        match read_known(list[i].as_str(), part_of_item(p, i)) {
            Some(v) => {
                out.push(v);
            },
            None => {
                proof {
                    lemma_no_items(all, p, i + 1);
                }
                return None;
            },
        }
        i += 1;
    }
    proof {
        lemma_whole(all);
    }
    Some(out)
}

/// The chunk that a text is, where it is one: the members that count are of their
/// types and stand there once at most, and the others are passed over.
pub fn chunk_from_text(text: &str) -> (r: Option<OpenAIStreamChunk>)
    ensures
        match r {
            Some(c) => chunk_in(text@) == Some(c@),
            None => chunk_in(text@) is None,
        },
{
    if !is_well_formed(text) {
        return None;
    }
    match read_known(text, Part::Chunk) {
        Some(v) => chunk_from_json(&v),
        None => None,
    }
}

} // verus!
