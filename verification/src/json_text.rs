//! Reading JSON text into documents.

use vstd::prelude::*;
use vstd::utf8::*;
use crate::json::{Json, JsonNumber, JsonObject, JsonV, NumV, models, opt_json};
use crate::json_canonical::{compact_text, text_before};

verus! {

/// A JSON value as `serde_json` holds it.
#[verifier::external_type_specification]
#[verifier::external_body]
pub struct ExSerdeValue(serde_json::Value);

/// What a `serde_json::Value` holds.
pub uninterp spec fn value_model(v: serde_json::Value) -> JsonV;

/// What `serde_json::from_str` reads from a text: a document, or the message of
/// its error.
pub uninterp spec fn json_parse(text: Seq<char>) -> Result<JsonV, Seq<char>>;

/// What `serde_json::from_slice` reads from bytes, where it reads anything.
pub uninterp spec fn json_parse_bytes(bytes: Seq<u8>) -> Option<JsonV>;

/// The outermost layer of a `serde_json::Value`.
pub(crate) enum ValueParts {
    Null,
    Bool(bool),
    /// The number as an integer, where it is one, and its text.
    Number(Option<i128>, String),
    Text(String),
    Array(Vec<serde_json::Value>),
    Object(Vec<(String, serde_json::Value)>),
}

/// The members of an object as a map.
pub(crate) open spec fn members(e: Seq<(String, serde_json::Value)>) -> Map<Seq<char>, JsonV>
    decreases e.len(),
{
    if e.len() == 0 {
        Map::empty()
    } else {
        members(e.drop_last()).insert(e.last().0@, value_model(e.last().1))
    }
}

/// What the parts hold together.
pub(crate) open spec fn parts_model(p: ValueParts) -> JsonV {
    match p {
        ValueParts::Null => JsonV::Null,
        ValueParts::Bool(b) => JsonV::Bool(b),
        ValueParts::Number(Some(n), _) => JsonV::Number(NumV::Int(n as int)),
        ValueParts::Number(None, t) => JsonV::Number(NumV::Float(t@)),
        ValueParts::Text(s) => JsonV::Text(s@),
        ValueParts::Array(a) => JsonV::Array(Seq::new(a@.len(), |i: int| value_model(a@[i]))),
        ValueParts::Object(e) => JsonV::Object(members(e@)),
    }
}

/// Whether no key occurs twice.
pub(crate) open spec fn distinct_keys(e: Seq<(String, serde_json::Value)>) -> bool {
    forall|i: int, j: int| 0 <= i < j < e.len() ==> #[trigger] e[i].0@ != #[trigger] e[j].0@
}

/// A key that `serde_json` keeps for itself: an object whose first member has it is
/// read as the document in the text under it.
pub const RAW_VALUE_KEY: &'static str = "$serde_json::private::RawValue";

/// Whether a key is the first of the keys of an object in their order.
pub open spec fn leads(m: Map<Seq<char>, JsonV>, key: Seq<char>) -> bool {
    m.contains_key(key) && forall|k: Seq<char>| #[trigger] m.contains_key(k) ==> !text_before(k, key)
}

/// Whether a document can be read back from its compact text: its numbers are
/// integers of 64 bits, `RAW_VALUE_KEY` is the first key of no object in it, and its
/// arrays and objects stand at most `depth` deep in one another.
pub open spec fn storable(v: JsonV, depth: nat) -> bool
    decreases v,
{
    match v {
        JsonV::Number(NumV::Int(n)) => i64::MIN <= n <= u64::MAX,
        JsonV::Number(NumV::Float(_)) => false,
        JsonV::Array(a) => depth > 0 && forall|i: int|
            0 <= i < a.len() ==> #[trigger] storable(a[i], (depth - 1) as nat),
        JsonV::Object(m) => depth > 0 && m.dom().finite() && !leads(m, RAW_VALUE_KEY@) && forall|k: Seq<char>|
            m.contains_key(k) ==> #[trigger] storable(m[k], (depth - 1) as nat),
        _ => true,
    }
}

/// How deep arrays and objects may stand in one another in a text that is read.
pub const MAX_DEPTH: usize = 127;

/// Takes a `serde_json::Value` apart: each variant with what it holds, an object
/// as the list of its members, among which no key occurs twice. A number is
/// given as `Number::as_i128` and `Number::to_string` give it, and an integer
/// fits 64 bits, signed or unsigned.
#[verifier::external_body]
fn value_parts(v: serde_json::Value) -> (r: ValueParts)
    ensures
        parts_model(r) == value_model(v),
        r matches ValueParts::Object(e) ==> distinct_keys(e@),
        r matches ValueParts::Number(Some(n), _) ==> i64::MIN <= n <= u64::MAX,
{
    match v {
        serde_json::Value::Null => ValueParts::Null,
        serde_json::Value::Bool(b) => ValueParts::Bool(b),
        serde_json::Value::Number(n) => ValueParts::Number(n.as_i128(), n.to_string()),
        serde_json::Value::String(s) => ValueParts::Text(s),
        serde_json::Value::Array(a) => ValueParts::Array(a),
        serde_json::Value::Object(m) => ValueParts::Object(m.into_iter().collect()),
    }
}

/// Calls `serde_json::from_str`. What it reads depends on the text alone and is
/// named `json_parse`; an error is given by its message. The compact text of a
/// document is read as that document, with the same exceptions as in
/// `parse_value_bytes`.
#[verifier::external_body]
fn parse_value(text: &str) -> (r: Result<serde_json::Value, String>)
    ensures
        match r {
            Ok(v) => json_parse(text@) == Ok::<JsonV, Seq<char>>(value_model(v)),
            Err(e) => json_parse(text@) == Err::<JsonV, Seq<char>>(e@),
        },
        forall|d: JsonV|
            storable(d, MAX_DEPTH as nat) && text@ == #[trigger] compact_text(d) ==> r is Ok && value_model(r->Ok_0)
                == d,
{
    match serde_json::from_str(text) {
        Ok(v) => Ok(v),
        Err(e) => Err(e.to_string()),
    }
}

/// Calls `serde_json::from_slice`. What it reads depends on the bytes alone and
/// is named `json_parse_bytes`. The compact text of a document is read as that
/// document, unless it holds a number that is no integer of 64 bits, an object
/// whose first key is `RAW_VALUE_KEY`, or stands deeper than the reader follows.
#[verifier::external_body]
fn parse_value_bytes(bytes: &[u8]) -> (r: Option<serde_json::Value>)
    ensures
        match r {
            Some(v) => json_parse_bytes(bytes@) == Some(value_model(v)),
            None => json_parse_bytes(bytes@) is None,
        },
        forall|d: JsonV|
            storable(d, MAX_DEPTH as nat) && bytes@ == encode_utf8(#[trigger] compact_text(d)) ==> r is Some && value_model(
                r->0,
            ) == d,
{
    serde_json::from_slice(bytes).ok()
}

proof fn lemma_members(e: Seq<(String, serde_json::Value)>)
    ensures
        members(e).dom().finite(),
        distinct_keys(e) ==> forall|i: int|
            0 <= i < e.len() ==> #[trigger] members(e).contains_key(e[i].0@) && members(e)[e[i].0@] == value_model(
                e[i].1,
            ),
    decreases e.len(),
{
    if e.len() > 0 {
        let f = e.drop_last();
        let n = e.len() - 1;
        lemma_members(f);
        if distinct_keys(e) {
            assert(distinct_keys(f)) by {
                assert forall|i: int, j: int| 0 <= i < j < f.len() implies f[i].0@ != f[j].0@ by {
                    assert(e[i].0@ != e[j].0@);
                }
            }
            assert forall|i: int| 0 <= i < e.len() implies #[trigger] members(e).contains_key(e[i].0@)
                && members(e)[e[i].0@] == value_model(e[i].1) by {
                if i < n {
                    assert(f[i].0@ == e[i].0@);
                    assert(members(f).contains_key(f[i].0@));
                    assert(e[i].0@ != e[n].0@);
                }
            }
        }
    }
}

/// The document that a `serde_json::Value` holds.
fn from_value(v: serde_json::Value) -> (r: Json)
    ensures
        r@ == value_model(v),
    decreases value_model(v),
{
    match value_parts(v) {
        ValueParts::Null => Json::Null,
        ValueParts::Bool(b) => Json::Bool(b),
        ValueParts::Number(Some(n), _) => if n < 0 {
            Json::Number(JsonNumber::Signed(n as i64))
        } else {
            Json::Number(JsonNumber::Unsigned(n as u64))
        },
        ValueParts::Number(None, t) => Json::Number(JsonNumber::Float(t)),
        ValueParts::Text(s) => Json::Text(s),
        ValueParts::Array(a) => {
            let ghost whole = value_model(v);
            let ghost items = a@;
            let mut out: Vec<Json> = Vec::new();
            for x in it: a
                invariant
                    it.seq() == items,
                    whole == JsonV::Array(Seq::new(items.len(), |i: int| value_model(items[i]))),
                    whole == value_model(v),
                    out@.len() == it.index(),
                    forall|j: int| 0 <= j < out@.len() ==> #[trigger] out@[j]@ == value_model(items[j]),
            {
                proof {
                    let s = whole->Array_0;
                    assert(s[it.index() as int] == value_model(x));
                    assert(decreases_to!(whole => s));
                    assert(decreases_to!(s => s[it.index() as int]));
                }
                out.push(from_value(x));
            }
            assert(models(out@) =~= whole->Array_0);
            Json::array(out)
        },
        ValueParts::Object(e) => {
            let ghost whole = value_model(v);
            let ghost list = e@;
            proof {
                lemma_members(list);
            }
            let mut out = JsonObject::new();
            assert(members(list.take(0)) =~= Map::empty());
            for x in it: e
                invariant
                    it.seq() == list,
                    whole == JsonV::Object(members(list)),
                    whole == value_model(v),
                    members(list).dom().finite(),
                    forall|i: int|
                        0 <= i < list.len() ==> #[trigger] members(list).contains_key(list[i].0@) && members(
                            list,
                        )[list[i].0@] == value_model(list[i].1),
                    out@ == members(list.take(it.index() as int)),
            {
                let (key, value) = x;
                proof {
                    let i = it.index() as int;
                    let m = whole->Object_0;
                    assert(m == members(list));
                    assert(m.contains_key(list[i].0@));
                    assert(decreases_to!(whole => m));
                    assert(decreases_to!(m => m[list[i].0@]));
                    assert(list.take(i + 1).drop_last() =~= list.take(i));
                }
                out = out.with(key.as_str(), from_value(value));
            }
            assert(list.take(list.len() as int) =~= list);
            Json::Object(out)
        },
    }
}

/// Reads a document from JSON text. The canonical text of a document is read as that
/// document.
pub fn parse_json(text: &str) -> (r: Result<Json, String>)
    ensures
        match r {
            Ok(v) => json_parse(text@) == Ok::<JsonV, Seq<char>>(v@),
            Err(e) => json_parse(text@) == Err::<JsonV, Seq<char>>(e@),
        },
        forall|d: JsonV|
            storable(d, MAX_DEPTH as nat) && text@ == #[trigger] compact_text(d) ==> r is Ok && r->Ok_0@ == d,
{
    match parse_value(text) {
        Ok(v) => Ok(from_value(v)),
        Err(e) => Err(e),
    }
}

/// The document that a text is, where it is one.
pub open spec fn document_in(text: Seq<char>) -> Option<JsonV> {
    match json_parse(text) {
        Ok(v) => Some(v),
        Err(_) => None,
    }
}

/// The document that a text is, where it is one.
pub(crate) fn read_document(text: &str) -> (r: Option<Json>)
    ensures
        opt_json(r) == document_in(text@),
{
    match parse_json(text) {
        Ok(v) => Some(v),
        Err(_) => None,
    }
}

/// Reads a document from the bytes of JSON text. The canonical text of a document is
/// read as that document.
pub fn parse_json_bytes(bytes: &[u8]) -> (r: Option<Json>)
    ensures
        opt_json(r) == json_parse_bytes(bytes@),
        forall|d: JsonV|
            storable(d, MAX_DEPTH as nat) && bytes@ == encode_utf8(#[trigger] compact_text(d)) ==> opt_json(r) == Some(d),
{
    match parse_value_bytes(bytes) {
        Some(v) => Some(from_value(v)),
        None => None,
    }
}

} // verus!
