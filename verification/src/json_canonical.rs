//! The compact text of a JSON document: the same for every order in which the
//! members of its objects were written.

use vstd::prelude::*;
use vstd::string::*;
use crate::json::{Json, JsonNumber, JsonObject, JsonV, NumV, models};
use crate::text::{chars_of, decimal, decimal_text, hex, join, join_texts, texts};

verus! {

/// How one character stands in a JSON string.
pub open spec fn escaped_char(c: char) -> Seq<char> {
    if c == '"' {
        seq!['\\', '"']
    } else if c == '\\' {
        seq!['\\', '\\']
    } else if c as u32 == 8 {
        seq!['\\', 'b']
    } else if c == '\t' {
        seq!['\\', 't']
    } else if c == '\n' {
        seq!['\\', 'n']
    } else if c as u32 == 12 {
        seq!['\\', 'f']
    } else if c == '\r' {
        seq!['\\', 'r']
    } else if (c as u32) < 32 {
        seq!['\\', 'u'] + hex(c as nat, 4)
    } else {
        seq![c]
    }
}

/// How a text stands between the quotes of a JSON string.
pub open spec fn escaped(s: Seq<char>) -> Seq<char>
    decreases s.len(),
{
    if s.len() == 0 {
        Seq::empty()
    } else {
        escaped(s.drop_last()) + escaped_char(s.last())
    }
}

/// A text as a JSON string.
pub open spec fn quoted(s: Seq<char>) -> Seq<char> {
    seq!['"'] + escaped(s) + seq!['"']
}

/// Whether `a` stands before `b` in the order of their characters.
pub open spec fn text_before(a: Seq<char>, b: Seq<char>) -> bool
    decreases a.len(),
{
    if b.len() == 0 {
        false
    } else if a.len() == 0 {
        true
    } else if a[0] == b[0] {
        text_before(a.drop_first(), b.drop_first())
    } else {
        a[0] < b[0]
    }
}

/// Whether each text stands before all that follow it.
pub open spec fn increasing(ks: Seq<Seq<char>>) -> bool {
    forall|i: int, j: int| 0 <= i < j < ks.len() ==> text_before(#[trigger] ks[i], #[trigger] ks[j])
}

/// The texts of a finite set in order.
pub open spec fn sorted_keys(s: Set<Seq<char>>) -> Seq<Seq<char>> {
    choose|ks: Seq<Seq<char>>| increasing(ks) && #[trigger] ks.to_set() == s
}

/// An integer in decimal.
pub open spec fn integer_text(n: int) -> Seq<char> {
    if n < 0 {
        seq!['-'] + decimal((-n) as nat)
    } else {
        decimal(n as nat)
    }
}

/// The compact text of a document, with the members of each object in the order
/// of their keys.
pub open spec fn compact_text(v: JsonV) -> Seq<char>
    decreases v,
{
    match v {
        JsonV::Null => "null"@,
        JsonV::Bool(b) => if b {
            "true"@
        } else {
            "false"@
        },
        JsonV::Number(NumV::Int(n)) => integer_text(n),
        JsonV::Number(NumV::Float(t)) => t,
        JsonV::Text(s) => quoted(s),
        JsonV::Array(a) => seq!['['] + join(array_texts(a), ","@) + seq![']'],
        JsonV::Object(m) => seq!['{'] + join(member_texts(m), ","@) + seq!['}'],
    }
}

/// The compact texts of a list of documents.
pub open spec fn array_texts(a: Seq<JsonV>) -> Seq<Seq<char>>
    decreases a,
{
    Seq::new(
        a.len(),
        |i: int|
            if 0 <= i < a.len() {
                compact_text(a[i])
            } else {
                Seq::empty()
            },
    )
}

/// The compact texts of the members of an object, in the order of their keys.
pub open spec fn member_texts(m: Map<Seq<char>, JsonV>) -> Seq<Seq<char>>
    decreases m,
{
    let ks = sorted_keys(m.dom());
    Seq::new(
        ks.len(),
        |i: int|
            if m.dom().finite() && m.contains_key(ks[i]) {
                quoted(ks[i]) + ":"@ + compact_text(m[ks[i]])
            } else {
                Seq::empty()
            },
    )
}

proof fn lemma_before_irreflexive(a: Seq<char>)
    ensures
        !text_before(a, a),
    decreases a.len(),
{
    if a.len() > 0 {
        lemma_before_irreflexive(a.drop_first());
    }
}

pub proof fn lemma_before_transitive(a: Seq<char>, b: Seq<char>, c: Seq<char>)
    requires
        text_before(a, b),
        text_before(b, c),
    ensures
        text_before(a, c),
    decreases a.len(),
{
    if a.len() > 0 && a[0] == b[0] && b[0] == c[0] {
        lemma_before_transitive(a.drop_first(), b.drop_first(), c.drop_first());
    }
}

pub proof fn lemma_before_total(a: Seq<char>, b: Seq<char>)
    ensures
        text_before(a, b) || text_before(b, a) || a == b,
    decreases a.len(),
{
    if a.len() > 0 && b.len() > 0 && a[0] == b[0] {
        lemma_before_total(a.drop_first(), b.drop_first());
        if a.drop_first() == b.drop_first() {
            assert(a =~= seq![a[0]] + a.drop_first());
            assert(b =~= seq![b[0]] + b.drop_first());
        }
    } else if a.len() == 0 && b.len() == 0 {
        assert(a =~= b);
    }
}

/// Two increasing lists of the same texts are the same list.
proof fn lemma_increasing_unique(a: Seq<Seq<char>>, b: Seq<Seq<char>>)
    requires
        increasing(a),
        increasing(b),
        a.to_set() == b.to_set(),
    ensures
        a == b,
    decreases a.len(),
{
    if a.len() == 0 {
        if b.len() > 0 {
            assert(b.to_set().contains(b[0]));
            assert(a.to_set().contains(b[0]));
        }
        assert(a =~= b);
    } else {
        assert(a.to_set().contains(a[0]));
        assert(b.to_set().contains(a[0]));
        assert(b.len() > 0);
        let n = a.len() - 1;
        let m = b.len() - 1;
        let x = a[n];
        let y = b[m];
        assert(a.to_set().contains(x));
        assert(b.to_set().contains(x));
        assert(b.to_set().contains(y));
        assert(a.to_set().contains(y));
        let i = choose|i: int| 0 <= i < b.len() && b[i] == x;
        let j = choose|j: int| 0 <= j < a.len() && a[j] == y;
        if x != y {
            assert(text_before(b[i], b[m]));
            assert(text_before(a[j], a[n]));
            lemma_before_transitive(x, y, x);
            lemma_before_irreflexive(x);
        }
        let a1 = a.drop_last();
        let b1 = b.drop_last();
        assert(increasing(a1)) by {
            assert forall|p: int, q: int| 0 <= p < q < a1.len() implies text_before(
                #[trigger] a1[p],
                #[trigger] a1[q],
            ) by {
                assert(text_before(a[p], a[q]));
            }
        }
        assert(increasing(b1)) by {
            assert forall|p: int, q: int| 0 <= p < q < b1.len() implies text_before(
                #[trigger] b1[p],
                #[trigger] b1[q],
            ) by {
                assert(text_before(b[p], b[q]));
            }
        }
        assert(a1.to_set() =~= b1.to_set()) by {
            assert forall|t: Seq<char>| a1.to_set().contains(t) <==> b1.to_set().contains(t) by {
                if a1.to_set().contains(t) {
                    let p = choose|p: int| 0 <= p < a1.len() && a1[p] == t;
                    assert(a[p] == t && text_before(a[p], a[n]));
                    lemma_before_irreflexive(x);
                    assert(a.to_set().contains(t));
                    assert(b.to_set().contains(t));
                    let q = choose|q: int| 0 <= q < b.len() && b[q] == t;
                    assert(q < m);
                    assert(b1[q] == t);
                }
                if b1.to_set().contains(t) {
                    let p = choose|p: int| 0 <= p < b1.len() && b1[p] == t;
                    assert(b[p] == t && text_before(b[p], b[m]));
                    lemma_before_irreflexive(x);
                    assert(b.to_set().contains(t));
                    assert(a.to_set().contains(t));
                    let q = choose|q: int| 0 <= q < a.len() && a[q] == t;
                    assert(q < n);
                    assert(a1[q] == t);
                }
            }
        }
        lemma_increasing_unique(a1, b1);
        assert(a =~= a1.push(x));
        assert(b =~= b1.push(y));
    }
}

/// An increasing list of the texts of a set is the list of `sorted_keys`.
proof fn lemma_sorted_keys(ks: Seq<Seq<char>>, s: Set<Seq<char>>)
    requires
        increasing(ks),
        ks.to_set() == s,
    ensures
        sorted_keys(s) == ks,
{
    let other = sorted_keys(s);
    assert(increasing(other) && other.to_set() == s);
    lemma_increasing_unique(ks, other);
}

/// Calls `serde_json::to_string` on a string, which does not fail: the result is
/// the string between quotes, with the quote, the backslash and the control
/// characters escaped.
#[verifier::external_body]
fn json_quote(s: &str) -> (r: String)
    ensures
        r@ == quoted(s@),
{
    serde_json::to_string(s).unwrap()
}

/// Whether `a` stands before `b` in the order of their characters.
pub(crate) fn stands_before(a: &str, b: &str) -> (r: bool)
    ensures
        r == text_before(a@, b@),
{
    let x = chars_of(a);
    let y = chars_of(b);
    let mut i: usize = 0;
    assert(x@.skip(0) =~= x@);
    assert(y@.skip(0) =~= y@);
    while i < x.len() && i < y.len() && x[i] == y[i]
        invariant
            i <= x@.len(),
            i <= y@.len(),
            text_before(x@, y@) == text_before(x@.skip(i as int), y@.skip(i as int)),
        decreases x@.len() - i,
    {
        assert(x@.skip(i as int).drop_first() =~= x@.skip(i + 1));
        assert(y@.skip(i as int).drop_first() =~= y@.skip(i + 1));
        i += 1;
    }
    if i >= y.len() {
        false
    } else if i >= x.len() {
        true
    } else {
        x[i] < y[i]
    }
}

/// The positions of the members of `o` in the order of their keys.
fn key_order(o: &JsonObject) -> (r: Vec<usize>)
    ensures
        o@.dom().finite(),
        r@.len() == o.keys().len(),
        forall|i: int| 0 <= i < r@.len() ==> #[trigger] r@[i] < o.keys().len(),
        sorted_keys(o@.dom()) == Seq::new(r@.len(), |i: int| o.keys()[r@[i] as int]),
{
    let n = o.len();
    let ghost ks = o.keys();
    let mut order: Vec<usize> = Vec::new();
    let mut next: usize = 0;
    while next < n
        invariant
            next <= n,
            n == ks.len(),
            ks == o.keys(),
            ks.no_duplicates(),
            order@.len() == next,
            forall|i: int| 0 <= i < next ==> #[trigger] order@[i] < next,
            forall|k: int| 0 <= k < next ==> #[trigger] has_position(order@, k),
            forall|i: int, j: int|
                0 <= i < j < next ==> text_before(ks[#[trigger] order@[i] as int], ks[#[trigger] order@[j] as int]),
        decreases n - next,
    {
        let key = o.key_at(next);
        let mut p: usize = 0;
        while p < next && stands_before(o.key_at(order[p]), key)
            invariant
                p <= next < n,
                n == ks.len(),
                ks == o.keys(),
                key@ == ks[next as int],
                order@.len() == next,
                forall|i: int| 0 <= i < next ==> #[trigger] order@[i] < next,
                forall|i: int| 0 <= i < p ==> text_before(ks[#[trigger] order@[i] as int], key@),
            decreases next - p,
        {
            p += 1;
        }
        let ghost before = order@;
        order.insert(p, next);
        proof {
            assert(order@ == before.insert(p as int, next));
            assert forall|i: int| p <= i < next implies text_before(key@, ks[#[trigger] before[i] as int]) by {
                let q = ks[before[p as int] as int];
                assert(before[i] < next);
                lemma_before_total(q, key@);
                assert(q != key@) by {
                    assert(before[p as int] < next);
                }
                if i > p {
                    assert(text_before(ks[before[p as int] as int], ks[before[i] as int]));
                    lemma_before_transitive(key@, q, ks[before[i] as int]);
                }
            }
            assert forall|k: int| 0 <= k < next + 1 implies #[trigger] has_position(order@, k) by {
                if k == next {
                    assert(order@[p as int] == k);
                } else {
                    assert(has_position(before, k));
                    let i = choose|i: int| 0 <= i < before.len() && before[i] == k;
                    if i < p {
                        assert(order@[i] == k);
                    } else {
                        assert(order@[i + 1] == k);
                    }
                }
            }
            assert forall|i: int, j: int| 0 <= i < j < next + 1 implies text_before(
                ks[#[trigger] order@[i] as int],
                ks[#[trigger] order@[j] as int],
            ) by {
                let i2 = if i < p { i } else { i - 1 };
                let j2 = if j < p { j } else { j - 1 };
                if i == p {
                    assert(order@[j] == before[j2]);
                } else if j == p {
                    assert(order@[i] == before[i2]);
                } else {
                    assert(order@[i] == before[i2]);
                    assert(order@[j] == before[j2]);
                }
            }
        }
        next += 1;
    }
    proof {
        let sorted = Seq::new(order@.len(), |i: int| ks[order@[i] as int]);
        assert(increasing(sorted));
        assert(sorted.to_set() =~= o@.dom()) by {
            assert forall|t: Seq<char>| sorted.to_set().contains(t) <==> o@.dom().contains(t) by {
                if sorted.to_set().contains(t) {
                    let i = choose|i: int| 0 <= i < sorted.len() && sorted[i] == t;
                    assert(ks[order@[i] as int] == t);
                    assert(ks.to_set().contains(t));
                }
                if o@.dom().contains(t) {
                    assert(ks.to_set().contains(t));
                    let k = choose|k: int| 0 <= k < ks.len() && ks[k] == t;
                    assert(has_position(order@, k));
                    let i = choose|i: int| 0 <= i < order@.len() && order@[i] == k;
                    assert(sorted[i] == t);
                }
            }
        }
        lemma_sorted_keys(sorted, o@.dom());
    }
    order
}

spec fn has_position(order: Seq<usize>, k: int) -> bool {
    exists|i: int| 0 <= i < order.len() && order[i] == k
}

fn number_text(n: &JsonNumber) -> (r: String)
    ensures
        r@ == compact_text(JsonV::Number(n@)),
{
    match n {
        JsonNumber::Unsigned(n) => decimal_text(*n),
        JsonNumber::Signed(n) => {
            let n: i64 = *n;
            if n < 0 {
                let mut s = String::new();
                s.push('-');
                let magnitude: u64 = (-(n as i128)) as u64;
                s.append(decimal_text(magnitude).as_str());
                assert(s@ =~= integer_text(n as int));
                s
            } else {
                decimal_text(n as u64)
            }
        },
        JsonNumber::Float(t) => t.clone(),
    }
}

/// The compact text of a document, with the members of each object in the order
/// of their keys.
pub fn canonical_json_string(value: &Json) -> (r: String)
    ensures
        r@ == compact_text(value@),
    decreases value,
{
    match value {
        Json::Null => "null".to_owned(),
        Json::Bool(b) => if *b {
            "true".to_owned()
        } else {
            "false".to_owned()
        },
        Json::Number(n) => number_text(n),
        Json::Text(s) => json_quote(s.as_str()),
        Json::Array(items) => {
            let parts = array_parts(items);
            let mut out = String::new();
            out.push('[');
            out.append(join_texts(&parts, ",").as_str());
            out.push(']');
            proof {
                assert(value@->Array_0 =~= models(items@));
                assert(out@ =~= seq!['['] + join(array_texts(models(items@)), ","@) + seq![']']);
            }
            out
        },
        Json::Object(o) => {
            let parts = object_parts(o);
            let mut out = String::new();
            out.push('{');
            out.append(join_texts(&parts, ",").as_str());
            out.push('}');
            assert(out@ =~= seq!['{'] + join(member_texts(o@), ","@) + seq!['}']);
            out
        },
    }
}

fn array_parts(items: &Vec<Json>) -> (parts: Vec<String>)
    ensures
        texts(parts@) == array_texts(models(items@)),
    decreases items,
{
    let mut parts: Vec<String> = Vec::new();
    let mut i: usize = 0;
    while i < items.len()
        invariant
            i <= items@.len(),
            parts@.len() == i,
            forall|j: int| 0 <= j < i ==> #[trigger] parts@[j]@ == compact_text(items@[j]@),
        decreases items@.len() - i,
    {
        parts.push(canonical_json_string(&items[i]));
        i += 1;
    }
    assert(texts(parts@) =~= array_texts(models(items@)));
    parts
}

fn object_parts(o: &JsonObject) -> (parts: Vec<String>)
    ensures
        texts(parts@) == member_texts(o@),
    decreases o,
{
    let order = key_order(o);
    let ghost ks = sorted_keys(o@.dom());
    let mut parts: Vec<String> = Vec::new();
    let mut i: usize = 0;
    while i < order.len()
        invariant
            i <= order@.len(),
            parts@.len() == i,
            ks == sorted_keys(o@.dom()),
            o@.dom().finite(),
            ks.len() == order@.len(),
            order@.len() == o.keys().len(),
            ks == Seq::new(order@.len(), |i: int| o.keys()[order@[i] as int]),
            forall|j: int| 0 <= j < order@.len() ==> #[trigger] order@[j] < o.keys().len(),
            forall|j: int|
                0 <= j < i ==> #[trigger] parts@[j]@ == member_texts(o@)[j],
        decreases order@.len() - i,
    {
        let at: usize = order[i];
        let mut part = json_quote(o.key_at(at));
        part.append(":");
        part.append(canonical_json_string(o.value_at(at)).as_str());
        assert(ks[i as int] == o.keys()[at as int]);
        assert(part@ == member_texts(o@)[i as int]);
        parts.push(part);
        i += 1;
    }
    assert(texts(parts@) =~= member_texts(o@));
    parts
}

/// The order in which two members were added has no part in the text.
pub proof fn law_member_order_does_not_matter(
    m: Map<Seq<char>, JsonV>,
    a: Seq<char>,
    x: JsonV,
    b: Seq<char>,
    y: JsonV,
)
    requires
        a != b,
    ensures
        compact_text(JsonV::Object(m.insert(a, x).insert(b, y))) == compact_text(
            JsonV::Object(m.insert(b, y).insert(a, x)),
        ),
{
    assert(m.insert(a, x).insert(b, y) =~= m.insert(b, y).insert(a, x));
}

/// A text put into an increasing list.
spec fn inserted(ks: Seq<Seq<char>>, t: Seq<char>) -> Seq<Seq<char>>
    decreases ks.len(),
{
    if ks.len() == 0 {
        seq![t]
    } else if text_before(ks.last(), t) {
        ks.push(t)
    } else {
        inserted(ks.drop_last(), t).push(ks.last())
    }
}

proof fn lemma_inserted(ks: Seq<Seq<char>>, t: Seq<char>)
    requires
        increasing(ks),
        !ks.contains(t),
    ensures
        increasing(inserted(ks, t)),
        forall|u: Seq<char>| #[trigger] inserted(ks, t).contains(u) <==> ks.contains(u) || u == t,
    decreases ks.len(),
{
    let r = inserted(ks, t);
    if ks.len() == 0 {
        assert(r[0] == t);
    } else {
        let last = ks.last();
        let front = ks.drop_last();
        assert(ks[ks.len() - 1] == last);
        if text_before(last, t) {
            assert forall|i: int, j: int| 0 <= i < j < r.len() implies text_before(
                #[trigger] r[i],
                #[trigger] r[j],
            ) by {
                if j == ks.len() && i < ks.len() - 1 {
                    assert(text_before(ks[i], ks[ks.len() - 1]));
                    lemma_before_transitive(ks[i], last, t);
                }
            }
            assert forall|u: Seq<char>| #[trigger] r.contains(u) <==> ks.contains(u) || u == t by {
                if ks.contains(u) {
                    let k = choose|k: int| 0 <= k < ks.len() && ks[k] == u;
                    assert(r[k] == u);
                }
                assert(r[ks.len() as int] == t);
                if r.contains(u) && u != t {
                    let k = choose|k: int| 0 <= k < r.len() && r[k] == u;
                    assert(ks[k] == u);
                }
            }
        } else {
            assert(last != t);
            lemma_before_total(last, t);
            assert(increasing(front)) by {
                assert forall|i: int, j: int| 0 <= i < j < front.len() implies text_before(
                    #[trigger] front[i],
                    #[trigger] front[j],
                ) by {
                    assert(text_before(ks[i], ks[j]));
                }
            }
            assert(!front.contains(t)) by {
                if front.contains(t) {
                    let k = choose|k: int| 0 <= k < front.len() && front[k] == t;
                    assert(ks[k] == t);
                }
            }
            lemma_inserted(front, t);
            let f = inserted(front, t);
            assert forall|i: int, j: int| 0 <= i < j < r.len() implies text_before(
                #[trigger] r[i],
                #[trigger] r[j],
            ) by {
                if j == f.len() {
                    assert(f.contains(f[i]));
                    if f[i] != t {
                        let k = choose|k: int| 0 <= k < front.len() && front[k] == f[i];
                        assert(text_before(ks[k], ks[ks.len() - 1]));
                    }
                }
            }
            assert forall|u: Seq<char>| #[trigger] r.contains(u) <==> ks.contains(u) || u == t by {
                if ks.contains(u) && u != last {
                    let k = choose|k: int| 0 <= k < ks.len() && ks[k] == u;
                    assert(front[k] == u);
                }
                if front.contains(u) {
                    let k = choose|k: int| 0 <= k < front.len() && front[k] == u;
                    assert(ks[k] == u);
                }
                if f.contains(u) {
                    let k = choose|k: int| 0 <= k < f.len() && f[k] == u;
                    assert(r[k] == u);
                }
                assert(r[f.len() as int] == last);
                if r.contains(u) && u != last {
                    let k = choose|k: int| 0 <= k < r.len() && r[k] == u;
                    assert(f[k] == u);
                }
            }
        }
    }
}

/// The members of every object stand in the canonical text in the order of their
/// keys, each once.
pub proof fn law_keys_are_in_order(m: Map<Seq<char>, JsonV>)
    requires
        m.dom().finite(),
    ensures
        increasing(sorted_keys(m.dom())),
        sorted_keys(m.dom()).to_set() == m.dom(),
        member_texts(m).len() == sorted_keys(m.dom()).len(),
        forall|i: int|
            0 <= i < sorted_keys(m.dom()).len() ==> #[trigger] member_texts(m)[i] == quoted(sorted_keys(m.dom())[i])
                + ":"@ + compact_text(m[sorted_keys(m.dom())[i]]),
{
    let ks = sorted_list(m.dom());
    lemma_sorted_list(m.dom());
    lemma_sorted_keys(ks, m.dom());
    assert forall|i: int| 0 <= i < ks.len() implies #[trigger] member_texts(m)[i] == quoted(ks[i]) + ":"@ + compact_text(
        m[ks[i]],
    ) by {
        assert(ks.to_set().contains(ks[i]));
    }
}

/// The texts of a finite set, put one by one into a list.
spec fn sorted_list(s: Set<Seq<char>>) -> Seq<Seq<char>>
    decreases s.len(),
{
    if s.finite() && s.len() > 0 {
        let t = s.choose();
        inserted(sorted_list(s.remove(t)), t)
    } else {
        Seq::empty()
    }
}

proof fn lemma_sorted_list(s: Set<Seq<char>>)
    requires
        s.finite(),
    ensures
        increasing(sorted_list(s)),
        sorted_list(s).to_set() == s,
    decreases s.len(),
{
    if s.len() > 0 {
        let t = s.choose();
        let rest = s.remove(t);
        lemma_sorted_list(rest);
        let ks = sorted_list(rest);
        assert(!ks.contains(t)) by {
            if ks.contains(t) {
                assert(ks.to_set().contains(t));
            }
        }
        lemma_inserted(ks, t);
        let r = sorted_list(s);
        assert(r.to_set() =~= s) by {
            assert forall|u: Seq<char>| r.to_set().contains(u) <==> s.contains(u) by {
                assert(ks.to_set().contains(u) <==> rest.contains(u));
                assert(ks.to_set().contains(u) <==> ks.contains(u));
            }
        }
    } else {
        assert(s =~= Set::empty());
        assert(sorted_list(s).to_set() =~= Set::empty());
    }
}

} // verus!
