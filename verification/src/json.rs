//! JSON documents: the executable tree and its mathematical model.

use vstd::prelude::*;

verus! {

/// `str` equality, as `std` documents it: two strings are equal exactly when
/// they hold the same characters.
pub assume_specification[ <str as PartialEq>::eq ](a: &str, b: &str) -> (r: bool)
    ensures
        r == (a@ == b@),
;

/// A JSON number.
#[derive(Debug)]
pub enum JsonNumber {
    /// A non-negative integer that fits 64 bits.
    Unsigned(u64),
    /// A signed integer that fits 64 bits.
    Signed(i64),
    /// Any other number, in the decimal text that stands for it.
    Float(String),
}

/// A JSON document.
#[derive(Debug)]
pub enum Json {
    Null,
    Bool(bool),
    Number(JsonNumber),
    Text(String),
    Array(Vec<Json>),
    Object(JsonObject),
}

/// The members of a JSON object. No key occurs twice.
#[derive(Debug)]
pub struct JsonObject {
    entries: Vec<(String, Json)>,
}

/// The mathematical model of a JSON number.
pub enum NumV {
    /// An integer.
    Int(int),
    /// A number that is held by its decimal text.
    Float(Seq<char>),
}

/// The mathematical model of a JSON document.
pub enum JsonV {
    Null,
    Bool(bool),
    Number(NumV),
    Text(Seq<char>),
    Array(Seq<JsonV>),
    Object(Map<Seq<char>, JsonV>),
}

impl View for JsonNumber {
    type V = NumV;

    open spec fn view(&self) -> NumV {
        match self {
            JsonNumber::Unsigned(n) => NumV::Int(*n as int),
            JsonNumber::Signed(n) => NumV::Int(*n as int),
            JsonNumber::Float(t) => NumV::Float(t@),
        }
    }
}

/// The model of a document.
pub open spec fn json_model(j: Json) -> JsonV
    decreases j,
{
    match j {
        Json::Null => JsonV::Null,
        Json::Bool(b) => JsonV::Bool(b),
        Json::Number(n) => JsonV::Number(n@),
        Json::Text(s) => JsonV::Text(s@),
        Json::Array(v) => JsonV::Array(
            Seq::new(
                v@.len(),
                |i: int|
                    if 0 <= i < v@.len() {
                        json_model(v@[i])
                    } else {
                        JsonV::Null
                    },
            ),
        ),
        Json::Object(o) => JsonV::Object(object_model(o)),
    }
}

/// The model of an object: a finite map from keys to values.
pub closed spec fn object_model(o: JsonObject) -> Map<Seq<char>, JsonV>
    decreases o,
{
    entries_model(o.entries@)
}

/// The map that a list of members stands for.
spec fn entries_model(e: Seq<(String, Json)>) -> Map<Seq<char>, JsonV>
    decreases e,
{
    if e.len() == 0 {
        Map::empty()
    } else {
        entries_model(e.drop_last()).insert(e.last().0@, json_model(e.last().1))
    }
}

impl View for Json {
    type V = JsonV;

    open spec fn view(&self) -> JsonV {
        json_model(*self)
    }
}

impl View for JsonObject {
    type V = Map<Seq<char>, JsonV>;

    open spec fn view(&self) -> Map<Seq<char>, JsonV> {
        object_model(*self)
    }
}

/// The models of a list of documents.
pub open spec fn models(v: Seq<Json>) -> Seq<JsonV> {
    Seq::new(v.len(), |i: int| v[i]@)
}

/// The model of an optional reference to a document.
pub open spec fn opt_model(o: Option<&Json>) -> Option<JsonV> {
    match o {
        Some(j) => Some(j@),
        None => None,
    }
}

/// The characters of an optional string slice.
pub open spec fn opt_text(o: Option<&str>) -> Option<Seq<char>> {
    match o {
        Some(s) => Some(s@),
        None => None,
    }
}

/// The characters of an optional owned string.
pub open spec fn opt_string(o: Option<String>) -> Option<Seq<char>> {
    match o {
        Some(s) => Some(s@),
        None => None,
    }
}

/// The model of an optional owned document.
pub open spec fn opt_json(o: Option<Json>) -> Option<JsonV> {
    match o {
        Some(j) => Some(j@),
        None => None,
    }
}

impl JsonV {
    /// The member of an object under `key`; of any other value, none.
    pub open spec fn get(self, key: Seq<char>) -> Option<JsonV> {
        match self {
            JsonV::Object(m) => if m.contains_key(key) {
                Some(m[key])
            } else {
                None
            },
            _ => None,
        }
    }

    /// The member under `key`, or null where there is none.
    pub open spec fn at(self, key: Seq<char>) -> JsonV {
        match self.get(key) {
            Some(v) => v,
            None => JsonV::Null,
        }
    }

    pub open spec fn as_str(self) -> Option<Seq<char>> {
        match self {
            JsonV::Text(s) => Some(s),
            _ => None,
        }
    }

    pub open spec fn as_bool(self) -> Option<bool> {
        match self {
            JsonV::Bool(b) => Some(b),
            _ => None,
        }
    }

    pub open spec fn as_u64(self) -> Option<u64> {
        match self {
            JsonV::Number(NumV::Int(n)) => if 0 <= n <= u64::MAX {
                Some(n as u64)
            } else {
                None
            },
            _ => None,
        }
    }

    pub open spec fn as_array(self) -> Option<Seq<JsonV>> {
        match self {
            JsonV::Array(a) => Some(a),
            _ => None,
        }
    }

    pub open spec fn as_object(self) -> Option<Map<Seq<char>, JsonV>> {
        match self {
            JsonV::Object(m) => Some(m),
            _ => None,
        }
    }

    /// The string under `key`, where there is one.
    pub open spec fn str_at(self, key: Seq<char>) -> Option<Seq<char>> {
        match self.get(key) {
            Some(v) => v.as_str(),
            None => None,
        }
    }

    /// The string under `key`, or `default` where there is none.
    pub open spec fn str_or(self, key: Seq<char>, default: Seq<char>) -> Seq<char> {
        match self.str_at(key) {
            Some(s) => s,
            None => default,
        }
    }

    /// The unsigned integer under `key`, where there is one.
    pub open spec fn u64_at(self, key: Seq<char>) -> Option<u64> {
        match self.get(key) {
            Some(v) => v.as_u64(),
            None => None,
        }
    }

    /// The array under `key`, where there is one.
    pub open spec fn array_at(self, key: Seq<char>) -> Option<Seq<JsonV>> {
        match self.get(key) {
            Some(v) => v.as_array(),
            None => None,
        }
    }

    /// The member under `inner` of the member under `outer`.
    pub open spec fn path2(self, outer: Seq<char>, inner: Seq<char>) -> Option<JsonV> {
        match self.get(outer) {
            Some(v) => v.get(inner),
            None => None,
        }
    }

    /// The array under `key`; the empty one where there is none.
    pub open spec fn items_at(self, key: Seq<char>) -> Seq<JsonV> {
        match self.array_at(key) {
            Some(a) => a,
            None => Seq::empty(),
        }
    }

    /// The object with `value` under `key`. `self` is an object or null, which
    /// stands for the empty object; any other value is left as it is.
    pub open spec fn set(self, key: Seq<char>, value: JsonV) -> JsonV {
        match self {
            JsonV::Object(m) => JsonV::Object(m.insert(key, value)),
            JsonV::Null => JsonV::Object(Map::empty().insert(key, value)),
            _ => self,
        }
    }

    /// The object without its member under `key`.
    pub open spec fn unset(self, key: Seq<char>) -> JsonV {
        match self {
            JsonV::Object(m) => JsonV::Object(m.remove(key)),
            _ => self,
        }
    }
}

/// The map with `value` under `key`, where there is a value.
pub open spec fn insert_some(m: Map<Seq<char>, JsonV>, key: Seq<char>, value: Option<JsonV>) -> Map<
    Seq<char>,
    JsonV,
> {
    match value {
        Some(v) => m.insert(key, v),
        None => m,
    }
}

/// An optional value as a document: null where there is none.
pub open spec fn or_null(o: Option<JsonV>) -> JsonV {
    match o {
        Some(v) => v,
        None => JsonV::Null,
    }
}

/// An optional text as a document: null where there is none.
pub open spec fn text_or_null(o: Option<Seq<char>>) -> JsonV {
    match o {
        Some(t) => JsonV::Text(t),
        None => JsonV::Null,
    }
}

/// An optional text as a document: null where there is none.
pub fn make_text_or_null(o: Option<&str>) -> (r: Json)
    ensures
        r@ == text_or_null(opt_text(o)),
{
    match o {
        Some(t) => Json::text(t),
        None => Json::Null,
    }
}

/// The first of two optional values.
pub open spec fn first_of(a: Option<u64>, b: Option<u64>) -> Option<u64> {
    match a {
        Some(_) => a,
        None => b,
    }
}

/// The unsigned integer that an optional document is.
pub open spec fn opt_u64(o: Option<JsonV>) -> Option<u64> {
    match o {
        Some(v) => v.as_u64(),
        None => None,
    }
}

/// The unsigned integer that an optional document is.
pub fn u64_of(o: Option<&Json>) -> (r: Option<u64>)
    ensures
        r == opt_u64(opt_model(o)),
{
    match o {
        Some(v) => v.as_u64(),
        None => None,
    }
}

/// The value, or zero where there is none.
pub open spec fn or_zero(o: Option<u64>) -> u64 {
    match o {
        Some(n) => n,
        None => 0,
    }
}

/// An unsigned integer as a document.
pub open spec fn num(n: u64) -> JsonV {
    JsonV::Number(NumV::Int(n as int))
}

/// A document of one object with no members.
pub open spec fn empty_object() -> JsonV {
    JsonV::Object(Map::empty())
}

proof fn lemma_entries(e: Seq<(String, Json)>)
    ensures
        forall|k: Seq<char>| #[trigger]
            entries_model(e).contains_key(k) <==> exists|i: int| 0 <= i < e.len() && #[trigger] e[i].0@ == k,
        unique_keys(e) ==> forall|i: int|
            0 <= i < e.len() ==> #[trigger] entries_model(e)[e[i].0@] == json_model(e[i].1),
        entries_model(e).dom().finite(),
    decreases e.len(),
{
    if e.len() > 0 {
        let f = e.drop_last();
        lemma_entries(f);
        let n = e.len() - 1;
        assert forall|k: Seq<char>| #[trigger]
            entries_model(e).contains_key(k) <==> exists|i: int| 0 <= i < e.len() && #[trigger] e[i].0@ == k by {
            if entries_model(e).contains_key(k) {
                if k == e.last().0@ {
                    assert(e[n].0@ == k);
                } else {
                    assert(entries_model(f).contains_key(k));
                    let i = choose|i: int| 0 <= i < f.len() && #[trigger] f[i].0@ == k;
                    assert(e[i].0@ == k);
                }
            }
            if exists|i: int| 0 <= i < e.len() && #[trigger] e[i].0@ == k {
                let i = choose|i: int| 0 <= i < e.len() && #[trigger] e[i].0@ == k;
                if i < n {
                    assert(f[i].0@ == k);
                    assert(entries_model(f).contains_key(k));
                }
            }
        }
        if unique_keys(e) {
            assert(unique_keys(f)) by {
                assert forall|i: int, j: int| 0 <= i < j < f.len() implies f[i].0@ != f[j].0@ by {
                    assert(e[i].0@ != e[j].0@);
                }
            }
            assert forall|i: int| 0 <= i < e.len() implies #[trigger] entries_model(e)[e[i].0@] == json_model(
                e[i].1,
            ) by {
                if i < n {
                    assert(f[i].0@ == e[i].0@);
                    assert(e[i].0@ != e[n].0@);
                }
            }
        }
    }
}

spec fn unique_keys(e: Seq<(String, Json)>) -> bool {
    forall|i: int, j: int| 0 <= i < j < e.len() ==> #[trigger] e[i].0@ != #[trigger] e[j].0@
}

impl JsonObject {
    #[verifier::type_invariant]
    spec fn keys_are_unique(self) -> bool {
        unique_keys(self.entries@)
    }

    /// The keys in the order in which the members are stored.
    pub closed spec fn keys(self) -> Seq<Seq<char>> {
        Seq::new(self.entries@.len(), |i: int| self.entries@[i].0@)
    }

    /// The object with no members.
    pub fn new() -> (r: JsonObject)
        ensures
            r@ == Map::<Seq<char>, JsonV>::empty(),
    {
        JsonObject { entries: Vec::new() }
    }

    /// The number of members.
    pub fn len(&self) -> (n: usize)
        ensures
            n == self.keys().len(),
            n == self@.dom().len(),
            self.keys().no_duplicates(),
            self.keys().to_set() == self@.dom(),
            self@.dom().finite(),
    {
        proof {
            use_type_invariant(self);
            lemma_entries(self.entries@);
            let ks = self.keys();
            assert(ks.no_duplicates()) by {
                assert forall|i: int, j: int| 0 <= i < ks.len() && 0 <= j < ks.len() && i != j implies ks[i]
                    != ks[j] by {
                    if i < j {
                        assert(self.entries@[i].0@ != self.entries@[j].0@);
                    } else {
                        assert(self.entries@[j].0@ != self.entries@[i].0@);
                    }
                }
            }
            assert(ks.to_set() =~= self@.dom()) by {
                assert forall|k: Seq<char>| ks.to_set().contains(k) <==> #[trigger] self@.dom().contains(k) by {
                    if self@.dom().contains(k) {
                        assert(entries_model(self.entries@).contains_key(k));
                        let i = choose|i: int|
                            0 <= i < self.entries@.len() && #[trigger] self.entries@[i].0@ == k;
                        assert(ks[i] == k);
                    }
                    if ks.to_set().contains(k) {
                        let i = choose|i: int| 0 <= i < ks.len() && ks[i] == k;
                        assert(self.entries@[i].0@ == k);
                        assert(entries_model(self.entries@).contains_key(k));
                    }
                }
            }
            ks.unique_seq_to_set();
        }
        self.entries.len()
    }

    /// The key of the member that is stored at `i`.
    pub fn key_at(&self, i: usize) -> (k: &str)
        requires
            i < self.keys().len(),
        ensures
            k@ == self.keys()[i as int],
            self@.contains_key(k@),
    {
        proof {
            lemma_entries(self.entries@);
            assert(entries_model(self.entries@).contains_key(self.entries@[i as int].0@));
        }
        self.entries[i].0.as_str()
    }

    /// The value of the member that is stored at `i`.
    pub fn value_at(&self, i: usize) -> (v: &Json)
        requires
            i < self.keys().len(),
        ensures
            self@.contains_key(self.keys()[i as int]),
            v@ == self@[self.keys()[i as int]],
            decreases_to!(*self => *v),
    {
        proof {
            use_type_invariant(self);
            lemma_entries(self.entries@);
            assert(entries_model(self.entries@).contains_key(self.entries@[i as int].0@));
        }
        &self.entries[i].1
    }

    fn find(&self, key: &str) -> (r: Option<usize>)
        ensures
            match r {
                Some(i) => i < self.entries@.len() && self.entries@[i as int].0@ == key@,
                None => forall|i: int| 0 <= i < self.entries@.len() ==> #[trigger] self.entries@[i].0@ != key@,
            },
    {
        let mut i: usize = 0;
        while i < self.entries.len()
            invariant
                i <= self.entries@.len(),
                forall|j: int| 0 <= j < i ==> #[trigger] self.entries@[j].0@ != key@,
            decreases self.entries@.len() - i,
        {
            if self.entries[i].0.as_str().eq(key) {
                return Some(i);
            }
            i += 1;
        }
        None
    }

    /// The value under `key`.
    pub fn get(&self, key: &str) -> (r: Option<&Json>)
        ensures
            opt_model(r) == JsonV::Object(self@).get(key@),
            r matches Some(j) ==> decreases_to!(*self => *j),
    {
        proof {
            use_type_invariant(self);
            lemma_entries(self.entries@);
        }
        match self.find(key) {
            Some(i) => {
                assert(entries_model(self.entries@).contains_key(self.entries@[i as int].0@));
                Some(&self.entries[i].1)
            },
            None => {
                assert(!entries_model(self.entries@).contains_key(key@));
                None
            },
        }
    }

    /// Whether there is a member under `key`.
    pub fn contains_key(&self, key: &str) -> (r: bool)
        ensures
            r == self@.contains_key(key@),
    {
        self.get(key).is_some()
    }

    /// The object with `value` under `key`, in place of what was there.
    pub fn with(self, key: &str, value: Json) -> (r: JsonObject)
        ensures
            r@ == self@.insert(key@, value@),
    {
        proof {
            use_type_invariant(&self);
            lemma_entries(self.entries@);
        }
        let found = self.find(key);
        let ghost before = self.entries@;
        let mut entries = self.entries;
        let name = key.to_owned();
        let ghost member = (name, value);
        match found {
            Some(i) => {
                entries[i] = (name, value);
                assert(entries@ == before.update(i as int, member));
                assert(unique_keys(entries@)) by {
                    assert forall|a: int, b: int| 0 <= a < b < entries@.len() implies entries@[a].0@
                        != entries@[b].0@ by {
                        assert(before[a].0@ != before[b].0@);
                    }
                }
                proof {
                    lemma_entries(entries@);
                    let m = entries_model(before);
                    let n = entries_model(entries@);
                    assert forall|k: Seq<char>| #[trigger] n.contains_key(k) <==> m.insert(key@, value@).contains_key(
                        k,
                    ) by {
                        if n.contains_key(k) {
                            let a = choose|a: int| 0 <= a < entries@.len() && #[trigger] entries@[a].0@ == k;
                            assert(before[a].0@ == k);
                            assert(m.contains_key(k));
                        }
                        if m.contains_key(k) {
                            let a = choose|a: int| 0 <= a < before.len() && #[trigger] before[a].0@ == k;
                            assert(entries@[a].0@ == k);
                        }
                        if k == key@ {
                            assert(entries@[i as int].0@ == k);
                        }
                    }
                    assert forall|k: Seq<char>| #[trigger] n.contains_key(k) implies n[k] == m.insert(
                        key@,
                        value@,
                    )[k] by {
                        let a = choose|a: int| 0 <= a < entries@.len() && #[trigger] entries@[a].0@ == k;
                        assert(n[entries@[a].0@] == json_model(entries@[a].1));
                        assert(m[before[a].0@] == json_model(before[a].1));
                        if a == i {
                        } else if a < i {
                            assert(before[a].0@ != before[i as int].0@);
                        } else {
                            assert(before[i as int].0@ != before[a].0@);
                        }
                    }
                    assert(n =~= m.insert(key@, value@));
                }
            },
            None => {
                entries.push((name, value));
                assert(unique_keys(entries@)) by {
                    assert forall|a: int, b: int| 0 <= a < b < entries@.len() implies entries@[a].0@
                        != entries@[b].0@ by {
                        if b < before.len() {
                            assert(before[a].0@ != before[b].0@);
                        } else {
                            assert(before[a].0@ != key@);
                        }
                    }
                }
                assert(entries@.drop_last() == before);
            },
        }
        JsonObject { entries }
    }

    /// The object with a copy of `value` under `key`, where there is a value.
    pub fn with_some(self, key: &str, value: Option<&Json>) -> (r: JsonObject)
        ensures
            r@ == insert_some(self@, key@, opt_model(value)),
    {
        match value {
            Some(v) => self.with(key, v.copy()),
            None => self,
        }
    }

    /// The object without the member under `key`.
    pub fn without(self, key: &str) -> (r: JsonObject)
        ensures
            r@ == self@.remove(key@),
    {
        proof {
            use_type_invariant(&self);
            lemma_entries(self.entries@);
        }
        let found = self.find(key);
        let ghost before = self.entries@;
        let mut entries = self.entries;
        match found {
            Some(i) => {
                entries.remove(i);
                assert(unique_keys(entries@)) by {
                    assert forall|a: int, b: int| 0 <= a < b < entries@.len() implies entries@[a].0@
                        != entries@[b].0@ by {
                        let a2 = if a < i { a } else { a + 1 };
                        let b2 = if b < i { b } else { b + 1 };
                        assert(before[a2].0@ != before[b2].0@);
                    }
                }
                proof {
                    lemma_entries(entries@);
                    let m = entries_model(before);
                    let n = entries_model(entries@);
                    assert forall|k: Seq<char>| #[trigger] n.contains_key(k) <==> m.remove(key@).contains_key(k) by {
                        if n.contains_key(k) {
                            let a = choose|a: int| 0 <= a < entries@.len() && #[trigger] entries@[a].0@ == k;
                            let a2 = if a < i { a } else { a + 1 };
                            assert(before[a2].0@ == k);
                            assert(m.contains_key(k));
                            if a2 < i {
                                assert(before[a2].0@ != before[i as int].0@);
                            } else {
                                assert(before[i as int].0@ != before[a2].0@);
                            }
                        }
                        if m.remove(key@).contains_key(k) {
                            assert(m.contains_key(k));
                            let a2 = choose|a: int| 0 <= a < before.len() && #[trigger] before[a].0@ == k;
                            let a = if a2 < i { a2 } else { a2 - 1 };
                            assert(entries@[a].0@ == k);
                        }
                    }
                    assert forall|k: Seq<char>| #[trigger] n.contains_key(k) implies n[k] == m.remove(key@)[k] by {
                        let a = choose|a: int| 0 <= a < entries@.len() && #[trigger] entries@[a].0@ == k;
                        let a2 = if a < i { a } else { a + 1 };
                        assert(n[entries@[a].0@] == json_model(entries@[a].1));
                        assert(m[before[a2].0@] == json_model(before[a2].1));
                    }
                    assert(n =~= m.remove(key@));
                }
            },
            None => {
                assert(!entries_model(before).contains_key(key@));
                assert(entries_model(before).remove(key@) =~= entries_model(before));
            },
        }
        JsonObject { entries }
    }

    /// A second object with the same members.
    pub fn copy(&self) -> (r: JsonObject)
        ensures
            r@ == self@,
            r.keys() == self.keys(),
        decreases self,
    {
        proof {
            use_type_invariant(self);
        }
        let mut entries: Vec<(String, Json)> = Vec::new();
        let mut i: usize = 0;
        while i < self.entries.len()
            invariant
                i <= self.entries@.len(),
                entries@.len() == i,
                forall|j: int|
                    0 <= j < i ==> (#[trigger] entries@[j]).0@ == self.entries@[j].0@ && json_model(entries@[j].1)
                        == json_model(self.entries@[j].1),
                entries_model(entries@) == entries_model(self.entries@.take(i as int)),
            decreases self.entries@.len() - i,
        {
            let key = self.entries[i].0.clone();
            let value = self.entries[i].1.copy();
            let ghost before = entries@;
            entries.push((key, value));
            proof {
                assert(entries@.drop_last() == before);
                let t = self.entries@.take(i + 1);
                assert(t.drop_last() =~= self.entries@.take(i as int));
            }
            i += 1;
        }
        proof {
            assert(self.entries@.take(i as int) =~= self.entries@);
            assert(unique_keys(entries@)) by {
                assert forall|a: int, b: int| 0 <= a < b < entries@.len() implies entries@[a].0@
                    != entries@[b].0@ by {
                    assert(self.entries@[a].0@ != self.entries@[b].0@);
                }
            }
        }
        let r = JsonObject { entries };
        assert(r.keys() =~= self.keys());
        r
    }
}

impl JsonNumber {
    /// A second copy of the number.
    pub fn copy(&self) -> (r: JsonNumber)
        ensures
            r@ == self@,
    {
        match self {
            JsonNumber::Unsigned(n) => JsonNumber::Unsigned(*n),
            JsonNumber::Signed(n) => JsonNumber::Signed(*n),
            JsonNumber::Float(t) => JsonNumber::Float(t.clone()),
        }
    }
}

impl Json {
    /// A second document with the same content.
    pub fn copy(&self) -> (r: Json)
        ensures
            r@ == self@,
        decreases self,
    {
        match self {
            Json::Null => Json::Null,
            Json::Bool(b) => Json::Bool(*b),
            Json::Number(n) => Json::Number(n.copy()),
            Json::Text(s) => Json::Text(s.clone()),
            Json::Array(items) => {
                let mut out: Vec<Json> = Vec::new();
                let mut i: usize = 0;
                while i < items.len()
                    invariant
                        i <= items@.len(),
                        out@.len() == i,
                        decreases_to!(*self => *items),
                        forall|j: int| 0 <= j < i ==> #[trigger] out@[j]@ == items@[j]@,
                    decreases items@.len() - i,
                {
                    assert(decreases_to!(*items => items@[i as int]));
                    out.push(items[i].copy());
                    i += 1;
                }
                assert(models(out@) =~= models(items@));
                assert(self@->Array_0 =~= models(items@));
                Json::array(out)
            },
            Json::Object(o) => Json::Object(o.copy()),
        }
    }

    /// A string as a document.
    pub fn text(s: &str) -> (r: Json)
        ensures
            r@ == JsonV::Text(s@),
    {
        Json::Text(s.to_owned())
    }

    /// An unsigned integer as a document.
    pub fn number(n: u64) -> (r: Json)
        ensures
            r@ == num(n),
    {
        Json::Number(JsonNumber::Unsigned(n))
    }

    /// A list of documents as a document.
    pub fn array(items: Vec<Json>) -> (r: Json)
        ensures
            r@ == JsonV::Array(models(items@)),
    {
        let r = Json::Array(items);
        assert(r@->Array_0 =~= models(items@));
        r
    }

    /// The member of an object under `key`; of any other value, none.
    pub fn get(&self, key: &str) -> (r: Option<&Json>)
        ensures
            opt_model(r) == self@.get(key@),
            r matches Some(j) ==> decreases_to!(*self => *j),
    {
        match self {
            Json::Object(o) => o.get(key),
            _ => None,
        }
    }

    pub fn as_str(&self) -> (r: Option<&str>)
        ensures
            opt_text(r) == self@.as_str(),
    {
        match self {
            Json::Text(s) => Some(s.as_str()),
            _ => None,
        }
    }

    pub fn as_bool(&self) -> (r: Option<bool>)
        ensures
            r == self@.as_bool(),
    {
        match self {
            Json::Bool(b) => Some(*b),
            _ => None,
        }
    }

    pub fn as_u64(&self) -> (r: Option<u64>)
        ensures
            r == self@.as_u64(),
    {
        match self {
            Json::Number(JsonNumber::Unsigned(n)) => Some(*n),
            Json::Number(JsonNumber::Signed(n)) => if *n >= 0 {
                Some(*n as u64)
            } else {
                None
            },
            _ => None,
        }
    }

    pub fn as_array(&self) -> (r: Option<&Vec<Json>>)
        ensures
            match r {
                Some(a) => self@.as_array() == Some(models(a@)) && decreases_to!(*self => *a),
                None => self@.as_array() is None,
            },
    {
        match self {
            Json::Array(a) => {
                assert(self@->Array_0 =~= models(a@));
                Some(a)
            },
            _ => None,
        }
    }

    pub fn as_object(&self) -> (r: Option<&JsonObject>)
        ensures
            match r {
                Some(o) => self@.as_object() == Some(o@) && decreases_to!(*self => *o),
                None => self@.as_object() is None,
            },
    {
        match self {
            Json::Object(o) => Some(o),
            _ => None,
        }
    }

    /// The string under `key`, where there is one.
    pub fn str_at(&self, key: &str) -> (r: Option<&str>)
        ensures
            opt_text(r) == self@.str_at(key@),
    {
        match self.get(key) {
            Some(v) => v.as_str(),
            None => None,
        }
    }

    /// The string under `key`, or `default` where there is none.
    pub fn str_or<'a>(&'a self, key: &str, default: &'a str) -> (r: &'a str)
        ensures
            r@ == self@.str_or(key@, default@),
    {
        match self.str_at(key) {
            Some(s) => s,
            None => default,
        }
    }

    /// The string under `key`, or the empty one where there is none.
    pub fn str_or_empty(&self, key: &str) -> (r: &str)
        ensures
            r@ == self@.str_or(key@, Seq::empty()),
    {
        proof {
            reveal_strlit("");
            assert(""@ =~= Seq::<char>::empty());
        }
        self.str_or(key, "")
    }

    /// The unsigned integer under `key`, where there is one.
    pub fn u64_at(&self, key: &str) -> (r: Option<u64>)
        ensures
            r == self@.u64_at(key@),
    {
        match self.get(key) {
            Some(v) => v.as_u64(),
            None => None,
        }
    }

    /// The array under `key`, where there is one.
    pub fn array_at(&self, key: &str) -> (r: Option<&Vec<Json>>)
        ensures
            match r {
                Some(a) => self@.array_at(key@) == Some(models(a@)) && decreases_to!(*self => *a),
                None => self@.array_at(key@) is None,
            },
    {
        match self.get(key) {
            Some(v) => v.as_array(),
            None => None,
        }
    }

    /// The member under `inner` of the member under `outer`.
    pub fn path2(&self, outer: &str, inner: &str) -> (r: Option<&Json>)
        ensures
            opt_model(r) == self@.path2(outer@, inner@),
    {
        match self.get(outer) {
            Some(v) => v.get(inner),
            None => None,
        }
    }

    /// The member under `key`, or null where there is none.
    pub fn copy_at(&self, key: &str) -> (r: Json)
        ensures
            r@ == self@.at(key@),
    {
        match self.get(key) {
            Some(v) => v.copy(),
            None => Json::Null,
        }
    }

    /// The object with `value` under `key`. Null stands for the empty object;
    /// any other value that is no object is left as it is.
    pub fn set(self, key: &str, value: Json) -> (r: Json)
        ensures
            r@ == self@.set(key@, value@),
    {
        match self {
            Json::Object(o) => Json::Object(o.with(key, value)),
            Json::Null => Json::Object(JsonObject::new().with(key, value)),
            other => other,
        }
    }

    /// The object without its member under `key`.
    pub fn unset(self, key: &str) -> (r: Json)
        ensures
            r@ == self@.unset(key@),
    {
        match self {
            Json::Object(o) => Json::Object(o.without(key)),
            other => other,
        }
    }
}

/// A content block of plain text.
pub open spec fn text_block(t: Seq<char>) -> JsonV {
    JsonV::Object(map!["type"@ => JsonV::Text("text"@), "text"@ => JsonV::Text(t)])
}

/// A content block of plain text.
pub fn make_text_block(t: &str) -> (r: Json)
    ensures
        r@ == text_block(t@),
{
    Json::Object(JsonObject::new().with("type", Json::text("text")).with("text", Json::text(t)))
}

/// Whether the string under `key` is `text`.
pub fn field_is(v: &Json, key: &str, text: &str) -> (r: bool)
    ensures
        r == (v@.str_at(key@) == Some(text@)),
{
    match v.str_at(key) {
        Some(t) => t.eq(text),
        None => false,
    }
}

/// A list and its parts up to one place and up to the next.
pub proof fn lemma_step<A>(s: Seq<A>, i: int)
    requires
        0 <= i < s.len(),
    ensures
        s.take(i + 1).drop_last() == s.take(i),
        s.take(i + 1).last() == s[i],
        s.take(i + 1).len() == i + 1,
{
    assert(s.take(i + 1).drop_last() =~= s.take(i));
}

/// A list up to its end is the list.
pub proof fn lemma_whole<A>(s: Seq<A>)
    ensures
        s.take(s.len() as int) == s,
{
    assert(s.take(s.len() as int) =~= s);
}

/// The models of a list that grew by one document.
pub broadcast proof fn lemma_models_push(v: Seq<Json>, j: Json)
    ensures
        #[trigger] models(v.push(j)) == models(v).push(j@),
{
    assert(models(v.push(j)) =~= models(v).push(j@));
}

/// The models of the empty list.
pub broadcast proof fn lemma_models_empty()
    ensures
        #[trigger] models(Seq::<Json>::empty()) == Seq::<JsonV>::empty(),
{
    assert(models(Seq::<Json>::empty()) =~= Seq::<JsonV>::empty());
}

pub broadcast group group_models {
    lemma_models_push,
    lemma_models_empty,
}

} // verus!
