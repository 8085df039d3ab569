//! Operations on text, each stated over the sequence of its characters.

use vstd::prelude::*;
use vstd::std_specs::iter::IteratorSpec;
use vstd::string::*;

verus! {

/// `String::push` adds one character at the end.
pub assume_specification[ String::push ](s: &mut String, c: char)
    ensures
        final(s)@ == old(s)@.push(c),
;

/// The text that `str::to_lowercase` gives for a text.
pub uninterp spec fn lowercase(s: Seq<char>) -> Seq<char>;

/// Calls `str::to_lowercase`, whose result depends on the characters alone. It maps
/// the ASCII letters as `to_ascii_lowercase` does, in addition to the letters that
/// are not ASCII: so it makes no difference whether the ASCII letters were mapped
/// before, and ASCII text comes out as `to_ascii_lowercase` gives it. How the other
/// characters are mapped is not stated.
#[verifier::external_body]
pub(crate) fn to_lowercase(s: &str) -> (r: String)
    ensures
        r@ == lowercase(s@),
        r@ == lowercase(ascii_lower(s@)),
        is_ascii_text(s@) ==> r@ == ascii_lower(s@),
{
    s.to_lowercase()
}

/// Whether all characters of a text are ASCII.
pub open spec fn is_ascii_text(s: Seq<char>) -> bool {
    forall|i: int| 0 <= i < s.len() ==> (#[trigger] s[i]) as u32 <= 127
}

/// Whether `s` begins with `p`.
pub open spec fn has_prefix(s: Seq<char>, p: Seq<char>) -> bool {
    p.len() <= s.len() && s.take(p.len() as int) == p
}

/// Whether `s` ends with `p`.
pub open spec fn has_suffix(s: Seq<char>, p: Seq<char>) -> bool {
    p.len() <= s.len() && s.skip(s.len() - p.len()) == p
}

/// Whether `p` stands in `s` at position `i`.
pub open spec fn occurs_at(s: Seq<char>, p: Seq<char>, i: int) -> bool {
    0 <= i && i + p.len() <= s.len() && s.subrange(i, i + p.len()) == p
}

/// Whether `p` stands anywhere in `s`.
pub open spec fn has_infix(s: Seq<char>, p: Seq<char>) -> bool {
    exists|i: int| #[trigger] occurs_at(s, p, i)
}

/// Whether `i` is the first position at which `p` stands in `s`.
pub open spec fn is_first(s: Seq<char>, p: Seq<char>, i: int) -> bool {
    occurs_at(s, p, i) && forall|j: int| 0 <= j < i ==> !#[trigger] occurs_at(s, p, j)
}

/// The first position at which `p` stands in `s`.
pub open spec fn first_at(s: Seq<char>, p: Seq<char>) -> Option<int> {
    if has_infix(s, p) {
        Some(choose|i: int| is_first(s, p, i))
    } else {
        None
    }
}

/// The position of the first `c` in `s`, or the length of `s`.
pub open spec fn index_or_len(s: Seq<char>, c: char) -> int
    decreases s.len(),
{
    if s.len() == 0 || s[0] == c {
        0
    } else {
        1 + index_or_len(s.drop_first(), c)
    }
}

/// The characters of Unicode's property White_Space.
pub open spec fn is_white_space(c: char) -> bool {
    let n = c as u32;
    ||| 0x9 <= n <= 0xd
    ||| n == 0x20
    ||| n == 0x85
    ||| n == 0xa0
    ||| n == 0x1680
    ||| 0x2000 <= n <= 0x200a
    ||| n == 0x2028
    ||| n == 0x2029
    ||| n == 0x202f
    ||| n == 0x205f
    ||| n == 0x3000
}

/// `s` without the white space at its start.
pub open spec fn trim_start(s: Seq<char>) -> Seq<char>
    decreases s.len(),
{
    if s.len() > 0 && is_white_space(s[0]) {
        trim_start(s.drop_first())
    } else {
        s
    }
}

/// `s` without the white space at its end.
pub open spec fn trim_end(s: Seq<char>) -> Seq<char>
    decreases s.len(),
{
    if s.len() > 0 && is_white_space(s.last()) {
        trim_end(s.drop_last())
    } else {
        s
    }
}

/// `s` without the white space at either end.
pub open spec fn trim(s: Seq<char>) -> Seq<char> {
    trim_end(trim_start(s))
}

/// `c` with the letters A to Z in lower case.
pub open spec fn ascii_lower_char(c: char) -> char {
    if 'A' <= c <= 'Z' {
        ((c as u8) + 32) as u8 as char
    } else {
        c
    }
}

/// `s` with the letters A to Z in lower case.
pub open spec fn ascii_lower(s: Seq<char>) -> Seq<char> {
    Seq::new(s.len(), |i: int| ascii_lower_char(s[i]))
}

/// A line without the carriage return that ends it.
pub open spec fn without_cr(s: Seq<char>) -> Seq<char> {
    if s.len() > 0 && s.last() == '\r' {
        s.drop_last()
    } else {
        s
    }
}

/// The lines of a text: each ends with a line feed, before which one carriage
/// return is dropped, or with the text.
pub open spec fn lines(s: Seq<char>) -> Seq<Seq<char>>
    decreases s.len(),
{
    let n = index_or_len(s, '\n');
    if s.len() == 0 {
        Seq::empty()
    } else if !(0 <= n < s.len()) {
        seq![s]
    } else {
        seq![without_cr(s.take(n))] + lines(s.skip(n + 1))
    }
}

/// The pieces of a text between the separators `c`.
pub open spec fn pieces(s: Seq<char>, c: char) -> Seq<Seq<char>>
    decreases s.len(),
{
    let n = index_or_len(s, c);
    if !(0 <= n < s.len()) {
        seq![s]
    } else {
        seq![s.take(n)] + pieces(s.skip(n + 1), c)
    }
}

/// The number of characters before the first white space.
pub open spec fn word_len(s: Seq<char>) -> int
    decreases s.len(),
{
    if s.len() == 0 || is_white_space(s[0]) {
        0
    } else {
        1 + word_len(s.drop_first())
    }
}

/// The words of a text: its longest runs without white space.
pub open spec fn words(s: Seq<char>) -> Seq<Seq<char>>
    decreases s.len(),
{
    let n = word_len(s);
    if s.len() == 0 {
        Seq::empty()
    } else if is_white_space(s[0]) {
        words(s.drop_first())
    } else if 0 < n <= s.len() {
        seq![s.take(n)] + words(s.skip(n))
    } else {
        Seq::empty()
    }
}

/// The parts in order, with `sep` between each two.
pub open spec fn join(parts: Seq<Seq<char>>, sep: Seq<char>) -> Seq<char>
    decreases parts.len(),
{
    if parts.len() == 0 {
        Seq::empty()
    } else if parts.len() == 1 {
        parts[0]
    } else {
        join(parts.drop_last(), sep) + sep + parts.last()
    }
}

/// The digit for a number below sixteen.
pub open spec fn digit(d: nat) -> char {
    if d < 10 {
        (48 + d) as u8 as char
    } else {
        (87 + d) as u8 as char
    }
}

/// A number in decimal.
pub open spec fn decimal(n: nat) -> Seq<char>
    decreases n,
{
    if n < 10 {
        seq![digit(n)]
    } else {
        decimal(n / 10).push(digit(n % 10))
    }
}

/// A number in hexadecimal, with zeros before it up to `width` digits.
pub open spec fn hex(n: nat, width: nat) -> Seq<char>
    decreases n, width,
{
    if n < 16 && width <= 1 {
        seq![digit(n)]
    } else {
        hex(n / 16, if width > 0 { (width - 1) as nat } else { 0 }).push(digit(n % 16))
    }
}

/// The characters of a list of strings.
pub open spec fn texts(v: Seq<String>) -> Seq<Seq<char>> {
    Seq::new(v.len(), |i: int| v[i]@)
}

pub broadcast proof fn lemma_texts_push(v: Seq<String>, s: String)
    ensures
        #[trigger] texts(v.push(s)) == texts(v).push(s@),
{
    assert(texts(v.push(s)) =~= texts(v).push(s@));
}

/// A position that is the first is the only first.
pub proof fn lemma_first_at(s: Seq<char>, p: Seq<char>, i: int)
    requires
        is_first(s, p, i),
    ensures
        first_at(s, p) == Some(i),
{
    let j = choose|j: int| is_first(s, p, j);
    assert(is_first(s, p, j));
    if i < j {
        assert(!occurs_at(s, p, i));
    }
    if j < i {
        assert(!occurs_at(s, p, j));
    }
}

/// Where `p` stands in `s`, there is a first position.
pub proof fn lemma_first_exists(s: Seq<char>, p: Seq<char>, i: int)
    requires
        occurs_at(s, p, i),
    ensures
        exists|j: int| is_first(s, p, j),
    decreases i,
{
    if forall|j: int| 0 <= j < i ==> !#[trigger] occurs_at(s, p, j) {
        assert(is_first(s, p, i));
    } else {
        let j = choose|j: int| 0 <= j < i && #[trigger] occurs_at(s, p, j);
        lemma_first_exists(s, p, j);
    }
}

/// The characters of a string.
pub(crate) fn chars_of(s: &str) -> (r: Vec<char>)
    ensures
        r@ == s@,
{
    let mut v: Vec<char> = Vec::new();
    for c in it: s.chars()
        invariant
            it.seq() == s@,
            v@ == s@.take(it.index() as int),
    {
        v.push(c);
        assert(v@ =~= s@.take(it.index() + 1));
    }
    assert(v@ =~= s@);
    v
}

/// The string of the characters from `from` up to `to`.
pub(crate) fn string_of(v: &Vec<char>, from: usize, to: usize) -> (r: String)
    requires
        from <= to <= v@.len(),
    ensures
        r@ == v@.subrange(from as int, to as int),
{
    let mut s = String::new();
    let mut i: usize = from;
    while i < to
        invariant
            from <= i <= to <= v@.len(),
            s@ == v@.subrange(from as int, i as int),
        decreases to - i,
    {
        s.push(v[i]);
        assert(s@ =~= v@.subrange(from as int, i + 1));
        i += 1;
    }
    s
}

/// Whether `s` begins with `p`.
pub(crate) fn starts_with(s: &str, p: &str) -> (r: bool)
    ensures
        r == has_prefix(s@, p@),
{
    let mut a = s.chars();
    let mut b = p.chars();
    let ghost mut i: int = 0;
    loop
        invariant
            0 <= i <= s@.len(),
            i <= p@.len(),
            a.remaining() == s@.skip(i),
            b.remaining() == p@.skip(i),
            s@.take(i) == p@.take(i),
        decreases p@.len() - i,
    {
        match b.next() {
            None => {
                assert(p@.take(i) =~= p@);
                return true;
            },
            Some(d) => {
                match a.next() {
                    None => {
                        return false;
                    },
                    Some(c) => {
                        if c != d {
                            assert(s@[i] == c && p@[i] == d);
                            assert(has_prefix(s@, p@) ==> s@.take(p@.len() as int)[i] == s@[i]);
                            return false;
                        }
                        proof {
                            assert(s@.skip(i).drop_first() =~= s@.skip(i + 1));
                            assert(p@.skip(i).drop_first() =~= p@.skip(i + 1));
                            assert(s@.take(i + 1) =~= s@.take(i).push(c));
                            assert(p@.take(i + 1) =~= p@.take(i).push(d));
                            i = i + 1;
                        }
                    },
                }
            },
        }
    }
}

/// What follows `p` in `s`, where `s` begins with `p`.
pub(crate) fn strip_prefix<'a>(s: &'a str, p: &str) -> (r: Option<&'a str>)
    ensures
        match r {
            Some(t) => has_prefix(s@, p@) && t@ == s@.skip(p@.len() as int),
            None => !has_prefix(s@, p@),
        },
{
    if starts_with(s, p) {
        let n = p.unicode_len();
        let m = s.unicode_len();
        assert(s@.subrange(n as int, m as int) =~= s@.skip(n as int));
        Some(s.substring_char(n, m))
    } else {
        None
    }
}

/// Whether `p` stands in `s` at position `i`.
pub(crate) fn matches_at(s: &Vec<char>, p: &Vec<char>, i: usize) -> (r: bool)
    ensures
        r == occurs_at(s@, p@, i as int),
{
    let n: usize = s.len();
    if i > n || p.len() > n - i {
        return false;
    }
    let mut k: usize = 0;
    while k < p.len()
        invariant
            k <= p@.len(),
            n == s@.len(),
            i + p@.len() <= n,
            forall|j: int| 0 <= j < k ==> s@[i + j] == p@[j],
        decreases p@.len() - k,
    {
        if s[i + k] != p[k] {
            assert(s@.subrange(i as int, i + p@.len())[k as int] == s@[i + k]);
            return false;
        }
        k += 1;
    }
    assert(s@.subrange(i as int, i + p@.len()) =~= p@);
    true
}

/// The first position at which `p` stands in `s`.
pub(crate) fn find(s: &Vec<char>, p: &Vec<char>) -> (r: Option<usize>)
    ensures
        match r {
            Some(i) => is_first(s@, p@, i as int) && first_at(s@, p@) == Some(i as int),
            None => !has_infix(s@, p@) && first_at(s@, p@) is None,
        },
{
    let n: usize = s.len();
    let m: usize = p.len();
    if m > n {
        return None;
    }
    let last: usize = n - m;
    let mut i: usize = 0;
    loop
        invariant
            i <= last,
            last + m == n,
            n == s@.len(),
            m == p@.len(),
            forall|j: int| 0 <= j < i ==> !#[trigger] occurs_at(s@, p@, j),
        decreases last - i,
    {
        if matches_at(s, p, i) {
            proof {
                lemma_first_at(s@, p@, i as int);
            }
            return Some(i);
        }
        if i == last {
            return None;
        }
        i += 1;
    }
}

/// Whether `p` stands anywhere in `s`.
pub(crate) fn contains(s: &str, p: &str) -> (r: bool)
    ensures
        r == has_infix(s@, p@),
{
    let a = chars_of(s);
    let b = chars_of(p);
    find(&a, &b).is_some()
}

/// Whether `c` is white space.
pub(crate) fn is_space(c: char) -> (r: bool)
    ensures
        r == is_white_space(c),
{
    let n: u32 = c as u32;
    (0x9 <= n && n <= 0xd) || n == 0x20 || n == 0x85 || n == 0xa0 || n == 0x1680 || (0x2000 <= n && n
        <= 0x200a) || n == 0x2028 || n == 0x2029 || n == 0x202f || n == 0x205f || n == 0x3000
}

/// `s` without the white space at its start.
pub(crate) fn trimmed_start(s: &str) -> (r: &str)
    ensures
        r@ == trim_start(s@),
{
    let v = chars_of(s);
    let n: usize = v.len();
    let mut i: usize = 0;
    assert(v@.skip(0) =~= v@);
    while i < n && is_space(v[i])
        invariant
            i <= n,
            n == v@.len(),
            trim_start(v@) == trim_start(v@.skip(i as int)),
        decreases n - i,
    {
        assert(v@.skip(i as int).drop_first() =~= v@.skip(i + 1));
        i += 1;
    }
    assert(v@.skip(i as int) =~= s@.subrange(i as int, n as int));
    s.substring_char(i, n)
}

/// `s` without the white space at its end.
pub(crate) fn trimmed_end(s: &str) -> (r: &str)
    ensures
        r@ == trim_end(s@),
{
    let v = chars_of(s);
    let mut j: usize = v.len();
    assert(v@.take(j as int) =~= v@);
    while 0 < j && is_space(v[j - 1])
        invariant
            j <= v@.len(),
            trim_end(v@) == trim_end(v@.take(j as int)),
        decreases j,
    {
        assert(v@.take(j as int).drop_last() =~= v@.take(j - 1));
        j -= 1;
    }
    assert(v@.take(j as int) =~= s@.subrange(0, j as int));
    s.substring_char(0, j)
}

/// `s` without the white space at either end.
pub(crate) fn trimmed(s: &str) -> (r: &str)
    ensures
        r@ == trim(s@),
{
    trimmed_end(trimmed_start(s))
}

/// `s` with the letters A to Z in lower case.
pub(crate) fn to_ascii_lower(s: &str) -> (r: String)
    ensures
        r@ == ascii_lower(s@),
{
    let v = chars_of(s);
    let mut out = String::new();
    let mut i: usize = 0;
    while i < v.len()
        invariant
            i <= v@.len(),
            out@ == ascii_lower(v@).take(i as int),
        decreases v@.len() - i,
    {
        let c = v[i];
        let d = if 'A' <= c && c <= 'Z' {
            ((c as u8) + 32) as char
        } else {
            c
        };
        out.push(d);
        assert(out@ =~= ascii_lower(v@).take(i + 1));
        i += 1;
    }
    assert(ascii_lower(v@).take(i as int) =~= ascii_lower(v@));
    out
}

/// The position of the first `c` at or after `from`, or the length.
pub(crate) fn index_from(v: &Vec<char>, from: usize, c: char) -> (r: usize)
    requires
        from <= v@.len(),
    ensures
        from <= r <= v@.len(),
        r - from == index_or_len(v@.skip(from as int), c),
{
    let mut i: usize = from;
    while i < v.len() && v[i] != c
        invariant
            from <= i <= v@.len(),
            index_or_len(v@.skip(from as int), c) == i - from + index_or_len(v@.skip(i as int), c),
        decreases v@.len() - i,
    {
        assert(v@.skip(i as int).drop_first() =~= v@.skip(i + 1));
        i += 1;
    }
    i
}

/// The lines of a text.
pub(crate) fn split_lines(s: &str) -> (r: Vec<String>)
    ensures
        texts(r@) == lines(s@),
{
    broadcast use lemma_texts_push;

    let v = chars_of(s);
    let n: usize = v.len();
    let mut out: Vec<String> = Vec::new();
    let mut i: usize = 0;
    proof {
        assert(v@.skip(0) =~= v@);
        assert(texts(out@) + lines(v@) =~= lines(v@));
    }
    while i < n
        invariant
            i <= n,
            n == v@.len(),
            texts(out@) + lines(v@.skip(i as int)) == lines(v@),
        decreases n - i,
    {
        let e = index_from(&v, i, '\n');
        let ghost rest = v@.skip(i as int);
        let ghost before = texts(out@);
        if e == n {
            out.push(string_of(&v, i, n));
            proof {
                assert(v@.subrange(i as int, n as int) =~= rest);
                assert(lines(rest) == seq![rest]);
                assert(lines(v@.skip(n as int)) =~= Seq::empty());
                assert(texts(out@) + lines(v@.skip(n as int)) =~= before + lines(rest));
            }
            i = n;
        } else {
            let stop: usize = if i < e && v[e - 1] == '\r' {
                e - 1
            } else {
                e
            };
            out.push(string_of(&v, i, stop));
            proof {
                let line = rest.take(e - i);
                assert(i < e ==> line.last() == v@[e - 1]);
                assert(v@.subrange(i as int, stop as int) =~= without_cr(line));
                assert(rest.skip(e - i + 1) =~= v@.skip(e + 1));
                assert(lines(rest) == seq![without_cr(line)] + lines(v@.skip(e + 1)));
                assert(texts(out@) + lines(v@.skip(e + 1)) =~= before + lines(rest));
            }
            i = e + 1;
        }
    }
    proof {
        assert(v@.skip(i as int) =~= Seq::empty());
        assert(lines(v@.skip(i as int)) =~= Seq::empty());
        assert(texts(out@) =~= lines(v@));
    }
    out
}

/// The pieces of a text between the separators `c`.
pub(crate) fn split_pieces(s: &str, c: char) -> (r: Vec<String>)
    ensures
        texts(r@) == pieces(s@, c),
        r@.len() > 0,
{
    broadcast use lemma_texts_push;

    let v = chars_of(s);
    let n: usize = v.len();
    let mut out: Vec<String> = Vec::new();
    let mut i: usize = 0;
    proof {
        assert(v@.skip(0) =~= v@);
        assert(texts(out@) + pieces(v@, c) =~= pieces(v@, c));
    }
    loop
        invariant
            i <= n,
            n == v@.len(),
            v@ == s@,
            texts(out@) + pieces(v@.skip(i as int), c) == pieces(v@, c),
        decreases n - i,
    {
        let e = index_from(&v, i, c);
        let ghost rest = v@.skip(i as int);
        let ghost before = texts(out@);
        out.push(string_of(&v, i, e));
        if e == n {
            proof {
                assert(v@.subrange(i as int, n as int) =~= rest);
                assert(pieces(rest, c) == seq![rest]);
                assert(texts(out@) =~= before + pieces(rest, c));
            }
            return out;
        }
        proof {
            assert(v@.subrange(i as int, e as int) =~= rest.take(e - i));
            assert(rest.skip(e - i + 1) =~= v@.skip(e + 1));
            assert(texts(out@) + pieces(v@.skip(e + 1), c) =~= before + pieces(rest, c));
        }
        i = e + 1;
    }
}

/// The words of a text.
pub(crate) fn split_words(s: &str) -> (r: Vec<String>)
    ensures
        texts(r@) == words(s@),
{
    broadcast use lemma_texts_push;

    let v = chars_of(s);
    let n: usize = v.len();
    let mut out: Vec<String> = Vec::new();
    let mut i: usize = 0;
    proof {
        assert(v@.skip(0) =~= v@);
        assert(texts(out@) + words(v@) =~= words(v@));
    }
    while i < n
        invariant
            i <= n,
            n == v@.len(),
            texts(out@) + words(v@.skip(i as int)) == words(v@),
        decreases n - i,
    {
        let ghost rest = v@.skip(i as int);
        if is_space(v[i]) {
            assert(rest.drop_first() =~= v@.skip(i + 1));
            i += 1;
        } else {
            let mut e: usize = i;
            while e < n && !is_space(v[e])
                invariant
                    i <= e <= n,
                    n == v@.len(),
                    rest == v@.skip(i as int),
                    word_len(rest) == e - i + word_len(v@.skip(e as int)),
                decreases n - e,
            {
                assert(v@.skip(e as int).drop_first() =~= v@.skip(e + 1));
                e += 1;
            }
            let ghost before = texts(out@);
            assert(word_len(rest) == e - i);
            assert(rest[0] == v@[i as int]);
            assert(e > i) by {
                assert(word_len(rest) == 1 + word_len(rest.drop_first()));
                lemma_word_len(rest.drop_first());
            }
            out.push(string_of(&v, i, e));
            proof {
                assert(v@.subrange(i as int, e as int) =~= rest.take(e - i));
                assert(rest.skip(e - i) =~= v@.skip(e as int));
                assert(words(rest) == seq![rest.take(e - i)] + words(v@.skip(e as int)));
                assert(texts(out@) + words(v@.skip(e as int)) =~= before + words(rest));
            }
            i = e;
        }
    }
    proof {
        assert(v@.skip(i as int) =~= Seq::empty());
        assert(words(v@.skip(i as int)) =~= Seq::empty());
        assert(texts(out@) =~= words(v@));
    }
    out
}

proof fn lemma_word_len(s: Seq<char>)
    ensures
        0 <= word_len(s) <= s.len(),
    decreases s.len(),
{
    if s.len() > 0 && !is_white_space(s[0]) {
        lemma_word_len(s.drop_first());
    }
}

/// The parts in order, with `sep` between each two.
pub(crate) fn join_texts(parts: &Vec<String>, sep: &str) -> (r: String)
    ensures
        r@ == join(texts(parts@), sep@),
{
    let mut out = String::new();
    let mut i: usize = 0;
    let ghost all = texts(parts@);
    while i < parts.len()
        invariant
            i <= parts@.len(),
            all == texts(parts@),
            out@ == join(all.take(i as int), sep@),
        decreases parts@.len() - i,
    {
        proof {
            assert(all.take(i + 1).drop_last() =~= all.take(i as int));
            assert(all.take(i + 1).last() == parts@[i as int]@);
        }
        if i > 0 {
            out.append(sep);
        }
        out.append(parts[i].as_str());
        assert(i == 0 ==> out@ =~= parts@[0]@);
        i += 1;
    }
    assert(all.take(i as int) =~= all);
    out
}

/// `a` followed by `b`.
pub(crate) fn cat(a: &str, b: &str) -> (r: String)
    ensures
        r@ == a@ + b@,
{
    let mut s = a.to_owned();
    s.append(b);
    s
}

/// `a` followed by `b` and `c`.
pub(crate) fn cat3(a: &str, b: &str, c: &str) -> (r: String)
    ensures
        r@ == a@ + b@ + c@,
{
    let mut s = a.to_owned();
    s.append(b);
    s.append(c);
    s
}

fn digit_char(d: u64) -> (c: char)
    requires
        d < 16,
    ensures
        c == digit(d as nat),
{
    if d < 10 {
        (48 + d as u8) as char
    } else {
        (87 + d as u8) as char
    }
}

/// A number in decimal.
pub(crate) fn decimal_text(n: u64) -> (r: String)
    ensures
        r@ == decimal(n as nat),
    decreases n,
{
    let mut s = if n >= 10 {
        decimal_text(n / 10)
    } else {
        String::new()
    };
    s.push(digit_char(n % 10));
    assert(n < 10 ==> s@ =~= seq![digit(n as nat)]);
    s
}

/// A number in hexadecimal, with zeros before it up to `width` digits.
pub(crate) fn hex_text(n: u64, width: u64) -> (r: String)
    ensures
        r@ == hex(n as nat, width as nat),
    decreases n, width,
{
    let mut s = if n >= 16 || width > 1 {
        hex_text(n / 16, if width > 0 { width - 1 } else { 0 })
    } else {
        String::new()
    };
    s.push(digit_char(n % 16));
    assert(n < 16 && width <= 1 ==> s@ =~= seq![digit(n as nat)]);
    s
}

} // verus!
