//! What the plain functions on text do, said of their results.

use vstd::prelude::*;
use crate::sse::sse_field;
use crate::stream_data::is_blank;
use crate::text::{ascii_lower, decimal, digit, has_prefix, hex, index_or_len, is_white_space, join, lines, pieces, trim, trim_end, trim_start, word_len, words};
use crate::told::{joined_up, lemma_joined_up_add};

verus! {

/// Whether a character stands nowhere in a text.
pub open spec fn is_without(s: Seq<char>, c: char) -> bool {
    forall|i: int| 0 <= i < s.len() ==> #[trigger] s[i] != c
}

/// White space among the ASCII characters is the space and what lies from the tab to the
/// carriage return.
pub proof fn law_ascii_white_space(c: char)
    ensures
        (c as u32) < 128 ==> (is_white_space(c) <==> c == ' ' || c == '\t' || c == '\n' || c == '\r' || c as u32 == 11
            || c as u32 == 12),
        (c as u32) >= 0x3001 ==> !is_white_space(c),
{
}

pub proof fn lemma_trim_end(s: Seq<char>)
    ensures
        trim_end(s).len() <= s.len(),
        s.take(trim_end(s).len() as int) == trim_end(s),
        is_blank(s.skip(trim_end(s).len() as int)),
        trim_end(s).len() > 0 ==> !is_white_space(trim_end(s).last()),
    decreases s.len(),
{
    let t = trim_end(s);
    if s.len() > 0 && is_white_space(s.last()) {
        let front = s.drop_last();
        lemma_trim_end(front);
        assert(s.take(t.len() as int) =~= front.take(t.len() as int));
        let rest = s.skip(t.len() as int);
        assert forall|i: int| 0 <= i < rest.len() implies is_white_space(#[trigger] rest[i]) by {
            if i < rest.len() - 1 {
                assert(rest[i] == front.skip(t.len() as int)[i]);
            }
        }
    } else {
        assert(s.take(t.len() as int) =~= s);
    }
}

proof fn lemma_trim_start(s: Seq<char>)
    ensures
        trim_start(s).len() <= s.len(),
        s.skip(s.len() - trim_start(s).len()) == trim_start(s),
        is_blank(s.take(s.len() - trim_start(s).len())),
        trim_start(s).len() > 0 ==> !is_white_space(trim_start(s)[0]),
    decreases s.len(),
{
    let t = trim_start(s);
    if s.len() > 0 && is_white_space(s[0]) {
        let rest = s.drop_first();
        lemma_trim_start(rest);
        assert(s.skip(s.len() - t.len()) =~= rest.skip(rest.len() - t.len()));
        let lead = s.take(s.len() - t.len());
        assert forall|i: int| 0 <= i < lead.len() implies is_white_space(#[trigger] lead[i]) by {
            if i > 0 {
                assert(lead[i] == rest.take(rest.len() - t.len())[i - 1]);
            }
        }
    } else {
        assert(s.skip(0) =~= s);
        assert(s.take(0) =~= Seq::empty());
    }
}

/// A trimmed text is what lies in the text between white space at either end, and has
/// none of it at its own ends.
pub proof fn law_trim_takes_off_white_space_alone(s: Seq<char>)
    ensures
        exists|a: Seq<char>, b: Seq<char>| #[trigger] (a + trim(s) + b) == s && is_blank(a) && is_blank(b),
        trim(s).len() > 0 ==> !is_white_space(trim(s)[0]) && !is_white_space(trim(s).last()),
        trim(s).len() == 0 <==> is_blank(s),
        trim(trim(s)) == trim(s),
{
    let m = trim_start(s);
    let t = trim(s);
    lemma_trim_start(s);
    lemma_trim_end(m);
    let a = s.take(s.len() - m.len());
    let b = m.skip(t.len() as int);
    assert(a + t + b =~= s);
    if t.len() > 0 {
        assert(t[0] == m[0]);
    }
    lemma_trim_start(t);
    lemma_trim_end(t);
    assert(trim_start(t) == t);
    assert(trim_end(t) == t);
    if t.len() == 0 {
        assert forall|i: int| 0 <= i < s.len() implies is_white_space(#[trigger] s[i]) by {
            if i < a.len() {
                assert(a[i] == s[i]);
            } else {
                assert(b[i - a.len()] == s[i]);
            }
        }
    } else if is_blank(s) {
        assert(t[0] == s[a.len() as int]);
    }
}

proof fn lemma_index(s: Seq<char>, c: char)
    ensures
        0 <= index_or_len(s, c) <= s.len(),
        is_without(s.take(index_or_len(s, c)), c),
        index_or_len(s, c) < s.len() ==> s[index_or_len(s, c)] == c,
    decreases s.len(),
{
    let n = index_or_len(s, c);
    if s.len() > 0 && s[0] != c {
        let rest = s.drop_first();
        lemma_index(rest, c);
        let lead = s.take(n);
        assert forall|i: int| 0 <= i < lead.len() implies #[trigger] lead[i] != c by {
            if i > 0 {
                assert(lead[i] == rest.take(n - 1)[i - 1]);
            }
        }
    } else {
        assert(s.take(0) =~= Seq::empty());
    }
}

pub proof fn lemma_index_at(a: Seq<char>, c: char, b: Seq<char>)
    requires
        is_without(a, c),
    ensures
        index_or_len(a + seq![c] + b, c) == a.len(),
        index_or_len(a, c) == a.len(),
    decreases a.len(),
{
    let s = a + seq![c] + b;
    if a.len() > 0 {
        let rest = a.drop_first();
        assert forall|i: int| 0 <= i < rest.len() implies #[trigger] rest[i] != c by {
            assert(rest[i] == a[i + 1]);
        }
        lemma_index_at(rest, c, b);
        assert(s.drop_first() =~= rest + seq![c] + b);
        assert(s[0] == a[0]);
    } else {
        assert(s[0] == c);
    }
}

/// The pieces of a text between separators hold no separator, and joined by the separator
/// they are the text again.
pub proof fn law_pieces_make_up_the_text(s: Seq<char>, c: char)
    ensures
        pieces(s, c).len() > 0,
        join(pieces(s, c), seq![c]) == s,
        forall|k: int| 0 <= k < pieces(s, c).len() ==> is_without(#[trigger] pieces(s, c)[k], c),
    decreases s.len(),
{
    let n = index_or_len(s, c);
    lemma_index(s, c);
    if n < s.len() {
        let head = s.take(n);
        let rest = s.skip(n + 1);
        law_pieces_make_up_the_text(rest, c);
        let more = pieces(rest, c);
        assert(pieces(s, c) == seq![head] + more);
        lemma_join_front(head, more, seq![c]);
        assert(head + seq![c] + rest =~= s);
        assert forall|k: int| 0 <= k < pieces(s, c).len() implies is_without(#[trigger] pieces(s, c)[k], c) by {
            if k > 0 {
                assert(pieces(s, c)[k] == more[k - 1]);
            }
        }
    } else {
        assert(s.take(n) =~= s);
        assert(pieces(s, c) =~= seq![s]);
    }
}

proof fn lemma_join_front(head: Seq<char>, more: Seq<Seq<char>>, sep: Seq<char>)
    requires
        more.len() > 0,
    ensures
        join(seq![head] + more, sep) == head + sep + join(more, sep),
    decreases more.len(),
{
    let all = seq![head] + more;
    assert(all.drop_last() =~= seq![head] + more.drop_last());
    assert(all.last() == more.last());
    if more.len() == 1 {
        assert(all.drop_last() =~= seq![head]);
        reveal_with_fuel(join, 2);
    } else {
        lemma_join_front(head, more.drop_last(), sep);
        assert(join(all, sep) =~= head + sep + join(more, sep));
    }
}

/// A line ends at its line feed, without the carriage return before it, and the lines of
/// what follows come after it. A text without line feeds is one line.
pub proof fn law_lines_end_at_line_feeds(l: Seq<char>, rest: Seq<char>)
    requires
        is_without(l, '\n'),
    ensures
        lines(l + "\n"@ + rest) == seq![
            if l.len() > 0 && l.last() == '\r' {
                l.drop_last()
            } else {
                l
            },
        ] + lines(rest),
        l.len() > 0 ==> lines(l) == seq![l],
        lines(Seq::empty()).len() == 0,
{
    reveal_strlit("\n");
    assert("\n"@ =~= seq!['\n']);
    lemma_index_at(l, '\n', rest);
    let s = l + seq!['\n'] + rest;
    assert(s.take(l.len() as int) =~= l);
    assert(s.skip(l.len() as int + 1) =~= rest);
}

/// The number that a list of digits stands for.
pub open spec fn digits_value(s: Seq<char>, base: nat) -> nat
    decreases s.len(),
{
    if s.len() == 0 {
        0
    } else {
        digits_value(s.drop_last(), base) * base + digit_value(s.last())
    }
}

/// The number that a digit stands for.
pub open spec fn digit_value(c: char) -> nat {
    if '0' <= c <= '9' {
        (c as nat - '0' as nat) as nat
    } else if 'a' <= c <= 'f' {
        (c as nat - 'a' as nat + 10) as nat
    } else {
        0
    }
}

/// A number in decimal is made of decimal digits, the first of which is zero only for
/// zero, and stands for that number.
pub proof fn law_decimal_stands_for_the_number(n: nat)
    ensures
        decimal(n).len() > 0,
        digits_value(decimal(n), 10) == n,
        forall|i: int| 0 <= i < decimal(n).len() ==> '0' <= #[trigger] decimal(n)[i] <= '9',
        n > 0 ==> decimal(n)[0] != '0',
        n == 0 ==> decimal(n) == seq!['0'],
    decreases n,
{
    if n < 10 {
        let s = decimal(n);
        assert(s.drop_last() =~= Seq::empty());
        assert(s.last() == digit(n));
        assert(digits_value(s.drop_last(), 10) == 0);
    } else {
        law_decimal_stands_for_the_number(n / 10);
        let s = decimal(n);
        assert(s.drop_last() =~= decimal(n / 10));
        assert(s.last() == digit(n % 10));
        assert(s[0] == decimal(n / 10)[0]);
        assert forall|i: int| 0 <= i < s.len() implies '0' <= #[trigger] s[i] <= '9' by {
            if i < s.len() - 1 {
                assert(s[i] == decimal(n / 10)[i]);
            }
        }
    }
}

/// A number in hexadecimal stands for that number, and has as many digits as it is wide
/// at least.
pub proof fn law_hex_stands_for_the_number(n: nat, width: nat)
    ensures
        digits_value(hex(n, width), 16) == n,
        hex(n, width).len() >= width,
        hex(n, width).len() > 0,
        forall|i: int|
            0 <= i < hex(n, width).len() ==> '0' <= #[trigger] hex(n, width)[i] <= '9' || 'a' <= hex(n, width)[i] <= 'f',
    decreases n, width,
{
    let s = hex(n, width);
    if n < 16 && width <= 1 {
        assert(s.drop_last() =~= Seq::empty());
        assert(s.last() == digit(n));
        assert(digits_value(s.drop_last(), 16) == 0);
    } else {
        let w = if width > 0 {
            (width - 1) as nat
        } else {
            0
        };
        law_hex_stands_for_the_number(n / 16, w);
        let front = hex(n / 16, w);
        assert(s.drop_last() =~= front);
        assert(s.last() == digit(n % 16));
        assert forall|i: int| 0 <= i < s.len() implies '0' <= #[trigger] s[i] <= '9' || 'a' <= s[i] <= 'f' by {
            if i < s.len() - 1 {
                assert(s[i] == front[i]);
            }
        }
    }
}

/// A text in lower case has the same length; each capital from A to Z gives way to its
/// small letter, and no other character changes.
pub proof fn law_lower_case_changes_capitals_alone(s: Seq<char>, i: int)
    requires
        0 <= i < s.len(),
    ensures
        ascii_lower(s).len() == s.len(),
        'A' <= s[i] <= 'Z' ==> ascii_lower(s)[i] as u32 == s[i] as u32 + 32,
        !('A' <= s[i] <= 'Z') ==> ascii_lower(s)[i] == s[i],
        ascii_lower(ascii_lower(s)) == ascii_lower(s),
{
    let r = ascii_lower(s);
    assert forall|k: int| 0 <= k < r.len() implies !('A' <= #[trigger] r[k] <= 'Z') by {
        if 'A' <= s[k] <= 'Z' {
            assert(r[k] as u32 == s[k] as u32 + 32);
        }
    }
    assert(ascii_lower(r) =~= r);
}

/// The field of a line is what follows its name, a colon and one space, if there is one.
/// A line that does not begin with the name and a colon has no such field.
pub proof fn law_field_follows_its_name(field: Seq<char>, value: Seq<char>, line: Seq<char>)
    ensures
        sse_field(field + ": "@ + value, field) == Some(value),
        value.len() == 0 || value[0] != ' ' ==> sse_field(field + ":"@ + value, field) == Some(value),
        !has_prefix(line, field + ":"@) ==> sse_field(line, field) is None,
{
    reveal_strlit(": ");
    reveal_strlit(":");
    let a = field + ": "@;
    let b = field + ":"@;
    assert((a + value).take(a.len() as int) =~= a);
    assert((a + value).skip(a.len() as int) =~= value);
    let s = b + value;
    assert(s.take(b.len() as int) =~= b);
    assert(s.skip(b.len() as int) =~= value);
    if has_prefix(s, a) {
        assert(s.take(a.len() as int)[field.len() as int + 1] == a[field.len() as int + 1]);
        assert(s[field.len() as int + 1] == ' ');
        assert(value[0] == ' ');
    }
    if has_prefix(line, a) {
        assert(line.take(b.len() as int) =~= line.take(a.len() as int).take(b.len() as int));
        assert(a.take(b.len() as int) =~= b);
    }
}

/// The words of a text hold no white space and are not empty, and together they hold what
/// the text holds besides white space, in order.
pub proof fn law_words_hold_all_but_white_space(s: Seq<char>)
    ensures
        joined_up(words(s)) == without_white_space(s),
        forall|k: int|
            0 <= k < words(s).len() ==> (#[trigger] words(s)[k]).len() > 0 && without_white_space(words(s)[k]) == words(
                s,
            )[k],
    decreases s.len(),
{
    lemma_word_len(s);
    let n = word_len(s);
    if s.len() > 0 && is_white_space(s[0]) {
        let rest = s.drop_first();
        law_words_hold_all_but_white_space(rest);
        let lead = seq![s[0]];
        assert(s =~= lead + rest);
        lemma_without_add(lead, rest);
        reveal_with_fuel(without_white_space, 2);
        assert(without_white_space(lead) =~= Seq::empty());
        assert(without_white_space(s) =~= without_white_space(rest));
    } else if s.len() > 0 {
        let w = s.take(n);
        let rest = s.skip(n);
        law_words_hold_all_but_white_space(rest);
        assert(s =~= w + rest);
        lemma_without_add(w, rest);
        lemma_without_none(w);
        lemma_joined_up_add(seq![w], words(rest));
        reveal_with_fuel(joined_up, 2);
        assert(seq![w].drop_last() =~= Seq::empty());
        assert(joined_up(seq![w]) =~= w);
        assert forall|k: int| 0 <= k < words(s).len() implies (#[trigger] words(s)[k]).len() > 0
            && without_white_space(words(s)[k]) == words(s)[k] by {
            if k > 0 {
                assert(words(s)[k] == words(rest)[k - 1]);
            }
        }
    }
}

proof fn lemma_word_len(s: Seq<char>)
    ensures
        0 <= word_len(s) <= s.len(),
        s.len() > 0 && !is_white_space(s[0]) ==> word_len(s) > 0,
        forall|i: int| 0 <= i < word_len(s) ==> !is_white_space(#[trigger] s[i]),
    decreases s.len(),
{
    if s.len() > 0 && !is_white_space(s[0]) {
        let rest = s.drop_first();
        lemma_word_len(rest);
        assert forall|i: int| 0 <= i < word_len(s) implies !is_white_space(#[trigger] s[i]) by {
            if i > 0 {
                assert(s[i] == rest[i - 1]);
            }
        }
    }
}

proof fn lemma_without_add(a: Seq<char>, b: Seq<char>)
    ensures
        without_white_space(a + b) == without_white_space(a) + without_white_space(b),
    decreases b.len(),
{
    if b.len() == 0 {
        assert(a + b =~= a);
        assert(without_white_space(a) + without_white_space(b) =~= without_white_space(a));
    } else {
        lemma_without_add(a, b.drop_last());
        assert((a + b).drop_last() =~= a + b.drop_last());
        assert(without_white_space(a + b) =~= without_white_space(a) + without_white_space(b));
    }
}

proof fn lemma_without_none(s: Seq<char>)
    requires
        forall|i: int| 0 <= i < s.len() ==> !is_white_space(#[trigger] s[i]),
    ensures
        without_white_space(s) == s,
    decreases s.len(),
{
    if s.len() > 0 {
        let front = s.drop_last();
        assert forall|i: int| 0 <= i < front.len() implies !is_white_space(#[trigger] front[i]) by {
            assert(front[i] == s[i]);
        }
        lemma_without_none(front);
        assert(!is_white_space(s[s.len() - 1]));
    }
    assert(without_white_space(s) =~= s);
}

/// A text without its white space.
pub open spec fn without_white_space(s: Seq<char>) -> Seq<char>
    decreases s.len(),
{
    if s.len() == 0 {
        Seq::empty()
    } else if is_white_space(s.last()) {
        without_white_space(s.drop_last())
    } else {
        without_white_space(s.drop_last()).push(s.last())
    }
}

} // verus!
