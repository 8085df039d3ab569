//! What a stream of server-sent events carries: the data of its lines, in order, up
//! to the end of the stream or its failure.

use vstd::prelude::*;
use crate::sse::{SseReaderV, sse_field};
use crate::stream_out::PieceV;
use crate::text::{has_prefix, index_or_len, is_white_space, lines, trim, trim_end, without_cr};

verus! {

/// The data of the lines of a block that have some.
pub open spec fn data_of_lines(all: Seq<Seq<char>>) -> Seq<Seq<char>>
    decreases all.len(),
{
    if all.len() == 0 {
        Seq::empty()
    } else {
        match sse_field(all.last(), "data"@) {
            Some(d) => data_of_lines(all.drop_last()).push(d),
            None => data_of_lines(all.drop_last()),
        }
    }
}

/// The data of blocks.
pub open spec fn data_of_blocks(all: Seq<Seq<char>>) -> Seq<Seq<char>>
    decreases all.len(),
{
    if all.len() == 0 {
        Seq::empty()
    } else {
        data_of_blocks(all.drop_last()) + data_of_lines(lines(all.last()))
    }
}

/// The data that a reader finds in a stream.
pub open spec fn data_of_stream(r: SseReaderV, stream: Seq<PieceV>) -> Seq<Seq<char>>
    decreases stream.len(),
{
    if stream.len() == 0 {
        Seq::empty()
    } else {
        match stream[0] {
            PieceV::Bytes(b) => data_of_blocks(r.fed_blocks(b)) + data_of_stream(r.fed(b), stream.drop_first()),
            PieceV::Failure(m) => Seq::empty(),
        }
    }
}

/// The data of a whole stream.
pub open spec fn stream_data(stream: Seq<PieceV>) -> Seq<Seq<char>> {
    data_of_stream(SseReaderV::empty(), stream)
}

/// Whether a text is all white space.
pub open spec fn is_blank(s: Seq<char>) -> bool {
    forall|i: int| 0 <= i < s.len() ==> is_white_space(#[trigger] s[i])
}

proof fn lemma_blank_end(s: Seq<char>)
    requires
        trim_end(s).len() == 0,
    ensures
        is_blank(s),
    decreases s.len(),
{
    if s.len() > 0 {
        lemma_blank_end(s.drop_last());
        assert forall|i: int| 0 <= i < s.len() implies is_white_space(#[trigger] s[i]) by {
            if i < s.len() - 1 {
                assert(s.drop_last()[i] == s[i]);
            }
        }
    }
}

proof fn lemma_blank_start(s: Seq<char>)
    requires
        trim(s).len() == 0,
    ensures
        is_blank(s),
    decreases s.len(),
{
    if s.len() > 0 && is_white_space(s[0]) {
        lemma_blank_start(s.drop_first());
        assert forall|i: int| 0 <= i < s.len() implies is_white_space(#[trigger] s[i]) by {
            if i > 0 {
                assert(s.drop_first()[i - 1] == s[i]);
            }
        }
    } else {
        lemma_blank_end(s);
    }
}

proof fn lemma_blank_lines(s: Seq<char>, k: int)
    requires
        is_blank(s),
        0 <= k < lines(s).len(),
    ensures
        is_blank(lines(s)[k]),
    decreases s.len(),
{
    let n = index_or_len(s, '\n');
    if 0 <= n < s.len() {
        let head = without_cr(s.take(n));
        assert(lines(s) == seq![head] + lines(s.skip(n + 1)));
        if k == 0 {
            assert forall|i: int| 0 <= i < head.len() implies is_white_space(#[trigger] head[i]) by {
                assert(head[i] == s[i]);
            }
        } else {
            let rest = s.skip(n + 1);
            assert forall|i: int| 0 <= i < rest.len() implies is_white_space(#[trigger] rest[i]) by {
                assert(rest[i] == s[n + 1 + i]);
            }
            lemma_blank_lines(rest, k - 1);
            assert(lines(s)[k] == lines(rest)[k - 1]);
        }
    }
}

proof fn lemma_blank_has_no_data(s: Seq<char>)
    requires
        is_blank(s),
    ensures
        sse_field(s, "data"@) is None,
{
    reveal_strlit("data");
    reveal_strlit(": ");
    reveal_strlit(":");
    let a = "data"@ + ": "@;
    let b = "data"@ + ":"@;
    assert(a[0] == 'd' && b[0] == 'd');
    if has_prefix(s, a) || has_prefix(s, b) {
        assert(s[0] == 'd');
        assert(is_white_space(s[0]));
    }
}

proof fn lemma_no_data(all: Seq<Seq<char>>)
    requires
        forall|k: int| 0 <= k < all.len() ==> is_blank(#[trigger] all[k]),
    ensures
        data_of_lines(all).len() == 0,
    decreases all.len(),
{
    if all.len() > 0 {
        assert(is_blank(all[all.len() - 1]));
        lemma_blank_has_no_data(all.last());
        assert forall|k: int| 0 <= k < all.drop_last().len() implies is_blank(#[trigger] all.drop_last()[k]) by {
            assert(is_blank(all[k]));
        }
        lemma_no_data(all.drop_last());
    }
}

/// A block of white space carries no data.
pub proof fn lemma_blank_block(block: Seq<char>)
    requires
        trim(block).len() == 0,
    ensures
        data_of_lines(lines(block)).len() == 0,
{
    lemma_blank_start(block);
    assert forall|k: int| 0 <= k < lines(block).len() implies is_blank(#[trigger] lines(block)[k]) by {
        lemma_blank_lines(block, k);
    }
    lemma_no_data(lines(block));
}

} // verus!
