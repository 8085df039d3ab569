//! Server-sent events: bytes to text, text to blocks, and events to text.

use vstd::prelude::*;
use vstd::string::*;
use vstd::utf8::*;
use crate::convert::{char_bytes, char_len};
use crate::json::{lemma_step, opt_text};
use crate::text::{cat, chars_of, find, first_at, has_infix, has_prefix, is_first, lemma_first_at, lemma_first_exists, lemma_texts_push, occurs_at, string_of, strip_prefix, texts};

verus! {

/// What the start of some bytes is.
pub enum Scan {
    /// One character, in so many bytes.
    Char(nat),
    /// The start of a character whose other bytes are still to come.
    Incomplete,
    /// So many bytes that begin no character.
    Bad(nat),
}

/// The number of bytes of a character that begins with `b`; none where no
/// character begins so.
pub open spec fn lead_width(b: u8) -> nat {
    if b <= 0x7f {
        1
    } else if 0xc2 <= b <= 0xdf {
        2
    } else if 0xe0 <= b <= 0xef {
        3
    } else if 0xf0 <= b <= 0xf4 {
        4
    } else {
        0
    }
}

/// Whether a character that begins with `a` may go on with `b`.
pub open spec fn second_fits(a: u8, b: u8) -> bool {
    if a == 0xe0 {
        0xa0 <= b <= 0xbf
    } else if a == 0xed {
        0x80 <= b <= 0x9f
    } else if a == 0xf0 {
        0x90 <= b <= 0xbf
    } else if a == 0xf4 {
        0x80 <= b <= 0x8f
    } else {
        0x80 <= b <= 0xbf
    }
}

/// What the start of `b` is, as the table of well-formed UTF-8 has it. Of bytes
/// that begin no character, those that could have begun one count as one fault.
pub open spec fn scan(b: Seq<u8>) -> Scan
    recommends
        b.len() > 0,
{
    let n = lead_width(b[0]);
    if n == 0 {
        Scan::Bad(1)
    } else if n == 1 {
        Scan::Char(1)
    } else if b.len() < 2 {
        Scan::Incomplete
    } else if !second_fits(b[0], b[1]) {
        Scan::Bad(1)
    } else if n == 2 {
        Scan::Char(2)
    } else if b.len() < 3 {
        Scan::Incomplete
    } else if !is_continuation_byte(b[2]) {
        Scan::Bad(2)
    } else if n == 3 {
        Scan::Char(3)
    } else if b.len() < 4 {
        Scan::Incomplete
    } else if !is_continuation_byte(b[3]) {
        Scan::Bad(3)
    } else {
        Scan::Char(4)
    }
}

/// Decoded text, and the bytes that are kept back until more come.
pub struct Decoded {
    pub text: Seq<char>,
    pub rest: Seq<u8>,
}

/// The text of some bytes. Each fault stands as one replacement character. A
/// character that is cut off at the end is kept back.
pub open spec fn decoded(b: Seq<u8>) -> Decoded
    decreases b.len(),
{
    if b.len() == 0 {
        Decoded { text: Seq::empty(), rest: Seq::empty() }
    } else {
        match scan(b) {
            Scan::Char(n) => if 0 < n <= b.len() {
                let d = decoded(b.skip(n as int));
                Decoded { text: decode_utf8(b.take(n as int)) + d.text, rest: d.rest }
            } else {
                Decoded { text: Seq::empty(), rest: b }
            },
            Scan::Incomplete => Decoded { text: Seq::empty(), rest: b },
            Scan::Bad(n) => if 0 < n <= b.len() {
                let d = decoded(b.skip(n as int));
                Decoded { text: seq!['\u{FFFD}'] + d.text, rest: d.rest }
            } else {
                Decoded { text: Seq::empty(), rest: b }
            },
        }
    }
}

/// What is scanned as a character is one, and every character is scanned so.
proof fn lemma_scan_char(b: Seq<u8>)
    requires
        b.len() > 0,
    ensures
        scan(b) is Char <==> valid_first_scalar(b),
        scan(b) matches Scan::Char(n) ==> n == length_of_first_scalar(b) && 0 < n <= b.len(),
        scan(b) matches Scan::Bad(n) ==> 0 < n <= b.len(),
        scan(b) is Incomplete ==> b.len() <= 3,
{
    let a = b[0];
    assert(a <= 0x7f ==> ((a & 0x7f) as u32) <= 0x7f) by (bit_vector);
    if b.len() >= 2 {
        let c = b[1];
        assert(0xc0 <= a <= 0xdf && 0x80 <= c <= 0xbf ==> (a >= 0xc2 <==> ((((a & 0x1f) as u32) << 6u32) | ((c
            & 0x3f) as u32)) >= 0x80u32)) by (bit_vector);
        assert(0xc0 <= a <= 0xdf && 0x80 <= c <= 0xbf ==> ((((a & 0x1f) as u32) << 6u32) | ((c & 0x3f) as u32))
            < 0xd800u32) by (bit_vector);
    }
    if b.len() >= 3 {
        let c = b[1];
        let d = b[2];
        assert(0xe0 <= a <= 0xef && 0x80 <= c <= 0xbf && 0x80 <= d <= 0xbf ==> (!(a == 0xe0 && c < 0xa0) <==> ((((a
            & 0x0f) as u32) << 12u32) | (((c & 0x3f) as u32) << 6u32) | ((d & 0x3f) as u32)) >= 0x800u32))
            by (bit_vector);
        assert(0xe0 <= a <= 0xef && 0x80 <= c <= 0xbf && 0x80 <= d <= 0xbf ==> (!(a == 0xed && c >= 0xa0) <==> !(
        0xd800u32 <= ((((a & 0x0f) as u32) << 12u32) | (((c & 0x3f) as u32) << 6u32) | ((d & 0x3f) as u32))
            && ((((a & 0x0f) as u32) << 12u32) | (((c & 0x3f) as u32) << 6u32) | ((d & 0x3f) as u32)) <= 0xdfffu32)))
            by (bit_vector);
    }
    if b.len() >= 4 {
        let c = b[1];
        let d = b[2];
        let e = b[3];
        assert(0xf0 <= a <= 0xf7 && 0x80 <= c <= 0xbf && 0x80 <= d <= 0xbf && 0x80 <= e <= 0xbf ==> ((a <= 0xf4 && !(
        a == 0xf0 && c < 0x90) && !(a == 0xf4 && c >= 0x90)) <==> (0x10000u32 <= ((((a & 0x07) as u32) << 18u32) | (((c
            & 0x3f) as u32) << 12u32) | (((d & 0x3f) as u32) << 6u32) | ((e & 0x3f) as u32)) && ((((a & 0x07) as u32)
            << 18u32) | (((c & 0x3f) as u32) << 12u32) | (((d & 0x3f) as u32) << 6u32) | ((e & 0x3f) as u32))
            <= 0x10ffffu32))) by (bit_vector);
    }
}

/// One character by itself is valid text.
proof fn lemma_char_alone(b: Seq<u8>, n: nat)
    requires
        b.len() > 0,
        scan(b) == Scan::Char(n),
    ensures
        0 < n <= b.len(),
        valid_utf8(b.take(n as int)),
{
    lemma_scan_char(b);
    let t = b.take(n as int);
    assert(valid_first_scalar(t));
    assert(pop_first_scalar(t) =~= Seq::empty());
    assert(valid_utf8(Seq::<u8>::empty()));
}

/// Text comes out the same however its bytes are cut into chunks.
pub proof fn law_chunks_do_not_matter(a: Seq<u8>, b: Seq<u8>)
    ensures
        decoded(a + b).text == decoded(a).text + decoded(decoded(a).rest + b).text,
        decoded(a + b).rest == decoded(decoded(a).rest + b).rest,
    decreases a.len(),
{
    let all = a + b;
    if a.len() == 0 {
        assert(all =~= b);
        assert(decoded(a).rest + b =~= b);
        assert(decoded(a).text + decoded(b).text =~= decoded(b).text);
    } else {
        lemma_scan_char(a);
        match scan(a) {
            Scan::Incomplete => {
                assert(decoded(a).text + decoded(all).text =~= decoded(all).text);
            },
            Scan::Char(n) => {
                lemma_scan_char(all);
                assert(scan(all) == Scan::Char(n));
                assert(all.skip(n as int) =~= a.skip(n as int) + b);
                assert(all.take(n as int) =~= a.take(n as int));
                law_chunks_do_not_matter(a.skip(n as int), b);
                assert(decoded(all).text =~= decoded(a).text + decoded(decoded(a).rest + b).text);
            },
            Scan::Bad(n) => {
                lemma_scan_char(all);
                assert(scan(all) == Scan::Bad(n));
                assert(all.skip(n as int) =~= a.skip(n as int) + b);
                law_chunks_do_not_matter(a.skip(n as int), b);
                assert(decoded(all).text =~= decoded(a).text + decoded(decoded(a).rest + b).text);
            },
        }
    }
}

/// The bytes of a text are decoded to that text, and nothing is kept back.
pub proof fn law_valid_text_is_kept(b: Seq<u8>)
    requires
        valid_utf8(b),
    ensures
        decoded(b).text == decode_utf8(b),
        decoded(b).rest.len() == 0,
    decreases b.len(),
{
    if b.len() > 0 {
        lemma_scan_char(b);
        let n = length_of_first_scalar(b);
        let t = b.take(n);
        lemma_char_alone(b, n as nat);
        assert(pop_first_scalar(b) =~= b.skip(n));
        law_valid_text_is_kept(b.skip(n));
        assert(pop_first_scalar(t) =~= Seq::empty());
        assert(decode_utf8(Seq::<u8>::empty()) =~= Seq::empty());
        assert(decode_first_scalar(t) == decode_first_scalar(b));
        assert(decode_utf8(t) =~= seq![decode_first_scalar(b) as char]);
    }
}

/// Calls `std::str::from_utf8`: the text of the bytes, where they are valid
/// UTF-8.
#[verifier::external_body]
fn utf8_text(bytes: &[u8]) -> (r: Option<String>)
    ensures
        match r {
            Some(s) => valid_utf8(bytes@) && s@ == decode_utf8(bytes@),
            None => !valid_utf8(bytes@),
        },
{
    match std::str::from_utf8(bytes) {
        Ok(s) => Some(s.to_owned()),
        Err(_) => None,
    }
}

fn second_byte_fits(a: u8, b: u8) -> (r: bool)
    ensures
        r == second_fits(a, b),
{
    if a == 0xe0 {
        0xa0 <= b && b <= 0xbf
    } else if a == 0xed {
        0x80 <= b && b <= 0x9f
    } else if a == 0xf0 {
        0x90 <= b && b <= 0xbf
    } else if a == 0xf4 {
        0x80 <= b && b <= 0x8f
    } else {
        0x80 <= b && b <= 0xbf
    }
}

/// What the bytes from `i` on start with: a length, and whether it is that of a
/// character. No length stands for a character that is cut off.
fn scan_at(v: &Vec<u8>, i: usize) -> (r: (usize, bool))
    requires
        i < v@.len(),
    ensures
        match scan(v@.skip(i as int)) {
            Scan::Char(n) => r == (n as usize, true) && 0 < n <= v@.len() - i,
            Scan::Incomplete => r.0 == 0,
            Scan::Bad(n) => r == (n as usize, false) && 0 < n <= v@.len() - i,
        },
{
    let ghost b = v@.skip(i as int);
    let left: usize = v.len() - i;
    let a: u8 = v[i];
    assert(b[0] == a);
    let n: usize = if a <= 0x7f {
        1
    } else if 0xc2 <= a && a <= 0xdf {
        2
    } else if 0xe0 <= a && a <= 0xef {
        3
    } else if 0xf0 <= a && a <= 0xf4 {
        4
    } else {
        0
    };
    if n == 0 {
        return (1, false);
    }
    if n == 1 {
        return (1, true);
    }
    if left < 2 {
        return (0, false);
    }
    assert(b[1] == v@[i + 1]);
    if !second_byte_fits(a, v[i + 1]) {
        return (1, false);
    }
    if n == 2 {
        return (2, true);
    }
    if left < 3 {
        return (0, false);
    }
    assert(b[2] == v@[i + 2]);
    if !(0x80 <= v[i + 2] && v[i + 2] <= 0xbf) {
        return (2, false);
    }
    if n == 3 {
        return (3, true);
    }
    if left < 4 {
        return (0, false);
    }
    assert(b[3] == v@[i + 3]);
    if !(0x80 <= v[i + 3] && v[i + 3] <= 0xbf) {
        return (3, false);
    }
    (4, true)
}

/// Adds the text of `new_bytes` to `buffer`. A character that is cut off at the
/// end is kept in `remainder` until its other bytes come.
pub fn append_utf8_safe(buffer: &mut String, remainder: &mut Vec<u8>, new_bytes: &[u8])
    ensures
        final(buffer)@ == old(buffer)@ + decoded(old(remainder)@ + new_bytes@).text,
        final(remainder)@ == decoded(old(remainder)@ + new_bytes@).rest,
        final(remainder)@.len() <= 3,
{
    let ghost start = buffer@;
    let mut input: Vec<u8> = Vec::new();
    input.append(remainder);
    let mut k: usize = 0;
    let ghost kept = input@;
    while k < new_bytes.len()
        invariant
            k <= new_bytes@.len(),
            input@ == kept + new_bytes@.take(k as int),
        decreases new_bytes@.len() - k,
    {
        input.push(new_bytes[k]);
        assert(input@ =~= kept + new_bytes@.take(k + 1));
        k += 1;
    }
    assert(input@ =~= kept + new_bytes@);
    let ghost whole = decoded(input@);
    let mut pos: usize = 0;
    proof {
        assert(input@.skip(0) =~= input@);
        assert(buffer@ + whole.text =~= start + whole.text);
    }
    while pos < input.len()
        invariant
            pos <= input@.len(),
            whole == decoded(old(remainder)@ + new_bytes@),
            start == old(buffer)@,
            buffer@ + decoded(input@.skip(pos as int)).text == start + whole.text,
            decoded(input@.skip(pos as int)).rest == whole.rest,
            remainder@.len() == 0,
        decreases input@.len() - pos,
    {
        let ghost b = input@.skip(pos as int);
        let ghost so_far = buffer@;
        proof {
            lemma_scan_char(b);
        }
        let (n, is_char) = scan_at(&input, pos);
        if n == 0 {
            let mut i: usize = pos;
            while i < input.len()
                invariant
                    pos <= i <= input@.len(),
                    remainder@ == input@.subrange(pos as int, i as int),
                decreases input@.len() - i,
            {
                remainder.push(input[i]);
                assert(remainder@ =~= input@.subrange(pos as int, i + 1));
                i += 1;
            }
            proof {
                assert(remainder@ =~= b);
                assert(so_far + Seq::<char>::empty() =~= so_far);
            }
            return;
        }
        if is_char {
            proof {
                lemma_char_alone(b, n as nat);
                assert(input@.subrange(pos as int, pos + n) =~= b.take(n as int));
            }
            if n == 1 {
                let c = input[pos] as char;
                buffer.push(c);
                proof {
                    let t = b.take(1);
                    assert(t =~= seq![input@[pos as int]]);
                    lemma_ascii(input@[pos as int]);
                    assert(buffer@ =~= so_far + decode_utf8(t));
                }
            } else {
                match utf8_text(vstd::slice::slice_subrange(input.as_slice(), pos, pos + n)) {
                    Some(s) => {
                        buffer.append(s.as_str());
                    },
                    None => {
                        assert(false);
                    },
                }
            }
        } else {
            buffer.push('\u{FFFD}');
            assert(buffer@ =~= so_far + seq!['\u{FFFD}']);
        }
        proof {
            assert(b.skip(n as int) =~= input@.skip(pos + n));
            assert(buffer@ + decoded(input@.skip(pos + n)).text =~= so_far + decoded(b).text);
        }
        pos = pos + n;
    }
    proof {
        assert(input@.skip(pos as int) =~= Seq::empty());
        assert(buffer@ + Seq::<char>::empty() =~= buffer@);
        assert(remainder@ =~= Seq::empty());
    }
}

/// A byte below 128 is the character of that number.
proof fn lemma_ascii(b: u8)
    requires
        b <= 0x7f,
    ensures
        valid_utf8(seq![b]),
        decode_utf8(seq![b]) == seq![b as char],
{
    let t = seq![b];
    assert((b & 0x7f) == b) by (bit_vector)
        requires
            b <= 0x7f,
    ;
    assert(valid_first_scalar(t));
    assert(pop_first_scalar(t) =~= Seq::empty());
    assert(valid_utf8(Seq::<u8>::empty()));
    assert(decode_utf8(Seq::<u8>::empty()) =~= Seq::empty());
    assert(decode_utf8(t) =~= seq![b as char]);
}

/// The number of bytes of a text in UTF-8.
pub open spec fn byte_len(s: Seq<char>) -> nat
    decreases s.len(),
{
    if s.len() == 0 {
        0
    } else {
        byte_len(s.drop_last()) + char_bytes(s.last())
    }
}

/// Where the first block of a text ends, and the length of the delimiter after
/// it. A blank line of two line feeds gives way to one with carriage returns,
/// unless it ends a block of fewer than four bytes.
pub open spec fn block_end(s: Seq<char>) -> Option<(int, int)> {
    let crlf = first_at(s, "\r\n\r\n"@);
    let lf = first_at(s, "\n\n"@);
    match (crlf, lf) {
        (Some(a), Some(b)) => if byte_len(s.take(b)) < 4 {
            Some((b, 2))
        } else {
            Some((a, 4))
        },
        (Some(a), None) => Some((a, 4)),
        (None, Some(b)) => Some((b, 2)),
        (None, None) => None,
    }
}

/// The blocks of a text, and what follows the last of them.
pub open spec fn blocks(s: Seq<char>) -> (Seq<Seq<char>>, Seq<char>)
    decreases s.len(),
{
    match block_end(s) {
        Some((at, len)) => if 0 <= at && 0 < len && at + len <= s.len() {
            let (more, rest) = blocks(s.skip(at + len));
            (seq![s.take(at)] + more, rest)
        } else {
            (Seq::empty(), s)
        },
        None => (Seq::empty(), s),
    }
}

/// The first end of a block lies within the text, and what stands there is its
/// delimiter: block, delimiter and rest make up the text.
pub proof fn law_block_and_rest_make_up_the_text(s: Seq<char>)
    ensures
        block_end(s) matches Some((at, len)) ==> {
            &&& 0 <= at && at + len <= s.len()
            &&& (len == 4 && s.subrange(at, at + len) == "\r\n\r\n"@ || len == 2 && s.subrange(at, at + len)
                == "\n\n"@)
            &&& s == s.take(at) + s.subrange(at, at + len) + s.skip(at + len)
        },
        block_end(s) is None ==> !has_infix(s, "\n\n"@) && !has_infix(s, "\r\n\r\n"@),
{
    reveal_strlit("\r\n\r\n");
    reveal_strlit("\n\n");
    if has_infix(s, "\r\n\r\n"@) {
        let i = choose|i: int| #[trigger] occurs_at(s, "\r\n\r\n"@, i);
        lemma_first_exists(s, "\r\n\r\n"@, i);
    }
    if has_infix(s, "\n\n"@) {
        let i = choose|i: int| #[trigger] occurs_at(s, "\n\n"@, i);
        lemma_first_exists(s, "\n\n"@, i);
    }
    if let Some((at, len)) = block_end(s) {
        assert(s =~= s.take(at) + s.subrange(at, at + len) + s.skip(at + len));
    }
}

fn short_prefix(v: &Vec<char>, n: usize) -> (r: bool)
    requires
        n <= v@.len(),
    ensures
        r == (byte_len(v@.take(n as int)) < 4),
{
    let mut sum: usize = 0;
    let mut i: usize = 0;
    while i < n
        invariant
            i <= n <= v@.len(),
            sum == byte_len(v@.take(i as int)),
            sum < 4,
        decreases n - i,
    {
        proof {
            lemma_step(v@, i as int);
        }
        sum = sum + char_len(v[i]);
        i += 1;
        if sum >= 4 {
            proof {
                lemma_byte_len_grows(v@, i as int, n as int);
            }
            return false;
        }
    }
    true
}

pub proof fn lemma_byte_len_grows(s: Seq<char>, i: int, n: int)
    requires
        0 <= i <= n <= s.len(),
    ensures
        byte_len(s.take(i)) <= byte_len(s.take(n)),
    decreases n - i,
{
    if i < n {
        lemma_step(s, n - 1);
        lemma_byte_len_grows(s, i, n - 1);
    }
}

/// Takes the first block out of `buffer`, with the delimiter after it.
pub fn take_sse_block(buffer: &mut String) -> (r: Option<String>)
    ensures
        match block_end(old(buffer)@) {
            Some((at, len)) => r is Some && r->0@ == old(buffer)@.take(at) && final(buffer)@ == old(buffer)@.skip(
                at + len,
            ) && final(buffer)@.len() < old(buffer)@.len(),
            None => r is None && final(buffer)@ == old(buffer)@,
        },
{
    proof {
        reveal_strlit("\r\n\r\n");
        reveal_strlit("\n\n");
    }
    let v = chars_of(buffer.as_str());
    let n: usize = v.len();
    let crlf = find(&v, &chars_of("\r\n\r\n"));
    let lf = find(&v, &chars_of("\n\n"));
    let (at, len): (usize, usize) = match crlf {
        Some(a) => match lf {
            Some(b) => if short_prefix(&v, b) {
                (b, 2)
            } else {
                (a, 4)
            },
            None => (a, 4),
        },
        None => match lf {
            Some(b) => (b, 2),
            None => {
                return None;
            },
        },
    };
    let block = string_of(&v, 0, at);
    *buffer = string_of(&v, at + len, n);
    proof {
        assert(v@.subrange(0, at as int) =~= v@.take(at as int));
        assert(v@.subrange(at + len, n as int) =~= v@.skip(at + len));
    }
    Some(block)
}

/// The field's value in a line, where the line is of that field.
pub open spec fn sse_field(line: Seq<char>, field: Seq<char>) -> Option<Seq<char>> {
    if has_prefix(line, field + ": "@) {
        Some(line.skip((field + ": "@).len() as int))
    } else if has_prefix(line, field + ":"@) {
        Some(line.skip((field + ":"@).len() as int))
    } else {
        None
    }
}

/// The field's value in a line, where the line is of that field.
pub fn strip_sse_field<'a>(line: &'a str, field: &str) -> (r: Option<&'a str>)
    ensures
        opt_text(r) == sse_field(line@, field@),
{
    match strip_prefix(line, cat(field, ": ").as_str()) {
        Some(value) => Some(value),
        None => strip_prefix(line, cat(field, ":").as_str()),
    }
}

/// Bytes that came in, up to the last whole block.
pub struct SseReader {
    pub buffer: String,
    pub remainder: Vec<u8>,
}

/// The model of a reader.
pub struct SseReaderV {
    pub buffer: Seq<char>,
    pub remainder: Seq<u8>,
}

impl View for SseReader {
    type V = SseReaderV;

    open spec fn view(&self) -> SseReaderV {
        SseReaderV { buffer: self.buffer@, remainder: self.remainder@ }
    }
}

impl SseReaderV {
    /// The reader before any bytes came.
    pub open spec fn empty() -> SseReaderV {
        SseReaderV { buffer: Seq::empty(), remainder: Seq::empty() }
    }

    /// The blocks that are whole once `bytes` came.
    pub open spec fn fed_blocks(self, bytes: Seq<u8>) -> Seq<Seq<char>> {
        blocks(self.buffer + decoded(self.remainder + bytes).text).0
    }

    /// The reader once `bytes` came.
    pub open spec fn fed(self, bytes: Seq<u8>) -> SseReaderV {
        let d = decoded(self.remainder + bytes);
        SseReaderV { buffer: blocks(self.buffer + d.text).1, remainder: d.rest }
    }
}

impl SseReader {
    /// A reader before any bytes came.
    pub fn new() -> (r: SseReader)
        ensures
            r@ == SseReaderV::empty(),
    {
        let r = SseReader { buffer: String::new(), remainder: Vec::new() };
        assert(r@.remainder =~= Seq::empty());
        r
    }

    /// Takes in bytes and gives out the blocks that are whole.
    pub fn feed(&mut self, bytes: &[u8]) -> (r: Vec<String>)
        ensures
            texts(r@) == old(self)@.fed_blocks(bytes@),
            final(self)@ == old(self)@.fed(bytes@),
    {
        broadcast use lemma_texts_push;

        let ghost before = self@;
        append_utf8_safe(&mut self.buffer, &mut self.remainder, bytes);
        let ghost all = self.buffer@;
        let mut out: Vec<String> = Vec::new();
        assert(texts(out@) + blocks(all).0 =~= blocks(all).0);
        loop
            invariant
                before == old(self)@,
                all == before.buffer + decoded(before.remainder + bytes@).text,
                self.remainder@ == decoded(before.remainder + bytes@).rest,
                texts(out@) + blocks(self.buffer@).0 == blocks(all).0,
                blocks(self.buffer@).1 == blocks(all).1,
            decreases self.buffer@.len(),
        {
            let ghost so_far = texts(out@);
            let ghost text = self.buffer@;
            proof {
                law_block_and_rest_make_up_the_text(text);
            }
            match take_sse_block(&mut self.buffer) {
                Some(block) => {
                    out.push(block);
                    proof {
                        let (at, len) = block_end(text)->0;
                        assert(blocks(text).0 == seq![text.take(at)] + blocks(text.skip(at + len)).0);
                        assert(texts(out@) + blocks(self.buffer@).0 =~= so_far + blocks(text).0);
                    }
                },
                None => {
                    proof {
                        assert(blocks(text).0 =~= Seq::empty());
                        assert(texts(out@) =~= blocks(all).0);
                    }
                    return out;
                },
            }
        }
    }
}

/// Whether the blank lines of a text are all of one kind: none is written with
/// carriage returns, or none is written without.
pub open spec fn one_kind_of_break(s: Seq<char>) -> bool {
    !has_infix(s, "\r\n\r\n"@) || !has_infix(s, "\n\n"@)
}

/// What does not stand in a text does not stand in a part of it.
proof fn lemma_no_infix_in_part(s: Seq<char>, p: Seq<char>, from: int, to: int)
    requires
        !has_infix(s, p),
        0 <= from <= to <= s.len(),
    ensures
        !has_infix(s.subrange(from, to), p),
{
    let t = s.subrange(from, to);
    if has_infix(t, p) {
        let i = choose|i: int| #[trigger] occurs_at(t, p, i);
        assert(s.subrange(from + i, from + i + p.len()) =~= t.subrange(i, i + p.len()));
        assert(occurs_at(s, p, from + i));
    }
}

/// A part of a text has no kind of break that the text has not.
proof fn lemma_one_kind_in_part(s: Seq<char>, from: int, to: int)
    requires
        one_kind_of_break(s),
        0 <= from <= to <= s.len(),
    ensures
        one_kind_of_break(s.subrange(from, to)),
{
    if has_infix(s, "\r\n\r\n"@) {
        lemma_no_infix_in_part(s, "\n\n"@, from, to);
    } else {
        lemma_no_infix_in_part(s, "\r\n\r\n"@, from, to);
    }
}

/// The blocks of a text are the same however the text is cut, as long as its
/// blank lines are all of one kind.
pub proof fn law_cuts_do_not_matter(s: Seq<char>, t: Seq<char>)
    requires
        one_kind_of_break(s + t),
    ensures
        blocks(s + t).0 == blocks(s).0 + blocks(blocks(s).1 + t).0,
        blocks(s + t).1 == blocks(blocks(s).1 + t).1,
    decreases s.len(),
{
    let all = s + t;
    let lf = "\n\n"@;
    let crlf = "\r\n\r\n"@;
    reveal_strlit("\n\n");
    reveal_strlit("\r\n\r\n");
    let n = s.len() as int;
    assert(all.subrange(0, n) =~= s);
    let d = if has_infix(all, crlf) {
        lemma_no_infix_in_part(all, lf, 0, n);
        crlf
    } else {
        lemma_no_infix_in_part(all, crlf, 0, n);
        lf
    };
    law_block_and_rest_make_up_the_text(s);
    law_block_and_rest_make_up_the_text(all);
    if has_infix(s, d) {
        let (at, len) = block_end(s)->0;
        let k = choose|k: int| #[trigger] occurs_at(s, d, k);
        lemma_first_exists(s, d, k);
        assert(len == d.len());
        assert(is_first(s, d, at));
        assert(occurs_at(all, d, at)) by {
            assert(all.subrange(at, at + len) =~= s.subrange(at, at + len));
        }
        assert(is_first(all, d, at)) by {
            assert forall|j: int| 0 <= j < at implies !#[trigger] occurs_at(all, d, j) by {
                assert(all.subrange(j, j + len) =~= s.subrange(j, j + len));
                assert(!occurs_at(s, d, j));
            }
        }
        lemma_first_at(all, d, at);
        assert(block_end(all) == Some((at, len)));
        let rest = s.skip(at + len);
        assert(all.skip(at + len) =~= rest + t);
        assert(all.take(at) =~= s.take(at));
        lemma_one_kind_in_part(all, at + len, all.len() as int);
        assert(all.subrange(at + len, all.len() as int) =~= rest + t);
        law_cuts_do_not_matter(rest, t);
        assert(blocks(all).0 =~= blocks(s).0 + blocks(blocks(s).1 + t).0);
    } else {
        assert(blocks(s).0 =~= Seq::empty());
        assert(blocks(all).0 =~= blocks(s).0 + blocks(all).0);
    }
}

/// What is read is the same however its bytes are cut into chunks, as long as the
/// blank lines of its text are all of one kind.
pub proof fn law_reader_takes_any_chunks(r: SseReaderV, a: Seq<u8>, b: Seq<u8>)
    requires
        one_kind_of_break(r.buffer + decoded(r.remainder + a + b).text),
    ensures
        r.fed(a + b) == r.fed(a).fed(b),
        r.fed_blocks(a + b) == r.fed_blocks(a) + r.fed(a).fed_blocks(b),
{
    let first = decoded(r.remainder + a);
    let second = decoded(first.rest + b);
    let all = decoded(r.remainder + a + b);
    assert(r.remainder + (a + b) =~= r.remainder + a + b);
    law_chunks_do_not_matter(r.remainder + a, b);
    assert(r.buffer + all.text =~= r.buffer + first.text + second.text);
    law_cuts_do_not_matter(r.buffer + first.text, second.text);
}

} // verus!
