//! The log of a response that is passed through as it is.
//!
//! When the local entry and the upstream share a format, the bytes are forwarded
//! verbatim. Here they are read only as far as the log needs it.

use vstd::prelude::*;
use vstd::string::*;
use crate::error::LocalEntry;
use crate::json::{Json, JsonV, field_is, group_models, lemma_step, lemma_whole, models, opt_model, opt_string, opt_text};
use crate::json_text::{json_parse, parse_json};
use crate::sse::{SseReader, SseReaderV, sse_field, strip_sse_field};
use crate::stream_out::{OutV, StreamOut, group_outs, outs};
use crate::text::{cat, cat3, lemma_texts_push, lines, split_lines, texts, trim, trimmed};

verus! {

/// The format of the stream that is passed through.
#[derive(Debug, Clone, Copy, PartialEq, Eq, Structural)]
pub enum StreamFormat {
    Anthropic,
    Chat,
    Responses,
}

/// The format of an entry.
pub open spec fn entry_format(entry: LocalEntry) -> StreamFormat {
    match entry {
        LocalEntry::AnthropicMessages => StreamFormat::Anthropic,
        LocalEntry::OaiChat => StreamFormat::Chat,
        LocalEntry::OaiResponses => StreamFormat::Responses,
    }
}

impl StreamFormat {
    /// In the passthrough path the upstream format always equals the local entry
    /// format, so the entry selects the format.
    pub fn from_local_entry(entry: LocalEntry) -> (r: StreamFormat)
        ensures
            r == entry_format(entry),
    {
        match entry {
            LocalEntry::AnthropicMessages => StreamFormat::Anthropic,
            LocalEntry::OaiChat => StreamFormat::Chat,
            LocalEntry::OaiResponses => StreamFormat::Responses,
        }
    }
}

/// What the log has seen of a response: whether there was text, and which tools
/// were named.
pub struct SeenV {
    pub has_text: bool,
    pub tools: Seq<Seq<char>>,
}

/// What one frame adds to the log, and what has been seen then.
pub struct FragmentV {
    pub seen: SeenV,
    pub text: Option<Seq<char>>,
}

/// A string by two keys.
pub open spec fn str_path2(v: JsonV, outer: Seq<char>, inner: Seq<char>) -> Option<Seq<char>> {
    match v.path2(outer, inner) {
        Some(t) => t.as_str(),
        None => None,
    }
}

/// The first element of an array, or the member of an object under `0`.
pub open spec fn first_element(v: JsonV) -> Option<JsonV> {
    match v {
        JsonV::Array(a) => if a.len() > 0 {
            Some(a[0])
        } else {
            None
        },
        _ => v.get("0"@),
    }
}

/// The delta of the first choice.
pub open spec fn first_delta(v: JsonV) -> Option<JsonV> {
    match v.get("choices"@) {
        Some(choices) => match first_element(choices) {
            Some(choice) => choice.get("delta"@),
            None => None,
        },
        None => None,
    }
}

/// How a tool is named in the log.
pub open spec fn tool_marker(name: Seq<char>) -> Seq<char> {
    "[tool_use: "@ + name + "]"@
}

/// A piece of text of the response.
pub open spec fn text_fragment(seen: SeenV, t: Option<Seq<char>>) -> FragmentV {
    match t {
        Some(t) => FragmentV { seen: SeenV { has_text: true, ..seen }, text: Some(t) },
        None => FragmentV { seen, text: None },
    }
}

/// A tool of the response, which is named once and only before any text.
pub open spec fn tool_fragment(seen: SeenV, name: Option<Seq<char>>) -> FragmentV {
    match name {
        Some(name) => if !seen.has_text && name.len() > 0 && !seen.tools.contains(name) {
            FragmentV { seen: SeenV { tools: seen.tools.push(name), ..seen }, text: Some(tool_marker(name)) }
        } else {
            FragmentV { seen, text: None }
        },
        None => FragmentV { seen, text: None },
    }
}

/// What a frame of the Anthropic format adds to the log.
pub open spec fn anthropic_fragment(seen: SeenV, v: JsonV) -> FragmentV {
    let nothing = FragmentV { seen, text: None };
    if v.str_at("type"@) == Some("content_block_delta"@) {
        if str_path2(v, "delta"@, "type"@) == Some("text_delta"@) {
            text_fragment(seen, str_path2(v, "delta"@, "text"@))
        } else if str_path2(v, "delta"@, "type"@) == Some("thinking_delta"@) {
            FragmentV { seen, text: str_path2(v, "delta"@, "thinking"@) }
        } else {
            nothing
        }
    } else if v.str_at("type"@) == Some("content_block_start"@) && str_path2(v, "content_block"@, "type"@) == Some(
        "tool_use"@,
    ) {
        tool_fragment(seen, str_path2(v, "content_block"@, "name"@))
    } else {
        nothing
    }
}

/// What a frame of the Responses format adds to the log.
pub open spec fn responses_fragment(seen: SeenV, v: JsonV) -> FragmentV {
    if v.str_at("type"@) == Some("response.output_text.delta"@) {
        text_fragment(seen, v.str_at("delta"@))
    } else if v.str_at("type"@) == Some("response.reasoning_summary_text.delta"@) {
        FragmentV { seen, text: v.str_at("delta"@) }
    } else if v.str_at("type"@) == Some("response.output_item.added"@) && str_path2(v, "item"@, "type"@) == Some(
        "function_call"@,
    ) {
        tool_fragment(seen, str_path2(v, "item"@, "name"@))
    } else {
        FragmentV { seen, text: None }
    }
}

/// The log entry with one more piece.
pub open spec fn with_piece(f: FragmentV, piece: FragmentV) -> FragmentV {
    FragmentV {
        seen: piece.seen,
        text: match (f.text, piece.text) {
            (Some(a), Some(b)) => Some(a + b),
            (None, b) => b,
            (a, None) => a,
        },
    }
}

/// A string as a piece of text, where it is not empty.
pub open spec fn not_empty(t: Option<Seq<char>>) -> Option<Seq<char>> {
    match t {
        Some(t) => if t.len() > 0 {
            Some(t)
        } else {
            None
        },
        None => None,
    }
}

/// The log entry with the tools of a list of calls.
pub open spec fn with_called_tools(f: FragmentV, calls: Seq<JsonV>) -> FragmentV
    decreases calls.len(),
{
    if calls.len() == 0 {
        f
    } else {
        let g = with_called_tools(f, calls.drop_last());
        with_piece(g, tool_fragment(g.seen, str_path2(calls.last(), "function"@, "name"@)))
    }
}

/// What a frame of the Chat format adds to the log.
pub open spec fn chat_fragment(seen: SeenV, v: JsonV) -> FragmentV {
    match first_delta(v) {
        Some(delta) => {
            let f = text_fragment(seen, not_empty(delta.str_at("content"@)));
            let f = with_piece(
                f,
                FragmentV { seen: f.seen, text: not_empty(delta.str_at("reasoning_content"@)) },
            );
            with_called_tools(f, delta.items_at("tool_calls"@))
        },
        None => FragmentV { seen, text: None },
    }
}

/// What a frame adds to the log.
pub open spec fn log_fragment(format: StreamFormat, seen: SeenV, v: JsonV) -> FragmentV {
    match format {
        StreamFormat::Anthropic => anthropic_fragment(seen, v),
        StreamFormat::Chat => chat_fragment(seen, v),
        StreamFormat::Responses => responses_fragment(seen, v),
    }
}

/// What the response itself says in a frame: its text and its reasoning.
pub open spec fn spoken(format: StreamFormat, v: JsonV) -> Option<Seq<char>> {
    match format {
        StreamFormat::Anthropic => if v.str_at("type"@) != Some("content_block_delta"@) {
            None
        } else if str_path2(v, "delta"@, "type"@) == Some("text_delta"@) {
            str_path2(v, "delta"@, "text"@)
        } else if str_path2(v, "delta"@, "type"@) == Some("thinking_delta"@) {
            str_path2(v, "delta"@, "thinking"@)
        } else {
            None
        },
        StreamFormat::Chat => match first_delta(v) {
            Some(delta) => match (
                not_empty(delta.str_at("content"@)),
                not_empty(delta.str_at("reasoning_content"@)),
            ) {
                (Some(a), Some(b)) => Some(a + b),
                (None, b) => b,
                (a, None) => a,
            },
            None => None,
        },
        StreamFormat::Responses => if v.str_at("type"@) == Some("response.output_text.delta"@) || v.str_at("type"@)
            == Some("response.reasoning_summary_text.delta"@) {
            v.str_at("delta"@)
        } else {
            None
        },
    }
}

/// Whether a frame brings text of the response, which reasoning is not.
pub open spec fn brings_text(format: StreamFormat, v: JsonV) -> bool {
    match format {
        StreamFormat::Anthropic => v.str_at("type"@) == Some("content_block_delta"@) && str_path2(
            v,
            "delta"@,
            "type"@,
        ) == Some("text_delta"@) && str_path2(v, "delta"@, "text"@) is Some,
        StreamFormat::Chat => first_delta(v) is Some && not_empty(first_delta(v)->0.str_at("content"@)) is Some,
        StreamFormat::Responses => v.str_at("type"@) == Some("response.output_text.delta"@) && v.str_at(
            "delta"@,
        ) is Some,
    }
}

/// The tools that a frame names in the log.
pub open spec fn named_tools(format: StreamFormat, seen: SeenV, v: JsonV) -> Seq<Seq<char>> {
    log_fragment(format, seen, v).seen.tools.skip(seen.tools.len() as int)
}

/// The markers of tools, one after another.
pub open spec fn markers(names: Seq<Seq<char>>) -> Seq<char>
    decreases names.len(),
{
    if names.len() == 0 {
        Seq::empty()
    } else {
        markers(names.drop_last()) + tool_marker(names.last())
    }
}

/// A text followed by the markers of tools, where there is either.
pub open spec fn with_markers(t: Option<Seq<char>>, names: Seq<Seq<char>>) -> Option<Seq<char>> {
    if names.len() == 0 {
        t
    } else {
        match t {
            Some(t) => Some(t + markers(names)),
            None => Some(markers(names)),
        }
    }
}

/// Whether `b` is `a` with the markers of the tools that are new in it.
pub open spec fn adds_markers(a: FragmentV, b: FragmentV) -> bool {
    let n = a.seen.tools.len() as int;
    &&& n <= b.seen.tools.len()
    &&& b.seen.tools.take(n) == a.seen.tools
    &&& b.text == with_markers(a.text, b.seen.tools.skip(n))
    &&& b.seen.has_text == a.seen.has_text
    &&& a.seen.has_text ==> b.seen.tools == a.seen.tools
    &&& a.seen.tools.no_duplicates() ==> b.seen.tools.no_duplicates()
}

proof fn lemma_adds_none(f: FragmentV)
    ensures
        adds_markers(f, f),
{
    let n = f.seen.tools.len() as int;
    assert(f.seen.tools.take(n) =~= f.seen.tools);
    assert(f.seen.tools.skip(n) =~= Seq::empty());
}

proof fn lemma_adds_tool(f: FragmentV, g: FragmentV, name: Option<Seq<char>>)
    requires
        adds_markers(f, g),
    ensures
        adds_markers(f, with_piece(g, tool_fragment(g.seen, name))),
{
    let r = with_piece(g, tool_fragment(g.seen, name));
    let n = f.seen.tools.len() as int;
    if let Some(name) = name {
        if !g.seen.has_text && name.len() > 0 && !g.seen.tools.contains(name) {
            assert(r.seen.tools == g.seen.tools.push(name));
            assert(r.seen.tools.take(n) =~= g.seen.tools.take(n));
            let before = g.seen.tools.skip(n);
            let after = r.seen.tools.skip(n);
            assert(after =~= before.push(name));
            assert(after.drop_last() =~= before);
            assert(markers(after) == markers(before) + tool_marker(name));
            if before.len() == 0 {
                assert(markers(after) =~= tool_marker(name));
            } else if let Some(t) = f.text {
                assert(t + markers(after) =~= t + markers(before) + tool_marker(name));
            }
            assert(r.text == with_markers(f.text, after));
        }
    }
}

proof fn lemma_adds_called_tools(f: FragmentV, calls: Seq<JsonV>)
    ensures
        adds_markers(f, with_called_tools(f, calls)),
    decreases calls.len(),
{
    if calls.len() == 0 {
        lemma_adds_none(f);
    } else {
        lemma_adds_called_tools(f, calls.drop_last());
        lemma_adds_tool(
            f,
            with_called_tools(f, calls.drop_last()),
            str_path2(calls.last(), "function"@, "name"@),
        );
    }
}

/// A frame adds to the log what the response says in it, and then the markers of
/// tools that were not named before. Text is remembered, reasoning is not, and once
/// there was text no tool is named.
pub proof fn law_frame_names_new_tools(format: StreamFormat, seen: SeenV, v: JsonV)
    ensures
        ({
            let f = log_fragment(format, seen, v);
            let names = named_tools(format, seen, v);
            &&& f.seen.tools == seen.tools + names
            &&& f.text == with_markers(spoken(format, v), names)
            &&& f.seen.has_text == (seen.has_text || brings_text(format, v))
            &&& f.seen.has_text ==> names.len() == 0
            &&& seen.tools.no_duplicates() ==> f.seen.tools.no_duplicates()
        }),
{
    reveal_strlit("content_block_delta");
    reveal_strlit("content_block_start");
    reveal_strlit("text_delta");
    reveal_strlit("thinking_delta");
    reveal_strlit("response.output_text.delta");
    reveal_strlit("response.reasoning_summary_text.delta");
    reveal_strlit("response.output_item.added");
    assert("content_block_delta"@[14] != "content_block_start"@[14]);
    assert("text_delta"@.len() != "thinking_delta"@.len());
    assert("response.output_text.delta"@.len() == 26);
    assert("response.reasoning_summary_text.delta"@.len() == 37);
    assert("response.output_item.added"@.len() == 26);
    assert("response.output_text.delta"@[16] != "response.output_item.added"@[16]);
    let f = log_fragment(format, seen, v);
    let said = FragmentV {
        seen: SeenV { has_text: seen.has_text || brings_text(format, v), ..seen },
        text: spoken(format, v),
    };
    lemma_adds_none(said);
    match format {
        StreamFormat::Anthropic => {
            lemma_adds_tool(said, said, str_path2(v, "content_block"@, "name"@));
        },
        StreamFormat::Chat => {
            if let Some(delta) = first_delta(v) {
                lemma_adds_called_tools(said, delta.items_at("tool_calls"@));
            }
        },
        StreamFormat::Responses => {
            lemma_adds_tool(said, said, str_path2(v, "item"@, "name"@));
        },
    }
    assert(adds_markers(said, f));
    let n = seen.tools.len() as int;
    assert(f.seen.tools =~= f.seen.tools.take(n) + f.seen.tools.skip(n));
}

/// What has been seen after a list of frames.
pub open spec fn seen_after(format: StreamFormat, frames: Seq<JsonV>) -> SeenV
    decreases frames.len(),
{
    if frames.len() == 0 {
        SeenV { has_text: false, tools: Seq::empty() }
    } else {
        log_fragment(format, seen_after(format, frames.drop_last()), frames.last()).seen
    }
}

/// All tools that a list of frames names in the log, in the order of their markers.
pub open spec fn all_named_tools(format: StreamFormat, frames: Seq<JsonV>) -> Seq<Seq<char>>
    decreases frames.len(),
{
    if frames.len() == 0 {
        Seq::empty()
    } else {
        all_named_tools(format, frames.drop_last()) + named_tools(
            format,
            seen_after(format, frames.drop_last()),
            frames.last(),
        )
    }
}

/// Over any list of frames each tool is named once at most, and none is named once
/// a frame has brought text; and that there was text is not forgotten.
pub proof fn law_tools_are_named_once_and_before_text(format: StreamFormat, frames: Seq<JsonV>, n: int)
    requires
        0 <= n <= frames.len(),
    ensures
        all_named_tools(format, frames).no_duplicates(),
        seen_after(format, frames).tools == all_named_tools(format, frames),
        seen_after(format, frames).has_text <==> exists|k: int|
            0 <= k < frames.len() && brings_text(format, #[trigger] frames[k]),
        seen_after(format, frames.take(n)).has_text ==> seen_after(format, frames).has_text && all_named_tools(
            format,
            frames,
        ) == all_named_tools(format, frames.take(n)),
    decreases frames.len(),
{
    if frames.len() > 0 {
        let front = frames.drop_last();
        let m = if n < frames.len() {
            n
        } else {
            front.len() as int
        };
        law_tools_are_named_once_and_before_text(format, front, m);
        law_frame_names_new_tools(format, seen_after(format, front), frames.last());
        assert forall|k: int| 0 <= k < front.len() implies front[k] == frames[k] by {}
        assert(frames[frames.len() - 1] == frames.last());
        if seen_after(format, front).has_text {
            let k = choose|k: int| 0 <= k < front.len() && brings_text(format, #[trigger] front[k]);
            assert(brings_text(format, frames[k]));
        }
        if exists|k: int| 0 <= k < frames.len() && brings_text(format, #[trigger] frames[k]) {
            let k = choose|k: int| 0 <= k < frames.len() && brings_text(format, #[trigger] frames[k]);
            if k < front.len() {
                assert(brings_text(format, front[k]));
            }
        }
        if n < frames.len() {
            assert(front.take(n) =~= frames.take(n));
            if seen_after(format, frames.take(n)).has_text {
                assert(all_named_tools(format, frames) =~= all_named_tools(format, front));
            }
        } else {
            lemma_whole(frames);
        }
    } else {
        lemma_whole(frames);
    }
}

/// The data of a block: those of its last data line.
pub open spec fn last_data(lines: Seq<Seq<char>>) -> Seq<char>
    decreases lines.len(),
{
    if lines.len() == 0 {
        Seq::empty()
    } else {
        match sse_field(lines.last(), "data"@) {
            Some(d) => trim(d),
            None => last_data(lines.drop_last()),
        }
    }
}

/// The state of the log.
pub struct PassthroughLog {
    pub format: StreamFormat,
    pub reader: SseReader,
    pub has_text: bool,
    pub tools: Vec<String>,
    /// What is to be written.
    pub out: Vec<StreamOut>,
}

/// The model of the state.
pub struct PassthroughV {
    pub format: StreamFormat,
    pub reader: SseReaderV,
    pub seen: SeenV,
    pub out: Seq<OutV>,
}

impl View for PassthroughLog {
    type V = PassthroughV;

    open spec fn view(&self) -> PassthroughV {
        PassthroughV {
            format: self.format,
            reader: self.reader@,
            seen: SeenV { has_text: self.has_text, tools: texts(self.tools@) },
            out: outs(self.out@),
        }
    }
}

impl PassthroughV {
    /// The state before any bytes came.
    pub open spec fn initial(format: StreamFormat) -> PassthroughV {
        PassthroughV {
            format,
            reader: SseReaderV::empty(),
            seen: SeenV { has_text: false, tools: Seq::empty() },
            out: Seq::empty(),
        }
    }

    /// The state after one frame.
    pub open spec fn with_frame(self, v: JsonV) -> PassthroughV {
        let f = log_fragment(self.format, self.seen, v);
        PassthroughV {
            seen: f.seen,
            out: match f.text {
                Some(t) => self.out.push(OutV::Log(t)),
                None => self.out,
            },
            ..self
        }
    }

    /// The state after a block.
    #[verifier::opaque]
    pub open spec fn with_block(self, block: Seq<char>) -> PassthroughV {
        let data = last_data(lines(block));
        if trim(block).len() == 0 || data.len() == 0 {
            self
        } else {
            match json_parse(data) {
                Ok(v) => self.with_frame(v),
                Err(_) => self,
            }
        }
    }

    /// The state after blocks.
    pub open spec fn with_blocks(self, blocks: Seq<Seq<char>>) -> PassthroughV
        decreases blocks.len(),
    {
        if blocks.len() == 0 {
            self
        } else {
            self.with_blocks(blocks.drop_last()).with_block(blocks.last())
        }
    }

    /// The state after bytes came.
    pub open spec fn with_bytes(self, bytes: Seq<u8>) -> PassthroughV {
        PassthroughV { reader: self.reader.fed(bytes), ..self }.with_blocks(self.reader.fed_blocks(bytes))
    }

    /// The state once what is to be written was taken.
    pub open spec fn drained(self) -> PassthroughV {
        PassthroughV { out: Seq::empty(), ..self }
    }
}

/// Nothing but text for the log comes of the bytes: what the client gets is the
/// bytes themselves.
pub proof fn law_passthrough_only_logs(s: PassthroughV, bytes: Seq<u8>)
    requires
        forall|i: int| 0 <= i < s.out.len() ==> (#[trigger] s.out[i]) is Log,
    ensures
        forall|i: int| 0 <= i < s.with_bytes(bytes).out.len() ==> (#[trigger] s.with_bytes(bytes).out[i]) is Log,
{
    lemma_blocks_only_log(
        PassthroughV { reader: s.reader.fed(bytes), ..s },
        s.reader.fed_blocks(bytes),
    );
}

proof fn lemma_blocks_only_log(s: PassthroughV, blocks: Seq<Seq<char>>)
    requires
        forall|i: int| 0 <= i < s.out.len() ==> (#[trigger] s.out[i]) is Log,
    ensures
        forall|i: int| 0 <= i < s.with_blocks(blocks).out.len() ==> (#[trigger] s.with_blocks(blocks).out[i]) is Log,
    decreases blocks.len(),
{
    if blocks.len() > 0 {
        lemma_blocks_only_log(s, blocks.drop_last());
        reveal(PassthroughV::with_block);
    }
}

fn str_at2<'a>(v: &'a Json, outer: &str, inner: &str) -> (r: Option<&'a str>)
    ensures
        opt_text(r) == str_path2(v@, outer@, inner@),
{
    match v.path2(outer, inner) {
        Some(t) => t.as_str(),
        None => None,
    }
}

/// The first element of an array, or the member of an object under `0`.
pub(crate) fn element_zero(v: &Json) -> (r: Option<&Json>)
    ensures
        opt_model(r) == first_element(v@),
{
    match v {
        Json::Array(a) => {
            assert(v@->Array_0 =~= models(a@));
            if a.len() > 0 {
                Some(&a[0])
            } else {
                None
            }
        },
        _ => v.get("0"),
    }
}

fn list_contains(list: &Vec<String>, t: &str) -> (r: bool)
    ensures
        r == texts(list@).contains(t@),
{
    let ghost all = texts(list@);
    let mut i: usize = 0;
    while i < list.len()
        invariant
            i <= list@.len(),
            all == texts(list@),
            forall|j: int| 0 <= j < i ==> #[trigger] all[j] != t@,
        decreases list@.len() - i,
    {
        if list[i].as_str().eq(t) {
            assert(all[i as int] == t@);
            return true;
        }
        i += 1;
    }
    false
}

fn opt_copy(t: Option<&str>) -> (r: Option<String>)
    ensures
        opt_string(r) == opt_text(t),
{
    match t {
        Some(t) => Some(t.to_owned()),
        None => None,
    }
}

fn find_last_data(list: &Vec<String>) -> (r: String)
    ensures
        r@ == last_data(texts(list@)),
{
    let ghost all = texts(list@);
    let mut i: usize = list.len();
    proof {
        lemma_whole(all);
    }
    while i > 0
        invariant
            i <= list@.len(),
            all == texts(list@),
            last_data(all) == last_data(all.take(i as int)),
        decreases i,
    {
        proof {
            lemma_step(all, i - 1);
        }
        i -= 1;
        if let Some(d) = strip_sse_field(list[i].as_str(), "data") {
            return trimmed(d).to_owned();
        }
    }
    String::new()
}

impl PassthroughLog {
    /// The state before any bytes came.
    pub fn new(format: StreamFormat) -> (r: PassthroughLog)
        ensures
            r@ == PassthroughV::initial(format),
    {
        broadcast use group_outs;

        let r = PassthroughLog {
            format,
            reader: SseReader::new(),
            has_text: false,
            tools: Vec::new(),
            out: Vec::new(),
        };
        assert(r@.seen.tools =~= Seq::empty());
        r
    }

    fn add_text(&mut self, t: Option<&str>) -> (r: Option<String>)
        ensures
            final(self)@ == (PassthroughV { seen: text_fragment(old(self)@.seen, opt_text(t)).seen, ..old(self)@ }),
            opt_string(r) == text_fragment(old(self)@.seen, opt_text(t)).text,
    {
        match t {
            Some(t) => {
                self.has_text = true;
                Some(t.to_owned())
            },
            None => None,
        }
    }

    fn add_tool(&mut self, name: Option<&str>) -> (r: Option<String>)
        ensures
            final(self)@ == (PassthroughV {
                seen: tool_fragment(old(self)@.seen, opt_text(name)).seen,
                ..old(self)@
            }),
            opt_string(r) == tool_fragment(old(self)@.seen, opt_text(name)).text,
    {
        broadcast use lemma_texts_push;

        match name {
            Some(name) => {
                if !self.has_text && !name.is_empty() && !list_contains(&self.tools, name) {
                    self.tools.push(name.to_owned());
                    Some(cat3("[tool_use: ", name, "]"))
                } else {
                    None
                }
            },
            None => None,
        }
    }

    fn add_calls(&mut self, so_far: Option<String>, calls: &Vec<Json>) -> (r: Option<String>)
        ensures
            ({
                let f = with_called_tools(
                    FragmentV { seen: old(self)@.seen, text: opt_string(so_far) },
                    models(calls@),
                );
                final(self)@ == (PassthroughV { seen: f.seen, ..old(self)@ }) && opt_string(r) == f.text
            }),
    {
        let ghost all = models(calls@);
        let ghost first = FragmentV { seen: self@.seen, text: opt_string(so_far) };
        let mut text = so_far;
        let mut i: usize = 0;
        while i < calls.len()
            invariant
                i <= calls@.len(),
                all == models(calls@),
                self@ == (PassthroughV { seen: self@.seen, ..old(self)@ }),
                (FragmentV { seen: self@.seen, text: opt_string(text) }) == with_called_tools(
                    first,
                    all.take(i as int),
                ),
            decreases calls@.len() - i,
        {
            proof {
                lemma_step(all, i as int);
            }
            let piece = self.add_tool(str_at2(&calls[i], "function", "name"));
            text = join_pieces(text, piece);
            i += 1;
        }
        proof {
            lemma_whole(all);
        }
        text
    }

    fn add_chat(&mut self, v: &Json) -> (r: Option<String>)
        ensures
            ({
                let f = chat_fragment(old(self)@.seen, v@);
                final(self)@ == (PassthroughV { seen: f.seen, ..old(self)@ }) && opt_string(r) == f.text
            }),
    {
        broadcast use group_models;

        let delta = match v.get("choices") {
            Some(choices) => match element_zero(choices) {
                Some(choice) => choice.get("delta"),
                None => None,
            },
            None => None,
        };
        let delta = match delta {
            Some(delta) => delta,
            None => {
                return None;
            },
        };
        let first = self.add_text(keep_full(delta.str_at("content")));
        let text = join_pieces(first, opt_copy(keep_full(delta.str_at("reasoning_content"))));
        let none: Vec<Json> = Vec::new();
        let calls = match delta.array_at("tool_calls") {
            Some(calls) => calls,
            None => &none,
        };
        self.add_calls(text, calls)
    }

    /// What a frame adds to the log.
    pub fn extract_log_fragment(&mut self, v: &Json) -> (r: Option<String>)
        ensures
            ({
                let f = log_fragment(old(self)@.format, old(self)@.seen, v@);
                final(self)@ == (PassthroughV { seen: f.seen, ..old(self)@ }) && opt_string(r) == f.text
            }),
    {
        match self.format {
            StreamFormat::Anthropic => {
                if field_is(v, "type", "content_block_delta") {
                    let kind = str_at2(v, "delta", "type");
                    if let Some(k) = kind {
                        if k.eq("text_delta") {
                            return self.add_text(str_at2(v, "delta", "text"));
                        }
                        if k.eq("thinking_delta") {
                            return opt_copy(str_at2(v, "delta", "thinking"));
                        }
                    }
                    return None;
                }
                if field_is(v, "type", "content_block_start") {
                    if let Some(k) = str_at2(v, "content_block", "type") {
                        if k.eq("tool_use") {
                            return self.add_tool(str_at2(v, "content_block", "name"));
                        }
                    }
                }
                None
            },
            StreamFormat::Chat => self.add_chat(v),
            StreamFormat::Responses => {
                if field_is(v, "type", "response.output_text.delta") {
                    return self.add_text(v.str_at("delta"));
                }
                if field_is(v, "type", "response.reasoning_summary_text.delta") {
                    return opt_copy(v.str_at("delta"));
                }
                if field_is(v, "type", "response.output_item.added") {
                    if let Some(k) = str_at2(v, "item", "type") {
                        if k.eq("function_call") {
                            return self.add_tool(str_at2(v, "item", "name"));
                        }
                    }
                }
                None
            },
        }
    }

    fn add_block(&mut self, block: &str)
        ensures
            final(self)@ == old(self)@.with_block(block@),
    {
        broadcast use group_outs;

        proof {
            reveal(PassthroughV::with_block);
        }
        if trimmed(block).is_empty() {
            return;
        }
        let data = find_last_data(&split_lines(block));
        if data.as_str().is_empty() {
            return;
        }
        if let Ok(v) = parse_json(data.as_str()) {
            if let Some(t) = self.extract_log_fragment(&v) {
                self.out.push(StreamOut::Log(t));
            }
        }
    }

    /// Reads bytes that are passed through, and gives out what they add to the
    /// log.
    pub fn push_bytes(&mut self, bytes: &[u8]) -> (r: Vec<StreamOut>)
        ensures
            outs(r@) == old(self)@.with_bytes(bytes@).out,
            final(self)@ == old(self)@.with_bytes(bytes@).drained(),
    {
        broadcast use group_outs;

        let list = self.reader.feed(bytes);
        let ghost all = texts(list@);
        let ghost s = self@;
        let mut i: usize = 0;
        while i < list.len()
            invariant
                i <= list@.len(),
                all == texts(list@),
                self@ == s.with_blocks(all.take(i as int)),
            decreases list@.len() - i,
        {
            proof {
                lemma_step(all, i as int);
            }
            self.add_block(list[i].as_str());
            i += 1;
        }
        proof {
            lemma_whole(all);
        }
        let mut r: Vec<StreamOut> = Vec::new();
        let ghost given = self.out@;
        r.append(&mut self.out);
        assert(self.out@ =~= Seq::empty());
        assert(r@ =~= given);
        r
    }
}

fn keep_full(t: Option<&str>) -> (r: Option<&str>)
    ensures
        opt_text(r) == not_empty(opt_text(t)),
{
    match t {
        Some(s) => if s.is_empty() {
            None
        } else {
            Some(s)
        },
        None => None,
    }
}

fn join_pieces(a: Option<String>, b: Option<String>) -> (r: Option<String>)
    ensures
        opt_string(r) == match (opt_string(a), opt_string(b)) {
            (Some(x), Some(y)) => Some(x + y),
            (None, y) => y,
            (x, None) => x,
        },
{
    match a {
        Some(x) => match b {
            Some(y) => Some(cat(x.as_str(), y.as_str())),
            None => Some(x),
        },
        None => b,
    }
}

} // verus!
