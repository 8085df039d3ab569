//! One chunk of a streamed Chat response.

use vstd::prelude::*;
use crate::json::{Json, JsonV, lemma_step, lemma_whole, models, opt_model, opt_string, opt_u64, u64_of};

verus! {

/// A streamed chunk: the first choice is the one that counts.
pub struct OpenAIStreamChunk {
    pub id: String,
    pub choices: Vec<StreamChoice>,
    pub usage: Option<Usage>,
}

pub struct StreamChoice {
    pub delta: Delta,
    pub finish_reason: Option<String>,
}

pub struct Delta {
    pub content: Option<String>,
    /// OpenRouter and Kimi use `reasoning`, DeepSeek uses `reasoning_content`.
    pub reasoning: Option<String>,
    pub tool_calls: Option<Vec<DeltaToolCall>>,
}

/// A part of a tool call, with what its `function` member holds.
pub struct DeltaToolCall {
    pub index: u64,
    pub id: Option<String>,
    pub name: Option<String>,
    pub arguments: Option<String>,
}

#[derive(Clone, Copy)]
pub struct Usage {
    pub prompt_tokens: u32,
    pub completion_tokens: u32,
    pub prompt_tokens_details: Option<PromptTokensDetails>,
    /// Some compatible servers return Anthropic-style cache fields directly.
    pub cache_read_input_tokens: Option<u32>,
    pub cache_creation_input_tokens: Option<u32>,
}

#[derive(Clone, Copy)]
pub struct PromptTokensDetails {
    pub cached_tokens: u32,
    pub cache_write_tokens: u32,
}

/// The model of a chunk.
pub struct ChunkV {
    pub id: Seq<char>,
    pub choices: Seq<ChoiceV>,
    pub usage: Option<Usage>,
}

/// The model of a choice.
pub struct ChoiceV {
    pub content: Option<Seq<char>>,
    pub reasoning: Option<Seq<char>>,
    pub calls: Option<Seq<CallV>>,
    pub finish_reason: Option<Seq<char>>,
}

/// The model of a part of a tool call.
pub struct CallV {
    pub index: u64,
    pub id: Option<Seq<char>>,
    pub name: Option<Seq<char>>,
    pub arguments: Option<Seq<char>>,
}

impl View for DeltaToolCall {
    type V = CallV;

    open spec fn view(&self) -> CallV {
        CallV {
            index: self.index,
            id: opt_string(self.id),
            name: opt_string(self.name),
            arguments: opt_string(self.arguments),
        }
    }
}

/// The models of a list of parts of tool calls.
pub open spec fn calls_view(v: Seq<DeltaToolCall>) -> Seq<CallV> {
    Seq::new(v.len(), |i: int| v[i]@)
}

impl View for StreamChoice {
    type V = ChoiceV;

    open spec fn view(&self) -> ChoiceV {
        ChoiceV {
            content: opt_string(self.delta.content),
            reasoning: opt_string(self.delta.reasoning),
            calls: match self.delta.tool_calls {
                Some(v) => Some(calls_view(v@)),
                None => None,
            },
            finish_reason: opt_string(self.finish_reason),
        }
    }
}

impl View for OpenAIStreamChunk {
    type V = ChunkV;

    open spec fn view(&self) -> ChunkV {
        ChunkV {
            id: self.id@,
            choices: Seq::new(self.choices@.len(), |i: int| self.choices@[i]@),
            usage: self.usage,
        }
    }
}

/// A record is an object, or an array of at most `n` fields in order.
pub open spec fn is_record(v: JsonV, n: int) -> bool {
    match v {
        JsonV::Object(_) => true,
        JsonV::Array(a) => a.len() <= n,
        _ => false,
    }
}

/// The field of a record, by its name in an object and its place in an array.
pub open spec fn field(v: JsonV, name: Seq<char>, place: int) -> Option<JsonV> {
    match v {
        JsonV::Array(a) => if place < a.len() {
            Some(a[place])
        } else {
            None
        },
        _ => v.get(name),
    }
}

/// An optional string: absent or null is none, and anything else must be a
/// string.
pub open spec fn read_text(v: Option<JsonV>) -> Option<Option<Seq<char>>> {
    match v {
        None => Some(None),
        Some(JsonV::Null) => Some(None),
        Some(JsonV::Text(t)) => Some(Some(t)),
        Some(_) => None,
    }
}

/// A number of 32 bits.
pub open spec fn read_u32(v: JsonV) -> Option<u32> {
    match v.as_u64() {
        Some(n) => if n <= u32::MAX {
            Some(n as u32)
        } else {
            None
        },
        None => None,
    }
}

/// A number that is zero where it is absent.
pub open spec fn read_count(v: Option<JsonV>) -> Option<u32> {
    match v {
        None => Some(0),
        Some(v) => read_u32(v),
    }
}

/// An optional number: absent or null is none.
pub open spec fn read_opt_count(v: Option<JsonV>) -> Option<Option<u32>> {
    match v {
        None => Some(None),
        Some(JsonV::Null) => Some(None),
        Some(v) => match read_u32(v) {
            Some(n) => Some(Some(n)),
            None => None,
        },
    }
}

/// The details of a usage.
pub open spec fn read_details(v: Option<JsonV>) -> Option<Option<PromptTokensDetails>> {
    match v {
        None => Some(None),
        Some(JsonV::Null) => Some(None),
        Some(v) => if is_record(v, 2) {
            match (read_count(field(v, "cached_tokens"@, 0)), read_count(field(v, "cache_write_tokens"@, 1))) {
                (Some(cached_tokens), Some(cache_write_tokens)) => Some(
                    Some(PromptTokensDetails { cached_tokens, cache_write_tokens }),
                ),
                _ => None,
            }
        } else {
            None
        },
    }
}

/// A usage.
pub open spec fn read_usage(v: Option<JsonV>) -> Option<Option<Usage>> {
    match v {
        None => Some(None),
        Some(JsonV::Null) => Some(None),
        Some(v) => if is_record(v, 5) {
            let prompt = read_count(field(v, "prompt_tokens"@, 0));
            let completion = read_count(field(v, "completion_tokens"@, 1));
            let details = read_details(field(v, "prompt_tokens_details"@, 2));
            let read = read_opt_count(field(v, "cache_read_input_tokens"@, 3));
            let created = read_opt_count(field(v, "cache_creation_input_tokens"@, 4));
            if prompt is Some && completion is Some && details is Some && read is Some && created is Some {
                Some(
                    Some(
                        Usage {
                            prompt_tokens: prompt->0,
                            completion_tokens: completion->0,
                            prompt_tokens_details: details->0,
                            cache_read_input_tokens: read->0,
                            cache_creation_input_tokens: created->0,
                        },
                    ),
                )
            } else {
                None
            }
        } else {
            None
        },
    }
}

/// The name and the arguments of a function.
pub open spec fn read_function(v: Option<JsonV>) -> Option<(Option<Seq<char>>, Option<Seq<char>>)> {
    match v {
        None => Some((None, None)),
        Some(JsonV::Null) => Some((None, None)),
        Some(v) => if is_record(v, 2) {
            match (read_text(field(v, "name"@, 0)), read_text(field(v, "arguments"@, 1))) {
                (Some(name), Some(arguments)) => Some((name, arguments)),
                _ => None,
            }
        } else {
            None
        },
    }
}

/// A part of a tool call.
pub open spec fn read_call(v: JsonV) -> Option<CallV> {
    let index = opt_u64(field(v, "index"@, 0));
    let id = read_text(field(v, "id"@, 1));
    let kind = read_text(field(v, "type"@, 2));
    let function = read_function(field(v, "function"@, 3));
    if is_record(v, 4) && index is Some && id is Some && kind is Some && function is Some {
        let (name, arguments) = function->0;
        Some(CallV { index: index->0, id: id->0, name, arguments })
    } else {
        None
    }
}

/// A list of parts of tool calls.
pub open spec fn read_calls(items: Seq<JsonV>) -> Option<Seq<CallV>>
    decreases items.len(),
{
    if items.len() == 0 {
        Some(Seq::empty())
    } else {
        match (read_calls(items.drop_last()), read_call(items.last())) {
            (Some(front), Some(last)) => Some(front.push(last)),
            _ => None,
        }
    }
}

/// The tool calls of a delta.
pub open spec fn read_tool_calls(v: Option<JsonV>) -> Option<Option<Seq<CallV>>> {
    match v {
        None => Some(None),
        Some(JsonV::Null) => Some(None),
        Some(JsonV::Array(items)) => match read_calls(items) {
            Some(calls) => Some(Some(calls)),
            None => None,
        },
        Some(_) => None,
    }
}

/// The reasoning of a delta, which has one of two names and not both.
pub open spec fn read_reasoning(v: JsonV) -> Option<Option<Seq<char>>> {
    match v {
        JsonV::Array(_) => read_text(field(v, "reasoning"@, 1)),
        _ => match (v.get("reasoning"@), v.get("reasoning_content"@)) {
            (Some(_), Some(_)) => None,
            (Some(t), None) => read_text(Some(t)),
            (None, t) => read_text(t),
        },
    }
}

/// A choice.
pub open spec fn read_choice(v: JsonV) -> Option<ChoiceV> {
    let finish = read_text(field(v, "finish_reason"@, 1));
    match field(v, "delta"@, 0) {
        Some(delta) => {
            let content = read_text(field(delta, "content"@, 0));
            let reasoning = read_reasoning(delta);
            let calls = read_tool_calls(field(delta, "tool_calls"@, 2));
            let role = read_text(field(delta, "role"@, 3));
            if is_record(v, 2) && is_record(delta, 4) && finish is Some && content is Some && reasoning is Some
                && calls is Some && role is Some {
                Some(
                    ChoiceV {
                        content: content->0,
                        reasoning: reasoning->0,
                        calls: calls->0,
                        finish_reason: finish->0,
                    },
                )
            } else {
                None
            }
        },
        None => None,
    }
}

/// A list of choices.
pub open spec fn read_choices(items: Seq<JsonV>) -> Option<Seq<ChoiceV>>
    decreases items.len(),
{
    if items.len() == 0 {
        Some(Seq::empty())
    } else {
        match (read_choices(items.drop_last()), read_choice(items.last())) {
            (Some(front), Some(last)) => Some(front.push(last)),
            _ => None,
        }
    }
}

/// A chunk; none where a member is of the wrong type.
pub open spec fn read_chunk(v: JsonV) -> Option<ChunkV> {
    let id = match field(v, "id"@, 0) {
        None => Some(Seq::<char>::empty()),
        Some(t) => t.as_str(),
    };
    let choices = match field(v, "choices"@, 1) {
        None => Some(Seq::<ChoiceV>::empty()),
        Some(JsonV::Array(items)) => read_choices(items),
        Some(_) => None,
    };
    let usage = read_usage(field(v, "usage"@, 2));
    if is_record(v, 3) && id is Some && choices is Some && usage is Some {
        Some(ChunkV { id: id->0, choices: choices->0, usage: usage->0 })
    } else {
        None
    }
}

fn has_shape(v: &Json, n: usize) -> (r: bool)
    ensures
        r == is_record(v@, n as int),
{
    match v {
        Json::Object(_) => true,
        Json::Array(a) => {
            assert(v@->Array_0.len() == a@.len());
            a.len() <= n
        },
        _ => false,
    }
}

fn get_field<'a>(v: &'a Json, name: &str, place: usize) -> (r: Option<&'a Json>)
    ensures
        opt_model(r) == field(v@, name@, place as int),
{
    match v {
        Json::Array(a) => {
            assert(v@->Array_0 =~= models(a@));
            if place < a.len() {
                Some(&a[place])
            } else {
                None
            }
        },
        _ => v.get(name),
    }
}

fn get_text(v: Option<&Json>) -> (r: Option<Option<String>>)
    ensures
        match r {
            Some(o) => read_text(opt_model(v)) == Some(opt_string(o)),
            None => read_text(opt_model(v)) is None,
        },
{
    match v {
        None => Some(None),
        Some(j) => match j {
            Json::Null => Some(None),
            Json::Text(t) => Some(Some(t.clone())),
            _ => None,
        },
    }
}

fn get_u32(v: &Json) -> (r: Option<u32>)
    ensures
        r == read_u32(v@),
{
    match v.as_u64() {
        Some(n) => if n <= 0xffff_ffff {
            Some(n as u32)
        } else {
            None
        },
        None => None,
    }
}

fn get_count(v: Option<&Json>) -> (r: Option<u32>)
    ensures
        r == read_count(opt_model(v)),
{
    match v {
        None => Some(0),
        Some(v) => get_u32(v),
    }
}

fn get_opt_count(v: Option<&Json>) -> (r: Option<Option<u32>>)
    ensures
        r == read_opt_count(opt_model(v)),
{
    match v {
        None => Some(None),
        Some(j) => match j {
            Json::Null => Some(None),
            _ => match get_u32(j) {
                Some(n) => Some(Some(n)),
                None => None,
            },
        },
    }
}

fn get_details(v: Option<&Json>) -> (r: Option<Option<PromptTokensDetails>>)
    ensures
        r == read_details(opt_model(v)),
{
    match v {
        None => Some(None),
        Some(j) => match j {
            Json::Null => Some(None),
            _ => {
                if !has_shape(j, 2) {
                    return None;
                }
                match get_count(get_field(j, "cached_tokens", 0)) {
                    Some(cached_tokens) => match get_count(get_field(j, "cache_write_tokens", 1)) {
                        Some(cache_write_tokens) => Some(
                            Some(PromptTokensDetails { cached_tokens, cache_write_tokens }),
                        ),
                        None => None,
                    },
                    None => None,
                }
            },
        },
    }
}

fn get_usage(v: Option<&Json>) -> (r: Option<Option<Usage>>)
    ensures
        r == read_usage(opt_model(v)),
{
    match v {
        None => Some(None),
        Some(j) => match j {
            Json::Null => Some(None),
            _ => {
                if !has_shape(j, 5) {
                    return None;
                }
                let prompt = get_count(get_field(j, "prompt_tokens", 0));
                let completion = get_count(get_field(j, "completion_tokens", 1));
                let details = get_details(get_field(j, "prompt_tokens_details", 2));
                let read = get_opt_count(get_field(j, "cache_read_input_tokens", 3));
                let created = get_opt_count(get_field(j, "cache_creation_input_tokens", 4));
                match (prompt, completion, details, read, created) {
                    (
                        Some(prompt_tokens),
                        Some(completion_tokens),
                        Some(prompt_tokens_details),
                        Some(cache_read_input_tokens),
                        Some(cache_creation_input_tokens),
                    ) => Some(
                        Some(
                            Usage {
                                prompt_tokens,
                                completion_tokens,
                                prompt_tokens_details,
                                cache_read_input_tokens,
                                cache_creation_input_tokens,
                            },
                        ),
                    ),
                    _ => None,
                }
            },
        },
    }
}

fn get_function(v: Option<&Json>) -> (r: Option<(Option<String>, Option<String>)>)
    ensures
        match r {
            Some(f) => read_function(opt_model(v)) == Some((opt_string(f.0), opt_string(f.1))),
            None => read_function(opt_model(v)) is None,
        },
{
    match v {
        None => Some((None, None)),
        Some(j) => match j {
            Json::Null => Some((None, None)),
            _ => {
                if !has_shape(j, 2) {
                    return None;
                }
                match get_text(get_field(j, "name", 0)) {
                    Some(name) => match get_text(get_field(j, "arguments", 1)) {
                        Some(arguments) => Some((name, arguments)),
                        None => None,
                    },
                    None => None,
                }
            },
        },
    }
}

fn get_call(v: &Json) -> (r: Option<DeltaToolCall>)
    ensures
        match r {
            Some(c) => read_call(v@) == Some(c@),
            None => read_call(v@) is None,
        },
{
    if !has_shape(v, 4) {
        return None;
    }
    let index = u64_of(get_field(v, "index", 0));
    let id = get_text(get_field(v, "id", 1));
    let kind = get_text(get_field(v, "type", 2));
    let function = get_function(get_field(v, "function", 3));
    match (index, id, kind, function) {
        (Some(index), Some(id), Some(_), Some((name, arguments))) => Some(
            DeltaToolCall { index, id, name, arguments },
        ),
        _ => None,
    }
}

fn get_calls(items: &Vec<Json>) -> (r: Option<Vec<DeltaToolCall>>)
    ensures
        match r {
            Some(v) => read_calls(models(items@)) == Some(calls_view(v@)),
            None => read_calls(models(items@)) is None,
        },
{
    let ghost all = models(items@);
    let mut out: Vec<DeltaToolCall> = Vec::new();
    let mut i: usize = 0;
    assert(calls_view(out@) =~= Seq::empty());
    while i < items.len()
        invariant
            i <= items@.len(),
            all == models(items@),
            read_calls(all.take(i as int)) == Some(calls_view(out@)),
        decreases items@.len() - i,
    {
        proof {
            lemma_step(all, i as int);
        }
        match get_call(&items[i]) {
            Some(c) => {
                let ghost before = calls_view(out@);
                out.push(c);
                assert(calls_view(out@) =~= before.push(c@));
            },
            None => {
                proof {
                    lemma_no_calls(all, i + 1);
                }
                return None;
            },
        }
        i += 1;
    }
    proof {
        lemma_whole(all);
    }
    Some(out)
}

proof fn lemma_no_calls(items: Seq<JsonV>, n: int)
    requires
        0 <= n <= items.len(),
        read_calls(items.take(n)) is None,
    ensures
        read_calls(items) is None,
    decreases items.len() - n,
{
    if n < items.len() {
        lemma_step(items, n);
        lemma_no_calls(items, n + 1);
    } else {
        lemma_whole(items);
    }
}

fn get_tool_calls(v: Option<&Json>) -> (r: Option<Option<Vec<DeltaToolCall>>>)
    ensures
        match r {
            Some(Some(c)) => read_tool_calls(opt_model(v)) == Some(Some(calls_view(c@))),
            Some(None) => read_tool_calls(opt_model(v)) == Some(None::<Seq<CallV>>),
            None => read_tool_calls(opt_model(v)) is None,
        },
{
    match v {
        None => Some(None),
        Some(j) => match j {
            Json::Null => Some(None),
            Json::Array(items) => {
                assert(j@->Array_0 =~= models(items@));
                match get_calls(items) {
                    Some(calls) => Some(Some(calls)),
                    None => None,
                }
            },
            _ => None,
        },
    }
}

fn get_reasoning(v: &Json) -> (r: Option<Option<String>>)
    ensures
        match r {
            Some(o) => read_reasoning(v@) == Some(opt_string(o)),
            None => read_reasoning(v@) is None,
        },
{
    match v {
        Json::Array(_) => get_text(get_field(v, "reasoning", 1)),
        _ => match v.get("reasoning") {
            Some(t) => match v.get("reasoning_content") {
                Some(_) => None,
                None => get_text(Some(t)),
            },
            None => get_text(v.get("reasoning_content")),
        },
    }
}

fn get_choice(v: &Json) -> (r: Option<StreamChoice>)
    ensures
        match r {
            Some(c) => read_choice(v@) == Some(c@),
            None => read_choice(v@) is None,
        },
{
    if !has_shape(v, 2) {
        return None;
    }
    let finish = get_text(get_field(v, "finish_reason", 1));
    let delta = match get_field(v, "delta", 0) {
        Some(delta) => delta,
        None => {
            return None;
        },
    };
    if !has_shape(delta, 4) {
        return None;
    }
    let content = get_text(get_field(delta, "content", 0));
    let reasoning = get_reasoning(delta);
    let calls = get_tool_calls(get_field(delta, "tool_calls", 2));
    let role = get_text(get_field(delta, "role", 3));
    match (finish, content, reasoning, calls, role) {
        (Some(finish_reason), Some(content), Some(reasoning), Some(tool_calls), Some(_)) => Some(
            StreamChoice { delta: Delta { content, reasoning, tool_calls }, finish_reason },
        ),
        _ => None,
    }
}

fn get_choices(items: &Vec<Json>) -> (r: Option<Vec<StreamChoice>>)
    ensures
        match r {
            Some(v) => read_choices(models(items@)) == Some(Seq::new(v@.len(), |i: int| v@[i]@)),
            None => read_choices(models(items@)) is None,
        },
{
    let ghost all = models(items@);
    let mut out: Vec<StreamChoice> = Vec::new();
    let mut i: usize = 0;
    let ghost mut seen: Seq<ChoiceV> = Seq::empty();
    while i < items.len()
        invariant
            i <= items@.len(),
            all == models(items@),
            seen.len() == out@.len(),
            forall|j: int| 0 <= j < seen.len() ==> #[trigger] seen[j] == out@[j]@,
            read_choices(all.take(i as int)) == Some(seen),
        decreases items@.len() - i,
    {
        proof {
            lemma_step(all, i as int);
        }
        match get_choice(&items[i]) {
            Some(c) => {
                proof {
                    seen = seen.push(c@);
                }
                out.push(c);
            },
            None => {
                proof {
                    lemma_no_choices(all, i + 1);
                }
                return None;
            },
        }
        i += 1;
    }
    proof {
        lemma_whole(all);
        assert(seen =~= Seq::new(out@.len(), |i: int| out@[i]@));
    }
    Some(out)
}

proof fn lemma_no_choices(items: Seq<JsonV>, n: int)
    requires
        0 <= n <= items.len(),
        read_choices(items.take(n)) is None,
    ensures
        read_choices(items) is None,
    decreases items.len() - n,
{
    if n < items.len() {
        lemma_step(items, n);
        lemma_no_choices(items, n + 1);
    } else {
        lemma_whole(items);
    }
}

/// A chunk from its document; none where a member is of the wrong type.
pub fn chunk_from_json(v: &Json) -> (r: Option<OpenAIStreamChunk>)
    ensures
        match r {
            Some(c) => read_chunk(v@) == Some(c@),
            None => read_chunk(v@) is None,
        },
{
    if !has_shape(v, 3) {
        return None;
    }
    let id = match get_field(v, "id", 0) {
        None => String::new(),
        Some(t) => match t.as_str() {
            Some(t) => t.to_owned(),
            None => {
                return None;
            },
        },
    };
    let choices = match get_field(v, "choices", 1) {
        None => {
            let none: Vec<StreamChoice> = Vec::new();
            assert(Seq::new(none@.len(), |i: int| none@[i]@) =~= Seq::empty());
            none
        },
        Some(j) => match j.as_array() {
            Some(items) => match get_choices(items) {
                Some(choices) => choices,
                None => {
                    return None;
                },
            },
            None => {
                return None;
            },
        },
    };
    match get_usage(get_field(v, "usage", 2)) {
        Some(usage) => {
            let c = OpenAIStreamChunk { id, choices, usage };
            assert(c@.choices =~= Seq::new(choices@.len(), |i: int| choices@[i]@));
            Some(c)
        },
        None => None,
    }
}

} // verus!
