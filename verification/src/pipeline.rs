//! From a local entry to the upstream and back: which conversions a request and
//! its response go through.
//!
//! Formats that have no direct conversion are bridged by way of the Anthropic
//! format.

use vstd::prelude::*;
use vstd::string::*;
use crate::convert::{anthropic_to_openai_with_reasoning_content, bool_at, chat_request, inject_openai_stream_include_usage, opt_bool, with_stream_usage};
use crate::convert_response::{anthropic_response, openai_to_anthropic, outcome};
use crate::convert_reverse::{anthropic_request, anthropic_request_outcome, anthropic_to_chat_response, chat_response, chat_to_anthropic_request};
use crate::error::{Error, ErrorV, LocalEntry, error_body};
use crate::forward::{PolicyV, UpstreamReasoningPolicy, UpstreamType, apply_reasoning_policy, under_policy};
use crate::json::{Json, JsonV};
use crate::media_sanitizer::{is_confirmed_text_only_model, is_text_only};
use crate::responses_response::{anthropic_from_responses, responses_to_anthropic};
use crate::responses_reverse::{anthropic_to_responses_response, request_of_responses, responses_response, responses_to_anthropic_request};
use crate::server::{asks_for_reasoning, reasoning_requested_for_entry};
use crate::text::{cat, cat3};
use crate::transform_responses::{anthropic_to_responses, responses_request};

verus! {

/// The upstream format that needs no conversion for an entry.
pub open spec fn same_format(entry: LocalEntry) -> UpstreamType {
    match entry {
        LocalEntry::AnthropicMessages => UpstreamType::AnthropicMessages,
        LocalEntry::OaiChat => UpstreamType::OaiChat,
        LocalEntry::OaiResponses => UpstreamType::OaiResponses,
    }
}

/// The request of a client in the Anthropic format.
pub open spec fn as_anthropic(body: JsonV, entry: LocalEntry) -> Result<JsonV, ErrorV> {
    match entry {
        LocalEntry::AnthropicMessages => Ok(body),
        LocalEntry::OaiChat => anthropic_request_outcome(body),
        LocalEntry::OaiResponses => Ok(request_of_responses(body)),
    }
}

/// The request of a client in the format of the upstream.
pub open spec fn converted_request(body: JsonV, entry: LocalEntry, upstream: UpstreamType) -> Result<JsonV, ErrorV> {
    if upstream == same_format(entry) {
        Ok(body)
    } else {
        match as_anthropic(body, entry) {
            Ok(a) => match upstream {
                UpstreamType::AnthropicMessages => Ok(a),
                UpstreamType::OaiChat => Ok(chat_request(a, true)),
                UpstreamType::OaiResponses => Ok(responses_request(a)),
            },
            Err(e) => Err(e),
        }
    }
}

/// What a converted request gets besides, by the format of the upstream.
pub open spec fn finished_request(body: JsonV, upstream: UpstreamType, stream: bool) -> JsonV {
    match upstream {
        UpstreamType::AnthropicMessages => body,
        UpstreamType::OaiChat => with_stream_usage(body),
        UpstreamType::OaiResponses => if stream {
            body.set("stream"@, JsonV::Bool(true))
        } else {
            body
        },
    }
}

/// The request that goes out to the upstream: with the configured model in it, in
/// the format of the upstream, and under the policy for reasoning.
pub open spec fn outgoing_request(
    body: JsonV,
    entry: LocalEntry,
    upstream: UpstreamType,
    model: Seq<char>,
    policy: PolicyV,
    stream: bool,
) -> Result<JsonV, ErrorV> {
    let stamped = body.set("model"@, JsonV::Text(model));
    let wanted = asks_for_reasoning(stamped, entry);
    match converted_request(stamped, entry, upstream) {
        Ok(v) => {
            let ruled = under_policy(v, upstream, policy, wanted);
            Ok(
                if upstream == same_format(entry) {
                    ruled
                } else {
                    finished_request(ruled, upstream, stream)
                },
            )
        },
        Err(e) => Err(e),
    }
}

/// The response of the upstream in the Anthropic format.
pub open spec fn reply_as_anthropic(reply: JsonV, upstream: UpstreamType, model: Seq<char>) -> Result<JsonV, ErrorV> {
    match upstream {
        UpstreamType::AnthropicMessages => Ok(reply),
        UpstreamType::OaiChat => anthropic_response(reply, model),
        UpstreamType::OaiResponses => anthropic_from_responses(reply, model),
    }
}

/// The response to the client.
pub open spec fn converted_reply(
    reply: JsonV,
    entry: LocalEntry,
    upstream: UpstreamType,
    model: Seq<char>,
) -> Result<JsonV, ErrorV> {
    if upstream == same_format(entry) {
        Ok(reply)
    } else {
        match reply_as_anthropic(reply, upstream, model) {
            Ok(a) => match entry {
                LocalEntry::AnthropicMessages => Ok(a),
                LocalEntry::OaiChat => Ok(chat_response(a, model)),
                LocalEntry::OaiResponses => Ok(responses_response(a, model)),
            },
            Err(e) => Err(e),
        }
    }
}

/// What the log says of a response that was not streamed.
pub open spec fn reply_note(out: JsonV, entry: LocalEntry, upstream: UpstreamType, model: Seq<char>) -> Seq<char> {
    if upstream == same_format(entry) {
        "stop_reason=passthrough ("@ + model + ")"@
    } else if entry == LocalEntry::AnthropicMessages {
        "stop_reason="@ + out.str_or("stop_reason"@, "?"@)
    } else {
        "ok"@
    }
}

/// Whether entry and upstream have the same format.
pub fn is_passthrough(entry: LocalEntry, upstream: UpstreamType) -> (r: bool)
    ensures
        r == (upstream == same_format(entry)),
{
    match entry {
        LocalEntry::AnthropicMessages => upstream == UpstreamType::AnthropicMessages,
        LocalEntry::OaiChat => upstream == UpstreamType::OaiChat,
        LocalEntry::OaiResponses => upstream == UpstreamType::OaiResponses,
    }
}

fn convert_request(body: Json, entry: LocalEntry, upstream: UpstreamType) -> (r: Result<Json, Error>)
    ensures
        outcome(r) == converted_request(body@, entry, upstream),
{
    if is_passthrough(entry, upstream) {
        return Ok(body);
    }
    let mid = match entry {
        LocalEntry::AnthropicMessages => body,
        LocalEntry::OaiChat => match chat_to_anthropic_request(&body) {
            Ok(v) => v,
            Err(e) => {
                return Err(e);
            },
        },
        LocalEntry::OaiResponses => match responses_to_anthropic_request(&body) {
            Ok(v) => v,
            Err(e) => {
                return Err(e);
            },
        },
    };
    match upstream {
        UpstreamType::AnthropicMessages => Ok(mid),
        UpstreamType::OaiChat => anthropic_to_openai_with_reasoning_content(&mid, true),
        UpstreamType::OaiResponses => anthropic_to_responses(&mid),
    }
}

/// The request that goes out to the upstream for the request of a client. `model`
/// is the configured model, which takes the place of the one asked for.
pub fn prepare_request(
    body: Json,
    entry: LocalEntry,
    upstream: UpstreamType,
    model: &str,
    policy: &UpstreamReasoningPolicy,
    stream: bool,
) -> (r: Result<Json, Error>)
    requires
        body@ is Object || body@ is Null,
    ensures
        outcome(r) == outgoing_request(body@, entry, upstream, model@, policy@, stream),
{
    let stamped = body.set("model", Json::text(model));
    let wanted = reasoning_requested_for_entry(&stamped, entry);
    let converted = match convert_request(stamped, entry, upstream) {
        Ok(v) => v,
        Err(e) => {
            return Err(e);
        },
    };
    let ruled = apply_reasoning_policy(converted, upstream, policy, wanted);
    if is_passthrough(entry, upstream) {
        return Ok(ruled);
    }
    match upstream {
        UpstreamType::AnthropicMessages => Ok(ruled),
        UpstreamType::OaiChat => Ok(inject_openai_stream_include_usage(ruled)),
        UpstreamType::OaiResponses => if stream {
            Ok(ruled.set("stream", Json::Bool(true)))
        } else {
            Ok(ruled)
        },
    }
}

/// The response to the client for a whole response of the upstream, and what the
/// log says of it. `model` is the model that the client asked for.
pub fn convert_reply(reply: Json, entry: LocalEntry, upstream: UpstreamType, model: &str) -> (r: Result<
    (Json, String),
    Error,
>)
    ensures
        match (r, converted_reply(reply@, entry, upstream, model@)) {
            (Ok(a), Ok(b)) => a.0@ == b && a.1@ == reply_note(b, entry, upstream, model@),
            (Err(a), Err(b)) => a@ == b,
            _ => false,
        },
{
    if is_passthrough(entry, upstream) {
        let note = cat3("stop_reason=passthrough (", model, ")");
        return Ok((reply, note));
    }
    let mid = match upstream {
        UpstreamType::AnthropicMessages => reply,
        UpstreamType::OaiChat => match openai_to_anthropic(&reply, model) {
            Ok(v) => v,
            Err(e) => {
                return Err(e);
            },
        },
        UpstreamType::OaiResponses => match responses_to_anthropic(&reply, model) {
            Ok(v) => v,
            Err(e) => {
                return Err(e);
            },
        },
    };
    match entry {
        LocalEntry::AnthropicMessages => {
            let note = cat("stop_reason=", mid.str_or("stop_reason", "?"));
            Ok((mid, note))
        },
        LocalEntry::OaiChat => match anthropic_to_chat_response(&mid, model) {
            Ok(v) => Ok((v, "ok".to_owned())),
            Err(e) => Err(e),
        },
        LocalEntry::OaiResponses => match anthropic_to_responses_response(&mid, model) {
            Ok(v) => Ok((v, "ok".to_owned())),
            Err(e) => Err(e),
        },
    }
}

/// Whether a request asks for a stream.
pub fn wants_stream(body: &Json) -> (r: bool)
    ensures
        r == (opt_bool(body@.get("stream"@)) == Some(true)),
{
    bool_at(body, "stream") == Some(true)
}

/// The model that a request asks for.
pub fn requested_model(body: &Json) -> (r: &str)
    ensures
        r@ == body@.str_or("model"@, "unknown"@),
{
    body.str_or("model", "unknown")
}

/// What is done about the images of a request.
#[derive(Debug, Clone, Copy, PartialEq, Eq, Structural)]
pub enum MediaPlan {
    /// They go to the upstream as they are.
    PassThrough,
    /// A vision model describes them.
    Describe,
    /// A marker takes their place.
    Strip,
}

/// What is done about the images of a request, by the configuration: only a model
/// that takes text only needs anything done.
pub open spec fn media_plan(supplement: bool, model: Seq<char>, has_vision: bool) -> MediaPlan {
    if !supplement || !is_text_only(model) {
        MediaPlan::PassThrough
    } else if has_vision {
        MediaPlan::Describe
    } else {
        MediaPlan::Strip
    }
}

/// What is done about the images of a request, by the configuration.
pub fn plan_media(supplement: bool, model: &str, has_vision: bool) -> (r: MediaPlan)
    ensures
        r == media_plan(supplement, model@, has_vision),
{
    if !supplement || !is_confirmed_text_only_model(model) {
        MediaPlan::PassThrough
    } else if has_vision {
        MediaPlan::Describe
    } else {
        MediaPlan::Strip
    }
}

/// The key of the model is none of the other keys of a request.
proof fn lemma_model_key()
    ensures
        "model"@ != "messages"@,
        "model"@ != "max_completion_tokens"@,
        "model"@ != "max_tokens"@,
        "model"@ != "temperature"@,
        "model"@ != "top_p"@,
        "model"@ != "stop"@,
        "model"@ != "stream"@,
        "model"@ != "reasoning_effort"@,
        "model"@ != "tools"@,
        "model"@ != "tool_choice"@,
        "model"@ != "instructions"@,
        "model"@ != "input"@,
        "model"@ != "max_output_tokens"@,
        "model"@ != "reasoning"@,
        "model"@ != "thinking"@,
        "model"@ != "stream_options"@,
        "model"@ != "system"@,
        "model"@ != "stop_sequences"@,
{
    reveal_strlit("model");
    reveal_strlit("messages");
    reveal_strlit("max_completion_tokens");
    reveal_strlit("max_tokens");
    reveal_strlit("temperature");
    reveal_strlit("top_p");
    reveal_strlit("stop");
    reveal_strlit("stream");
    reveal_strlit("reasoning_effort");
    reveal_strlit("tools");
    reveal_strlit("tool_choice");
    reveal_strlit("instructions");
    reveal_strlit("input");
    reveal_strlit("max_output_tokens");
    reveal_strlit("reasoning");
    reveal_strlit("thinking");
    reveal_strlit("stream_options");
    reveal_strlit("system");
    reveal_strlit("stop_sequences");
    assert("model"@.len() == 5 && "model"@[0] == 'm');
    assert("messages"@.len() != 5);
    assert("max_completion_tokens"@.len() != 5);
    assert("max_tokens"@.len() != 5);
    assert("temperature"@.len() != 5);
    assert("top_p"@[0] != 'm');
    assert("stop"@.len() != 5);
    assert("stream"@.len() != 5);
    assert("reasoning_effort"@.len() != 5);
    assert("tools"@[0] != 'm');
    assert("tool_choice"@.len() != 5);
    assert("instructions"@.len() != 5);
    assert("input"@[0] != 'm');
    assert("max_output_tokens"@.len() != 5);
    assert("reasoning"@.len() != 5);
    assert("thinking"@.len() != 5);
    assert("stream_options"@.len() != 5);
    assert("system"@.len() != 5);
    assert("stop_sequences"@.len() != 5);
}

proof fn lemma_chat_request_model(body: JsonV)
    ensures
        chat_request(body, true).str_at("model"@) == body.str_at("model"@),
{
    lemma_model_key();
}

proof fn lemma_responses_request_model(body: JsonV)
    ensures
        responses_request(body).str_at("model"@) == body.str_at("model"@),
{
    lemma_model_key();
}

proof fn lemma_anthropic_request_model(body: JsonV)
    ensures
        anthropic_request(body).str_at("model"@) == body.str_at("model"@),
{
    lemma_model_key();
}

proof fn lemma_request_of_responses_model(body: JsonV)
    ensures
        request_of_responses(body).str_at("model"@) == body.str_at("model"@),
{
    lemma_model_key();
}

proof fn lemma_policy_keeps_model(body: JsonV, upstream: UpstreamType, policy: PolicyV, wanted: bool)
    requires
        body is Object,
    ensures
        under_policy(body, upstream, policy, wanted).str_at("model"@) == body.str_at("model"@),
        under_policy(body, upstream, policy, wanted) is Object,
{
    lemma_model_key();
}

proof fn lemma_finish_keeps_model(body: JsonV, upstream: UpstreamType, stream: bool)
    requires
        body is Object,
    ensures
        finished_request(body, upstream, stream).str_at("model"@) == body.str_at("model"@),
{
    lemma_model_key();
}

/// The model of a request that goes out is always the configured one, whatever
/// the client asked for.
pub proof fn law_model_is_always_overridden(
    body: JsonV,
    entry: LocalEntry,
    upstream: UpstreamType,
    model: Seq<char>,
    policy: PolicyV,
    stream: bool,
)
    requires
        body is Object || body is Null,
        outgoing_request(body, entry, upstream, model, policy, stream) is Ok,
    ensures
        outgoing_request(body, entry, upstream, model, policy, stream)->Ok_0.str_at("model"@) == Some(model),
{
    let stamped = body.set("model"@, JsonV::Text(model));
    assert(stamped.str_at("model"@) == Some(model));
    lemma_anthropic_request_model(stamped);
    lemma_request_of_responses_model(stamped);
    let mid = as_anthropic(stamped, entry)->Ok_0;
    lemma_chat_request_model(mid);
    lemma_responses_request_model(mid);
    let converted = converted_request(stamped, entry, upstream)->Ok_0;
    assert(converted.str_at("model"@) == Some(model));
    let wanted = asks_for_reasoning(stamped, entry);
    lemma_policy_keeps_model(converted, upstream, policy, wanted);
    lemma_finish_keeps_model(under_policy(converted, upstream, policy, wanted), upstream, stream);
}

/// Whether a request asks for several candidates, which an upstream of another
/// format cannot give.
pub open spec fn asks_for_candidates(body: JsonV, entry: LocalEntry, upstream: UpstreamType) -> bool {
    entry == LocalEntry::OaiChat && upstream != UpstreamType::OaiChat && (body.u64_at("n"@) matches Some(n) && n > 1)
}

/// A request is refused only where it asks for several candidates and its format
/// is not that of the upstream. The client is then told that
/// its request is invalid, with the status 400.
pub proof fn law_refused_request_is_answered(
    body: JsonV,
    entry: LocalEntry,
    upstream: UpstreamType,
    model: Seq<char>,
    policy: PolicyV,
    stream: bool,
)
    requires
        body is Object || body is Null,
    ensures
        outgoing_request(body, entry, upstream, model, policy, stream) is Err <==> asks_for_candidates(
            body,
            entry,
            upstream,
        ),
        outgoing_request(body, entry, upstream, model, policy, stream) matches Err(e) ==> e.status() == 400
            && error_body(e.status(), e.message(), entry).path2("error"@, "type"@) == Some(
            JsonV::Text("invalid_request_error"@),
        ),
{
    reveal_strlit("model");
    reveal_strlit("n");
    reveal_strlit("type");
    reveal_strlit("message");
    assert("model"@.len() != "n"@.len());
    assert("type"@.len() != "message"@.len());
    let stamped = body.set("model"@, JsonV::Text(model));
    assert(stamped.u64_at("n"@) == body.u64_at("n"@));
}

/// A request in the format of the upstream is passed on: its model is overridden,
/// and but for the members about reasoning all else is as it was.
pub proof fn law_same_format_is_passed_on(
    body: JsonV,
    entry: LocalEntry,
    model: Seq<char>,
    policy: PolicyV,
    stream: bool,
    key: Seq<char>,
)
    requires
        body is Object || body is Null,
        key != "model"@,
        key != "thinking"@,
        key != "reasoning_effort"@,
        key != "reasoning"@,
    ensures
        outgoing_request(body, entry, same_format(entry), model, policy, stream) matches Ok(out) && out.get(key)
            == body.get(key),
{
}

/// A response in the format of the entry goes to the client as it is.
pub proof fn law_same_format_reply_is_unchanged(reply: JsonV, entry: LocalEntry, model: Seq<char>)
    ensures
        converted_reply(reply, entry, same_format(entry), model) == Ok::<JsonV, ErrorV>(reply),
{
}

} // verus!
