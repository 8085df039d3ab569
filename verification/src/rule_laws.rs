//! What the rules of the proxy decide, said of their inputs and results.

use vstd::prelude::*;
use crate::bridge::BridgeV;
use crate::chat_stream::ChatV;
use crate::config::Config;
use crate::convert::{chat_request, requested_effort, takes_effort, upstream_effort};
use crate::convert_response::anthropic_response;
use crate::convert_reverse::{anthropic_request, chat_response};
use crate::error::{ErrorV, LocalEntry, error_body};
use crate::forward::{EffortV, PolicyV, UpstreamType, effort_of, reason_in, truth_of, under_policy, vision_type};
use crate::json::JsonV;
use crate::media_sanitizer::is_text_only;
use crate::pipeline::{converted_reply, media_plan, outgoing_request, reply_note};
use crate::responses_response::anthropic_from_responses;
use crate::responses_reverse::{request_of_responses, responses_response};
use crate::responses_reverse_stream::ToResponsesV;
use crate::reverse_stream::ReverseV;
use crate::server::{asks_for_reasoning, forward_error_text, upstream_error_body};
use crate::stream_data::is_blank;
use crate::stream_out::{OutV, PieceV};
use crate::streaming_responses::ResponsesV;
use crate::text::{ascii_lower, decimal, has_infix, has_prefix, join, lowercase, occurs_at, trim, words};
use crate::text_laws::law_trim_takes_off_white_space_alone;
use crate::transform_responses::responses_request;

verus! {

/// Each kind of error is answered with its status and carries its message. In the
/// OpenAI formats, the type tells a bad request and a refused token from all else.
pub proof fn law_errors_are_answered(e: ErrorV, m: Seq<char>)
    ensures
        (e == ErrorV::Transform(m) || e == ErrorV::Forward(m)) ==> e.status() == 502 && e.message() == m,
        (e == ErrorV::Config(m) || e == ErrorV::Server(m)) ==> e.status() == 500 && e.message() == m,
        e == ErrorV::Unauthorized(m) ==> e.status() == 401 && e.message() == m,
        e == ErrorV::Unsupported(m) ==> e.status() == 400 && e.message() == m,
        e matches ErrorV::Upstream { status, reason, .. } ==> e.status() == status && e.message() == reason,
        ({
            let a = error_body(e.status(), m, LocalEntry::AnthropicMessages).at("error"@);
            let c = error_body(e.status(), m, LocalEntry::OaiChat).at("error"@);
            &&& a.str_at("type"@) == Some("error"@)
            &&& a.str_at("message"@) == Some(m)
            &&& c.str_at("message"@) == Some(m)
            &&& e is Unsupported ==> c.str_at("type"@) == Some("invalid_request_error"@)
            &&& e is Unauthorized ==> c.str_at("type"@) == Some("authentication_error"@)
            &&& e is Transform || e is Forward || e is Config || e is Server ==> c.str_at("type"@) == Some("api_error"@)
        }),
{
    lemma_error_keys();
}

/// The keys of an error are all different.
proof fn lemma_error_keys()
    ensures
        "type"@ != "message"@,
        "type"@ != "error"@,
        "message"@ != "error"@,
{
    reveal_strlit("type");
    reveal_strlit("message");
    reveal_strlit("error");
    assert("type"@.len() == 4 && "message"@.len() == 7 && "error"@.len() == 5);
}

/// Whether two texts say the same but for the case of their letters and the white space
/// at their ends.
pub open spec fn same_word(a: Seq<char>, b: Seq<char>) -> bool {
    ascii_lower(trim(a)) == b
}

/// The words for a truth value are all different.
proof fn lemma_truth_words()
    ensures
        "1"@ != "true"@,
        "1"@ != "yes"@,
        "1"@ != "on"@,
        "1"@ != "0"@,
        "1"@ != "false"@,
        "1"@ != "no"@,
        "1"@ != "off"@,
        "true"@ != "yes"@,
        "true"@ != "on"@,
        "true"@ != "0"@,
        "true"@ != "false"@,
        "true"@ != "no"@,
        "true"@ != "off"@,
        "yes"@ != "on"@,
        "yes"@ != "0"@,
        "yes"@ != "false"@,
        "yes"@ != "no"@,
        "yes"@ != "off"@,
        "on"@ != "0"@,
        "on"@ != "false"@,
        "on"@ != "no"@,
        "on"@ != "off"@,
        "0"@ != "false"@,
        "0"@ != "no"@,
        "0"@ != "off"@,
        "false"@ != "no"@,
        "false"@ != "off"@,
        "no"@ != "off"@,
{
    reveal_strlit("1");
    reveal_strlit("true");
    reveal_strlit("yes");
    reveal_strlit("on");
    reveal_strlit("0");
    reveal_strlit("false");
    reveal_strlit("no");
    reveal_strlit("off");
    assert("1"@.len() == 1 && "true"@.len() == 4 && "yes"@.len() == 3 && "on"@.len() == 2 && "0"@.len() == 1 && "false"@.len() == 5 && "no"@.len() == 2 && "off"@.len() == 3);
    assert("1"@[0] == '1' && "0"@[0] == '0');
    assert("yes"@[0] == 'y' && "off"@[0] == 'o');
    assert("on"@[0] == 'o' && "no"@[0] == 'n');
}

/// The words 1, true, yes and on are true, the words 0, false, no and off are false, in
/// any case and with white space round them; any other text, and none, is the default.
pub proof fn law_truth_words(t: Seq<char>, default: bool)
    ensures
        same_word(t, "1"@) || same_word(t, "true"@) || same_word(t, "yes"@) || same_word(t, "on"@) ==> truth_of(
            Some(t),
            default,
        ),
        same_word(t, "0"@) || same_word(t, "false"@) || same_word(t, "no"@) || same_word(t, "off"@) ==> !truth_of(
            Some(t),
            default,
        ),
        truth_of(Some(t), true) != truth_of(Some(t), false) <==> truth_of(Some(t), default) == default && !(same_word(
            t,
            "1"@,
        ) || same_word(t, "true"@) || same_word(t, "yes"@) || same_word(t, "on"@) || same_word(t, "0"@) || same_word(
            t,
            "false"@,
        ) || same_word(t, "no"@) || same_word(t, "off"@)),
        truth_of(None, default) == default,
{
    lemma_truth_words();
}

/// The words off, drop, none, disable and disabled take the effort out; a blank text, or
/// none, asks for the most; any other word is the effort, in lower case.
pub proof fn law_effort_words(t: Seq<char>)
    ensures
        effort_of(None) == EffortV::Stamp("max"@),
        is_blank(t) ==> effort_of(Some(t)) == EffortV::Stamp("max"@),
        same_word(t, "off"@) || same_word(t, "drop"@) || same_word(t, "none"@) || same_word(t, "disable"@) || same_word(
            t,
            "disabled"@,
        ) ==> effort_of(Some(t)) == EffortV::Drop,
        !is_blank(t) && !(same_word(t, "off"@) || same_word(t, "drop"@) || same_word(t, "none"@) || same_word(
            t,
            "disable"@,
        ) || same_word(t, "disabled"@)) ==> effort_of(Some(t)) == EffortV::Stamp(ascii_lower(trim(t))),
{
    law_trim_takes_off_white_space_alone(t);
    reveal_strlit("off");
    reveal_strlit("drop");
    reveal_strlit("none");
    reveal_strlit("disable");
    reveal_strlit("disabled");
    if is_blank(t) {
        assert(ascii_lower(trim(t)).len() == 0);
    }
}

/// The policy for reasoning alters no member but the one that tells the effort to the
/// upstream, or the thinking of an Anthropic request. It puts in the effort that is set
/// where reasoning was asked for, and takes it out where thinking is off or the effort is
/// to go.
pub proof fn law_policy_alters_the_effort_alone(
    body: JsonV,
    policy: PolicyV,
    wanted: bool,
    key: Seq<char>,
    effort: Seq<char>,
)
    requires
        body is Object,
    ensures
        key != "thinking"@ ==> under_policy(body, UpstreamType::AnthropicMessages, policy, wanted).get(key) == body.get(
            key,
        ),
        key != "reasoning_effort"@ ==> under_policy(body, UpstreamType::OaiChat, policy, wanted).get(key) == body.get(
            key,
        ),
        key != "reasoning"@ ==> under_policy(body, UpstreamType::OaiResponses, policy, wanted).get(key) == body.get(key),
        policy.thinking_enabled ==> under_policy(body, UpstreamType::AnthropicMessages, policy, wanted) == body,
        !policy.thinking_enabled ==> under_policy(body, UpstreamType::AnthropicMessages, policy, wanted).get(
            "thinking"@,
        ) is None,
        !policy.thinking_enabled || policy.effort is Drop ==> under_policy(
            body,
            UpstreamType::OaiChat,
            policy,
            wanted,
        ).get("reasoning_effort"@) is None && under_policy(body, UpstreamType::OaiResponses, policy, wanted).at(
            "reasoning"@,
        ).get("effort"@) is None,
        policy.thinking_enabled && policy.effort == EffortV::Stamp(effort) && wanted ==> under_policy(
            body,
            UpstreamType::OaiChat,
            policy,
            wanted,
        ).str_at("reasoning_effort"@) == Some(effort) && under_policy(
            body,
            UpstreamType::OaiResponses,
            policy,
            wanted,
        ).at("reasoning"@).str_at("effort"@) == Some(effort),
        policy.thinking_enabled && policy.effort is Stamp && !wanted ==> under_policy(
            body,
            UpstreamType::OaiChat,
            policy,
            wanted,
        ) == body && under_policy(body, UpstreamType::OaiResponses, policy, wanted) == body,
        key != "effort"@ ==> under_policy(body, UpstreamType::OaiResponses, policy, wanted).at("reasoning"@).get(key)
            == (if body.at("reasoning"@) is Object {
            body.at("reasoning"@).get(key)
        } else {
            None
        }),
{
    if body.get("reasoning"@) is Some && body.get("reasoning"@)->0 is Object {
        let m = body.get("reasoning"@)->0->Object_0;
        let left = m.remove("effort"@);
        if left == Map::<Seq<char>, JsonV>::empty() {
            if key != "effort"@ {
                assert(!left.contains_key(key));
                assert(!m.contains_key(key));
            }
        }
    }
}

/// The format of a vision endpoint is told by the path in its URL.
pub proof fn law_vision_endpoint_is_told_by_its_path(host: Seq<char>, rest: Seq<char>)
    ensures
        vision_type(host + "/responses"@ + rest) == UpstreamType::OaiResponses,
        !has_infix(host + "/messages"@ + rest, "/responses"@) && !has_infix(
            host + "/messages"@ + rest,
            "/chat/completions"@,
        ) ==> vision_type(host + "/messages"@ + rest) == UpstreamType::AnthropicMessages,
        !has_infix(host + "/chat/completions"@ + rest, "/responses"@) ==> vision_type(host + "/chat/completions"@ + rest)
            == UpstreamType::OaiChat,
{
    lemma_infix(host, "/responses"@, rest);
    lemma_infix(host, "/messages"@, rest);
    lemma_infix(host, "/chat/completions"@, rest);
}

proof fn lemma_infix(a: Seq<char>, p: Seq<char>, b: Seq<char>)
    ensures
        has_infix(a + p + b, p),
{
    let s = a + p + b;
    assert(s.subrange(a.len() as int, a.len() as int + p.len()) =~= p);
    assert(occurs_at(s, p, a.len() as int));
}

/// Why a response failed is what its error says, or else its message, or else its whole
/// body; it stands on one line, is cut after 500 characters, and is never empty.
pub proof fn law_reason_is_what_the_body_says(v: JsonV, text: Seq<char>, m: Seq<char>)
    ensures
        v.at("error"@).str_at("message"@) == Some(m) ==> reason_in(Some(v), text) == cut_line(m),
        v.at("error"@).str_at("message"@) is None && v.str_at("message"@) == Some(m) ==> reason_in(Some(v), text)
            == cut_line(m),
        v.at("error"@).str_at("message"@) is None && v.str_at("message"@) is None ==> reason_in(Some(v), text)
            == cut_line(text),
        reason_in(None, text) == cut_line(text),
        cut_line(text).len() > 0,
        cut_line(text).len() <= 500,
{
    reveal_strlit("Unknown error");
    if v.get("error"@) is None {
        assert(v.at("error"@) == JsonV::Null);
    }
}

/// A text on one line, cut after 500 characters, or that nothing is known.
pub open spec fn cut_line(t: Seq<char>) -> Seq<char> {
    let line = join(words(t), " "@);
    if line.len() == 0 {
        "Unknown error"@
    } else if line.len() > 500 {
        line.take(500)
    } else {
        line
    }
}

/// The client of a failed upstream is told the message of its error in the format of the
/// entry.
pub proof fn law_upstream_failure_is_told_to_the_client(body: JsonV, m: Seq<char>)
    requires
        body.at("error"@).str_at("message"@) == Some(m),
    ensures
        ({
            let a = upstream_error_body(body, LocalEntry::AnthropicMessages);
            let c = upstream_error_body(body, LocalEntry::OaiChat);
            &&& a.str_at("type"@) == Some("error"@)
            &&& a.at("error"@).str_at("type"@) == Some("api_error"@)
            &&& a.at("error"@).str_at("message"@) == Some(m)
            &&& c.at("error"@).str_at("message"@) == Some(m)
            &&& c.at("error"@).str_at("type"@) == Some("upstream_error"@)
            &&& upstream_error_body(body, LocalEntry::OaiResponses) == c
        }),
{
    lemma_error_keys();
}

/// A request asks for reasoning by an effort that is no refusal, or, in the Anthropic
/// format where no effort is given, by thinking that is enabled or adaptive.
pub proof fn law_reasoning_is_asked_for(body: JsonV, e: Seq<char>)
    ensures
        ({
            let refused = ascii_lower(e) == "none"@ || ascii_lower(e) == "disable"@ || ascii_lower(e) == "disabled"@;
            &&& body.str_at("reasoning_effort"@) == Some(e) ==> asks_for_reasoning(body, LocalEntry::OaiChat) == !refused
            &&& body.str_at("reasoning_effort"@) is None ==> !asks_for_reasoning(body, LocalEntry::OaiChat)
            &&& body.at("reasoning"@).str_at("effort"@) == Some(e) ==> asks_for_reasoning(body, LocalEntry::OaiResponses)
                == !refused
            &&& body.at("reasoning"@).str_at("effort"@) is None ==> !asks_for_reasoning(body, LocalEntry::OaiResponses)
            &&& body.at("output_config"@).str_at("effort"@) == Some(e) ==> asks_for_reasoning(
                body,
                LocalEntry::AnthropicMessages,
            ) == !refused
            &&& body.at("output_config"@).str_at("effort"@) is None ==> asks_for_reasoning(
                body,
                LocalEntry::AnthropicMessages,
            ) == (body.at("thinking"@).str_at("type"@) == Some("enabled"@) || body.at("thinking"@).str_at("type"@)
                == Some("adaptive"@))
        }),
{
    if body.get("output_config"@) is None {
        assert(body.at("output_config"@) == JsonV::Null);
    }
    if body.get("reasoning"@) is None {
        assert(body.at("reasoning"@) == JsonV::Null);
    }
}

/// The model that takes an effort gets the one that was asked for: by name, or by how
/// much thinking there is a budget for. What is above all others has another name for a
/// DeepSeek model, which knows only low, high and max.
pub proof fn law_effort_is_passed_on(body: JsonV, model: Seq<char>)
    ensures
        !takes_effort(lowercase(model)) ==> upstream_effort(body, model) is None,
        takes_effort(lowercase(model)) && !has_infix(model, "deepseek"@) ==> upstream_effort(body, model)
            == requested_effort(body),
        body.at("output_config"@).str_at("effort"@) == Some("low"@) ==> requested_effort(body) == Some("low"@),
        body.at("output_config"@).str_at("effort"@) == Some("medium"@) ==> requested_effort(body) == Some("medium"@),
        body.at("output_config"@).str_at("effort"@) == Some("high"@) ==> requested_effort(body) == Some("high"@),
        body.at("output_config"@).str_at("effort"@) == Some("max"@) ==> requested_effort(body) == Some("xhigh"@),
        body.at("output_config"@).str_at("effort"@) is None ==> {
            let thinking = body.at("thinking"@);
            &&& thinking.str_at("type"@) == Some("adaptive"@) ==> requested_effort(body) == Some("xhigh"@)
            &&& thinking.str_at("type"@) == Some("disabled"@) ==> requested_effort(body) is None
            &&& thinking.str_at("type"@) is None ==> requested_effort(body) is None
            &&& thinking.str_at("type"@) == Some("enabled"@) ==> requested_effort(body) == Some(
                match thinking.u64_at("budget_tokens"@) {
                    Some(n) => if n < 4000 {
                        "low"@
                    } else if n < 16000 {
                        "medium"@
                    } else {
                        "high"@
                    },
                    None => "high"@,
                },
            )
        },
        takes_effort(lowercase(model)) && has_infix(model, "deepseek"@) ==> match requested_effort(body) {
            Some(e) => {
                &&& e == "low"@ ==> upstream_effort(body, model) == Some("low"@)
                &&& e == "medium"@ || e == "high"@ ==> upstream_effort(body, model) == Some("high"@)
                &&& e == "xhigh"@ ==> upstream_effort(body, model) == Some("max"@)
            },
            None => upstream_effort(body, model) is None,
        },
{
    lemma_effort_words();
    if body.get("output_config"@) is None {
        assert(body.at("output_config"@) == JsonV::Null);
    }
}

/// The words for an effort and for thinking are all different.
proof fn lemma_effort_words()
    ensures
        "low"@ != "medium"@,
        "low"@ != "high"@,
        "low"@ != "max"@,
        "low"@ != "xhigh"@,
        "low"@ != "adaptive"@,
        "low"@ != "enabled"@,
        "low"@ != "disabled"@,
        "medium"@ != "high"@,
        "medium"@ != "max"@,
        "medium"@ != "xhigh"@,
        "medium"@ != "adaptive"@,
        "medium"@ != "enabled"@,
        "medium"@ != "disabled"@,
        "high"@ != "max"@,
        "high"@ != "xhigh"@,
        "high"@ != "adaptive"@,
        "high"@ != "enabled"@,
        "high"@ != "disabled"@,
        "max"@ != "xhigh"@,
        "max"@ != "adaptive"@,
        "max"@ != "enabled"@,
        "max"@ != "disabled"@,
        "xhigh"@ != "adaptive"@,
        "xhigh"@ != "enabled"@,
        "xhigh"@ != "disabled"@,
        "adaptive"@ != "enabled"@,
        "adaptive"@ != "disabled"@,
        "enabled"@ != "disabled"@,
{
    reveal_strlit("low");
    reveal_strlit("medium");
    reveal_strlit("high");
    reveal_strlit("max");
    reveal_strlit("xhigh");
    reveal_strlit("adaptive");
    reveal_strlit("enabled");
    reveal_strlit("disabled");
    assert("low"@.len() == 3 && "medium"@.len() == 6 && "high"@.len() == 4 && "max"@.len() == 3 && "xhigh"@.len() == 5 && "adaptive"@.len() == 8 && "enabled"@.len() == 7 && "disabled"@.len() == 8);
    assert("low"@[0] == 'l' && "max"@[0] == 'm');
    assert("adaptive"@[0] == 'a' && "disabled"@[0] == 'd');
}

/// Models take an effort by their family: those named by an o and a digit, the fifth
/// generation of GPT and later ones, two families of Grok, and DeepSeek.
pub proof fn law_models_take_an_effort_by_family(rest: Seq<char>, d: char)
    ensures
        '0' <= d <= '9' ==> takes_effort("o"@ + seq![d] + rest),
        '5' <= d <= '9' ==> takes_effort("gpt-"@ + seq![d] + rest),
        '0' <= d <= '4' && !has_infix("gpt-"@ + seq![d] + rest, "deepseek"@) ==> !takes_effort("gpt-"@ + seq![d] + rest),
        takes_effort("grok-4.5"@),
        takes_effort("grok-4.5-"@ + rest),
        takes_effort("grok-build-"@ + rest),
        takes_effort(rest + "deepseek"@),
{
    reveal_strlit("o");
    reveal_strlit("gpt-");
    reveal_strlit("grok-4.5");
    reveal_strlit("grok-4.5-");
    reveal_strlit("grok-build-");
    let a = "gpt-"@ + seq![d] + rest;
    assert(a.take(4) =~= "gpt-"@);
    assert(a[4] == d);
    assert(a[0] == 'g');
    assert(("o"@ + seq![d] + rest)[1] == d);
    let b = "grok-4.5-"@ + rest;
    assert(b.take(9) =~= "grok-4.5-"@);
    let c = "grok-build-"@ + rest;
    assert(c.take(11) =~= "grok-build-"@);
    lemma_infix(rest, "deepseek"@, Seq::empty());
    assert(rest + "deepseek"@ + Seq::<char>::empty() =~= rest + "deepseek"@);
    if '0' <= d <= '4' {
        if a == "grok-4.5"@ {
            assert(a[1] == 'p');
        }
        if has_prefix(a, "grok-4.5-"@) {
            assert(a.take(9)[1] == 'r');
        }
        if has_prefix(a, "grok-build-"@) {
            assert(a.take(11)[1] == 'r');
        }
    }
}

/// A request goes out in the format of the upstream: it is converted by way of the
/// Anthropic format, and besides the members about reasoning and about streaming, what
/// goes out is what the conversion gives.
pub proof fn law_outgoing_request_is_the_conversion(
    body: JsonV,
    model: Seq<char>,
    policy: PolicyV,
    stream: bool,
    key: Seq<char>,
)
    requires
        body is Object,
        !(body.u64_at("n"@) matches Some(n) && n > 1),
        key != "thinking"@,
        key != "reasoning_effort"@,
        key != "reasoning"@,
        key != "stream"@,
        key != "stream_options"@,
    ensures
        ({
            let b = body.set("model"@, JsonV::Text(model));
            let chat = LocalEntry::OaiChat;
            let responses = LocalEntry::OaiResponses;
            let anthropic = LocalEntry::AnthropicMessages;
            let to_chat = UpstreamType::OaiChat;
            let to_responses = UpstreamType::OaiResponses;
            let to_anthropic = UpstreamType::AnthropicMessages;
            &&& outgoing_request(body, anthropic, to_chat, model, policy, stream) matches Ok(r) && r.get(key)
                == chat_request(b, true).get(key)
            &&& outgoing_request(body, anthropic, to_responses, model, policy, stream) matches Ok(r) && r.get(key)
                == responses_request(b).get(key)
            &&& outgoing_request(body, chat, to_anthropic, model, policy, stream) matches Ok(r) && r.get(key)
                == anthropic_request(b).get(key)
            &&& outgoing_request(body, responses, to_anthropic, model, policy, stream) matches Ok(r) && r.get(key)
                == request_of_responses(b).get(key)
            &&& outgoing_request(body, chat, to_responses, model, policy, stream) matches Ok(r) && r.get(key)
                == responses_request(anthropic_request(b)).get(key)
            &&& outgoing_request(body, responses, to_chat, model, policy, stream) matches Ok(r) && r.get(key)
                == chat_request(request_of_responses(b), true).get(key)
        }),
{
    reveal_strlit("model");
    reveal_strlit("n");
    assert("model"@.len() == 5 && "n"@.len() == 1);
    let b = body.set("model"@, JsonV::Text(model));
    assert(b.u64_at("n"@) == body.u64_at("n"@));
    let chat = chat_request(b, true);
    let more = chat_request(request_of_responses(b), true);
    let responses = responses_request(b);
    let most = responses_request(anthropic_request(b));
    let anthropic = anthropic_request(b);
    let asked = request_of_responses(b);
    let w1 = asks_for_reasoning(b, LocalEntry::AnthropicMessages);
    let w2 = asks_for_reasoning(b, LocalEntry::OaiChat);
    let w3 = asks_for_reasoning(b, LocalEntry::OaiResponses);
    law_policy_alters_the_effort_alone(chat, policy, w1, key, Seq::empty());
    law_policy_alters_the_effort_alone(responses, policy, w1, key, Seq::empty());
    law_policy_alters_the_effort_alone(anthropic, policy, w2, key, Seq::empty());
    law_policy_alters_the_effort_alone(asked, policy, w3, key, Seq::empty());
    law_policy_alters_the_effort_alone(most, policy, w2, key, Seq::empty());
    law_policy_alters_the_effort_alone(more, policy, w3, key, Seq::empty());
}

/// A response goes to the client in the format of the entry: it is converted by way of
/// the Anthropic format.
pub proof fn law_reply_is_the_conversion(reply: JsonV, model: Seq<char>)
    ensures
        ({
            let chat = LocalEntry::OaiChat;
            let responses = LocalEntry::OaiResponses;
            let anthropic = LocalEntry::AnthropicMessages;
            &&& converted_reply(reply, anthropic, UpstreamType::OaiChat, model) == anthropic_response(reply, model)
            &&& converted_reply(reply, anthropic, UpstreamType::OaiResponses, model) == anthropic_from_responses(
                reply,
                model,
            )
            &&& converted_reply(reply, chat, UpstreamType::AnthropicMessages, model) == Ok::<JsonV, ErrorV>(
                chat_response(reply, model),
            )
            &&& converted_reply(reply, responses, UpstreamType::AnthropicMessages, model) == Ok::<JsonV, ErrorV>(
                responses_response(reply, model),
            )
            &&& anthropic_from_responses(reply, model) matches Ok(a) ==> converted_reply(
                reply,
                chat,
                UpstreamType::OaiResponses,
                model,
            ) == Ok::<JsonV, ErrorV>(chat_response(a, model))
            &&& anthropic_response(reply, model) matches Ok(a) ==> converted_reply(
                reply,
                responses,
                UpstreamType::OaiChat,
                model,
            ) == Ok::<JsonV, ErrorV>(responses_response(a, model))
        }),
{
}

/// All that a conversion gives out over a stream, up to its end or its failure.
pub open spec fn bridged(b: BridgeV, stream: Seq<PieceV>) -> Seq<OutV>
    decreases stream.len(),
{
    if stream.len() == 0 {
        b.ended()
    } else {
        match stream[0] {
            PieceV::Bytes(bytes) => b.pushed(bytes).0 + bridged(b.pushed(bytes).1, stream.drop_first()),
            PieceV::Failure(m) => b.failed(m),
        }
    }
}

proof fn lemma_bridged(
    chat: ChatV,
    responses: ResponsesV,
    to_chat: ReverseV,
    to_responses: ToResponsesV,
    stream: Seq<PieceV>,
)
    ensures
        bridged(BridgeV::ChatToAnthropic(chat), stream) == chat.whole(stream),
        bridged(BridgeV::ResponsesToAnthropic(responses), stream) == responses.whole(stream),
        bridged(BridgeV::AnthropicToChat(to_chat), stream) == to_chat.whole(stream),
        bridged(BridgeV::AnthropicToResponses(to_responses), stream) == to_responses.whole(stream),
    decreases stream.len(),
{
    if stream.len() > 0 {
        if let PieceV::Bytes(b) = stream[0] {
            lemma_bridged(
                chat.with_bytes(b).drained(),
                responses.with_bytes(b).drained(),
                to_chat.with_bytes(b).drained(),
                to_responses.with_bytes(b).drained(),
                stream.drop_first(),
            );
        }
    }
}

/// A stream between two formats is converted by the conversion of these formats, for the
/// model that was asked for.
pub proof fn law_stream_is_converted_by_its_formats(model: Seq<char>, stream: Seq<PieceV>)
    ensures
        ({
            let chat = LocalEntry::OaiChat;
            let responses = LocalEntry::OaiResponses;
            let anthropic = LocalEntry::AnthropicMessages;
            &&& bridged(BridgeV::initial(anthropic, UpstreamType::OaiChat, model), stream) == ChatV::initial(model).whole(
                stream,
            )
            &&& bridged(BridgeV::initial(anthropic, UpstreamType::OaiResponses, model), stream) == ResponsesV::initial(
                model,
            ).whole(stream)
            &&& bridged(BridgeV::initial(chat, UpstreamType::AnthropicMessages, model), stream) == ReverseV::initial(
                model,
                true,
            ).whole(stream)
            &&& bridged(BridgeV::initial(responses, UpstreamType::AnthropicMessages, model), stream)
                == ToResponsesV::initial(model, true).whole(stream)
        }),
{
    lemma_bridged(
        ChatV::initial(model),
        ResponsesV::initial(model),
        ReverseV::initial(model, true),
        ToResponsesV::initial(model, true),
        stream,
    );
}

/// What is done about images: nothing for a model that takes them or where it is switched
/// off; else they are described where there is a vision model, and marked where not.
pub proof fn law_images_are_planned_for(model: Seq<char>, has_vision: bool)
    ensures
        media_plan(false, model, has_vision) is PassThrough,
        !is_text_only(model) ==> media_plan(true, model, has_vision) is PassThrough,
        is_text_only(model) ==> media_plan(true, model, true) is Describe,
        is_text_only(model) ==> media_plan(true, model, false) is Strip,
{
}

/// An error is told to a reader behind the kind that it is of.
pub proof fn law_errors_are_told_by_kind(m: Seq<char>, status: u16, body: JsonV)
    ensures
        ErrorV::Transform(m).display() == "格式转换错误: "@ + m,
        ErrorV::Forward(m).display() == "转发失败: "@ + m,
        (ErrorV::Upstream { status, reason: m, body }).display() == "转发失败: "@ + m,
        ErrorV::Config(m).display() == "配置错误: "@ + m,
        ErrorV::Server(m).display() == "服务器错误: "@ + m,
        ErrorV::Unauthorized(m).display() == "未授权: "@ + m,
        ErrorV::Unsupported(m).display() == "不支持的请求: "@ + m,
        forward_error_text((ErrorV::Upstream { status, reason: m, body })) == "upstream status "@ + decimal(status as nat)
            + ": "@ + m,
        forward_error_text(ErrorV::Forward(m)) == "转发失败: "@ + m,
{
}

/// The log tells of a whole response why it ended where it was converted for an Anthropic
/// client, and for which model it was passed on where it was not converted.
pub proof fn law_whole_responses_are_noted(out: JsonV, model: Seq<char>, stop: Seq<char>)
    ensures
        reply_note(out, LocalEntry::OaiChat, UpstreamType::OaiChat, model) == "stop_reason=passthrough ("@ + model + ")"@,
        out.str_at("stop_reason"@) == Some(stop) ==> reply_note(
            out,
            LocalEntry::AnthropicMessages,
            UpstreamType::OaiChat,
            model,
        ) == "stop_reason="@ + stop,
        reply_note(out, LocalEntry::OaiChat, UpstreamType::OaiResponses, model) == "ok"@,
{
}

/// A response that failed or was cancelled is refused with what its error says; so is one
/// that carries an error.
pub proof fn law_failed_response_is_refused(body: JsonV, model: Seq<char>, m: Seq<char>)
    requires
        body.at("error"@).str_at("message"@) == Some(m),
        !is_blank(m),
    ensures
        body.str_at("status"@) == Some("failed"@) ==> anthropic_from_responses(body, model) == Err::<JsonV, ErrorV>(
            ErrorV::Transform("Responses upstream failed: "@ + m),
        ),
        body.str_at("status"@) == Some("cancelled"@) ==> anthropic_from_responses(body, model) == Err::<JsonV, ErrorV>(
            ErrorV::Transform("Responses upstream cancelled the response: "@ + m),
        ),
        body.str_at("status"@) == Some("completed"@) ==> anthropic_from_responses(body, model) == Err::<JsonV, ErrorV>(
            ErrorV::Transform("Responses upstream returned an error envelope: "@ + m),
        ),
{
    reveal_strlit("failed");
    reveal_strlit("cancelled");
    reveal_strlit("completed");
    assert("failed"@.len() == 6 && "cancelled"@.len() == 9 && "completed"@.len() == 9);
    assert("cancelled"@[1] == 'a' && "completed"@[1] == 'o');
    law_trim_takes_off_white_space_alone(m);
    assert(body.get("error"@) is Some);
    assert(body.get("error"@) != Some(JsonV::Null));
}

/// A Chat response without choices, with an empty list of them, or without a message is
/// refused, each by its own words.
pub proof fn law_empty_response_is_refused(body: JsonV, model: Seq<char>)
    ensures
        body.array_at("choices"@) is None ==> anthropic_response(body, model) == Err::<JsonV, ErrorV>(
            ErrorV::Transform("No choices in response"@),
        ),
        body.array_at("choices"@) is Some && body.items_at("choices"@).len() == 0 ==> anthropic_response(body, model)
            == Err::<JsonV, ErrorV>(ErrorV::Transform("Empty choices array"@)),
        body.items_at("choices"@).len() > 0 && body.items_at("choices"@)[0].get("message"@) is None
            ==> anthropic_response(body, model) == Err::<JsonV, ErrorV>(ErrorV::Transform("No message in choice"@)),
{
}

} // verus!
