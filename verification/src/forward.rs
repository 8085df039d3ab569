//! What is forwarded to the upstream, and what its failures become.

use vstd::prelude::*;
use vstd::string::*;
use crate::error::{Error, ErrorV};
use crate::json::{Json, JsonObject, JsonV, opt_json, opt_text};
use crate::json_text::{document_in, read_document};
use crate::text::{ascii_lower, cat3, contains, has_infix, join, join_texts, split_words, to_ascii_lower, trim, trim_end, trim_start, trimmed, words};

verus! {

/// The upstream API format, declared explicitly in the configuration.
#[derive(Debug, Clone, Copy, PartialEq, Eq, Structural)]
pub enum UpstreamType {
    AnthropicMessages,
    OaiChat,
    OaiResponses,
}

/// The name of an upstream format.
pub open spec fn upstream_name(t: UpstreamType) -> Seq<char> {
    match t {
        UpstreamType::AnthropicMessages => "anthropic-messages"@,
        UpstreamType::OaiChat => "oai-chat"@,
        UpstreamType::OaiResponses => "oai-responses"@,
    }
}

/// The upstream format that a text names, in whatever case it is written.
pub open spec fn upstream_named(name: Seq<char>) -> Result<UpstreamType, ErrorV> {
    let n = ascii_lower(trim(name));
    if n == upstream_name(UpstreamType::AnthropicMessages) {
        Ok(UpstreamType::AnthropicMessages)
    } else if n == upstream_name(UpstreamType::OaiChat) {
        Ok(UpstreamType::OaiChat)
    } else if n == upstream_name(UpstreamType::OaiResponses) {
        Ok(UpstreamType::OaiResponses)
    } else {
        Err(
            ErrorV::Config(
                "Invalid upstream_type \""@ + n
                    + "\": expected one of anthropic-messages | oai-chat | oai-responses"@,
            ),
        )
    }
}

impl UpstreamType {
    /// The upstream format that a text names, in whatever case it is written.
    pub fn parse(name: &str) -> (r: Result<UpstreamType, Error>)
        ensures
            match (r, upstream_named(name@)) {
                (Ok(a), Ok(b)) => a == b,
                (Err(a), Err(b)) => a@ == b,
                _ => false,
            },
    {
        let n = to_ascii_lower(trimmed(name));
        if n.as_str().eq("anthropic-messages") {
            Ok(UpstreamType::AnthropicMessages)
        } else if n.as_str().eq("oai-chat") {
            Ok(UpstreamType::OaiChat)
        } else if n.as_str().eq("oai-responses") {
            Ok(UpstreamType::OaiResponses)
        } else {
            Err(
                Error::Config(
                    cat3(
                        "Invalid upstream_type \"",
                        n.as_str(),
                        "\": expected one of anthropic-messages | oai-chat | oai-responses",
                    ),
                ),
            )
        }
    }

    /// The canonical lowercase name, for startup banners and logs.
    pub fn as_str(self) -> (r: &'static str)
        ensures
            r@ == upstream_name(self),
    {
        match self {
            UpstreamType::AnthropicMessages => "anthropic-messages",
            UpstreamType::OaiChat => "oai-chat",
            UpstreamType::OaiResponses => "oai-responses",
        }
    }
}

/// The name of a format is read as that format.
pub proof fn law_upstream_name_is_read_back(t: UpstreamType)
    ensures
        upstream_named(upstream_name(t)) == Ok::<UpstreamType, ErrorV>(t),
{
    reveal_strlit("anthropic-messages");
    reveal_strlit("oai-chat");
    reveal_strlit("oai-responses");
    let n = upstream_name(t);
    assert(trim_start(n) == n);
    assert(trim_end(n) == n);
    assert(ascii_lower(n) =~= n);
    assert("anthropic-messages"@.len() != "oai-chat"@.len());
    assert("anthropic-messages"@.len() != "oai-responses"@.len());
    assert("oai-chat"@.len() != "oai-responses"@.len());
}

/// The upstream format of a vision endpoint, by its URL.
pub open spec fn vision_type(url: Seq<char>) -> UpstreamType {
    if has_infix(url, "/responses"@) {
        UpstreamType::OaiResponses
    } else if has_infix(url, "/messages"@) && !has_infix(url, "/chat/completions"@) {
        UpstreamType::AnthropicMessages
    } else {
        UpstreamType::OaiChat
    }
}

/// Infer the wire format of a vision endpoint from its URL.
pub fn vision_upstream_type_from_url(url: &str) -> (r: UpstreamType)
    ensures
        r == vision_type(url@),
{
    if contains(url, "/responses") {
        UpstreamType::OaiResponses
    } else if contains(url, "/messages") && !contains(url, "/chat/completions") {
        UpstreamType::AnthropicMessages
    } else {
        UpstreamType::OaiChat
    }
}

/// The truth value that a text stands for, or `default`.
pub open spec fn truth_of(raw: Option<Seq<char>>, default: bool) -> bool {
    match raw {
        Some(t) => {
            let v = ascii_lower(trim(t));
            if v == "1"@ || v == "true"@ || v == "yes"@ || v == "on"@ {
                true
            } else if v == "0"@ || v == "false"@ || v == "no"@ || v == "off"@ {
                false
            } else {
                default
            }
        },
        None => default,
    }
}

/// Parse a boolean config value: `1|true|yes|on` is true, `0|false|no|off` is
/// false; anything else (including a missing value) is `default`.
pub fn parse_bool(raw: Option<&str>, default: bool) -> (r: bool)
    ensures
        r == truth_of(opt_text(raw), default),
{
    match raw {
        Some(t) => {
            let lower = to_ascii_lower(trimmed(t));
            let v = lower.as_str();
            if v.eq("1") || v.eq("true") || v.eq("yes") || v.eq("on") {
                true
            } else if v.eq("0") || v.eq("false") || v.eq("no") || v.eq("off") {
                false
            } else {
                default
            }
        },
        None => default,
    }
}

/// What to do with the outgoing reasoning effort. The configured value is the
/// single source of truth.
#[derive(Debug, PartialEq, Eq)]
pub enum ReasoningEffortOverride {
    /// Put this exact value into outgoing requests.
    Stamp(String),
    /// Remove the effort from outgoing requests.
    Drop,
}

/// The model of what to do with the effort.
pub enum EffortV {
    Stamp(Seq<char>),
    Drop,
}

impl View for ReasoningEffortOverride {
    type V = EffortV;

    open spec fn view(&self) -> EffortV {
        match self {
            ReasoningEffortOverride::Stamp(v) => EffortV::Stamp(v@),
            ReasoningEffortOverride::Drop => EffortV::Drop,
        }
    }
}

impl ReasoningEffortOverride {
    /// The setting in one word.
    pub fn describe(&self) -> (r: String)
        ensures
            r@ == match self@ {
                EffortV::Stamp(v) => v,
                EffortV::Drop => "drop"@,
            },
    {
        match self {
            ReasoningEffortOverride::Stamp(v) => v.clone(),
            ReasoningEffortOverride::Drop => "drop".to_owned(),
        }
    }
}

/// The policy for reasoning in outgoing requests. With thinking off, all traces
/// of thinking are removed. Else the effort is set or removed, and it is set only
/// where the client asked for reasoning.
#[derive(Debug)]
pub struct UpstreamReasoningPolicy {
    pub thinking_enabled: bool,
    pub effort: ReasoningEffortOverride,
}

/// The model of the policy.
pub struct PolicyV {
    pub thinking_enabled: bool,
    pub effort: EffortV,
}

impl View for UpstreamReasoningPolicy {
    type V = PolicyV;

    open spec fn view(&self) -> PolicyV {
        PolicyV { thinking_enabled: self.thinking_enabled, effort: self.effort@ }
    }
}

/// Whether a word asks for no effort at all.
pub open spec fn is_off_word(w: Seq<char>) -> bool {
    w == "off"@ || w == "drop"@ || w == "none"@ || w == "disable"@ || w == "disabled"@
}

/// The effort setting that a text stands for.
pub open spec fn effort_of(raw: Option<Seq<char>>) -> EffortV {
    match raw {
        Some(t) => if trim(t).len() == 0 {
            EffortV::Stamp("max"@)
        } else if is_off_word(ascii_lower(trim(t))) {
            EffortV::Drop
        } else {
            EffortV::Stamp(ascii_lower(trim(t)))
        },
        None => EffortV::Stamp("max"@),
    }
}

impl UpstreamReasoningPolicy {
    /// The policy for two settings as text. Thinking is on and the effort is
    /// `max` where nothing is set.
    pub fn parse(thinking: Option<&str>, effort: Option<&str>) -> (r: UpstreamReasoningPolicy)
        ensures
            r@ == (PolicyV {
                thinking_enabled: truth_of(opt_text(thinking), true),
                effort: effort_of(opt_text(effort)),
            }),
    {
        let thinking_enabled = parse_bool(thinking, true);
        let effort = match effort {
            Some(t) => {
                let word = trimmed(t);
                if word.is_empty() {
                    ReasoningEffortOverride::Stamp("max".to_owned())
                } else {
                    let lower = to_ascii_lower(word);
                    let w = lower.as_str();
                    if w.eq("off") || w.eq("drop") || w.eq("none") || w.eq("disable") || w.eq("disabled") {
                        ReasoningEffortOverride::Drop
                    } else {
                        ReasoningEffortOverride::Stamp(lower)
                    }
                }
            },
            None => ReasoningEffortOverride::Stamp("max".to_owned()),
        };
        UpstreamReasoningPolicy { thinking_enabled, effort }
    }
}

/// A request without the effort in `reasoning`, which goes where it is empty.
pub open spec fn without_reasoning_effort(body: JsonV) -> JsonV {
    match body.get("reasoning"@) {
        Some(JsonV::Object(m)) => {
            let left = m.remove("effort"@);
            if left == Map::<Seq<char>, JsonV>::empty() {
                body.unset("reasoning"@)
            } else {
                body.set("reasoning"@, JsonV::Object(left))
            }
        },
        _ => body,
    }
}

/// A request with an effort in `reasoning`.
pub open spec fn with_reasoning_effort(body: JsonV, effort: Seq<char>) -> JsonV {
    let m = match body.get("reasoning"@) {
        Some(JsonV::Object(m)) => m,
        _ => Map::empty(),
    };
    body.set("reasoning"@, JsonV::Object(m.insert("effort"@, JsonV::Text(effort))))
}

/// Whether a request gets an effort put into it.
pub open spec fn stamps_effort(upstream: UpstreamType, policy: PolicyV, wanted: bool) -> bool {
    upstream != UpstreamType::AnthropicMessages && policy.thinking_enabled && policy.effort is Stamp && wanted
}

/// A request under the policy for reasoning.
pub open spec fn under_policy(body: JsonV, upstream: UpstreamType, policy: PolicyV, wanted: bool) -> JsonV {
    let removed = !policy.thinking_enabled || policy.effort is Drop;
    match upstream {
        UpstreamType::AnthropicMessages => if policy.thinking_enabled {
            body
        } else {
            body.unset("thinking"@)
        },
        UpstreamType::OaiChat => if removed {
            body.unset("reasoning_effort"@)
        } else if wanted {
            body.set("reasoning_effort"@, JsonV::Text(policy.effort->Stamp_0))
        } else {
            body
        },
        UpstreamType::OaiResponses => if removed {
            without_reasoning_effort(body)
        } else if wanted {
            with_reasoning_effort(body, policy.effort->Stamp_0)
        } else {
            body
        },
    }
}

fn remove_effort(body: Json) -> (r: Json)
    ensures
        r@ == without_reasoning_effort(body@),
{
    let left = match body.get("reasoning") {
        Some(Json::Object(m)) => m.copy().without("effort"),
        _ => {
            return body;
        },
    };
    let n = left.len();
    proof {
        if n == 0 {
            assert(left@.dom() =~= Set::empty());
            assert(left@ =~= Map::<Seq<char>, JsonV>::empty());
        }
    }
    if n == 0 {
        body.unset("reasoning")
    } else {
        body.set("reasoning", Json::Object(left))
    }
}

fn add_effort(body: Json, effort: &str) -> (r: Json)
    ensures
        r@ == with_reasoning_effort(body@, effort@),
{
    let m = match body.get("reasoning") {
        Some(Json::Object(m)) => m.copy(),
        _ => JsonObject::new(),
    };
    body.set("reasoning", Json::Object(m.with("effort", Json::text(effort))))
}

/// Apply the reasoning policy to a request about to be forwarded.
///
/// `client_wants_reasoning` says whether the request of the client asked for
/// reasoning at all. Only then is an effort set; a request that disables
/// reasoning never gains an effort. Only an object can gain one.
pub fn apply_reasoning_policy(
    body: Json,
    upstream_type: UpstreamType,
    policy: &UpstreamReasoningPolicy,
    client_wants_reasoning: bool,
) -> (r: Json)
    requires
        stamps_effort(upstream_type, policy@, client_wants_reasoning) ==> body@ is Object || body@ is Null,
    ensures
        r@ == under_policy(body@, upstream_type, policy@, client_wants_reasoning),
{
    match upstream_type {
        UpstreamType::AnthropicMessages => if policy.thinking_enabled {
            body
        } else {
            body.unset("thinking")
        },
        UpstreamType::OaiChat => {
            if !policy.thinking_enabled {
                return body.unset("reasoning_effort");
            }
            match &policy.effort {
                ReasoningEffortOverride::Drop => body.unset("reasoning_effort"),
                ReasoningEffortOverride::Stamp(value) => if client_wants_reasoning {
                    body.set("reasoning_effort", Json::text(value.as_str()))
                } else {
                    body
                },
            }
        },
        UpstreamType::OaiResponses => {
            if !policy.thinking_enabled {
                return remove_effort(body);
            }
            match &policy.effort {
                ReasoningEffortOverride::Drop => remove_effort(body),
                ReasoningEffortOverride::Stamp(value) => if client_wants_reasoning {
                    add_effort(body, value.as_str())
                } else {
                    body
                },
            }
        },
    }
}

/// Applying the policy a second time changes nothing.
pub proof fn law_policy_is_idempotent(body: JsonV, upstream: UpstreamType, policy: PolicyV, wanted: bool)
    requires
        body is Object || body is Null,
    ensures
        ({
            let once = under_policy(body, upstream, policy, wanted);
            under_policy(once, upstream, policy, wanted) == once
        }),
{
    let once = under_policy(body, upstream, policy, wanted);
    if let JsonV::Object(m) = body {
        assert(m.remove("thinking"@).remove("thinking"@) =~= m.remove("thinking"@));
        assert(m.remove("reasoning_effort"@).remove("reasoning_effort"@) =~= m.remove("reasoning_effort"@));
        if let Some(JsonV::Object(r)) = body.get("reasoning"@) {
            assert(r.remove("effort"@).remove("effort"@) =~= r.remove("effort"@));
            assert(m.insert("reasoning"@, JsonV::Object(r.remove("effort"@))).insert(
                "reasoning"@,
                JsonV::Object(r.remove("effort"@)),
            ) =~= m.insert("reasoning"@, JsonV::Object(r.remove("effort"@))));
        }
    }
    if policy.effort is Stamp {
        let e = JsonV::Text(policy.effort->Stamp_0);
        if let JsonV::Object(m) = once {
            assert(m.contains_key("reasoning_effort"@) && m["reasoning_effort"@] == e ==> m.insert(
                "reasoning_effort"@,
                e,
            ) =~= m);
            if let Some(JsonV::Object(r)) = once.get("reasoning"@) {
                assert(r.contains_key("effort"@) && r["effort"@] == e ==> r.insert("effort"@, e) =~= r);
                assert(m.insert("reasoning"@, JsonV::Object(r)) =~= m);
            }
        }
    }
}

/// A request whose client did not ask for reasoning gains no effort.
pub proof fn law_no_effort_without_request(body: JsonV, upstream: UpstreamType, policy: PolicyV)
    ensures
        under_policy(body, upstream, policy, false).get("reasoning_effort"@) is Some ==> body.get(
            "reasoning_effort"@,
        ) is Some,
        under_policy(body, upstream, policy, false).path2("reasoning"@, "effort"@) is Some ==> body.path2(
            "reasoning"@,
            "effort"@,
        ) is Some,
{
    reveal_strlit("reasoning");
    reveal_strlit("thinking");
    reveal_strlit("reasoning_effort");
    assert("reasoning"@.len() != "thinking"@.len());
    assert("reasoning"@.len() != "reasoning_effort"@.len());
    assert("thinking"@.len() != "reasoning_effort"@.len());
}

/// With thinking off, no trace of it is left in the format of the upstream.
pub proof fn law_master_switch_removes(body: JsonV, policy: PolicyV, wanted: bool)
    requires
        !policy.thinking_enabled,
    ensures
        under_policy(body, UpstreamType::AnthropicMessages, policy, wanted).get("thinking"@) is None,
        under_policy(body, UpstreamType::OaiChat, policy, wanted).get("reasoning_effort"@) is None,
        under_policy(body, UpstreamType::OaiResponses, policy, wanted).path2("reasoning"@, "effort"@) is None,
{
}

/// The first `n` characters of a text.
pub open spec fn first_chars(s: Seq<char>, n: nat) -> Seq<char> {
    if s.len() <= n {
        s
    } else {
        s.take(n as int)
    }
}

/// A text on one line: its words with one space between each two.
pub open spec fn one_line(s: Seq<char>) -> Seq<char> {
    join(words(s), " "@)
}

/// The message in the body of a failed response.
pub open spec fn told_reason(v: JsonV) -> Option<Seq<char>> {
    let nested = match v.path2("error"@, "message"@) {
        Some(m) => m.as_str(),
        None => None,
    };
    match nested {
        Some(t) => Some(t),
        None => v.str_at("message"@),
    }
}

/// Why a response failed: what its body tells, where it is a document that tells
/// anything, or else the body itself, on one line of at most 500 characters.
pub open spec fn reason_in(document: Option<JsonV>, text: Seq<char>) -> Seq<char> {
    let told = match document {
        Some(v) => told_reason(v),
        None => None,
    };
    let line = first_chars(
        one_line(
            match told {
                Some(t) => t,
                None => text,
            },
        ),
        500,
    );
    if line.len() == 0 {
        "Unknown error"@
    } else {
        line
    }
}

/// A document with a reason as the message of its error.
pub open spec fn with_reason(document: Option<JsonV>, reason: Seq<char>) -> JsonV {
    let body = match document {
        Some(JsonV::Object(m)) => m,
        _ => Map::empty(),
    };
    let error = match JsonV::Object(body).get("error"@) {
        Some(JsonV::Object(m)) => m,
        _ => Map::empty(),
    };
    JsonV::Object(body.insert("error"@, JsonV::Object(error.insert("message"@, JsonV::Text(reason)))))
}

/// Why a response with this body failed.
pub open spec fn failure_reason(text: Seq<char>) -> Seq<char> {
    reason_in(document_in(text), text)
}

/// The body of a failed response with its reason as the message of its error.
pub open spec fn failure_body(text: Seq<char>) -> JsonV {
    with_reason(document_in(text), failure_reason(text))
}

/// The body of a failed response always carries the reason as the message of its
/// error, and the reason is never empty and never long.
pub proof fn law_failure_carries_its_reason(document: Option<JsonV>, text: Seq<char>)
    ensures
        with_reason(document, reason_in(document, text)).path2("error"@, "message"@) == Some(
            JsonV::Text(reason_in(document, text)),
        ),
        0 < reason_in(document, text).len() <= 500,
{
    reveal_strlit("Unknown error");
    assert("Unknown error"@.len() == 13);
}

/// A text on one line.
pub fn single_line(s: &str) -> (r: String)
    ensures
        r@ == one_line(s@),
{
    join_texts(&split_words(s), " ")
}

fn clip_chars(s: &str, n: usize) -> (r: String)
    ensures
        r@ == first_chars(s@, n as nat),
{
    let len = s.unicode_len();
    if len <= n {
        s.to_owned()
    } else {
        assert(s@.subrange(0, n as int) =~= s@.take(n as int));
        s.substring_char(0, n).to_owned()
    }
}

/// The document and the reason for a failed response, whose body is `text` and, where
/// it is JSON text, `document`.
pub fn error_payload(document: Option<Json>, text: &str) -> (r: (Json, String))
    ensures
        r.0@ == with_reason(opt_json(document), reason_in(opt_json(document), text@)),
        r.1@ == reason_in(opt_json(document), text@),
{
    let told = match &document {
        Some(v) => {
            let nested = match v.path2("error", "message") {
                Some(m) => m.as_str(),
                None => None,
            };
            match nested {
                Some(t) => Some(t),
                None => v.str_at("message"),
            }
        },
        None => None,
    };
    let line = clip_chars(
        single_line(
            match told {
                Some(t) => t,
                None => text,
            },
        ).as_str(),
        500,
    );
    let reason = if line.as_str().is_empty() {
        "Unknown error".to_owned()
    } else {
        line
    };
    let body = match document {
        Some(Json::Object(m)) => m,
        _ => JsonObject::new(),
    };
    let error = match body.get("error") {
        Some(Json::Object(m)) => m.copy(),
        _ => JsonObject::new(),
    };
    let message = Json::text(reason.as_str());
    (Json::Object(body.with("error", Json::Object(error.with("message", message)))), reason)
}

/// Normalize the body of a failed upstream response into a document and a reason
/// on one line. The document carries the reason as the message of its error, so
/// the response to the client and the log always agree.
pub fn parse_error_payload(text: &str) -> (r: (Json, String))
    ensures
        r.0@ == failure_body(text@),
        r.1@ == failure_reason(text@),
{
    error_payload(read_document(text), text)
}

/// Whether a status reports success.
pub open spec fn is_success(status: u16) -> bool {
    200 <= status < 300
}

/// Check the status of an upstream response. A response that failed becomes an
/// error with the real status and the reason found in its body.
pub fn ensure_upstream_success(status: u16, body: &str) -> (r: Result<(), Error>)
    ensures
        match r {
            Ok(_) => is_success(status),
            Err(e) => !is_success(status) && e@ == (ErrorV::Upstream {
                status,
                reason: failure_reason(body@),
                body: failure_body(body@),
            }),
        },
{
    if 200 <= status && status < 300 {
        return Ok(());
    }
    let (body, reason) = parse_error_payload(body);
    Err(Error::Upstream { status, reason, body })
}

} // verus!
