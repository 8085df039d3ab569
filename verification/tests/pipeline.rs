use ai_bridge::bridge::StreamBridge;
use ai_bridge::error::{Error, LocalEntry};
use ai_bridge::forward::{UpstreamReasoningPolicy, UpstreamType};
use ai_bridge::json::Json;
use ai_bridge::json_canonical::canonical_json_string;
use ai_bridge::json_text::parse_json;
use ai_bridge::pipeline::{convert_reply, plan_media, prepare_request, requested_model, wants_stream, MediaPlan};
use ai_bridge::stream_out::StreamOut;
use serde_json::Value;

const ENTRIES: [LocalEntry; 3] = [LocalEntry::AnthropicMessages, LocalEntry::OaiChat, LocalEntry::OaiResponses];
const UPSTREAMS: [UpstreamType; 3] = [UpstreamType::AnthropicMessages, UpstreamType::OaiChat, UpstreamType::OaiResponses];

fn j(text: &str) -> Json {
    parse_json(text).unwrap()
}

fn val(v: &Json) -> Value {
    serde_json::from_str(&canonical_json_string(v)).unwrap()
}

fn policy() -> UpstreamReasoningPolicy {
    UpstreamReasoningPolicy::parse(None, None)
}

fn prepared(body: &str, entry: LocalEntry, upstream: UpstreamType, stream: bool) -> Value {
    val(&prepare_request(j(body), entry, upstream, "up", &policy(), stream).unwrap())
}

#[test]
fn the_model_is_overridden_on_every_path() {
    for entry in ENTRIES {
        for upstream in UPSTREAMS {
            for body in [r#"{"model":"client","messages":[],"input":[]}"#, "{}", "null"] {
                assert_eq!(prepared(body, entry, upstream, false)["model"], "up");
            }
        }
    }
}

#[test]
fn a_request_in_the_format_of_the_upstream_is_passed_on() {
    let body = r#"{"model":"client","x":[1,{"y":null}],"stream":true}"#;
    for (i, entry) in ENTRIES.into_iter().enumerate() {
        let out = prepared(body, entry, UPSTREAMS[i], true);
        assert_eq!(out.to_string(), r#"{"model":"up","stream":true,"x":[1,{"y":null}]}"#);
    }
}

#[test]
fn several_candidates_are_refused_but_by_a_chat_upstream() {
    let body = r#"{"messages":[],"n":2}"#;
    for upstream in [UpstreamType::AnthropicMessages, UpstreamType::OaiResponses] {
        match prepare_request(j(body), LocalEntry::OaiChat, upstream, "up", &policy(), false) {
            Err(e) => {
                assert!(matches!(e, Error::Unsupported(_)));
                let (status, answer) = e.into_entry_response(LocalEntry::OaiChat);
                assert_eq!(status, 400);
                assert_eq!(val(&answer)["error"]["type"], "invalid_request_error");
            }
            Ok(_) => panic!("two candidates cannot be had"),
        }
    }
    assert_eq!(prepared(body, LocalEntry::OaiChat, UpstreamType::OaiChat, false)["n"], 2);
    for body in [r#"{"n":1}"#, r#"{"n":0}"#, r#"{"n":"2"}"#, "{}"] {
        assert_eq!(prepared(body, LocalEntry::OaiChat, UpstreamType::AnthropicMessages, false)["n"], Value::Null);
    }
}

#[test]
fn streams_are_asked_for_in_the_format_of_the_upstream() {
    let body = r#"{"messages":[{"role":"user","content":"hi"}],"stream":true}"#;
    let chat = prepared(body, LocalEntry::AnthropicMessages, UpstreamType::OaiChat, true);
    assert_eq!(chat["stream"], true);
    assert_eq!(chat["stream_options"]["include_usage"], true);
    let responses = prepared(body, LocalEntry::AnthropicMessages, UpstreamType::OaiResponses, true);
    assert_eq!(responses["stream"], true);
    assert_eq!(responses["stream_options"], Value::Null);
    let bridged = prepared(body, LocalEntry::OaiChat, UpstreamType::OaiResponses, true);
    assert_eq!(bridged["stream"], true);
    assert_eq!(bridged["input"][0]["role"], "user");
}

#[test]
fn the_effort_is_stamped_only_where_reasoning_is_asked_for() {
    let asked = r#"{"messages":[],"thinking":{"type":"enabled","budget_tokens":1000}}"#;
    let chat = prepared(asked, LocalEntry::AnthropicMessages, UpstreamType::OaiChat, false);
    assert_eq!(chat["reasoning_effort"], "max");
    let responses = prepared(asked, LocalEntry::AnthropicMessages, UpstreamType::OaiResponses, false);
    assert_eq!(responses["reasoning"]["effort"], "max");
    let silent = prepared(r#"{"messages":[]}"#, LocalEntry::AnthropicMessages, UpstreamType::OaiChat, false);
    assert_eq!(silent["reasoning_effort"], Value::Null);
}

#[test]
fn replies_are_converted_back_on_every_path() {
    let anthropic = r#"{"id":"m","content":[{"type":"text","text":"Hi"}],"stop_reason":"end_turn","usage":{"input_tokens":1,"output_tokens":2}}"#;
    let chat = r#"{"id":"c","choices":[{"message":{"content":"Hi"},"finish_reason":"stop"}],"usage":{"prompt_tokens":1,"completion_tokens":2}}"#;
    let responses = r#"{"id":"r","status":"completed","output":[{"type":"message","content":[{"type":"output_text","text":"Hi"}]}],"usage":{"input_tokens":1,"output_tokens":2}}"#;
    for (upstream, reply) in UPSTREAMS.into_iter().zip([anthropic, chat, responses]) {
        let (out, note) = convert_reply(j(reply), LocalEntry::AnthropicMessages, upstream, "sonnet").unwrap();
        let out = val(&out);
        assert_eq!(out["content"][0]["text"], "Hi");
        assert_eq!(out["stop_reason"], "end_turn");
        let expected = if upstream == UpstreamType::AnthropicMessages {
            "stop_reason=passthrough (sonnet)"
        } else {
            "stop_reason=end_turn"
        };
        assert_eq!(note, expected);

        let (out, note) = convert_reply(j(reply), LocalEntry::OaiChat, upstream, "gpt").unwrap();
        let out = val(&out);
        let content = &out["choices"][0]["message"]["content"];
        assert_eq!(if upstream == UpstreamType::OaiChat { content } else { &content[0]["text"] }, "Hi");
        assert_eq!(out["choices"][0]["finish_reason"], "stop");
        assert_eq!(note, if upstream == UpstreamType::OaiChat { "stop_reason=passthrough (gpt)" } else { "ok" });

        let (out, note) = convert_reply(j(reply), LocalEntry::OaiResponses, upstream, "gpt").unwrap();
        let out = val(&out);
        assert_eq!(out["output"][0]["content"][0]["text"], "Hi");
        assert_eq!(out["status"], "completed");
        assert_eq!(note, if upstream == UpstreamType::OaiResponses { "stop_reason=passthrough (gpt)" } else { "ok" });
    }
}

#[test]
fn replies_that_cannot_be_converted_are_refused() {
    for (reply, told) in [
        ("{}", "No choices in response"),
        (r#"{"choices":[]}"#, "Empty choices array"),
        (r#"{"choices":[{}]}"#, "No message in choice"),
    ] {
        match convert_reply(j(reply), LocalEntry::OaiResponses, UpstreamType::OaiChat, "m") {
            Err(Error::Transform(m)) => assert_eq!(m, told),
            _ => panic!("{reply}"),
        }
    }
}

#[test]
fn streams_and_models_are_read_from_the_request() {
    assert!(wants_stream(&j(r#"{"stream":true}"#)));
    assert!(!wants_stream(&j(r#"{"stream":"true"}"#)));
    assert!(!wants_stream(&j("{}")));
    assert_eq!(requested_model(&j(r#"{"model":"m"}"#)), "m");
    assert_eq!(requested_model(&j(r#"{"model":1}"#)), "unknown");
}

#[test]
fn images_are_handled_for_text_only_models_alone() {
    assert_eq!(plan_media(false, "deepseek-v4-flash", true), MediaPlan::PassThrough);
    assert_eq!(plan_media(true, "gpt-5", true), MediaPlan::PassThrough);
    assert_eq!(plan_media(true, "deepseek-v4-flash", true), MediaPlan::Describe);
    assert_eq!(plan_media(true, "deepseek-v4-flash", false), MediaPlan::Strip);
}

/// What the client and the log get of a stream.
fn relay(entry: LocalEntry, upstream: UpstreamType, bytes: &str) -> (String, String) {
    let mut bridge = StreamBridge::new(entry, upstream, "sonnet");
    let mut client = String::new();
    let mut log = String::new();
    let mut steps = bridge.push_bytes(bytes.as_bytes());
    if bridge.forwards_bytes() {
        client.push_str(bytes);
    }
    steps.append(&mut bridge.finish());
    for out in steps {
        if let Some(t) = out.client_text() {
            client.push_str(&t);
        }
        match out {
            StreamOut::Log(t) => log.push_str(&t),
            StreamOut::LogDone => log.push('.'),
            _ => {}
        }
    }
    (client, log)
}

const CHAT: &str = "data: {\"id\":\"c\",\"choices\":[{\"delta\":{\"content\":\"Hi\"}}]}\n\ndata: {\"id\":\"c\",\"choices\":[{\"delta\":{},\"finish_reason\":\"stop\"}]}\n\ndata: [DONE]\n\n";

const ANTHROPIC: &str = "event: message_start\ndata: {\"type\":\"message_start\",\"message\":{\"id\":\"m\"}}\n\nevent: content_block_start\ndata: {\"type\":\"content_block_start\",\"index\":0,\"content_block\":{\"type\":\"text\",\"text\":\"\"}}\n\nevent: content_block_delta\ndata: {\"type\":\"content_block_delta\",\"index\":0,\"delta\":{\"type\":\"text_delta\",\"text\":\"Hi\"}}\n\nevent: content_block_stop\ndata: {\"type\":\"content_block_stop\",\"index\":0}\n\nevent: message_delta\ndata: {\"type\":\"message_delta\",\"delta\":{\"stop_reason\":\"end_turn\"}}\n\nevent: message_stop\ndata: {\"type\":\"message_stop\"}\n\n";

const RESPONSES: &str = "event: response.created\ndata: {\"id\":\"r\"}\n\nevent: response.content_part.added\ndata: {\"type\":\"output_text\",\"item_id\":\"m\"}\n\nevent: response.output_text.delta\ndata: {\"type\":\"response.output_text.delta\",\"item_id\":\"m\",\"delta\":\"Hi\"}\n\nevent: response.output_text.done\ndata: {}\n\nevent: response.completed\ndata: {}\n\n";

#[test]
fn streams_are_bridged_on_every_path() {
    for (upstream, bytes) in UPSTREAMS.into_iter().zip([ANTHROPIC, CHAT, RESPONSES]) {
        let (client, log) = relay(LocalEntry::AnthropicMessages, upstream, bytes);
        assert!(client.contains("\"type\":\"text_delta\"") && client.contains("\"text\":\"Hi\""), "{client}");
        assert!(client.contains("event: message_stop"), "{client}");
        assert_eq!(log, "Hi.", "anthropic from {upstream:?}");

        let (client, log) = relay(LocalEntry::OaiChat, upstream, bytes);
        assert!(client.contains("\"content\":\"Hi\""), "{client}");
        assert!(client.contains("[DONE]\n\n"), "{client}");
        assert_eq!(log.replace("..", "."), "Hi.", "chat from {upstream:?}");

        let (client, log) = relay(LocalEntry::OaiResponses, upstream, bytes);
        assert!(client.contains("\"delta\":\"Hi\""), "{client}");
        assert!(client.contains("response.completed"), "{client}");
        assert_eq!(log.replace("..", "."), "Hi.", "responses from {upstream:?}");
    }
}

#[test]
fn streams_of_the_same_format_are_forwarded_as_they_are() {
    for (i, entry) in ENTRIES.into_iter().enumerate() {
        for upstream in UPSTREAMS {
            let bridge = StreamBridge::new(entry, upstream, "m");
            assert_eq!(bridge.forwards_bytes(), upstream == UPSTREAMS[i]);
        }
    }
    assert_eq!(relay(LocalEntry::OaiChat, UpstreamType::OaiChat, CHAT).0, CHAT);
}

#[test]
fn a_broken_connection_is_told_in_the_log_on_every_path() {
    for entry in ENTRIES {
        for upstream in UPSTREAMS {
            let mut bridge = StreamBridge::new(entry, upstream, "m");
            let told: Vec<String> = bridge
                .fail("reset")
                .iter()
                .filter_map(|o| match o {
                    StreamOut::LogError(t) => Some(t.clone()),
                    _ => None,
                })
                .collect();
            assert_eq!(told, ["Stream error: reset"], "{entry:?} {upstream:?}");
        }
    }
}

#[test]
fn streams_are_bridged_the_same_however_they_are_cut() {
    for entry in ENTRIES {
        for (upstream, bytes) in UPSTREAMS.into_iter().zip([ANTHROPIC, CHAT, RESPONSES]) {
            let run = |cut: usize| {
                let mut bridge = StreamBridge::new(entry, upstream, "sonnet");
                let mut steps = bridge.push_bytes(&bytes.as_bytes()[..cut]);
                steps.append(&mut bridge.push_bytes(&bytes.as_bytes()[cut..]));
                steps.append(&mut bridge.finish());
                let client: String = steps.iter().filter_map(|o| o.client_text()).collect();
                let log: Vec<String> = steps
                    .iter()
                    .filter_map(|o| match o {
                        StreamOut::Log(t) => Some(t.clone()),
                        _ => None,
                    })
                    .collect();
                (client, log)
            };
            let whole = run(0);
            for cut in 1..bytes.len() {
                assert_eq!(run(cut), whole, "{entry:?} {upstream:?} cut at {cut}");
            }
        }
    }
}

#[test]
fn a_response_is_completed_once() {
    let twice = format!("{ANTHROPIC}event: message_stop\ndata: {{\"type\":\"message_stop\"}}\n\n");
    let (client, _) = relay(LocalEntry::OaiResponses, UpstreamType::AnthropicMessages, &twice);
    assert_eq!(client.matches("event: response.completed").count(), 1);
    assert_eq!(client.matches("data: [DONE]").count(), 1);
}
