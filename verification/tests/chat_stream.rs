use ai_bridge::chat_chunk::chunk_from_json;
use ai_bridge::chunk_text::chunk_from_text;
use ai_bridge::chat_stream::ChatToAnthropic;
use ai_bridge::json::Json;
use ai_bridge::json_text::parse_json;
use ai_bridge::reasoning_bridge::{decode_openai_reasoning_item, reasoning_summary_text};
use ai_bridge::stream_out::StreamOut;
use serde_json::Value;

fn j(text: &str) -> Json {
    parse_json(text).unwrap()
}

fn frame(delta: &str) -> String {
    format!("data: {{\"id\":\"c1\",\"choices\":[{{\"delta\":{delta}}}]}}\n\n")
}

fn finish(reason: &str) -> String {
    format!("data: {{\"id\":\"c1\",\"choices\":[{{\"delta\":{{}},\"finish_reason\":\"{reason}\"}}]}}\n\n")
}

/// What is given out for the client, and for the log.
fn collect(outs: Vec<StreamOut>, client: &mut String, log: &mut String) {
    for out in outs {
        if let Some(t) = out.client_text() {
            client.push_str(&t);
        }
        match out {
            StreamOut::Log(t) => log.push_str(&t),
            StreamOut::LogError(t) => log.push_str(&format!("<{t}>")),
            StreamOut::LogDone => log.push('.'),
            _ => {}
        }
    }
}

fn run(frames: &[String]) -> (String, String) {
    let mut s = ChatToAnthropic::new("sonnet");
    let mut client = String::new();
    let mut log = String::new();
    for f in frames {
        collect(s.push_bytes(f.as_bytes()), &mut client, &mut log);
    }
    collect(s.finish(), &mut client, &mut log);
    (client, log)
}

/// The data of each event.
fn events(client: &str) -> Vec<Value> {
    client
        .split("\n\n")
        .filter(|b| !b.is_empty())
        .map(|b| serde_json::from_str(b.split_once("\ndata: ").unwrap().1).unwrap())
        .collect()
}

/// The type and the index of each event.
fn shape(client: &str) -> Vec<String> {
    events(client)
        .iter()
        .map(|e| match e["index"].as_u64() {
            Some(i) => format!("{} {i}", e["type"].as_str().unwrap()),
            None => e["type"].as_str().unwrap().to_string(),
        })
        .collect()
}

#[test]
fn a_whole_chat_stream_of_text() {
    let (client, log) = run(&[
        frame(r#"{"content":"Hi"}"#),
        frame(r#"{"content":" there"}"#),
        finish("stop"),
        "data: {\"id\":\"c1\",\"choices\":[],\"usage\":{\"prompt_tokens\":9,\"completion_tokens\":4}}\n\n".to_string(),
        "data: [DONE]\n\n".to_string(),
    ]);
    assert_eq!(
        client,
        concat_events(&[
            ("message_start", r#"{"message":{"id":"c1","model":"sonnet","role":"assistant","type":"message","usage":{"input_tokens":0,"output_tokens":0}},"type":"message_start"}"#),
            ("content_block_start", r#"{"content_block":{"text":"","type":"text"},"index":0,"type":"content_block_start"}"#),
            ("content_block_delta", r#"{"delta":{"text":"Hi","type":"text_delta"},"index":0,"type":"content_block_delta"}"#),
            ("content_block_delta", r#"{"delta":{"text":" there","type":"text_delta"},"index":0,"type":"content_block_delta"}"#),
            ("content_block_stop", r#"{"index":0,"type":"content_block_stop"}"#),
            ("message_delta", r#"{"delta":{"stop_reason":"end_turn","stop_sequence":null},"type":"message_delta","usage":{"input_tokens":9,"output_tokens":4}}"#),
            ("message_stop", r#"{"type":"message_stop"}"#),
        ])
    );
    assert_eq!(log, "Hi there.");
}

fn concat_events(list: &[(&str, &str)]) -> String {
    list.iter().map(|(name, data)| format!("event: {name}\ndata: {data}\n\n")).collect()
}

#[test]
fn usage_tells_cached_tokens_apart() {
    let (client, _) = run(&[
        "data: {\"id\":\"c1\",\"choices\":[{\"delta\":{\"content\":\"x\"}}],\"usage\":{\"prompt_tokens\":100,\"completion_tokens\":1,\"prompt_tokens_details\":{\"cached_tokens\":30,\"cache_write_tokens\":20}}}\n\n".to_string(),
        finish("length"),
        "data: [DONE]\n\n".to_string(),
    ]);
    let all = events(&client);
    let start = &all[0]["message"]["usage"];
    assert_eq!(start["input_tokens"], 50);
    assert_eq!(start["output_tokens"], 0);
    assert_eq!(start["cache_read_input_tokens"], 30);
    assert_eq!(start["cache_creation_input_tokens"], 20);
    let delta = &all[all.len() - 2];
    assert_eq!(delta["delta"]["stop_reason"], "max_tokens");
    assert_eq!(delta["usage"]["output_tokens"], 1);
}

#[test]
fn arguments_wait_for_the_start_of_their_call() {
    let (client, log) = run(&[
        frame(r#"{"tool_calls":[{"index":0,"function":{"arguments":"{\"a\""}}]}"#),
        frame(r#"{"tool_calls":[{"index":0,"id":"t1","function":{"name":"f","arguments":":1}"}}]}"#),
        finish("tool_calls"),
    ]);
    assert_eq!(
        shape(&client),
        [
            "message_start",
            "content_block_start 0",
            "content_block_delta 0",
            "content_block_delta 0",
            "content_block_stop 0",
            "message_delta",
            "message_stop",
        ]
    );
    let all = events(&client);
    assert_eq!(all[1]["content_block"]["id"], "t1");
    assert_eq!(all[2]["delta"]["partial_json"], "{\"a\"");
    assert_eq!(all[3]["delta"]["partial_json"], ":1}");
    assert_eq!(all[5]["delta"]["stop_reason"], "tool_use");
    assert_eq!(log, "[tool_use: f].");
}

#[test]
fn calls_that_never_started_are_started_at_the_end() {
    let (client, log) = run(&[
        frame(r#"{"content":"x"}"#),
        frame(r#"{"tool_calls":[{"index":3,"function":{"name":"g"}},{"index":1,"id":"t"},{"index":2}]}"#),
        finish("stop"),
    ]);
    let all = events(&client);
    let starts: Vec<(u64, &str, &str)> = all
        .iter()
        .filter(|e| e["content_block"]["type"] == "tool_use")
        .map(|e| {
            let b = &e["content_block"];
            (e["index"].as_u64().unwrap(), b["id"].as_str().unwrap(), b["name"].as_str().unwrap())
        })
        .collect();
    assert_eq!(starts, [(1, "tool_call_3", "g"), (2, "t", "unknown_tool")]);
    assert_eq!(log, "x.");
}

#[test]
fn a_call_stuck_in_white_space_is_dropped() {
    let spaces = " ".repeat(500);
    let (client, _) = run(&[
        frame(r#"{"tool_calls":[{"index":0,"id":"t","function":{"name":"f","arguments":"{"}}]}"#),
        frame(&format!(r#"{{"tool_calls":[{{"index":0,"function":{{"arguments":"{spaces}"}}}}]}}"#)),
        frame(r#"{"tool_calls":[{"index":0,"function":{"arguments":"}"}}]}"#),
        finish("tool_calls"),
    ]);
    let args: Vec<Value> =
        events(&client).iter().filter(|e| e["type"] == "content_block_delta").map(|e| e["delta"]["partial_json"].clone()).collect();
    assert_eq!(args, ["{"]);
    let (client, _) = run(&[
        frame(r#"{"tool_calls":[{"index":0,"id":"t","function":{"name":"f","arguments":"{"}}]}"#),
        frame(&format!(r#"{{"tool_calls":[{{"index":0,"function":{{"arguments":"{}"}}}}]}}"#, &spaces[1..])),
        finish("tool_calls"),
    ]);
    assert_eq!(events(&client).iter().filter(|e| e["type"] == "content_block_delta").count(), 2);
}

#[test]
fn text_after_a_tool_call_opens_a_block_of_its_own() {
    let (client, log) = run(&[
        frame(r#"{"content":"A"}"#),
        frame(r#"{"tool_calls":[{"index":0,"id":"t","function":{"name":"f","arguments":"{}"}}]}"#),
        frame(r#"{"content":"B"}"#),
        finish("stop"),
        "data: [DONE]\n\n".to_string(),
    ]);
    assert_eq!(
        shape(&client),
        [
            "message_start",
            "content_block_start 0",
            "content_block_delta 0",
            "content_block_stop 0",
            "content_block_start 1",
            "content_block_delta 1",
            "content_block_start 2",
            "content_block_delta 2",
            "content_block_stop 2",
            "content_block_stop 1",
            "message_delta",
            "message_stop",
        ]
    );
    let text: String =
        events(&client).iter().filter_map(|e| e["delta"]["text"].as_str().map(str::to_string)).collect();
    assert_eq!(text, "AB");
    assert_eq!(log, "AB.");
}

#[test]
fn reasoning_after_a_tool_call_opens_and_signs_a_block_of_its_own() {
    let (client, _) = run(&[
        frame(r#"{"reasoning":"one"}"#),
        frame(r#"{"tool_calls":[{"index":0,"id":"t","function":{"name":"f"}}]}"#),
        frame(r#"{"reasoning":"two"}"#),
        finish("stop"),
    ]);
    let signed: Vec<String> = events(&client)
        .iter()
        .filter_map(|e| e["delta"]["signature"].as_str().map(str::to_string))
        .map(|s| reasoning_summary_text(&decode_openai_reasoning_item(&s).unwrap()))
        .collect();
    assert_eq!(signed, ["one", "two"]);
}

#[test]
fn arguments_of_a_call_that_never_started_are_given_out_at_the_end() {
    let (client, _) = run(&[
        frame(r#"{"tool_calls":[{"index":0,"function":{"arguments":"{\"a\":"}}]}"#),
        frame(r#"{"tool_calls":[{"index":0,"function":{"arguments":"1}"}}]}"#),
        finish("tool_calls"),
    ]);
    assert_eq!(
        shape(&client),
        ["message_start", "content_block_start 0", "content_block_delta 0", "content_block_stop 0", "message_delta", "message_stop"]
    );
    let all = events(&client);
    assert_eq!(all[1]["content_block"]["name"], "unknown_tool");
    assert_eq!(all[2]["delta"]["partial_json"], "{\"a\":1}");
}

#[test]
fn the_signature_of_streamed_reasoning_carries_it() {
    let (client, _) = run(&[
        frame(r#"{"reasoning":"so "}"#),
        frame(r#"{"reasoning_content":"so"}"#),
        frame(r#"{"content":"x"}"#),
        finish("stop"),
    ]);
    let all = events(&client);
    let signed = all.iter().find(|e| e["delta"]["type"] == "signature_delta").unwrap();
    let item = decode_openai_reasoning_item(signed["delta"]["signature"].as_str().unwrap()).unwrap();
    assert_eq!(reasoning_summary_text(&item), "so so");
    assert_eq!(item.str_at("id"), Some("rs_0001"));
}

#[test]
fn a_broken_chat_stream_is_reported() {
    let mut s = ChatToAnthropic::new("sonnet");
    let mut client = String::new();
    let mut log = String::new();
    collect(s.push_bytes(frame(r#"{"content":"x"}"#).as_bytes()), &mut client, &mut log);
    client.clear();
    collect(s.fail("reset"), &mut client, &mut log);
    assert_eq!(
        client,
        "event: error\ndata: {\"error\":{\"message\":\"Stream error: reset\",\"type\":\"stream_error\"},\"type\":\"error\"}\n\n"
    );
    assert_eq!(log, "x<Stream error: reset>");
}

#[test]
fn chunks_that_are_malformed_are_skipped() {
    let (client, log) = run(&[
        "data: not json\n\n".to_string(),
        "data: {\"choices\":[{\"finish_reason\":\"stop\"}]}\n\n".to_string(),
        "data: {\"choices\":[{\"delta\":{\"content\":5}}]}\n\n".to_string(),
        ": comment\n\n".to_string(),
    ]);
    assert_eq!(client, "event: message_stop\ndata: {\"type\":\"message_stop\"}\n\n");
    assert_eq!(log, ".");
}

#[test]
fn chunks_are_the_same_however_the_bytes_are_cut() {
    let all: String = [
        frame(r#"{"reasoning":"é"}"#),
        frame(r#"{"content":"😀"}"#),
        finish("stop"),
        "data: [DONE]\n\n".to_string(),
    ]
    .concat();
    let whole = run(&[all.clone()]);
    for cut in 0..=all.len() {
        let mut s = ChatToAnthropic::new("sonnet");
        let mut client = String::new();
        let mut log = String::new();
        collect(s.push_bytes(&all.as_bytes()[..cut]), &mut client, &mut log);
        collect(s.push_bytes(&all.as_bytes()[cut..]), &mut client, &mut log);
        collect(s.finish(), &mut client, &mut log);
        assert_eq!((client, log), whole, "cut at {cut}");
    }
}

#[test]
fn chunks_are_decoded_strictly() {
    assert!(chunk_from_json(&j(r#"{}"#)).is_some());
    assert!(chunk_from_json(&j(r#"{"id":null}"#)).is_none());
    assert!(chunk_from_json(&j(r#"{"choices":[{"delta":{}}],"usage":null}"#)).is_some());
    assert!(chunk_from_json(&j(r#"{"choices":[{"delta":null}]}"#)).is_none());
    assert!(chunk_from_json(&j(r#"{"choices":[{"delta":{"tool_calls":[{}]}}]}"#)).is_none());
    assert!(chunk_from_json(&j(r#"{"usage":{"prompt_tokens":-1}}"#)).is_none());
    assert!(chunk_from_json(&j(r#"{"usage":{"prompt_tokens":4294967296}}"#)).is_none());
    let c = chunk_from_json(&j(r#"{"id":"i","choices":[{"delta":{"content":"a","reasoning_content":"r"},"finish_reason":"stop"}]}"#));
    let c = c.unwrap();
    assert_eq!(c.id, "i");
    assert_eq!(c.choices[0].delta.content.as_deref(), Some("a"));
    assert_eq!(c.choices[0].delta.reasoning.as_deref(), Some("r"));
    assert_eq!(c.choices[0].finish_reason.as_deref(), Some("stop"));
}

#[test]
fn members_that_do_not_count_are_passed_over_unread() {
    for text in [
        r#"{"x":1e999,"choices":[{"delta":{"content":"a"}}]}"#,
        r#"{"x":"\ud800","choices":[{"logprobs":{"y":["\udfff"]},"delta":{"content":"a"}}]}"#,
        r#"{"x":1,"x":2,"choices":[{"delta":{"content":"a","x":[],"x":{}}}]}"#,
        " { \"choices\" : [ { \"delta\" : { \"content\" : \"a\" } } ] , \"x\" : \"{,:]\\\"\" } ",
        r#"{"choices":[[{"content":"a"}]]}"#,
        r#"["",[{"delta":["a"]}]]"#,
    ] {
        let chunk = chunk_from_text(text).unwrap();
        assert_eq!(chunk.choices[0].delta.content.as_deref(), Some("a"), "{text}");
    }
    let deep = format!("{{\"x\":{}{},\"id\":\"i\"}}", "[".repeat(500), "]".repeat(500));
    assert_eq!(chunk_from_text(&deep).unwrap().id, "i");
}

#[test]
fn members_that_count_stand_there_once() {
    for text in [
        r#"{"id":"a","id":"b"}"#,
        r#"{"id":"a","\u0069d":"b"}"#,
        r#"{"choices":[{"delta":{"content":"a","content":"b"}}]}"#,
        r#"{"choices":[{"delta":{"reasoning":"a","reasoning_content":"b"}}]}"#,
        r#"{"choices":[{"delta":{"tool_calls":[{"index":0,"function":{"name":"f","name":"g"}}]}}]}"#,
        r#"{"usage":{"prompt_tokens":1,"prompt_tokens":1}}"#,
        r#"{"usage":{"prompt_tokens_details":{"cached_tokens":1,"cached_tokens":2}}}"#,
    ] {
        assert!(chunk_from_text(text).is_none(), "{text}");
    }
}

#[test]
fn what_is_no_chunk_is_refused() {
    for text in [
        "",
        "[DONE]",
        "{",
        "{} x",
        r#"{"id":5}"#,
        r#"{"id":{}}"#,
        r#"{"id":[]}"#,
        r#"{"id":"\ud800"}"#,
        r#"{"choices":{}}"#,
        r#"{"choices":null}"#,
        r#"{"choices":[{"delta":"a"}]}"#,
        r#"{"\ud800":1}"#,
        r#"["a",[],null,1]"#,
        r#"{"usage":{"prompt_tokens":1.5}}"#,
        r#"{"choices":[{"delta":{"tool_calls":[{"index":-1}]}}]}"#,
    ] {
        assert!(chunk_from_text(text).is_none(), "{text}");
    }
    let chunk = chunk_from_text(r#"{"usage":{"prompt_tokens":7,"prompt_tokens_details":[1,2]},"choices":[]}"#).unwrap();
    let usage = chunk.usage.unwrap();
    assert_eq!(usage.prompt_tokens, 7);
    assert_eq!(usage.prompt_tokens_details.unwrap().cache_write_tokens, 2);
}
