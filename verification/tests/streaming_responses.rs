use ai_bridge::json::Json;
use ai_bridge::json_text::parse_json;
use ai_bridge::reasoning_bridge::decode_openai_reasoning_item;
use ai_bridge::stream_out::{StreamOut, StreamPiece};
use ai_bridge::streaming_responses::{responses_to_anthropic_sse, Progress};
use serde_json::Value;

fn j(text: &str) -> Json {
    parse_json(text).unwrap()
}

fn frame(kind: &str, data: &str) -> String {
    format!("event: {kind}\ndata: {data}\n\n")
}

fn collect(outs: Vec<StreamOut>, client: &mut String, log: &mut String) {
    for out in outs {
        if let Some(t) = out.client_text() {
            client.push_str(&t);
        }
        match out {
            StreamOut::Log(t) => log.push_str(&t),
            StreamOut::LogError(t) => log.push_str(&format!("<{t}>")),
            StreamOut::LogDone => log.push('.'),
            _ => {}
        }
    }
}

fn run(frames: &[String]) -> (String, String) {
    let stream: Vec<StreamPiece> =
        frames.iter().map(|f| StreamPiece::Bytes(f.as_bytes().to_vec())).collect();
    let mut client = String::new();
    let mut log = String::new();
    collect(responses_to_anthropic_sse(&stream, "sonnet"), &mut client, &mut log);
    (client, log)
}

fn events(client: &str) -> Vec<Value> {
    client
        .split("\n\n")
        .filter(|b| !b.is_empty())
        .map(|b| serde_json::from_str(b.split_once("\ndata: ").unwrap().1).unwrap())
        .collect()
}

fn shape(client: &str) -> Vec<String> {
    events(client)
        .iter()
        .map(|e| match e["index"].as_u64() {
            Some(i) => format!("{} {i}", e["type"].as_str().unwrap()),
            None => e["type"].as_str().unwrap().to_string(),
        })
        .collect()
}

#[test]
fn a_whole_responses_stream_of_text() {
    let (client, log) = run(&[
        frame("response.created", r#"{"id":"r1"}"#),
        frame("response.in_progress", r#"{"id":"r1"}"#),
        frame("response.content_part.added", r#"{"type":"output_text","item_id":"m","part_index":0}"#),
        frame("response.output_text.delta", r#"{"item_id":"m","part_index":0,"delta":"Hi"}"#),
        frame("response.output_text.delta", r#"{"item_id":"other","delta":"lost"}"#),
        frame("response.output_text.done", "{}"),
        frame("response.completed", r#"{"usage":{"input_tokens":9,"output_tokens":4}}"#),
    ]);
    assert_eq!(
        shape(&client),
        [
            "message_start",
            "content_block_start 0",
            "content_block_delta 0",
            "content_block_stop 0",
            "message_delta",
            "message_stop",
        ]
    );
    let all = events(&client);
    assert_eq!(all[0]["message"]["id"], "r1");
    assert_eq!(all[0]["message"]["model"], "sonnet");
    assert_eq!(all[2]["delta"]["text"], "Hi");
    assert_eq!(all[4]["delta"]["stop_reason"], Value::Null);
    assert_eq!(all[4]["usage"]["input_tokens"], 9);
    assert_eq!(all[4]["usage"]["output_tokens"], 4);
    assert_eq!(log, "Hi.");
}

#[test]
fn function_calls_become_tool_blocks() {
    let (client, log) = run(&[
        frame("response.created", r#"{"id":"r1"}"#),
        frame("response.output_item.added", r#"{"type":"function_call","id":"i1","call_id":"c1","name":"f"}"#),
        frame("response.output_item.added", r#"{"type":"function_call","id":"i2","call_id":"c2","name":"g"}"#),
        frame("response.function_call_arguments.delta", r#"{"item_id":"i2","delta":"{}"}"#),
        frame("response.function_call_arguments.delta", r#"{"item_id":"i1","delta":"{\"a\":1}"}"#),
        frame("response.output_item.done", r#"{"type":"function_call","id":"i1"}"#),
        frame("response.output_item.done", r#"{"type":"function_call","id":"i1"}"#),
        frame("response.incomplete", "{}"),
    ]);
    assert_eq!(
        shape(&client),
        [
            "message_start",
            "content_block_start 0",
            "content_block_start 1",
            "content_block_delta 1",
            "content_block_delta 0",
            "content_block_stop 0",
            "content_block_stop 1",
            "message_delta",
            "message_stop",
        ]
    );
    let all = events(&client);
    assert_eq!(all[1]["content_block"]["id"], "c1");
    assert_eq!(all[1]["content_block"]["name"], "f");
    assert_eq!(all[4]["delta"]["partial_json"], "{\"a\":1}");
    assert_eq!(all[7]["delta"]["stop_reason"], "max_tokens");
    assert_eq!(log, "[tool_use: f][tool_use: g].");
}

#[test]
fn reasoning_items_become_signed_thinking_blocks() {
    let item = r#"{"type":"reasoning","id":"rs","summary":[{"type":"summary_text","text":"so "},{"type":"summary_text","text":"so"}],"encrypted_content":"e"}"#;
    let (client, log) = run(&[
        frame("response.output_item.added", item),
        frame("response.output_item.done", r#"{"type":"reasoning","id":"rs"}"#),
    ]);
    assert_eq!(
        shape(&client),
        ["content_block_start 0", "content_block_delta 0", "content_block_delta 0", "content_block_stop 0", "message_stop"]
    );
    let all = events(&client);
    assert_eq!(all[1]["delta"]["thinking"], "so so");
    let carried = decode_openai_reasoning_item(all[2]["delta"]["signature"].as_str().unwrap()).unwrap();
    assert_eq!(carried.str_at("encrypted_content"), Some("e"));
    assert_eq!(log, "so so.");
}

#[test]
fn reasoning_without_text_is_not_signed() {
    let (client, _) = run(&[
        frame("response.output_item.added", r#"{"type":"reasoning","id":"rs","summary":[]}"#),
        frame("response.output_item.done", r#"{"type":"reasoning","id":"rs"}"#),
    ]);
    assert_eq!(shape(&client), ["content_block_start 0", "content_block_stop 0", "message_stop"]);
}

#[test]
fn the_end_closes_what_is_open() {
    let (client, log) = run(&[
        frame("response.content_part.added", r#"{"type":"output_text","item_id":"m"}"#),
        frame("response.output_item.added", r#"{"type":"function_call","id":"i","call_id":"c","name":"f"}"#),
        frame("response.content_part.added", r#"{"type":"refusal","item_id":"m"}"#),
    ]);
    assert_eq!(
        shape(&client),
        ["content_block_start 0", "content_block_start 1", "content_block_stop 0", "content_block_stop 1", "message_stop"]
    );
    assert_eq!(log, "[tool_use: f].");
}

#[test]
fn a_failure_is_told_and_nothing_is_closed() {
    for (data, told) in [
        (r#"{"error":{"message":"too long"}}"#, "too long"),
        (r#"{"message":"overloaded"}"#, "overloaded"),
        (r#"{"error":{"message":5},"message":"x"}"#, "Upstream streaming error"),
        ("broken", "Upstream streaming error"),
    ] {
        for kind in ["response.failed", "error"] {
            let (client, log) = run(&[
                frame("response.content_part.added", r#"{"type":"output_text","item_id":"m"}"#),
                frame(kind, data),
            ]);
            assert_eq!(shape(&client), ["content_block_start 0", "error"]);
            assert_eq!(events(&client)[1]["error"]["message"], told);
            assert_eq!(events(&client)[1]["error"]["type"], "api_error");
            assert_eq!(log, format!("<{told}>"));
        }
    }
}

#[test]
fn arguments_stuck_in_white_space_are_held_back() {
    let start = frame("response.output_item.added", r#"{"type":"function_call","id":"i","call_id":"c","name":"f"}"#);
    let args = |n: usize| {
        frame("response.function_call_arguments.delta", &format!(r#"{{"item_id":"i","delta":"{}"}}"#, " ".repeat(n)))
    };
    let count = |frames: &[String]| {
        events(&run(frames).0).iter().filter(|e| e["type"] == "content_block_delta").count()
    };
    assert_eq!(count(&[start.clone(), args(500)]), 1);
    assert_eq!(count(&[start.clone(), args(501)]), 0);
    assert_eq!(count(&[start, args(400), args(101)]), 1);
}

#[test]
fn events_are_taken_as_documents() {
    let mut p = Progress::new("sonnet");
    assert!(!p.add_event("response.created", &Some(j(r#"{"id":"r1"}"#))));
    assert!(!p.add_event("response.completed", &None));
    assert!(p.add_event("error", &Some(j(r#"{"message":"m"}"#))));
    let mut client = String::new();
    let mut log = String::new();
    collect(p.out, &mut client, &mut log);
    assert_eq!(shape(&client), ["message_start", "error"]);
    assert_eq!(log, "<m>");
    assert!(p.sent_delta && p.failed && p.pending.is_none());
}

#[test]
fn a_broken_responses_stream_is_reported_and_nothing_follows() {
    let stream = vec![
        StreamPiece::Bytes(frame("response.created", "{}").into_bytes()),
        StreamPiece::Failure("reset".to_string()),
        StreamPiece::Bytes(frame("response.completed", "{}").into_bytes()),
    ];
    let mut client = String::new();
    let mut log = String::new();
    collect(responses_to_anthropic_sse(&stream, "sonnet"), &mut client, &mut log);
    assert_eq!(shape(&client), ["message_start", "error"]);
    assert_eq!(events(&client)[1]["error"]["type"], "stream_error");
    assert_eq!(log, "<Stream error: reset>");
}
