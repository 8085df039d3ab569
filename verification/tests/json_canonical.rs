use ai_bridge::json::Json;
use ai_bridge::json_canonical::canonical_json_string;
use ai_bridge::json_text::parse_json;

fn j(text: &str) -> Json {
    parse_json(text).unwrap()
}

#[test]
fn canonical_json_string_sorts_nested_object_keys() {
    let left = j(r##"{ "b": 2, "a": { "d": true, "c": [3, {"z": 1, "y": 2}] } }"##);
    let right = j(r##"{ "a": { "c": [3, {"y": 2, "z": 1}], "d": true }, "b": 2 }"##);

    assert_eq!(canonical_json_string(&left), canonical_json_string(&right));
}
