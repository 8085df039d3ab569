use ai_bridge::error::{Error, LocalEntry};
use ai_bridge::json::Json;
use ai_bridge::json_canonical::canonical_json_string;

fn variants() -> Vec<(Error, u16, &'static str)> {
    vec![
        (Error::Transform("m".to_string()), 502, "格式转换错误: m"),
        (Error::Forward("m".to_string()), 502, "转发失败: m"),
        (Error::Config("m".to_string()), 500, "配置错误: m"),
        (Error::Server("m".to_string()), 500, "服务器错误: m"),
        (Error::Unauthorized("m".to_string()), 401, "未授权: m"),
        (Error::Unsupported("m".to_string()), 400, "不支持的请求: m"),
    ]
}

#[test]
fn each_error_has_its_status_and_line() {
    for (e, status, line) in variants() {
        assert_eq!(e.status_and_message(), (status, "m".to_string()));
        assert_eq!(e.display(), line);
    }
}

#[test]
fn anthropic_errors_have_the_anthropic_shape() {
    for (e, status, _) in variants() {
        let (s, body) = e.into_entry_response(LocalEntry::AnthropicMessages);
        assert_eq!(s, status);
        assert_eq!(canonical_json_string(&body), r#"{"error":{"message":"m","type":"error"}}"#);
    }
}

#[test]
fn openai_errors_are_typed_by_their_status() {
    let expected = ["api_error", "api_error", "api_error", "api_error", "authentication_error", "invalid_request_error"];
    for entry in [LocalEntry::OaiChat, LocalEntry::OaiResponses] {
        for (i, (e, status, _)) in variants().into_iter().enumerate() {
            let (s, body) = e.into_entry_response(entry);
            assert_eq!(s, status);
            assert_eq!(
                canonical_json_string(&body),
                format!(r#"{{"error":{{"message":"m","type":"{}"}}}}"#, expected[i])
            );
        }
    }
}

#[test]
fn an_upstream_error_keeps_the_real_status() {
    let e = Error::Upstream { status: 429, reason: "slow down".to_string(), body: Json::Null };
    assert_eq!(e.status_and_message(), (429, "slow down".to_string()));
    assert_eq!(e.display(), "转发失败: slow down");
}
