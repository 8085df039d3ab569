//! The errors of the bridge and the responses that they become.

use vstd::prelude::*;
use crate::config::Config;
use crate::json::{Json, JsonObject, JsonV};
use crate::text::cat;

verus! {

/// The local API style a request came in through. Error responses are shaped to
/// match this format so client SDKs can parse them.
#[derive(Debug, Clone, Copy, PartialEq, Eq, Structural)]
pub enum LocalEntry {
    AnthropicMessages,
    OaiChat,
    OaiResponses,
}

/// What can go wrong.
#[derive(Debug)]
pub enum Error {
    Transform(String),
    Forward(String),
    /// A response of the upstream that reports a failure: its status, the reason
    /// found in it, and its body.
    Upstream { status: u16, reason: String, body: Json },
    Config(String),
    Server(String),
    Unauthorized(String),
    /// A request feature the upstream format cannot represent (such as `n > 1`
    /// against an Anthropic upstream).
    Unsupported(String),
}

/// The model of an error.
pub enum ErrorV {
    Transform(Seq<char>),
    Forward(Seq<char>),
    Upstream { status: u16, reason: Seq<char>, body: JsonV },
    Config(Seq<char>),
    Server(Seq<char>),
    Unauthorized(Seq<char>),
    Unsupported(Seq<char>),
}

impl View for Error {
    type V = ErrorV;

    open spec fn view(&self) -> ErrorV {
        match self {
            Error::Transform(m) => ErrorV::Transform(m@),
            Error::Forward(m) => ErrorV::Forward(m@),
            Error::Upstream { status, reason, body } => ErrorV::Upstream {
                status: *status,
                reason: reason@,
                body: body@,
            },
            Error::Config(m) => ErrorV::Config(m@),
            Error::Server(m) => ErrorV::Server(m@),
            Error::Unauthorized(m) => ErrorV::Unauthorized(m@),
            Error::Unsupported(m) => ErrorV::Unsupported(m@),
        }
    }
}

impl ErrorV {
    /// The HTTP status of the response to the client.
    pub open spec fn status(self) -> u16 {
        match self {
            ErrorV::Transform(_) => 502,
            ErrorV::Forward(_) => 502,
            ErrorV::Upstream { status, .. } => status,
            ErrorV::Config(_) => 500,
            ErrorV::Server(_) => 500,
            ErrorV::Unauthorized(_) => 401,
            ErrorV::Unsupported(_) => 400,
        }
    }

    /// The message of the response to the client.
    pub open spec fn message(self) -> Seq<char> {
        match self {
            ErrorV::Transform(m) => m,
            ErrorV::Forward(m) => m,
            ErrorV::Upstream { reason, .. } => reason,
            ErrorV::Config(m) => m,
            ErrorV::Server(m) => m,
            ErrorV::Unauthorized(m) => m,
            ErrorV::Unsupported(m) => m,
        }
    }

    /// The error as one line for a reader.
    pub open spec fn display(self) -> Seq<char> {
        match self {
            ErrorV::Transform(m) => "格式转换错误: "@ + m,
            ErrorV::Forward(m) => "转发失败: "@ + m,
            ErrorV::Upstream { reason, .. } => "转发失败: "@ + reason,
            ErrorV::Config(m) => "配置错误: "@ + m,
            ErrorV::Server(m) => "服务器错误: "@ + m,
            ErrorV::Unauthorized(m) => "未授权: "@ + m,
            ErrorV::Unsupported(m) => "不支持的请求: "@ + m,
        }
    }
}

/// The error type that the OpenAI formats give for a status.
pub open spec fn error_type(status: u16) -> Seq<char> {
    if status == 400 {
        "invalid_request_error"@
    } else if status == 401 {
        "authentication_error"@
    } else {
        "api_error"@
    }
}

/// The body of an error response in the format of the entry it goes out by.
pub open spec fn error_body(status: u16, message: Seq<char>, entry: LocalEntry) -> JsonV {
    JsonV::Object(
        map![
            "error"@ => if entry == LocalEntry::AnthropicMessages {
                JsonV::Object(map!["type"@ => JsonV::Text("error"@), "message"@ => JsonV::Text(message)])
            } else {
                JsonV::Object(
                    map!["message"@ => JsonV::Text(message), "type"@ => JsonV::Text(error_type(status))],
                )
            },
        ],
    )
}

impl Error {
    /// HTTP status and message for this error, independent of local entry format.
    pub fn status_and_message(&self) -> (r: (u16, String))
        ensures
            r.0 == self@.status(),
            r.1@ == self@.message(),
    {
        match self {
            Error::Transform(msg) => (502, msg.clone()),
            Error::Forward(msg) => (502, msg.clone()),
            Error::Upstream { status, reason, .. } => (*status, reason.clone()),
            Error::Config(msg) => (500, msg.clone()),
            Error::Server(msg) => (500, msg.clone()),
            Error::Unauthorized(msg) => (401, msg.clone()),
            Error::Unsupported(msg) => (400, msg.clone()),
        }
    }

    /// The status and body of the response to a client of the given entry.
    pub fn into_entry_response(self, entry: LocalEntry) -> (r: (u16, Json))
        ensures
            r.0 == self@.status(),
            r.1@ == error_body(self@.status(), self@.message(), entry),
    {
        let (status, message) = self.status_and_message();
        let error = match entry {
            LocalEntry::AnthropicMessages => JsonObject::new().with("type", Json::text("error")).with(
                "message",
                Json::Text(message),
            ),
            LocalEntry::OaiChat | LocalEntry::OaiResponses => {
                let error_type = if status == 400 {
                    "invalid_request_error"
                } else if status == 401 {
                    "authentication_error"
                } else {
                    "api_error"
                };
                JsonObject::new().with("message", Json::Text(message)).with("type", Json::text(error_type))
            },
        };
        (status, Json::Object(JsonObject::new().with("error", Json::Object(error))))
    }

    /// The error as one line for a reader.
    pub fn display(&self) -> (r: String)
        ensures
            r@ == self@.display(),
    {
        match self {
            Error::Transform(m) => cat("格式转换错误: ", m.as_str()),
            Error::Forward(m) => cat("转发失败: ", m.as_str()),
            Error::Upstream { reason, .. } => cat("转发失败: ", reason.as_str()),
            Error::Config(m) => cat("配置错误: ", m.as_str()),
            Error::Server(m) => cat("服务器错误: ", m.as_str()),
            Error::Unauthorized(m) => cat("未授权: ", m.as_str()),
            Error::Unsupported(m) => cat("不支持的请求: ", m.as_str()),
        }
    }
}

/// The shape of an error follows the entry alone: both OpenAI entries give the same
/// body, and the message is always there.
pub proof fn law_error_shape_follows_entry(e: ErrorV)
    ensures
        error_body(e.status(), e.message(), LocalEntry::OaiChat) == error_body(
            e.status(),
            e.message(),
            LocalEntry::OaiResponses,
        ),
        forall|entry: LocalEntry| #[trigger]
            error_body(e.status(), e.message(), entry).path2("error"@, "message"@) == Some(
                JsonV::Text(e.message()),
            ),
{
    reveal_strlit("type");
    reveal_strlit("message");
    assert("type"@.len() != "message"@.len());
}

} // verus!
