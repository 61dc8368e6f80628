//! The errors of the bot, each with the message it is reported with.
use vstd::prelude::*;
use crate::text::push_str_text;

verus! {

/// What went wrong. Errors raised by outside services (the WebSocket, JSON
/// and TOML libraries, the file system) carry their message.
pub enum LNErr {
    Config(String),
    WebSocket(String),
    Json(String),
    Io(String),
    Toml(String),
    JsonParseError(String),
    EventParseError(String),
    InvalidHeaderValue(String),
    UnknownMsgType,
    InvalidMessage,
    UnknownMetaEventType,
    UnknownNoticeType,
}

/// The message an error is reported with.
pub open spec fn ln_err_text(e: LNErr) -> Seq<char> {
    match e {
        LNErr::Config(s) => "配置错误: "@ + s@,
        LNErr::WebSocket(s) => "WebSocket 错误: "@ + s@,
        LNErr::Json(s) => "JSON 错误: "@ + s@,
        LNErr::Io(s) => "IO 错误: "@ + s@,
        LNErr::Toml(s) => "TOML 解析错误: "@ + s@,
        LNErr::JsonParseError(s) => "JSON 解析错误: "@ + s@,
        LNErr::EventParseError(s) => "事件解析错误: "@ + s@,
        LNErr::InvalidHeaderValue(s) => "无效的 HTTP 头值: "@ + s@,
        LNErr::UnknownMsgType => "未知的消息类型"@,
        LNErr::InvalidMessage => "无效的消息格式"@,
        LNErr::UnknownMetaEventType => "未知的元事件类型"@,
        LNErr::UnknownNoticeType => "未知的通知类型"@,
    }
}

/// `prefix` followed by `detail`.
fn prefixed(prefix: &str, detail: &String) -> (r: String)
    ensures
        r@ == prefix@ + detail@,
{
    let mut out = String::new();
    push_str_text(&mut out, prefix);
    push_str_text(&mut out, detail.as_str());
    assert(out@ =~= prefix@ + detail@);
    out
}

impl LNErr {
    /// The message the error is reported with.
    pub fn message(&self) -> (r: String)
        ensures
            r@ == ln_err_text(*self),
    {
        match self {
            LNErr::Config(s) => prefixed("配置错误: ", s),
            LNErr::WebSocket(s) => prefixed("WebSocket 错误: ", s),
            LNErr::Json(s) => prefixed("JSON 错误: ", s),
            LNErr::Io(s) => prefixed("IO 错误: ", s),
            LNErr::Toml(s) => prefixed("TOML 解析错误: ", s),
            LNErr::JsonParseError(s) => prefixed("JSON 解析错误: ", s),
            LNErr::EventParseError(s) => prefixed("事件解析错误: ", s),
            LNErr::InvalidHeaderValue(s) => prefixed("无效的 HTTP 头值: ", s),
            LNErr::UnknownMsgType => "未知的消息类型".to_owned(),
            LNErr::InvalidMessage => "无效的消息格式".to_owned(),
            LNErr::UnknownMetaEventType => "未知的元事件类型".to_owned(),
            LNErr::UnknownNoticeType => "未知的通知类型".to_owned(),
        }
    }
}

} // verus!
