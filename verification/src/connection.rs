//! The NapCat API calls: what is sent for each, and how the reply that
//! comes back (or does not) is answered.
use vstd::prelude::*;
use crate::error::LNErr;
use crate::json::{JsonNumber, JsonValue};
use crate::text::{decimal_text, push_decimal, push_str_text};

verus! {

/// `n` in decimal, with a minus sign when it is negative.
pub open spec fn signed_decimal(n: int) -> Seq<char> {
    if n < 0 {
        "-"@ + decimal_text((-n) as nat)
    } else {
        decimal_text(n as nat)
    }
}

/// Appends `n` in decimal.
fn push_signed(s: &mut String, n: i64)
    ensures
        final(s)@ == old(s)@ + signed_decimal(n as int),
{
    if n < 0 {
        push_str_text(s, "-");
        let m: u64 = ((-(n + 1)) as u64) + 1;
        assert(m == -(n as int));
        push_decimal(s, m);
        assert(final(s)@ =~= old(s)@ + signed_decimal(n as int)) by {
            assert(old(s)@ + "-"@ + decimal_text(m as nat) =~= old(s)@ + ("-"@ + decimal_text(
                m as nat,
            )));
        }
    } else {
        push_decimal(s, n as u64);
    }
}

/// The tag that pairs a call with its reply: `<action>_<timestamp>`.
pub open spec fn echo_tag(action: Seq<char>, timestamp: i64) -> Seq<char> {
    action + "_"@ + signed_decimal(timestamp as int)
}

/// Whether `v` is `{"action": action, "params": params, "echo": echo}`.
pub open spec fn is_api_request(v: JsonValue, action: Seq<char>, params: JsonValue, echo: Seq<char>) -> bool {
    v matches JsonValue::Object(entries) && entries@.len() == 3 && entries@[0].0@ == "action"@ && (
    entries@[0].1 matches JsonValue::Str(a) && a@ == action) && entries@[1].0@ == "params"@
        && entries@[1].1 == params && entries@[2].0@ == "echo"@ && (entries@[2].1 matches JsonValue::Str(
        e,
    ) && e@ == echo)
}

/// The request for an API call made at `timestamp` (seconds since the
/// epoch).
pub fn api_request(action: &str, params: JsonValue, timestamp: i64) -> (r: JsonValue)
    ensures
        is_api_request(r, action@, params, echo_tag(action@, timestamp)),
{
    let mut echo = String::new();
    push_str_text(&mut echo, action);
    push_str_text(&mut echo, "_");
    push_signed(&mut echo, timestamp);
    assert(echo@ =~= echo_tag(action@, timestamp));
    let ghost p = params;
    let mut entries: Vec<(String, JsonValue)> = Vec::new();
    entries.push(("action".to_owned(), JsonValue::Str(action.to_owned())));
    entries.push(("params".to_owned(), params));
    entries.push(("echo".to_owned(), JsonValue::Str(echo)));
    JsonValue::Object(entries)
}

/// The `Authorization` header value: `Bearer <token>`.
pub fn bearer(token: &str) -> (r: String)
    ensures
        r@ == "Bearer "@ + token@,
{
    let mut s = String::new();
    push_str_text(&mut s, "Bearer ");
    push_str_text(&mut s, token);
    assert(s@ =~= "Bearer "@ + token@);
    s
}

/// Whether `v` is `{"<id_key>": id, "message": message}`.
pub open spec fn is_message_params(v: JsonValue, id_key: Seq<char>, id: u64, message: Seq<char>) -> bool {
    v matches JsonValue::Object(entries) && entries@.len() == 2 && entries@[0].0@ == id_key
        && entries@[0].1 == JsonValue::Number(JsonNumber::PosInt(id)) && entries@[1].0@ == "message"@
        && (entries@[1].1 matches JsonValue::Str(m) && m@ == message)
}

/// The parameters of `send_private_msg`.
pub fn private_message_params(user_id: u64, message: &str) -> (r: JsonValue)
    ensures
        is_message_params(r, "user_id"@, user_id, message@),
{
    let mut entries: Vec<(String, JsonValue)> = Vec::new();
    entries.push(("user_id".to_owned(), JsonValue::Number(JsonNumber::PosInt(user_id))));
    entries.push(("message".to_owned(), JsonValue::Str(message.to_owned())));
    JsonValue::Object(entries)
}

/// The parameters of `send_group_msg`.
pub fn group_message_params(group_id: u64, message: &str) -> (r: JsonValue)
    ensures
        is_message_params(r, "group_id"@, group_id, message@),
{
    let mut entries: Vec<(String, JsonValue)> = Vec::new();
    entries.push(("group_id".to_owned(), JsonValue::Number(JsonNumber::PosInt(group_id))));
    entries.push(("message".to_owned(), JsonValue::Str(message.to_owned())));
    JsonValue::Object(entries)
}

/// What came back after an API call was sent.
pub enum ApiReply {
    /// A text or binary frame holding this document.
    Document(JsonValue),
    /// A text or binary frame that is not JSON; the parser's message.
    Malformed(String),
    /// Another kind of frame.
    OtherFrame,
    /// The connection reported this error.
    ReceiveError(String),
    /// The connection was closed.
    Closed,
    /// Nothing came within the timeout.
    TimedOut,
}

/// The answer to a reply: the document, or the error the call fails with.
pub open spec fn api_answer(reply: ApiReply, timeout_seconds: u64, r: Result<JsonValue, LNErr>) -> bool {
    match reply {
        ApiReply::Document(d) => r == Ok::<JsonValue, LNErr>(d),
        ApiReply::Malformed(m) => r matches Err(LNErr::Json(x)) && x@ == m@,
        ApiReply::OtherFrame => r matches Err(LNErr::Config(x)) && x@ == "未收到有效响应"@,
        ApiReply::ReceiveError(e) => r matches Err(LNErr::Config(x)) && x@ == "WebSocket 接收错误: "@
            + e@,
        ApiReply::Closed => r matches Err(LNErr::Config(x)) && x@ == "连接已关闭"@,
        ApiReply::TimedOut => r matches Err(LNErr::Config(x)) && x@ == "请求超时 ("@ + decimal_text(
            timeout_seconds as nat,
        ) + "秒)"@,
    }
}

/// Answers a reply to an API call.
pub fn api_result(reply: ApiReply, timeout_seconds: u64) -> (r: Result<JsonValue, LNErr>)
    ensures
        api_answer(reply, timeout_seconds, r),
{
    match reply {
        ApiReply::Document(d) => Ok(d),
        ApiReply::Malformed(m) => Err(LNErr::Json(m)),
        ApiReply::OtherFrame => Err(LNErr::Config("未收到有效响应".to_owned())),
        ApiReply::ReceiveError(e) => {
            let mut s = String::new();
            push_str_text(&mut s, "WebSocket 接收错误: ");
            push_str_text(&mut s, e.as_str());
            assert(s@ =~= "WebSocket 接收错误: "@ + e@);
            Err(LNErr::Config(s))
        },
        ApiReply::Closed => Err(LNErr::Config("连接已关闭".to_owned())),
        ApiReply::TimedOut => {
            let mut s = String::new();
            push_str_text(&mut s, "请求超时 (");
            push_decimal(&mut s, timeout_seconds);
            push_str_text(&mut s, "秒)");
            assert(s@ =~= "请求超时 ("@ + decimal_text(timeout_seconds as nat) + "秒)"@);
            Err(LNErr::Config(s))
        },
    }
}

} // verus!
