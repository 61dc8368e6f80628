//! Plugins' requests to send something, and the receipt published for a
//! message that was sent.
use vstd::prelude::*;
use crate::json::{
    field_str, field_u64, get_field_string, get_field_u64, get_u64_or_text, json_get,
    member_u64_or_text, struct_shape, struct_shape_ok, JsonNumber, JsonValue,
};
use crate::text::str_eq;

verus! {

/// What a plugin asks the bot to do.
pub enum SendAction {
    SendGroupMsg { group_id: u64, message: String },
    SendPrivateMsg { user_id: u64, message: String },
    DeleteMsg { message_id: u64 },
    SetMsgEmojiLike { message_id: u64, emoji_id: u64 },
}

/// The action that `{"<name>": body}` describes.
pub open spec fn action_of(name: Seq<char>, body: JsonValue, a: SendAction) -> bool {
    if name == "send_group_msg"@ {
        a matches SendAction::SendGroupMsg { group_id, message } && field_u64(body, "group_id"@, 0)
            == Some(group_id) && field_str(body, "message"@, 1) == Some(message@)
    } else if name == "send_private_msg"@ {
        a matches SendAction::SendPrivateMsg { user_id, message } && field_u64(body, "user_id"@, 0)
            == Some(user_id) && field_str(body, "message"@, 1) == Some(message@)
    } else if name == "delete_msg"@ {
        a matches SendAction::DeleteMsg { message_id } && field_u64(body, "message_id"@, 0) == Some(
            message_id,
        )
    } else if name == "set_msg_emoji_like"@ {
        a matches SendAction::SetMsgEmojiLike { message_id, emoji_id } && field_u64(
            body,
            "message_id"@,
            0,
        ) == Some(message_id) && field_u64(body, "emoji_id"@, 1) == Some(emoji_id)
    } else {
        false
    }
}

/// Whether `body` holds what the action `name` needs.
pub open spec fn action_ok(name: Seq<char>, body: JsonValue) -> bool {
    if name == "send_group_msg"@ {
        struct_shape_ok(body, 2, 2) && field_u64(body, "group_id"@, 0) is Some && field_str(
            body,
            "message"@,
            1,
        ) is Some
    } else if name == "send_private_msg"@ {
        struct_shape_ok(body, 2, 2) && field_u64(body, "user_id"@, 0) is Some && field_str(
            body,
            "message"@,
            1,
        ) is Some
    } else if name == "delete_msg"@ {
        struct_shape_ok(body, 1, 1) && field_u64(body, "message_id"@, 0) is Some
    } else if name == "set_msg_emoji_like"@ {
        struct_shape_ok(body, 2, 2) && field_u64(body, "message_id"@, 0) is Some && field_u64(
            body,
            "emoji_id"@,
            1,
        ) is Some
    } else {
        false
    }
}

/// A request is `{"action": {"<name>": body}}`: the `action` member is an
/// object of exactly one member, naming the action.
pub open spec fn request_ok(req: JsonValue) -> bool {
    &&& req is Object
    &&& json_get(req, "action"@) matches Some(JsonValue::Object(entries)) && entries@.len() == 1
        && action_ok(entries@[0].0@, entries@[0].1)
}

/// Reads the action of a body.
fn read_action(name: &str, body: &JsonValue) -> (r: Option<SendAction>)
    ensures
        match r {
            Some(a) => action_ok(name@, *body) && action_of(name@, *body, a),
            None => !action_ok(name@, *body),
        },
{
    if str_eq(name, "send_group_msg") {
        if !struct_shape(body, 2, 2) {
            return None;
        }
        match (get_field_u64(body, "group_id", 0), get_field_string(body, "message", 1)) {
            (Some(group_id), Some(message)) => Some(SendAction::SendGroupMsg { group_id, message }),
            _ => None,
        }
    } else if str_eq(name, "send_private_msg") {
        if !struct_shape(body, 2, 2) {
            return None;
        }
        match (get_field_u64(body, "user_id", 0), get_field_string(body, "message", 1)) {
            (Some(user_id), Some(message)) => Some(SendAction::SendPrivateMsg { user_id, message }),
            _ => None,
        }
    } else if str_eq(name, "delete_msg") {
        if !struct_shape(body, 1, 1) {
            return None;
        }
        match get_field_u64(body, "message_id", 0) {
            Some(message_id) => Some(SendAction::DeleteMsg { message_id }),
            None => None,
        }
    } else if str_eq(name, "set_msg_emoji_like") {
        if !struct_shape(body, 2, 2) {
            return None;
        }
        match (get_field_u64(body, "message_id", 0), get_field_u64(body, "emoji_id", 1)) {
            (Some(message_id), Some(emoji_id)) => Some(
                SendAction::SetMsgEmojiLike { message_id, emoji_id },
            ),
            _ => None,
        }
    } else {
        None
    }
}

/// Reads a plugin's send request; `None` when it is malformed.
pub fn read_send_request(req: &JsonValue) -> (r: Option<SendAction>)
    ensures
        match r {
            Some(a) => request_ok(*req) && (json_get(*req, "action"@) matches Some(
                JsonValue::Object(entries),
            ) && action_of(entries@[0].0@, entries@[0].1, a)),
            None => !request_ok(*req),
        },
{
    let is_obj = match req {
        JsonValue::Object(_) => true,
        _ => false,
    };
    if !is_obj {
        return None;
    }
    match req.get("action") {
        Some(JsonValue::Object(entries)) => {
            if entries.len() != 1 {
                return None;
            }
            read_action(entries[0].0.as_str(), &entries[0].1)
        },
        _ => None,
    }
}

/// The id NapCat gave a sent message: `data.message_id`, a number or a
/// string holding one.
pub open spec fn sent_message_id(resp: JsonValue) -> Option<u64> {
    match json_get(resp, "data"@) {
        Some(d) => member_u64_or_text(d, "message_id"@),
        None => None,
    }
}

/// The id NapCat gave a sent message.
pub fn extract_message_id(resp: &JsonValue) -> (r: Option<u64>)
    ensures
        r == sent_message_id(*resp),
{
    match resp.get("data") {
        Some(d) => get_u64_or_text(d, "message_id"),
        None => None,
    }
}

/// Whether `v` is the number `n`.
pub open spec fn is_number(v: JsonValue, n: u64) -> bool {
    v == JsonValue::Number(JsonNumber::PosInt(n))
}

/// The receipt for a sent message:
/// `{"Sent": {"group_id", "user_id", "message_id", "message", "time"}}`,
/// with `group_id` null for a private message; none when the reply has no
/// message id.
pub open spec fn receipt_of(
    group_id: Option<u64>,
    user_id: u64,
    message: Seq<char>,
    resp: JsonValue,
    time: u64,
    r: Option<JsonValue>,
) -> bool {
    match sent_message_id(resp) {
        None => r is None,
        Some(id) => r matches Some(JsonValue::Object(outer)) && outer@.len() == 1 && outer@[0].0@
            == "Sent"@ && (outer@[0].1 matches JsonValue::Object(inner) && inner@.len() == 5
            && inner@[0].0@ == "group_id"@ && match group_id {
            Some(g) => is_number(inner@[0].1, g),
            None => inner@[0].1 is Null,
        } && inner@[1].0@ == "user_id"@ && is_number(inner@[1].1, user_id) && inner@[2].0@
            == "message_id"@ && is_number(inner@[2].1, id) && inner@[3].0@ == "message"@ && (
        inner@[3].1 matches JsonValue::Str(m) && m@ == message) && inner@[4].0@ == "time"@
            && is_number(inner@[4].1, time)),
    }
}

/// The receipt for a sent message, stamped with `time` (seconds since the
/// epoch).
pub fn sent_receipt(group_id: Option<u64>, user_id: u64, message: &str, resp: &JsonValue, time: u64) -> (r:
    Option<JsonValue>)
    ensures
        receipt_of(group_id, user_id, message@, *resp, time, r),
{
    let message_id = match extract_message_id(resp) {
        Some(id) => id,
        None => return None,
    };
    let mut inner: Vec<(String, JsonValue)> = Vec::new();
    inner.push(
        (
            "group_id".to_owned(),
            match group_id {
                Some(g) => JsonValue::Number(JsonNumber::PosInt(g)),
                None => JsonValue::Null,
            },
        ),
    );
    inner.push(("user_id".to_owned(), JsonValue::Number(JsonNumber::PosInt(user_id))));
    inner.push(("message_id".to_owned(), JsonValue::Number(JsonNumber::PosInt(message_id))));
    inner.push(("message".to_owned(), JsonValue::Str(message.to_owned())));
    inner.push(("time".to_owned(), JsonValue::Number(JsonNumber::PosInt(time))));
    let mut outer: Vec<(String, JsonValue)> = Vec::new();
    outer.push(("Sent".to_owned(), JsonValue::Object(inner)));
    Some(JsonValue::Object(outer))
}

} // verus!
