//! Routing of incoming OneBot events: each event is read, checked, and
//! either handed on to the plugins or refused with an error.
use vstd::prelude::*;
use crate::error::LNErr;
use crate::event::{
    meta_event_read, meta_event_readable, meta_event_type_of, MetaEvent, MetaEventType, PostType,
};
use crate::json::{get_string, member_str, member_u64, JsonValue};
use crate::message::{message_read, msg_type_of, Message, MsgType};
use crate::notice::{notice_read, Notice};
use crate::plugin_data::PluginData;
use crate::request::{request_read, Request};

verus! {

/// An event is accepted for reading unless it is a meta event whose
/// `status` is malformed.
pub open spec fn event_readable(data: JsonValue) -> bool {
    member_str(data, "post_type"@) == Some("meta_event"@) ==> meta_event_readable(data)
}

/// Whether an event can be read (see `event_readable`).
pub fn event_readable_check(data: &JsonValue) -> (r: bool)
    ensures
        r == event_readable(*data),
{
    proof {
        reveal_strlit("meta_event");
    }
    let is_meta = match get_string(data, "post_type") {
        Some(p) => crate::text::str_eq(p.as_str(), "meta_event"),
        None => false,
    };
    if !is_meta {
        return true;
    }
    match data.get("status") {
        Some(v) => crate::event::read_status(v).is_some(),
        None => true,
    }
}

/// What routing `data` gives: `Ok(Some(d))` for an event handed on,
/// `Ok(None)` for a post type that nothing handles, or the error.
pub open spec fn routed(data: JsonValue, r: Result<Option<PluginData>, LNErr>) -> bool {
    match member_str(data, "post_type"@) {
        None => r matches Err(LNErr::EventParseError(m)) && m@ == "Invalid post_type"@,
        Some(p) => if p == "meta_event"@ {
            if meta_event_type_of(data) == MetaEventType::Unknown {
                r matches Err(LNErr::UnknownMetaEventType)
            } else {
                r matches Ok(Some(PluginData::MetaEvent(e))) && meta_event_read(data, e)
            }
        } else if p == "message"@ || p == "message_sent"@ {
            if msg_type_of(data) == MsgType::Other {
                r matches Err(LNErr::UnknownMsgType)
            } else if msg_type_of(data) == MsgType::Group && member_u64(data, "group_id"@) is None {
                r matches Err(LNErr::InvalidMessage)
            } else {
                r matches Ok(Some(PluginData::Message(m))) && message_read(data, m)
            }
        } else if p == "notice"@ {
            r matches Ok(Some(PluginData::Notice(n))) && notice_read(data, n)
        } else if p == "request"@ {
            r matches Ok(Some(PluginData::Request(q))) && request_read(data, q)
        } else {
            r matches Ok(None)
        },
    }
}

/// Checks a meta event: lifecycle and heartbeat events are handed on, any
/// other kind is refused.
pub fn handle_event(meta_event: MetaEvent) -> (r: Result<MetaEvent, LNErr>)
    ensures
        meta_event.meta_event_type == MetaEventType::Unknown ==> r matches Err(
            LNErr::UnknownMetaEventType,
        ),
        meta_event.meta_event_type != MetaEventType::Unknown ==> (r matches Ok(e) && e
            == meta_event),
{
    match meta_event.meta_event_type {
        MetaEventType::Heartbeat | MetaEventType::Lifecycle => Ok(meta_event),
        MetaEventType::Unknown => Err(LNErr::UnknownMetaEventType),
    }
}

/// Checks a message: private and group messages are handed on, but a group
/// message needs a `group_id`; any other type is refused.
pub fn handle_message(message: Message) -> (r: Result<Message, LNErr>)
    ensures
        message.message_type == MsgType::Other ==> r matches Err(LNErr::UnknownMsgType),
        message.message_type == MsgType::Group && message.group_id is None ==> r matches Err(
            LNErr::InvalidMessage,
        ),
        message.message_type == MsgType::Private || (message.message_type == MsgType::Group
            && message.group_id is Some) ==> (r matches Ok(m) && m
            == message),
{
    match message.message_type {
        MsgType::Private | MsgType::Group => {
            if message.message_type == MsgType::Group && message.group_id.is_none() {
                return Err(LNErr::InvalidMessage);
            }
            Ok(message)
        },
        MsgType::Other => Err(LNErr::UnknownMsgType),
    }
}

/// Every notice is handed on, known or not.
pub fn handle_notice(notice: Notice) -> (r: Result<Notice, LNErr>)
    ensures
        r matches Ok(n) && n == notice,
{
    Ok(notice)
}

/// Every request is handed on.
pub fn handle_request(request: Request) -> (r: Result<Request, LNErr>)
    ensures
        r matches Ok(q) && q == request,
{
    Ok(request)
}

/// Routes one event by its `post_type`.
pub fn handle(data: JsonValue) -> (r: Result<Option<PluginData>, LNErr>)
    requires
        event_readable(data),
    ensures
        routed(data, r),
{
    let name = match get_string(&data, "post_type") {
        Some(s) => s,
        None => return Err(LNErr::EventParseError("Invalid post_type".to_owned())),
    };
    let post_type = PostType::from_name(name.as_str());
    assert(member_str(data, "post_type"@) == Some(name@));
    proof {
        reveal_strlit("meta_event");
        reveal_strlit("message");
        reveal_strlit("message_sent");
        reveal_strlit("notice");
        reveal_strlit("request");
        assert("meta_event"@.len() == 10 && "message"@.len() == 7 && "message_sent"@.len() == 12
            && "notice"@.len() == 6 && "request"@.len() == 7);
    }
    match post_type {
        PostType::MetaEvent => {
            let meta_event = MetaEvent::new(data);
            let r = match handle_event(meta_event) {
                Ok(e) => Ok(Some(PluginData::MetaEvent(e))),
                Err(e) => Err(e),
            };
            assert(routed(data, r));
            r
        },
        PostType::Message | PostType::MessageSent => {
            let message = Message::new(data);
            let r = match handle_message(message) {
                Ok(m) => Ok(Some(PluginData::Message(m))),
                Err(e) => Err(e),
            };
            assert(name@ == "message"@ || name@ == "message_sent"@);
            assert(name@ != "meta_event"@);
            assert(routed(data, r));
            r
        },
        PostType::Notice => {
            let notice = Notice::new(data);
            let r = match handle_notice(notice) {
                Ok(n) => Ok(Some(PluginData::Notice(n))),
                Err(e) => Err(e),
            };
            assert(name@ == "notice"@);
            assert(name@ != "meta_event"@);
            assert(name@ != "message"@);
            assert(name@ != "message_sent"@);
            assert(routed(data, r));
            r
        },
        PostType::Request => {
            let request = Request::new(data);
            let r = match handle_request(request) {
                Ok(q) => Ok(Some(PluginData::Request(q))),
                Err(e) => Err(e),
            };
            assert(name@ == "request"@);
            assert(name@[0] == 'r' && "message"@[0] == 'm');
            assert(name@ != "meta_event"@);
            assert(name@ != "message"@);
            assert(name@ != "message_sent"@);
            assert(name@ != "notice"@);
            assert(routed(data, r));
            r
        },
        PostType::Other(_) => {
            assert(routed(data, Ok(None)));
            Ok(None)
        },
    }
}

} // verus!
