//! OneBot v11 meta events and the `post_type` that classifies every event.
use vstd::prelude::*;
use crate::json::{get_string, get_u64, json_as_bool, json_get, member_str, member_u64, JsonValue};
use crate::message::sub_type_member;
use crate::sub_type::SubType;
use crate::text::str_eq;

verus! {

/// The kind of a meta event.
#[derive(Debug, Clone, Copy, PartialEq, Eq, Structural)]
pub enum MetaEventType {
    Lifecycle,
    Heartbeat,
    Unknown,
}

/// The status a heartbeat reports.
#[derive(Debug, Clone, Copy, PartialEq, Eq, Structural)]
pub struct Status {
    pub good: bool,
    pub online: bool,
}

/// A meta event (lifecycle or heartbeat).
pub struct MetaEvent {
    pub interval: Option<u64>,
    pub meta_event_type: MetaEventType,
    pub sub_type: SubType,
    pub self_id: u64,
    pub status: Option<Status>,
    pub time: u64,
}

/// What an event is, by its `post_type`.
pub enum PostType {
    MetaEvent,
    Message,
    MessageSent,
    Request,
    Notice,
    Other(String),
}

/// The kind that the `meta_event_type` member names.
pub open spec fn meta_event_type_of(data: JsonValue) -> MetaEventType {
    match member_str(data, "meta_event_type"@) {
        Some(s) => if s == "lifecycle"@ {
            MetaEventType::Lifecycle
        } else if s == "heartbeat"@ {
            MetaEventType::Heartbeat
        } else {
            MetaEventType::Unknown
        },
        None => MetaEventType::Unknown,
    }
}

/// The status that `v` describes: an object with boolean `good` and
/// `online`, or the pair `[good, online]`.
pub open spec fn status_of(v: JsonValue) -> Option<Status> {
    match v {
        JsonValue::Object(_) => match (json_get(v, "good"@), json_get(v, "online"@)) {
            (Some(g), Some(o)) => match (json_as_bool(g), json_as_bool(o)) {
                (Some(good), Some(online)) => Some(Status { good, online }),
                _ => None,
            },
            _ => None,
        },
        JsonValue::Array(items) => if items@.len() == 2 {
            match (json_as_bool(items@[0]), json_as_bool(items@[1])) {
                (Some(good), Some(online)) => Some(Status { good, online }),
                _ => None,
            }
        } else {
            None
        },
        _ => None,
    }
}

/// A meta event can be read unless it carries a `status` that is not a
/// status.
pub open spec fn meta_event_readable(data: JsonValue) -> bool {
    match json_get(data, "status"@) {
        Some(v) => status_of(v) is Some,
        None => true,
    }
}

/// Which post type a name stands for.
pub open spec fn post_type_matches(p: PostType, s: Seq<char>) -> bool {
    match p {
        PostType::Message => s == "message"@,
        PostType::MessageSent => s == "message_sent"@,
        PostType::MetaEvent => s == "meta_event"@,
        PostType::Request => s == "request"@,
        PostType::Notice => s == "notice"@,
        PostType::Other(o) => o@ == s && s != "message"@ && s != "message_sent"@ && s
            != "meta_event"@ && s != "request"@ && s != "notice"@,
    }
}

/// Reads a status description.
pub fn read_status(v: &JsonValue) -> (r: Option<Status>)
    ensures
        r == status_of(*v),
{
    match v {
        JsonValue::Object(_) => match (v.get("good"), v.get("online")) {
            (Some(g), Some(o)) => match (g.as_bool(), o.as_bool()) {
                (Some(good), Some(online)) => Some(Status { good, online }),
                _ => None,
            },
            _ => None,
        },
        JsonValue::Array(items) => if items.len() == 2 {
            match (items[0].as_bool(), items[1].as_bool()) {
                (Some(good), Some(online)) => Some(Status { good, online }),
                _ => None,
            }
        } else {
            None
        },
        _ => None,
    }
}

/// Whether `e` is what reading the meta event `data` gives.
pub open spec fn meta_event_read(data: JsonValue, e: MetaEvent) -> bool {
    &&& e.interval == member_u64(data, "interval"@)
    &&& e.meta_event_type == meta_event_type_of(data)
    &&& e.sub_type == sub_type_member(data)
    &&& e.self_id == match member_u64(data, "self_id"@) {
            Some(n) => n,
            None => 0,
        }
    &&& e.status == match json_get(data, "status"@) {
            Some(v) => status_of(v),
            None => None,
        }
    &&& e.time == match member_u64(data, "time"@) {
            Some(n) => n,
            None => 0,
        }
}

impl MetaEvent {
    /// Reads a meta event. A `status` that is present must describe a
    /// status.
    pub fn new(data: JsonValue) -> (e: MetaEvent)
        requires
            meta_event_readable(data),
        ensures
            meta_event_read(data, e),
    {
        let meta_event_type = match get_string(&data, "meta_event_type") {
            Some(s) => if str_eq(s.as_str(), "lifecycle") {
                MetaEventType::Lifecycle
            } else if str_eq(s.as_str(), "heartbeat") {
                MetaEventType::Heartbeat
            } else {
                MetaEventType::Unknown
            },
            None => MetaEventType::Unknown,
        };
        let sub_type = match get_string(&data, "sub_type") {
            Some(s) => SubType::from_name(s.as_str()),
            None => SubType::Unknown,
        };
        let status = match data.get("status") {
            Some(v) => read_status(v),
            None => None,
        };
        MetaEvent {
            interval: get_u64(&data, "interval"),
            meta_event_type,
            sub_type,
            self_id: match get_u64(&data, "self_id") {
                Some(n) => n,
                None => 0,
            },
            status,
            time: match get_u64(&data, "time") {
                Some(n) => n,
                None => 0,
            },
        }
    }
}

impl PostType {
    /// The post type that a name stands for (every name is one).
    pub fn from_name(s: &str) -> (r: PostType)
        ensures
            post_type_matches(r, s@),
    {
        if str_eq(s, "message") {
            PostType::Message
        } else if str_eq(s, "message_sent") {
            PostType::MessageSent
        } else if str_eq(s, "meta_event") {
            PostType::MetaEvent
        } else if str_eq(s, "request") {
            PostType::Request
        } else if str_eq(s, "notice") {
            PostType::Notice
        } else {
            PostType::Other(s.to_owned())
        }
    }
}

} // verus!
