//! OneBot v11 request events (friend and group requests).
use vstd::prelude::*;
use crate::json::{get_str_or, get_string, get_u64, member_str, member_u64, str_or_empty, JsonValue};
use crate::text::str_eq;

verus! {

/// What is requested.
#[derive(Debug, Clone, Copy, PartialEq, Eq, Structural)]
pub enum RequestType {
    Friend,
    Group,
    Unknown,
}

/// The kind of a group request.
#[derive(Debug, Clone, Copy, PartialEq, Eq, Structural)]
pub enum GroupRequestSubType {
    Add,
    Invite,
    Unknown,
}

/// A complete OneBot v11 request event.
pub struct Request {
    pub time: u64,
    pub self_id: u64,
    pub post_type: String,
    pub request_type: RequestType,
    pub sub_type: GroupRequestSubType,
    pub user_id: u64,
    pub group_id: Option<u64>,
    pub comment: String,
    pub flag: String,
}

/// The wire name of a request type.
pub open spec fn request_type_name(t: RequestType) -> Seq<char> {
    match t {
        RequestType::Friend => "friend"@,
        RequestType::Group => "group"@,
        RequestType::Unknown => "unknown"@,
    }
}

/// The wire name of a group request sub-type.
pub open spec fn group_request_sub_type_name(t: GroupRequestSubType) -> Seq<char> {
    match t {
        GroupRequestSubType::Add => "add"@,
        GroupRequestSubType::Invite => "invite"@,
        GroupRequestSubType::Unknown => "unknown"@,
    }
}

/// The request type that the `request_type` member names.
pub open spec fn request_type_of(data: JsonValue) -> RequestType {
    match member_str(data, "request_type"@) {
        Some(s) => if s == "friend"@ {
            RequestType::Friend
        } else if s == "group"@ {
            RequestType::Group
        } else {
            RequestType::Unknown
        },
        None => RequestType::Unknown,
    }
}

/// The sub-type that the `sub_type` member names.
pub open spec fn group_request_sub_type_of(data: JsonValue) -> GroupRequestSubType {
    match member_str(data, "sub_type"@) {
        Some(s) => if s == "add"@ {
            GroupRequestSubType::Add
        } else if s == "invite"@ {
            GroupRequestSubType::Invite
        } else {
            GroupRequestSubType::Unknown
        },
        None => GroupRequestSubType::Unknown,
    }
}

impl RequestType {
    /// The wire name of the request type.
    pub fn name(&self) -> (r: &'static str)
        ensures
            r@ == request_type_name(*self),
    {
        match self {
            RequestType::Friend => "friend",
            RequestType::Group => "group",
            RequestType::Unknown => "unknown",
        }
    }
}

impl GroupRequestSubType {
    /// The wire name of the sub-type.
    pub fn name(&self) -> (r: &'static str)
        ensures
            r@ == group_request_sub_type_name(*self),
    {
        match self {
            GroupRequestSubType::Add => "add",
            GroupRequestSubType::Invite => "invite",
            GroupRequestSubType::Unknown => "unknown",
        }
    }
}

/// Whether `r` is what reading the request event `data` gives.
pub open spec fn request_read(data: JsonValue, r: Request) -> bool {
    &&& r.time == match member_u64(data, "time"@) {
            Some(x) => x,
            None => 0,
        }
    &&& r.self_id == match member_u64(data, "self_id"@) {
            Some(x) => x,
            None => 0,
        }
    &&& r.post_type@ == "request"@
    &&& r.request_type == request_type_of(data)
    &&& r.sub_type == group_request_sub_type_of(data)
    &&& r.user_id == match member_u64(data, "user_id"@) {
            Some(x) => x,
            None => 0,
        }
    &&& r.group_id == member_u64(data, "group_id"@)
    &&& r.comment@ == str_or_empty(data, "comment"@)
    &&& r.flag@ == str_or_empty(data, "flag"@)
}

impl Request {
    /// Reads a request event. Missing numbers read as 0 and missing texts as
    /// empty.
    pub fn new(data: JsonValue) -> (r: Request)
        ensures
            request_read(data, r),
    {
        proof {
            reveal_strlit("");
        }
        let request_type = match get_string(&data, "request_type") {
            Some(s) => if str_eq(s.as_str(), "friend") {
                RequestType::Friend
            } else if str_eq(s.as_str(), "group") {
                RequestType::Group
            } else {
                RequestType::Unknown
            },
            None => RequestType::Unknown,
        };
        let sub_type = match get_string(&data, "sub_type") {
            Some(s) => if str_eq(s.as_str(), "add") {
                GroupRequestSubType::Add
            } else if str_eq(s.as_str(), "invite") {
                GroupRequestSubType::Invite
            } else {
                GroupRequestSubType::Unknown
            },
            None => GroupRequestSubType::Unknown,
        };
        let r = Request {
            time: match get_u64(&data, "time") {
                Some(x) => x,
                None => 0,
            },
            self_id: match get_u64(&data, "self_id") {
                Some(x) => x,
                None => 0,
            },
            post_type: "request".to_owned(),
            request_type,
            sub_type,
            user_id: match get_u64(&data, "user_id") {
                Some(x) => x,
                None => 0,
            },
            group_id: get_u64(&data, "group_id"),
            comment: get_str_or(&data, "comment", ""),
            flag: get_str_or(&data, "flag", ""),
        };
        assert(r.comment@ == str_or_empty(data, "comment"@));
        assert(r.flag@ == str_or_empty(data, "flag"@));
        r
    }
}

} // verus!
