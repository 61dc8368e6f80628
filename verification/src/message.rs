//! OneBot v11 message events.
use vstd::prelude::*;
use crate::json::{
    check_opt_field_str, field_str, field_str_or_empty, field_u64, get_field, get_field_string,
    get_field_str_or_empty, get_field_u64, get_str_or, get_string, get_u64, get_u64_or_text,
    json_as_str, json_as_u64, json_get, member_str, member_u64, member_u64_or_text,
    opt_field_str_ok, str_or_empty, struct_field, struct_shape, struct_shape_ok, take_member,
    JsonValue,
};
use crate::sub_type::{sub_type_of_name, SubType};
use crate::text::{chars_of, replace_all, replace_chars, string_of};

verus! {

/// Who sent a message.
pub struct Sender {
    pub user_id: u64,
    pub nickname: String,
    pub card: String,
    pub sex: String,
    pub age: u32,
    pub area: String,
    pub level: String,
    pub role: String,
    pub title: String,
}

/// The identity of an anonymous sender.
pub struct Anonymous {
    pub id: u64,
    pub name: String,
    pub flag: String,
}

/// One segment of a structured message: its type and its data.
pub struct MessageSegment {
    pub seg_type: String,
    pub data: JsonValue,
}

/// Where a message was sent.
#[derive(Debug, Clone, Copy, PartialEq, Eq, Structural)]
pub enum MsgType {
    Private,
    Group,
    Other,
}

/// A complete OneBot v11 message event.
pub struct Message {
    pub time: u64,
    pub self_id: u64,
    pub post_type: String,
    pub message_type: MsgType,
    pub sub_type: SubType,
    pub message_id: u64,
    pub message_seq: Option<u64>,
    pub real_id: Option<u64>,
    pub real_seq: Option<String>,
    pub user_id: u64,
    pub group_id: Option<u64>,
    pub message: Vec<MessageSegment>,
    pub raw_message: String,
    pub font: u32,
    pub sender: Sender,
    pub anonymous: Option<Anonymous>,
    pub message_format: String,
}

// ───────────────────────── model ─────────────────────────

/// The wire name of a message type.
pub open spec fn msg_type_name(t: MsgType) -> Seq<char> {
    match t {
        MsgType::Private => "private"@,
        MsgType::Group => "group"@,
        MsgType::Other => "other"@,
    }
}

/// The message type that the `message_type` member names.
pub open spec fn msg_type_of(data: JsonValue) -> MsgType {
    match member_str(data, "message_type"@) {
        Some(s) => if s == "private"@ {
            MsgType::Private
        } else if s == "group"@ {
            MsgType::Group
        } else {
            MsgType::Other
        },
        None => MsgType::Other,
    }
}

/// The sub-type that the `sub_type` member names (`Unknown` when it is
/// absent or not a string).
pub open spec fn sub_type_member(data: JsonValue) -> SubType {
    match member_str(data, "sub_type"@) {
        Some(s) => sub_type_of_name(s),
        None => SubType::Unknown,
    }
}

/// The HTML entities that message text arrives with, decoded in order:
/// `&amp;`, `&lt;`, `&gt;`, `&quot;`, `&#39;`, `&apos;`.
pub open spec fn decode_entities_spec(s: Seq<char>) -> Seq<char> {
    replace_all(
        replace_all(
            replace_all(
                replace_all(
                    replace_all(replace_all(s, "&amp;"@, "&"@), "&lt;"@, "<"@),
                    "&gt;"@,
                    ">"@,
                ),
                "&quot;"@,
                "\""@,
            ),
            "&#39;"@,
            "'"@,
        ),
        "&apos;"@,
        "'"@,
    )
}

/// Whether an optional field of a record is absent or a number that fits
/// in `u32`.
pub open spec fn u32_field_ok(v: JsonValue, key: Seq<char>, idx: int) -> bool {
    match struct_field(v, key, idx) {
        Some(x) => match json_as_u64(x) {
            Some(n) => n <= u32::MAX,
            None => false,
        },
        None => true,
    }
}

/// Whether `v` describes a sender: an object, or an array of two to nine
/// fields in declaration order, with a numeric `user_id`, a string
/// `nickname`, and the optional fields of the right type.
pub open spec fn sender_ok(v: JsonValue) -> bool {
    &&& struct_shape_ok(v, 2, 9)
    &&& field_u64(v, "user_id"@, 0) is Some
    &&& field_str(v, "nickname"@, 1) is Some
    &&& opt_field_str_ok(v, "card"@, 2)
    &&& opt_field_str_ok(v, "sex"@, 3)
    &&& u32_field_ok(v, "age"@, 4)
    &&& opt_field_str_ok(v, "area"@, 5)
    &&& opt_field_str_ok(v, "level"@, 6)
    &&& opt_field_str_ok(v, "role"@, 7)
    &&& opt_field_str_ok(v, "title"@, 8)
}

/// Whether `s` holds what `v` describes; an absent optional field is empty
/// (zero for `age`).
pub open spec fn sender_read(v: JsonValue, s: Sender) -> bool {
    &&& Some(s.user_id) == field_u64(v, "user_id"@, 0)
    &&& Some(s.nickname@) == field_str(v, "nickname"@, 1)
    &&& s.card@ == field_str_or_empty(v, "card"@, 2)
    &&& s.sex@ == field_str_or_empty(v, "sex"@, 3)
    &&& s.age == match field_u64(v, "age"@, 4) {
        Some(n) => n as u32,
        None => 0u32,
    }
    &&& s.area@ == field_str_or_empty(v, "area"@, 5)
    &&& s.level@ == field_str_or_empty(v, "level"@, 6)
    &&& s.role@ == field_str_or_empty(v, "role"@, 7)
    &&& s.title@ == field_str_or_empty(v, "title"@, 8)
}

/// The sender put in place of one that is missing or malformed.
pub open spec fn default_sender(s: Sender, user_id: u64) -> bool {
    &&& s.user_id == user_id
    &&& s.nickname@ == Seq::<char>::empty()
    &&& s.card@ == Seq::<char>::empty()
    &&& s.sex@ == "unknown"@
    &&& s.age == 0
    &&& s.area@ == Seq::<char>::empty()
    &&& s.level@ == Seq::<char>::empty()
    &&& s.role@ == "member"@
    &&& s.title@ == Seq::<char>::empty()
}

/// Whether `v` describes an anonymous identity: an object, or an array of
/// its three fields in order.
pub open spec fn anonymous_ok(v: JsonValue) -> bool {
    &&& struct_shape_ok(v, 3, 3)
    &&& field_u64(v, "id"@, 0) is Some
    &&& field_str(v, "name"@, 1) is Some
    &&& field_str(v, "flag"@, 2) is Some
}

/// Whether `a` holds what `v` describes.
pub open spec fn anonymous_read(v: JsonValue, a: Anonymous) -> bool {
    &&& Some(a.id) == field_u64(v, "id"@, 0)
    &&& Some(a.name@) == field_str(v, "name"@, 1)
    &&& Some(a.flag@) == field_str(v, "flag"@, 2)
}

/// A segment seen as its type name and data.
pub open spec fn segment_view(s: MessageSegment) -> (Seq<char>, JsonValue) {
    (s.seg_type@, s.data)
}

/// What one element of a segment array gives: an object with a string
/// `type` and a `data` member, or a pair `[type, data]`; anything else is
/// skipped.
pub open spec fn segment_of(v: JsonValue) -> Option<(Seq<char>, JsonValue)> {
    match v {
        JsonValue::Object(_) => match (member_str(v, "type"@), json_get(v, "data"@)) {
            (Some(t), Some(d)) => Some((t, d)),
            _ => None,
        },
        JsonValue::Array(items) => if items@.len() == 2 {
            match json_as_str(items@[0]) {
                Some(t) => Some((t, items@[1])),
                None => None,
            }
        } else {
            None
        },
        _ => None,
    }
}

/// The segments that a segment array gives, in order.
pub open spec fn segments_of(items: Seq<JsonValue>) -> Seq<(Seq<char>, JsonValue)>
    decreases items.len(),
{
    if items.len() == 0 {
        Seq::empty()
    } else {
        let rest = segments_of(items.drop_last());
        match segment_of(items.last()) {
            Some(s) => rest.push(s),
            None => rest,
        }
    }
}

/// `{"text": s}`.
pub open spec fn is_text_data(d: JsonValue, s: Seq<char>) -> bool {
    match d {
        JsonValue::Object(entries) => entries@.len() == 1 && entries@[0].0@ == "text"@ && (
        entries@[0].1 matches JsonValue::Str(t) && t@ == s),
        _ => false,
    }
}

/// The segments of a message: the array's segments, one text segment for a
/// plain string, none otherwise.
pub open spec fn message_segments_read(m: Seq<MessageSegment>, v: Option<JsonValue>) -> bool {
    match v {
        Some(JsonValue::Array(items)) => m.map_values(|s: MessageSegment| segment_view(s))
            == segments_of(items@),
        Some(JsonValue::Str(s)) => m.len() == 1 && m[0].seg_type@ == "text"@ && is_text_data(
            m[0].data,
            s@,
        ),
        _ => m.len() == 0,
    }
}

// ───────────────────────── reading ─────────────────────────

/// Decodes the entities that NapCat leaves in `raw_message`.
pub fn decode_html_entities(s: &str) -> (r: String)
    ensures
        r@ == decode_entities_spec(s@),
{
    proof {
        reveal_strlit("&amp;");
        reveal_strlit("&lt;");
        reveal_strlit("&gt;");
        reveal_strlit("&quot;");
        reveal_strlit("&#39;");
        reveal_strlit("&apos;");
    }
    let cs = chars_of(s);
    let a = replace_chars(cs.as_slice(), chars_of("&amp;").as_slice(), chars_of("&").as_slice());
    let b = replace_chars(a.as_slice(), chars_of("&lt;").as_slice(), chars_of("<").as_slice());
    let c = replace_chars(b.as_slice(), chars_of("&gt;").as_slice(), chars_of(">").as_slice());
    let d = replace_chars(c.as_slice(), chars_of("&quot;").as_slice(), chars_of("\"").as_slice());
    let e = replace_chars(d.as_slice(), chars_of("&#39;").as_slice(), chars_of("'").as_slice());
    let f = replace_chars(e.as_slice(), chars_of("&apos;").as_slice(), chars_of("'").as_slice());
    string_of(f.as_slice())
}

/// Whether an optional field of a record is absent or a number that fits
/// in `u32`.
fn check_u32_field(v: &JsonValue, key: &str, idx: usize) -> (r: bool)
    ensures
        r == u32_field_ok(*v, key@, idx as int),
{
    match get_field(v, key, idx) {
        Some(x) => match x.as_u64() {
            Some(n) => n <= 0xffff_ffffu64,
            None => false,
        },
        None => true,
    }
}

/// Reads a sender description; `None` when it is malformed.
pub fn read_sender(v: &JsonValue) -> (r: Option<Sender>)
    ensures
        match r {
            Some(s) => sender_ok(*v) && sender_read(*v, s),
            None => !sender_ok(*v),
        },
{
    if !struct_shape(v, 2, 9) {
        return None;
    }
    let user_id = match get_field_u64(v, "user_id", 0) {
        Some(n) => n,
        None => return None,
    };
    let nickname = match get_field_string(v, "nickname", 1) {
        Some(s) => s,
        None => return None,
    };
    if !(check_opt_field_str(v, "card", 2) && check_opt_field_str(v, "sex", 3) && check_u32_field(
        v,
        "age",
        4,
    ) && check_opt_field_str(v, "area", 5) && check_opt_field_str(v, "level", 6)
        && check_opt_field_str(v, "role", 7) && check_opt_field_str(v, "title", 8)) {
        return None;
    }
    let age: u32 = match get_field_u64(v, "age", 4) {
        Some(n) => n as u32,
        None => 0,
    };
    let r = Sender {
        user_id,
        nickname,
        card: get_field_str_or_empty(v, "card", 2),
        sex: get_field_str_or_empty(v, "sex", 3),
        age,
        area: get_field_str_or_empty(v, "area", 5),
        level: get_field_str_or_empty(v, "level", 6),
        role: get_field_str_or_empty(v, "role", 7),
        title: get_field_str_or_empty(v, "title", 8),
    };
    Some(r)
}

/// Reads an anonymous identity; `None` when it is malformed.
pub fn read_anonymous(v: &JsonValue) -> (r: Option<Anonymous>)
    ensures
        match r {
            Some(a) => anonymous_ok(*v) && anonymous_read(*v, a),
            None => !anonymous_ok(*v),
        },
{
    if !struct_shape(v, 3, 3) {
        return None;
    }
    let id = match get_field_u64(v, "id", 0) {
        Some(n) => n,
        None => return None,
    };
    let name = match get_field_string(v, "name", 1) {
        Some(s) => s,
        None => return None,
    };
    let flag = match get_field_string(v, "flag", 2) {
        Some(s) => s,
        None => return None,
    };
    Some(Anonymous { id, name, flag })
}

/// Reads one element of a segment array.
pub fn read_segment(v: JsonValue) -> (r: Option<MessageSegment>)
    ensures
        match r {
            Some(s) => segment_of(v) == Some(segment_view(s)),
            None => segment_of(v) is None,
        },
{
    match v {
        JsonValue::Object(_) => {
            let t = match get_string(&v, "type") {
                Some(t) => t,
                None => return None,
            };
            match take_member(v, "data") {
                Some(d) => Some(MessageSegment { seg_type: t, data: d }),
                None => None,
            }
        },
        JsonValue::Array(items) => {
            let mut items = items;
            if items.len() != 2 {
                return None;
            }
            let t = match items[0].as_str() {
                Some(t) => t.to_owned(),
                None => return None,
            };
            let ghost all = items@;
            let d = items.pop().unwrap();
            assert(d == all[1]);
            Some(MessageSegment { seg_type: t, data: d })
        },
        _ => None,
    }
}

/// Reads a segment array, skipping the elements that are not segments.
pub fn read_segments(items: Vec<JsonValue>) -> (r: Vec<MessageSegment>)
    ensures
        r@.map_values(|s: MessageSegment| segment_view(s)) == segments_of(items@),
{
    let ghost all = items@;
    let mut items = items;
    let mut out: Vec<MessageSegment> = Vec::new();
    let mut i: usize = 0;
    let ghost n = items.len();
    assert(all.take(0) =~= Seq::<JsonValue>::empty());
    assert(out@.map_values(|s: MessageSegment| segment_view(s)) =~= segments_of(all.take(0)));
    while items.len() > 0
        invariant
            i + items@.len() == all.len(),
            all.len() == n,
            n <= usize::MAX,
            items@ == all.skip(i as int),
            out@.map_values(|s: MessageSegment| segment_view(s)) == segments_of(all.take(i as int)),
        decreases items.len(),
    {
        let x = items.remove(0);
        assert(x == all[i as int]);
        assert(all.take(i + 1).drop_last() =~= all.take(i as int));
        assert(all.take(i + 1).last() == all[i as int]);
        let ghost before = out@;
        match read_segment(x) {
            Some(s) => {
                out.push(s);
                assert(out@.map_values(|s: MessageSegment| segment_view(s)) =~= before.map_values(
                    |s: MessageSegment| segment_view(s),
                ).push(segment_view(s)));
            },
            None => {},
        }
        i = i + 1;
        assert(items@ =~= all.skip(i as int));
    }
    assert(all.take(i as int) =~= all);
    out
}

/// The segments of the `message` member: an array's segments, one text
/// segment for a string, none otherwise.
pub fn read_message_segments(v: Option<JsonValue>) -> (r: Vec<MessageSegment>)
    ensures
        message_segments_read(r@, v),
{
    match v {
        Some(JsonValue::Array(items)) => read_segments(items),
        Some(JsonValue::Str(s)) => {
            let mut entries: Vec<(String, JsonValue)> = Vec::new();
            entries.push(("text".to_owned(), JsonValue::Str(s)));
            let seg = MessageSegment { seg_type: "text".to_owned(), data: JsonValue::Object(entries) };
            let mut out: Vec<MessageSegment> = Vec::new();
            out.push(seg);
            out
        },
        _ => Vec::new(),
    }
}

/// Whether `m` is what reading the message event `data` gives.
pub open spec fn message_read(data: JsonValue, m: Message) -> bool {
    &&& m.time == match member_u64(data, "time"@) {
            Some(n) => n,
            None => 0,
        }
    &&& m.self_id == match member_u64(data, "self_id"@) {
            Some(n) => n,
            None => 0,
        }
    &&& m.post_type@ == "message"@
    &&& m.message_type == msg_type_of(data)
    &&& m.sub_type == sub_type_member(data)
    &&& m.message_id == match member_u64_or_text(data, "message_id"@) {
            Some(n) => n,
            None => 0,
        }
    &&& m.message_seq == member_u64(data, "message_seq"@)
    &&& m.real_id == member_u64(data, "real_id"@)
    &&& match m.real_seq {
            Some(s) => member_str(data, "real_seq"@) == Some(s@),
            None => member_str(data, "real_seq"@) is None,
        }
    &&& m.user_id == match member_u64(data, "user_id"@) {
            Some(n) => n,
            None => 0,
        }
    &&& m.group_id == member_u64(data, "group_id"@)
    &&& message_segments_read(m.message@, json_get(data, "message"@))
    &&& m.raw_message@ == decode_entities_spec(str_or_empty(data, "raw_message"@))
    &&& m.font == match member_u64(data, "font"@) {
            Some(n) => n as u32,
            None => 0u32,
        }
    &&& match json_get(data, "sender"@) {
            Some(v) => if sender_ok(v) {
                sender_read(v, m.sender)
            } else {
                default_sender(m.sender, m.user_id)
            },
            None => default_sender(m.sender, m.user_id),
        }
    &&& match json_get(data, "anonymous"@) {
            Some(v) => if v is Null || !anonymous_ok(v) {
                m.anonymous is None
            } else {
                m.anonymous matches Some(a) && anonymous_read(v, a)
            },
            None => m.anonymous is None,
        }
    &&& m.message_format@ == match member_str(data, "message_format"@) {
            Some(s) => s,
            None => "array"@,
        }
}

impl Message {
    /// Reads a message event. Missing numbers read as 0, a missing or
    /// malformed sender as a default one, and the raw text has its HTML
    /// entities decoded.
    pub fn new(data: JsonValue) -> (m: Message)
        ensures
            message_read(data, m),
    {
        let message_type = match get_string(&data, "message_type") {
            Some(s) => if crate::text::str_eq(s.as_str(), "private") {
                MsgType::Private
            } else if crate::text::str_eq(s.as_str(), "group") {
                MsgType::Group
            } else {
                MsgType::Other
            },
            None => MsgType::Other,
        };
        let sub_type = match get_string(&data, "sub_type") {
            Some(s) => SubType::from_name(s.as_str()),
            None => SubType::Unknown,
        };
        let message_id = match get_u64_or_text(&data, "message_id") {
            Some(n) => n,
            None => 0,
        };
        let message_seq = get_u64(&data, "message_seq");
        let real_id = get_u64(&data, "real_id");
        let real_seq = get_string(&data, "real_seq");
        let user_id = match get_u64(&data, "user_id") {
            Some(n) => n,
            None => 0,
        };
        let group_id = get_u64(&data, "group_id");
        proof {
            reveal_strlit("");
        }
        let raw = get_str_or(&data, "raw_message", "");
        let raw_message = decode_html_entities(raw.as_str());
        let font: u32 = match get_u64(&data, "font") {
            Some(n) => n as u32,
            None => 0,
        };
        let read = match data.get("sender") {
            Some(v) => read_sender(v),
            None => None,
        };
        let sender = match read {
            Some(s) => s,
            None => Sender {
                user_id,
                nickname: String::new(),
                card: String::new(),
                sex: "unknown".to_owned(),
                age: 0,
                area: String::new(),
                level: String::new(),
                role: "member".to_owned(),
                title: String::new(),
            },
        };
        let anonymous = match data.get("anonymous") {
            Some(v) => if v.is_null() {
                None
            } else {
                read_anonymous(v)
            },
            None => None,
        };
        let message_format = get_str_or(&data, "message_format", "array");
        let time = match get_u64(&data, "time") {
            Some(n) => n,
            None => 0,
        };
        let self_id = match get_u64(&data, "self_id") {
            Some(n) => n,
            None => 0,
        };
        let message = read_message_segments(take_member(data, "message"));
        Message {
            time,
            self_id,
            post_type: "message".to_owned(),
            message_type,
            sub_type,
            message_id,
            message_seq,
            real_id,
            real_seq,
            user_id,
            group_id,
            message,
            raw_message,
            font,
            sender,
            anonymous,
            message_format,
        }
    }

    /// The plain text of the message.
    pub fn get_text(&self) -> (r: &str)
        ensures
            r@ == self.raw_message@,
    {
        self.raw_message.as_str()
    }
}

impl MsgType {
    /// The wire name of the message type.
    pub fn name(&self) -> (r: &'static str)
        ensures
            r@ == msg_type_name(*self),
    {
        match self {
            MsgType::Private => "private",
            MsgType::Group => "group",
            MsgType::Other => "other",
        }
    }
}

} // verus!
