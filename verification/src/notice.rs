//! OneBot v11 notice events.
use vstd::prelude::*;
use crate::json::{
    field_str, field_u64, get_field, get_field_string, get_field_u64, get_string, get_u64,
    json_get, member_str, member_u64, struct_field, struct_shape, struct_shape_ok, JsonNumber,
    JsonValue,
};
use crate::message::sub_type_member;
use crate::sub_type::SubType;
use crate::text::str_eq;

verus! {

/// A file uploaded to a group.
pub struct FileInfo {
    pub id: String,
    pub name: String,
    pub size: u64,
    pub busid: i64,
}

/// A group honour.
#[derive(Debug, Clone, Copy, PartialEq, Eq, Structural)]
pub enum HonorType {
    Talkative,
    Performer,
    Emotion,
}

/// The kind of a notice.
#[derive(Debug, Clone, Copy, PartialEq, Eq, Structural)]
pub enum NoticeType {
    FriendAdd,
    FriendRecall,
    FriendPoke,
    GroupAdmin,
    GroupBan,
    GroupIncrease,
    GroupDecrease,
    GroupCard,
    GroupRecall,
    GroupUpload,
    GroupTitle,
    Honor,
    Essence,
    Poke,
    LuckyKing,
    GroupMsgEmojiLike,
    Notify,
    Unknown,
}

/// A complete OneBot v11 notice event.
pub struct Notice {
    pub time: u64,
    pub self_id: u64,
    pub post_type: String,
    pub notice_type: NoticeType,
    pub sub_type: SubType,
    pub user_id: u64,
    pub group_id: Option<u64>,
    pub operator_id: Option<u64>,
    pub target_id: Option<u64>,
    pub message_id: Option<u64>,
    pub file: Option<FileInfo>,
    pub duration: Option<u64>,
    pub card_new: Option<String>,
    pub card_old: Option<String>,
    pub honor_type: Option<HonorType>,
    pub title: Option<String>,
    pub flag: Option<String>,
    pub comment: Option<String>,
}

/// The wire name of a notice type.
pub open spec fn notice_type_name(t: NoticeType) -> Seq<char> {
    match t {
        NoticeType::FriendAdd => "friend_add"@,
        NoticeType::FriendRecall => "friend_recall"@,
        NoticeType::FriendPoke => "friend_poke"@,
        NoticeType::GroupAdmin => "group_admin"@,
        NoticeType::GroupBan => "group_ban"@,
        NoticeType::GroupIncrease => "group_increase"@,
        NoticeType::GroupDecrease => "group_decrease"@,
        NoticeType::GroupCard => "group_card"@,
        NoticeType::GroupRecall => "group_recall"@,
        NoticeType::GroupUpload => "group_upload"@,
        NoticeType::GroupTitle => "group_title"@,
        NoticeType::Honor => "honor"@,
        NoticeType::Essence => "essence"@,
        NoticeType::Poke => "poke"@,
        NoticeType::LuckyKing => "lucky_king"@,
        NoticeType::GroupMsgEmojiLike => "group_msg_emoji_like"@,
        NoticeType::Notify => "notify"@,
        NoticeType::Unknown => "unknown"@,
    }
}

/// The kind of a `notify` notice, by its `sub_type`; a poke is a group poke
/// when the notice names a group and a friend poke otherwise.
pub open spec fn notify_kind(sub: Option<Seq<char>>, in_group: bool) -> NoticeType {
    match sub {
        Some(s) => if s == "poke"@ {
            if in_group {
                NoticeType::Poke
            } else {
                NoticeType::FriendPoke
            }
        } else if s == "lucky_king"@ {
            NoticeType::LuckyKing
        } else if s == "honor"@ {
            NoticeType::Honor
        } else if s == "title"@ {
            NoticeType::GroupTitle
        } else {
            NoticeType::Notify
        },
        None => NoticeType::Notify,
    }
}

/// The kind that the `notice_type` member (and, for `notify`, the
/// `sub_type`) names.
pub open spec fn notice_type_of(data: JsonValue) -> NoticeType {
    match member_str(data, "notice_type"@) {
        Some(s) => if s == "friend_add"@ {
            NoticeType::FriendAdd
        } else if s == "friend_recall"@ {
            NoticeType::FriendRecall
        } else if s == "group_admin"@ {
            NoticeType::GroupAdmin
        } else if s == "group_ban"@ {
            NoticeType::GroupBan
        } else if s == "group_increase"@ {
            NoticeType::GroupIncrease
        } else if s == "group_decrease"@ {
            NoticeType::GroupDecrease
        } else if s == "group_card"@ {
            NoticeType::GroupCard
        } else if s == "group_recall"@ {
            NoticeType::GroupRecall
        } else if s == "group_upload"@ {
            NoticeType::GroupUpload
        } else if s == "essence"@ {
            NoticeType::Essence
        } else if s == "notify"@ {
            notify_kind(member_str(data, "sub_type"@), member_u64(data, "group_id"@) is Some)
        } else if s == "group_msg_emoji_like"@ {
            NoticeType::GroupMsgEmojiLike
        } else {
            NoticeType::Unknown
        },
        None => NoticeType::Unknown,
    }
}

/// A signed 64-bit number, as a JSON number reads into `i64`.
pub open spec fn json_as_i64(v: JsonValue) -> Option<i64> {
    match v {
        JsonValue::Number(JsonNumber::PosInt(n)) => if n <= i64::MAX {
            Some(n as i64)
        } else {
            None
        },
        JsonValue::Number(JsonNumber::NegInt(n)) => Some(n),
        _ => None,
    }
}

/// Whether `v` describes a file: an object, or an array of its four fields
/// in order, with string `id` and `name`, a non-negative `size` and a
/// signed `busid`.
pub open spec fn file_ok(v: JsonValue) -> bool {
    &&& struct_shape_ok(v, 4, 4)
    &&& field_str(v, "id"@, 0) is Some
    &&& field_str(v, "name"@, 1) is Some
    &&& field_u64(v, "size"@, 2) is Some
    &&& struct_field(v, "busid"@, 3) matches Some(b) && json_as_i64(b) is Some
}

/// Whether `f` holds what `v` describes.
pub open spec fn file_read(v: JsonValue, f: FileInfo) -> bool {
    &&& field_str(v, "id"@, 0) == Some(f.id@)
    &&& field_str(v, "name"@, 1) == Some(f.name@)
    &&& field_u64(v, "size"@, 2) == Some(f.size)
    &&& struct_field(v, "busid"@, 3) matches Some(b) && json_as_i64(b) == Some(f.busid)
}

/// The honour that a name stands for.
pub open spec fn honor_named(s: Seq<char>) -> Option<HonorType> {
    if s == "talkative"@ {
        Some(HonorType::Talkative)
    } else if s == "performer"@ {
        Some(HonorType::Performer)
    } else if s == "emotion"@ {
        Some(HonorType::Emotion)
    } else {
        None
    }
}

/// The honour that `v` names: its name, or an object of the name alone
/// mapped to `null`.
pub open spec fn honor_of(v: JsonValue) -> Option<HonorType> {
    match v {
        JsonValue::Str(s) => honor_named(s@),
        JsonValue::Object(entries) => if entries@.len() == 1 && entries@[0].1 is Null {
            honor_named(entries@[0].0@)
        } else {
            None
        },
        _ => None,
    }
}

/// Whether `r` holds the string member `key` (and is `None` without one).
pub open spec fn opt_string_read(r: Option<String>, v: JsonValue, key: Seq<char>) -> bool {
    match r {
        Some(s) => member_str(v, key) == Some(s@),
        None => member_str(v, key) is None,
    }
}

/// Reads a JSON number into `i64`.
fn as_i64(v: &JsonValue) -> (r: Option<i64>)
    ensures
        r == json_as_i64(*v),
{
    match v {
        JsonValue::Number(JsonNumber::PosInt(n)) => if *n <= 0x7fff_ffff_ffff_ffffu64 {
            Some(*n as i64)
        } else {
            None
        },
        JsonValue::Number(JsonNumber::NegInt(n)) => Some(*n),
        _ => None,
    }
}

/// Reads a file description; `None` when it is malformed.
pub fn read_file(v: &JsonValue) -> (r: Option<FileInfo>)
    ensures
        match r {
            Some(f) => file_ok(*v) && file_read(*v, f),
            None => !file_ok(*v),
        },
{
    if !struct_shape(v, 4, 4) {
        return None;
    }
    let id = match get_field_string(v, "id", 0) {
        Some(s) => s,
        None => return None,
    };
    let name = match get_field_string(v, "name", 1) {
        Some(s) => s,
        None => return None,
    };
    let size = match get_field_u64(v, "size", 2) {
        Some(n) => n,
        None => return None,
    };
    let busid = match get_field(v, "busid", 3) {
        Some(b) => match as_i64(b) {
            Some(n) => n,
            None => return None,
        },
        None => return None,
    };
    Some(FileInfo { id, name, size, busid })
}

/// The honour that a name stands for.
fn honor_by_name(s: &str) -> (r: Option<HonorType>)
    ensures
        r == honor_named(s@),
{
    if str_eq(s, "talkative") {
        Some(HonorType::Talkative)
    } else if str_eq(s, "performer") {
        Some(HonorType::Performer)
    } else if str_eq(s, "emotion") {
        Some(HonorType::Emotion)
    } else {
        None
    }
}

/// Reads an honour.
pub fn read_honor(v: &JsonValue) -> (r: Option<HonorType>)
    ensures
        r == honor_of(*v),
{
    match v {
        JsonValue::Str(s) => honor_by_name(s.as_str()),
        JsonValue::Object(entries) => {
            if entries.len() == 1 && entries[0].1.is_null() {
                honor_by_name(entries[0].0.as_str())
            } else {
                None
            }
        },
        _ => None,
    }
}

impl NoticeType {
    /// The wire name of the notice type.
    pub fn name(&self) -> (r: &'static str)
        ensures
            r@ == notice_type_name(*self),
    {
        match self {
            NoticeType::FriendAdd => "friend_add",
            NoticeType::FriendRecall => "friend_recall",
            NoticeType::FriendPoke => "friend_poke",
            NoticeType::GroupAdmin => "group_admin",
            NoticeType::GroupBan => "group_ban",
            NoticeType::GroupIncrease => "group_increase",
            NoticeType::GroupDecrease => "group_decrease",
            NoticeType::GroupCard => "group_card",
            NoticeType::GroupRecall => "group_recall",
            NoticeType::GroupUpload => "group_upload",
            NoticeType::GroupTitle => "group_title",
            NoticeType::Honor => "honor",
            NoticeType::Essence => "essence",
            NoticeType::Poke => "poke",
            NoticeType::LuckyKing => "lucky_king",
            NoticeType::GroupMsgEmojiLike => "group_msg_emoji_like",
            NoticeType::Notify => "notify",
            NoticeType::Unknown => "unknown",
        }
    }

    /// The kind of a notice event.
    pub fn of_event(data: &JsonValue) -> (r: NoticeType)
        ensures
            r == notice_type_of(*data),
    {
        match get_string(data, "notice_type") {
            Some(n) => {
                let s = n.as_str();
                if str_eq(s, "friend_add") {
                    NoticeType::FriendAdd
                } else if str_eq(s, "friend_recall") {
                    NoticeType::FriendRecall
                } else if str_eq(s, "group_admin") {
                    NoticeType::GroupAdmin
                } else if str_eq(s, "group_ban") {
                    NoticeType::GroupBan
                } else if str_eq(s, "group_increase") {
                    NoticeType::GroupIncrease
                } else if str_eq(s, "group_decrease") {
                    NoticeType::GroupDecrease
                } else if str_eq(s, "group_card") {
                    NoticeType::GroupCard
                } else if str_eq(s, "group_recall") {
                    NoticeType::GroupRecall
                } else if str_eq(s, "group_upload") {
                    NoticeType::GroupUpload
                } else if str_eq(s, "essence") {
                    NoticeType::Essence
                } else if str_eq(s, "notify") {
                    match get_string(data, "sub_type") {
                        Some(sub) => {
                            let t = sub.as_str();
                            if str_eq(t, "poke") {
                                if get_u64(data, "group_id").is_some() {
                                    NoticeType::Poke
                                } else {
                                    NoticeType::FriendPoke
                                }
                            } else if str_eq(t, "lucky_king") {
                                NoticeType::LuckyKing
                            } else if str_eq(t, "honor") {
                                NoticeType::Honor
                            } else if str_eq(t, "title") {
                                NoticeType::GroupTitle
                            } else {
                                NoticeType::Notify
                            }
                        },
                        None => NoticeType::Notify,
                    }
                } else if str_eq(s, "group_msg_emoji_like") {
                    NoticeType::GroupMsgEmojiLike
                } else {
                    NoticeType::Unknown
                }
            },
            None => NoticeType::Unknown,
        }
    }
}

/// The notice types that the `notice_type` member names directly; the
/// others arrive as `notify` notices and are told apart by `sub_type`.
pub open spec fn named_directly(t: NoticeType) -> bool {
    ||| t == NoticeType::FriendAdd
    ||| t == NoticeType::FriendRecall
    ||| t == NoticeType::GroupAdmin
    ||| t == NoticeType::GroupBan
    ||| t == NoticeType::GroupIncrease
    ||| t == NoticeType::GroupDecrease
    ||| t == NoticeType::GroupCard
    ||| t == NoticeType::GroupRecall
    ||| t == NoticeType::GroupUpload
    ||| t == NoticeType::Essence
    ||| t == NoticeType::GroupMsgEmojiLike
}

/// The wire names of the types named directly differ from one another and
/// from `notify`.
proof fn lemma_direct_names_distinct()
    ensures
        forall|a: NoticeType, b: NoticeType|
            named_directly(a) && named_directly(b) && a != b ==> notice_type_name(a)
                != notice_type_name(b),
        forall|a: NoticeType| named_directly(a) ==> notice_type_name(a) != "notify"@,
{
    reveal_strlit("friend_add");
    reveal_strlit("friend_recall");
    reveal_strlit("friend_poke");
    reveal_strlit("group_admin");
    reveal_strlit("group_ban");
    reveal_strlit("group_increase");
    reveal_strlit("group_decrease");
    reveal_strlit("group_card");
    reveal_strlit("group_recall");
    reveal_strlit("group_upload");
    reveal_strlit("group_title");
    reveal_strlit("honor");
    reveal_strlit("essence");
    reveal_strlit("poke");
    reveal_strlit("lucky_king");
    reveal_strlit("group_msg_emoji_like");
    reveal_strlit("notify");
    reveal_strlit("unknown");
    assert("friend_add"@.len() != "friend_recall"@.len());
    assert("friend_add"@.len() != "group_admin"@.len());
    assert("friend_add"@.len() != "group_ban"@.len());
    assert("friend_add"@.len() != "group_increase"@.len());
    assert("friend_add"@.len() != "group_decrease"@.len());
    assert("friend_add"@ != "group_card"@) by {
        assert("friend_add"@[0] != "group_card"@[0]);
    }
    assert("friend_add"@.len() != "group_recall"@.len());
    assert("friend_add"@.len() != "group_upload"@.len());
    assert("friend_add"@.len() != "essence"@.len());
    assert("friend_add"@.len() != "notify"@.len());
    assert("friend_add"@.len() != "group_msg_emoji_like"@.len());
    assert("friend_recall"@.len() != "group_admin"@.len());
    assert("friend_recall"@.len() != "group_ban"@.len());
    assert("friend_recall"@.len() != "group_increase"@.len());
    assert("friend_recall"@.len() != "group_decrease"@.len());
    assert("friend_recall"@.len() != "group_card"@.len());
    assert("friend_recall"@.len() != "group_recall"@.len());
    assert("friend_recall"@.len() != "group_upload"@.len());
    assert("friend_recall"@.len() != "essence"@.len());
    assert("friend_recall"@.len() != "notify"@.len());
    assert("friend_recall"@.len() != "group_msg_emoji_like"@.len());
    assert("group_admin"@.len() != "group_ban"@.len());
    assert("group_admin"@.len() != "group_increase"@.len());
    assert("group_admin"@.len() != "group_decrease"@.len());
    assert("group_admin"@.len() != "group_card"@.len());
    assert("group_admin"@.len() != "group_recall"@.len());
    assert("group_admin"@.len() != "group_upload"@.len());
    assert("group_admin"@.len() != "essence"@.len());
    assert("group_admin"@.len() != "notify"@.len());
    assert("group_admin"@.len() != "group_msg_emoji_like"@.len());
    assert("group_ban"@.len() != "group_increase"@.len());
    assert("group_ban"@.len() != "group_decrease"@.len());
    assert("group_ban"@.len() != "group_card"@.len());
    assert("group_ban"@.len() != "group_recall"@.len());
    assert("group_ban"@.len() != "group_upload"@.len());
    assert("group_ban"@.len() != "essence"@.len());
    assert("group_ban"@.len() != "notify"@.len());
    assert("group_ban"@.len() != "group_msg_emoji_like"@.len());
    assert("group_increase"@ != "group_decrease"@) by {
        assert("group_increase"@[6] != "group_decrease"@[6]);
    }
    assert("group_increase"@.len() != "group_card"@.len());
    assert("group_increase"@.len() != "group_recall"@.len());
    assert("group_increase"@.len() != "group_upload"@.len());
    assert("group_increase"@.len() != "essence"@.len());
    assert("group_increase"@.len() != "notify"@.len());
    assert("group_increase"@.len() != "group_msg_emoji_like"@.len());
    assert("group_decrease"@.len() != "group_card"@.len());
    assert("group_decrease"@.len() != "group_recall"@.len());
    assert("group_decrease"@.len() != "group_upload"@.len());
    assert("group_decrease"@.len() != "essence"@.len());
    assert("group_decrease"@.len() != "notify"@.len());
    assert("group_decrease"@.len() != "group_msg_emoji_like"@.len());
    assert("group_card"@.len() != "group_recall"@.len());
    assert("group_card"@.len() != "group_upload"@.len());
    assert("group_card"@.len() != "essence"@.len());
    assert("group_card"@.len() != "notify"@.len());
    assert("group_card"@.len() != "group_msg_emoji_like"@.len());
    assert("group_recall"@ != "group_upload"@) by {
        assert("group_recall"@[6] != "group_upload"@[6]);
    }
    assert("group_recall"@.len() != "essence"@.len());
    assert("group_recall"@.len() != "notify"@.len());
    assert("group_recall"@.len() != "group_msg_emoji_like"@.len());
    assert("group_upload"@.len() != "essence"@.len());
    assert("group_upload"@.len() != "notify"@.len());
    assert("group_upload"@.len() != "group_msg_emoji_like"@.len());
    assert("essence"@.len() != "notify"@.len());
    assert("essence"@.len() != "group_msg_emoji_like"@.len());
    assert("notify"@.len() != "group_msg_emoji_like"@.len());
}

/// A notice whose `notice_type` is the wire name of a type named directly
/// reads as that type.
pub proof fn law_notice_type_by_name(data: JsonValue, t: NoticeType)
    requires
        named_directly(t),
        member_str(data, "notice_type"@) == Some(notice_type_name(t)),
    ensures
        notice_type_of(data) == t,
{
    lemma_direct_names_distinct();
    assert(named_directly(NoticeType::FriendAdd) && notice_type_name(NoticeType::FriendAdd) == "friend_add"@);
    assert(named_directly(NoticeType::FriendRecall) && notice_type_name(NoticeType::FriendRecall) == "friend_recall"@);
    assert(named_directly(NoticeType::GroupAdmin) && notice_type_name(NoticeType::GroupAdmin) == "group_admin"@);
    assert(named_directly(NoticeType::GroupBan) && notice_type_name(NoticeType::GroupBan) == "group_ban"@);
    assert(named_directly(NoticeType::GroupIncrease) && notice_type_name(NoticeType::GroupIncrease) == "group_increase"@);
    assert(named_directly(NoticeType::GroupDecrease) && notice_type_name(NoticeType::GroupDecrease) == "group_decrease"@);
    assert(named_directly(NoticeType::GroupCard) && notice_type_name(NoticeType::GroupCard) == "group_card"@);
    assert(named_directly(NoticeType::GroupRecall) && notice_type_name(NoticeType::GroupRecall) == "group_recall"@);
    assert(named_directly(NoticeType::GroupUpload) && notice_type_name(NoticeType::GroupUpload) == "group_upload"@);
    assert(named_directly(NoticeType::Essence) && notice_type_name(NoticeType::Essence) == "essence"@);
    assert(named_directly(NoticeType::GroupMsgEmojiLike) && notice_type_name(NoticeType::GroupMsgEmojiLike) == "group_msg_emoji_like"@);
}

/// A notice type read from a name other than `notify` is either unknown or
/// has that name on the wire; one read without a name is unknown.
pub proof fn law_notice_type_keeps_its_name(data: JsonValue)
    ensures
        match member_str(data, "notice_type"@) {
            Some(s) => s == "notify"@ || notice_type_of(data) == NoticeType::Unknown
                || notice_type_name(notice_type_of(data)) == s,
            None => notice_type_of(data) == NoticeType::Unknown,
        },
{
    reveal_strlit("friend_add");
    reveal_strlit("friend_recall");
    reveal_strlit("friend_poke");
    reveal_strlit("group_admin");
    reveal_strlit("group_ban");
    reveal_strlit("group_increase");
    reveal_strlit("group_decrease");
    reveal_strlit("group_card");
    reveal_strlit("group_recall");
    reveal_strlit("group_upload");
    reveal_strlit("group_title");
    reveal_strlit("honor");
    reveal_strlit("essence");
    reveal_strlit("poke");
    reveal_strlit("lucky_king");
    reveal_strlit("group_msg_emoji_like");
    reveal_strlit("notify");
    reveal_strlit("unknown");
}

/// Whether `n` is what reading the notice event `data` gives.
pub open spec fn notice_read(data: JsonValue, n: Notice) -> bool {
    &&& n.time == match member_u64(data, "time"@) {
            Some(x) => x,
            None => 0,
        }
    &&& n.self_id == match member_u64(data, "self_id"@) {
            Some(x) => x,
            None => 0,
        }
    &&& n.post_type@ == "notice"@
    &&& n.notice_type == notice_type_of(data)
    &&& n.sub_type == sub_type_member(data)
    &&& n.user_id == match member_u64(data, "user_id"@) {
            Some(x) => x,
            None => 0,
        }
    &&& n.group_id == member_u64(data, "group_id"@)
    &&& n.operator_id == member_u64(data, "operator_id"@)
    &&& n.target_id == member_u64(data, "target_id"@)
    &&& n.message_id == member_u64(data, "message_id"@)
    &&& match json_get(data, "file"@) {
            Some(v) => if file_ok(v) {
                n.file matches Some(f) && file_read(v, f)
            } else {
                n.file is None
            },
            None => n.file is None,
        }
    &&& n.duration == member_u64(data, "duration"@)
    &&& opt_string_read(n.card_new, data, "card_new"@)
    &&& opt_string_read(n.card_old, data, "card_old"@)
    &&& n.honor_type == match json_get(data, "honor_type"@) {
            Some(v) => honor_of(v),
            None => None,
        }
    &&& opt_string_read(n.title, data, "title"@)
    &&& opt_string_read(n.flag, data, "flag"@)
    &&& opt_string_read(n.comment, data, "comment"@)
}

impl Notice {
    /// Reads a notice event. Missing numbers read as 0 and malformed optional
    /// members as absent.
    pub fn new(data: JsonValue) -> (n: Notice)
        ensures
            notice_read(data, n),
    {
        let notice_type = NoticeType::of_event(&data);
        let sub_type = match get_string(&data, "sub_type") {
            Some(s) => SubType::from_name(s.as_str()),
            None => SubType::Unknown,
        };
        let file = match data.get("file") {
            Some(v) => read_file(v),
            None => None,
        };
        let honor_type = match data.get("honor_type") {
            Some(v) => read_honor(v),
            None => None,
        };
        Notice {
            time: match get_u64(&data, "time") {
                Some(x) => x,
                None => 0,
            },
            self_id: match get_u64(&data, "self_id") {
                Some(x) => x,
                None => 0,
            },
            post_type: "notice".to_owned(),
            notice_type,
            sub_type,
            user_id: match get_u64(&data, "user_id") {
                Some(x) => x,
                None => 0,
            },
            group_id: get_u64(&data, "group_id"),
            operator_id: get_u64(&data, "operator_id"),
            target_id: get_u64(&data, "target_id"),
            message_id: get_u64(&data, "message_id"),
            file,
            duration: get_u64(&data, "duration"),
            card_new: get_string(&data, "card_new"),
            card_old: get_string(&data, "card_old"),
            honor_type,
            title: get_string(&data, "title"),
            flag: get_string(&data, "flag"),
            comment: get_string(&data, "comment"),
        }
    }
}

} // verus!
