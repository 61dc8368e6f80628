use luo9_bot::error::LNErr;
use luo9_bot::event::{MetaEvent, MetaEventType, PostType, Status};
use luo9_bot::handler::{handle, handle_event, handle_message, handle_notice, handle_request};
use luo9_bot::json::{JsonNumber, JsonValue};
use luo9_bot::message::{decode_html_entities, read_anonymous, read_sender, Message, MsgType};
use luo9_bot::notice::{read_file, read_honor, HonorType, Notice, NoticeType};
use luo9_bot::plugin_data::PluginData;
use luo9_bot::request::{GroupRequestSubType, Request, RequestType};
use luo9_bot::sub_type::SubType;

fn obj(members: Vec<(&str, JsonValue)>) -> JsonValue {
    JsonValue::Object(members.into_iter().map(|(k, v)| (k.to_string(), v)).collect())
}

fn text(s: &str) -> JsonValue {
    JsonValue::Str(s.to_string())
}

fn num(n: u64) -> JsonValue {
    JsonValue::Number(JsonNumber::PosInt(n))
}

const ALL_SUB_TYPES: [SubType; 31] = [
    SubType::Enable, SubType::Disable, SubType::Connect, SubType::Friend, SubType::GroupTemp,
    SubType::GroupSelf, SubType::Other, SubType::Normal, SubType::Anonymous, SubType::Notice,
    SubType::SetAdmin, SubType::Unset, SubType::Ban, SubType::LiftBan, SubType::Unban,
    SubType::Leave, SubType::Kick, SubType::KickMe, SubType::Approve, SubType::Invite,
    SubType::Add, SubType::Poke, SubType::LuckyKing, SubType::Talkative, SubType::Performer,
    SubType::Emotion, SubType::InputStatus, SubType::Title, SubType::ProfileLike, SubType::Honor,
    SubType::Unknown,
];

#[test]
fn sub_type_names_round_trip() {
    for t in ALL_SUB_TYPES {
        assert_eq!(SubType::from_name(t.name()), t);
    }
    assert_eq!(SubType::GroupTemp.name(), "group");
    assert_eq!(SubType::from_name("lift_ban"), SubType::LiftBan);
    assert_eq!(SubType::from_name("whatever"), SubType::Unknown);
    assert_eq!(SubType::Unknown.name(), "none");
}

#[test]
fn entities_are_decoded() {
    assert_eq!(decode_html_entities("a &amp; b &lt;c&gt; &quot;d&quot; &#39;e&apos;"), "a & b <c> \"d\" 'e'");
    // `&amp;lt;` becomes `&lt;` and then `<`: the replacements run in turn.
    assert_eq!(decode_html_entities("&amp;lt;"), "<");
    assert_eq!(decode_html_entities("plain"), "plain");
}

#[test]
fn messages_are_read() {
    let data = obj(vec![
        ("post_type", text("message")),
        ("message_type", text("group")),
        ("sub_type", text("normal")),
        ("message_id", text("123")),
        ("user_id", num(42)),
        ("group_id", num(7)),
        ("raw_message", text("hi &amp; bye")),
        ("font", num(3)),
        ("message", JsonValue::Array(vec![
            obj(vec![("type", text("text")), ("data", obj(vec![("text", text("hi"))]))]),
            obj(vec![("type", text("face"))]),
            JsonValue::Array(vec![text("image"), JsonValue::Null]),
        ])),
        ("sender", obj(vec![("user_id", num(42)), ("nickname", text("bob")), ("role", text("owner"))])),
        ("anonymous", JsonValue::Null),
        ("time", num(1700000000)),
        ("self_id", num(9)),
    ]);
    let m = Message::new(data);
    assert_eq!(m.post_type, "message");
    assert_eq!(m.message_type, MsgType::Group);
    assert_eq!(m.sub_type, SubType::Normal);
    assert_eq!(m.message_id, 123);
    assert_eq!(m.user_id, 42);
    assert_eq!(m.group_id, Some(7));
    assert_eq!(m.raw_message, "hi & bye");
    assert_eq!(m.get_text(), "hi & bye");
    assert_eq!(m.font, 3);
    assert_eq!(m.message.len(), 2);
    assert_eq!(m.message[0].seg_type, "text");
    assert_eq!(m.message[1].seg_type, "image");
    assert_eq!(m.sender.nickname, "bob");
    assert_eq!(m.sender.role, "owner");
    assert_eq!(m.sender.sex, "");
    assert!(m.anonymous.is_none());
    assert_eq!(m.message_format, "array");
    assert_eq!(m.time, 1700000000);
    assert_eq!(m.self_id, 9);
}

#[test]
fn message_defaults() {
    let m = Message::new(obj(vec![("message", text("hello")), ("user_id", num(5))]));
    assert_eq!(m.message_type, MsgType::Other);
    assert_eq!(m.sub_type, SubType::Unknown);
    assert_eq!(m.message_id, 0);
    assert_eq!(m.message.len(), 1);
    assert_eq!(m.message[0].seg_type, "text");
    assert_eq!(m.sender.user_id, 5);
    assert_eq!(m.sender.sex, "unknown");
    assert_eq!(m.sender.role, "member");
    assert_eq!(m.raw_message, "");
    // A sender with a malformed member is replaced by the default one.
    let m = Message::new(obj(vec![("sender", obj(vec![("user_id", num(1)), ("nickname", num(2))]))]));
    assert_eq!(m.sender.nickname, "");
    assert_eq!(m.sender.role, "member");
    let m = Message::new(obj(vec![(
        "anonymous",
        obj(vec![("id", num(3)), ("name", text("anon")), ("flag", text("f"))]),
    )]));
    let a = m.anonymous.unwrap();
    assert_eq!(a.id, 3);
    assert_eq!(a.name, "anon");
    assert_eq!(MsgType::Private.name(), "private");
}

#[test]
fn meta_events_are_read() {
    let e = MetaEvent::new(obj(vec![
        ("meta_event_type", text("heartbeat")),
        ("interval", num(5000)),
        ("status", obj(vec![("good", JsonValue::Bool(true)), ("online", JsonValue::Bool(false))])),
        ("self_id", num(1)),
        ("time", num(2)),
    ]));
    assert_eq!(e.meta_event_type, MetaEventType::Heartbeat);
    assert_eq!(e.interval, Some(5000));
    assert_eq!(e.status, Some(Status { good: true, online: false }));
    assert_eq!(e.sub_type, SubType::Unknown);
    let e = MetaEvent::new(obj(vec![("meta_event_type", text("lifecycle")), ("sub_type", text("connect"))]));
    assert_eq!(e.meta_event_type, MetaEventType::Lifecycle);
    assert_eq!(e.sub_type, SubType::Connect);
    assert_eq!(e.status, None);
    assert_eq!(e.self_id, 0);
}

#[test]
fn notices_are_read() {
    let n = Notice::new(obj(vec![
        ("notice_type", text("notify")),
        ("sub_type", text("poke")),
        ("user_id", num(10)),
        ("target_id", num(11)),
        ("group_id", num(12)),
    ]));
    assert_eq!(n.notice_type, NoticeType::Poke);
    assert_eq!(n.sub_type, SubType::Poke);
    assert_eq!(n.target_id, Some(11));
    assert_eq!(n.post_type, "notice");
    let n = Notice::new(obj(vec![
        ("notice_type", text("group_upload")),
        ("file", obj(vec![("id", text("f1")), ("name", text("a.txt")), ("size", num(3)), ("busid", JsonValue::Number(JsonNumber::NegInt(-1)))])),
        ("honor_type", text("emotion")),
        ("card_new", text("new")),
    ]));
    assert_eq!(n.notice_type, NoticeType::GroupUpload);
    let f = n.file.unwrap();
    assert_eq!(f.name, "a.txt");
    assert_eq!(f.busid, -1);
    assert_eq!(n.honor_type, Some(HonorType::Emotion));
    assert_eq!(n.card_new, Some("new".to_string()));
    assert_eq!(n.card_old, None);
    let n = Notice::new(obj(vec![("notice_type", text("notify")), ("sub_type", text("other"))]));
    assert_eq!(n.notice_type, NoticeType::Notify);
    let n = Notice::new(obj(vec![("notice_type", text("mystery"))]));
    assert_eq!(n.notice_type, NoticeType::Unknown);
    assert_eq!(NoticeType::GroupMsgEmojiLike.name(), "group_msg_emoji_like");
}

#[test]
fn honours_are_read_in_both_forms() {
    assert_eq!(read_honor(&text("talkative")), Some(HonorType::Talkative));
    assert_eq!(read_honor(&obj(vec![("performer", JsonValue::Null)])), Some(HonorType::Performer));
    assert_eq!(read_honor(&obj(vec![("performer", num(1))])), None);
    assert_eq!(read_honor(&obj(vec![("performer", JsonValue::Null), ("emotion", JsonValue::Null)])), None);
    assert_eq!(read_honor(&text("legend")), None);
    assert_eq!(read_honor(&num(3)), None);
}

#[test]
fn records_are_read_as_objects_or_field_lists() {
    let s = read_sender(&obj(vec![("user_id", num(3)), ("nickname", text("n")), ("age", num(20)), ("extra", num(1))])).unwrap();
    assert_eq!((s.user_id, s.nickname.as_str(), s.age, s.card.as_str(), s.role.as_str()), (3, "n", 20, "", ""));
    let s = read_sender(&JsonValue::Array(vec![num(4), text("m"), text("c")])).unwrap();
    assert_eq!((s.user_id, s.nickname.as_str(), s.card.as_str(), s.sex.as_str(), s.age), (4, "m", "c", "", 0));
    assert!(read_sender(&JsonValue::Array(vec![num(4)])).is_none());
    assert!(read_sender(&obj(vec![("user_id", num(3)), ("nickname", text("n")), ("age", num(5_000_000_000))])).is_none());
    assert!(read_sender(&obj(vec![("user_id", num(3)), ("nickname", text("n")), ("card", num(1))])).is_none());
    let a = read_anonymous(&JsonValue::Array(vec![num(1), text("x"), text("f")])).unwrap();
    assert_eq!((a.id, a.name.as_str(), a.flag.as_str()), (1, "x", "f"));
    assert!(read_anonymous(&JsonValue::Array(vec![num(1), text("x")])).is_none());
    assert!(read_anonymous(&obj(vec![("id", num(1)), ("name", text("x"))])).is_none());
    let f = read_file(&JsonValue::Array(vec![text("i"), text("n"), num(9), JsonValue::Number(JsonNumber::NegInt(-2))])).unwrap();
    assert_eq!((f.id.as_str(), f.name.as_str(), f.size, f.busid), ("i", "n", 9, -2));
    assert!(read_file(&obj(vec![("id", text("i")), ("name", text("n")), ("size", num(9))])).is_none());
    assert!(read_file(&obj(vec![("id", text("i")), ("name", text("n")), ("size", num(9)), ("busid", num(u64::MAX))])).is_none());
}

#[test]
fn requests_are_read() {
    let r = Request::new(obj(vec![
        ("request_type", text("group")),
        ("sub_type", text("invite")),
        ("user_id", num(1)),
        ("group_id", num(2)),
        ("comment", text("please")),
        ("flag", text("abc")),
    ]));
    assert_eq!(r.request_type, RequestType::Group);
    assert_eq!(r.sub_type, GroupRequestSubType::Invite);
    assert_eq!(r.comment, "please");
    assert_eq!(r.flag, "abc");
    assert_eq!(r.post_type, "request");
    let r = Request::new(obj(vec![]));
    assert_eq!(r.request_type, RequestType::Unknown);
    assert_eq!(r.sub_type, GroupRequestSubType::Unknown);
    assert_eq!(r.comment, "");
    assert_eq!(RequestType::Friend.name(), "friend");
    assert_eq!(GroupRequestSubType::Add.name(), "add");
}

#[test]
fn post_types() {
    assert!(matches!(PostType::from_name("message_sent"), PostType::MessageSent));
    match PostType::from_name("custom") {
        PostType::Other(s) => assert_eq!(s, "custom"),
        _ => panic!("an unknown post type is kept"),
    }
}

#[test]
fn routing() {
    match handle(obj(vec![("message_type", text("private"))])) {
        Err(LNErr::EventParseError(m)) => assert_eq!(m, "Invalid post_type"),
        _ => panic!("an event without a post type is refused"),
    }
    let r = handle(obj(vec![("post_type", text("message")), ("message_type", text("group"))]));
    assert!(matches!(r, Err(LNErr::InvalidMessage)));
    let r = handle(obj(vec![("post_type", text("message")), ("message_type", text("discuss"))]));
    assert!(matches!(r, Err(LNErr::UnknownMsgType)));
    let r = handle(obj(vec![("post_type", text("message_sent")), ("message_type", text("private"))]));
    assert!(matches!(r, Ok(Some(PluginData::Message(_)))));
    let r = handle(obj(vec![("post_type", text("meta_event")), ("meta_event_type", text("other"))]));
    assert!(matches!(r, Err(LNErr::UnknownMetaEventType)));
    let r = handle(obj(vec![("post_type", text("meta_event")), ("meta_event_type", text("heartbeat"))]));
    assert!(matches!(r, Ok(Some(PluginData::MetaEvent(_)))));
    let r = handle(obj(vec![("post_type", text("notice")), ("notice_type", text("?"))]));
    assert!(matches!(r, Ok(Some(PluginData::Notice(_)))));
    let r = handle(obj(vec![("post_type", text("request"))]));
    assert!(matches!(r, Ok(Some(PluginData::Request(_)))));
    let r = handle(obj(vec![("post_type", text("elsewhere"))]));
    assert!(matches!(r, Ok(None)));
    let r = handle(obj(vec![("post_type", num(1))]));
    assert!(matches!(r, Err(LNErr::EventParseError(_))));
}

#[test]
fn handlers() {
    let e = MetaEvent::new(obj(vec![("meta_event_type", text("lifecycle"))]));
    assert!(handle_event(e).is_ok());
    let e = MetaEvent::new(obj(vec![]));
    assert!(matches!(handle_event(e), Err(LNErr::UnknownMetaEventType)));
    let m = Message::new(obj(vec![("message_type", text("group")), ("group_id", num(1))]));
    assert!(handle_message(m).is_ok());
    let m = Message::new(obj(vec![("message_type", text("private"))]));
    assert!(handle_message(m).is_ok());
    let n = Notice::new(obj(vec![]));
    assert!(handle_notice(n).is_ok());
    let q = Request::new(obj(vec![]));
    assert!(handle_request(q).is_ok());
}

#[test]
fn error_messages() {
    assert_eq!(LNErr::Config("x".to_string()).message(), "配置错误: x");
    assert_eq!(LNErr::EventParseError("Invalid post_type".to_string()).message(), "事件解析错误: Invalid post_type");
    assert_eq!(LNErr::UnknownMsgType.message(), "未知的消息类型");
    assert_eq!(LNErr::InvalidMessage.message(), "无效的消息格式");
}

#[test]
fn plugin_data() {
    let d = PluginData::Notice(Notice::new(obj(vec![])));
    assert_eq!(d.kind_name(), "Notice");
    assert_eq!(d.topic(), "luo9_notice");
    assert!(d.as_notice().is_some());
    assert!(d.as_message().is_none());
    assert!(d.as_meta_event().is_none());
}

#[test]
fn pokes_without_a_group_are_friend_pokes() {
    let n = Notice::new(obj(vec![
        ("post_type", text("notice")),
        ("notice_type", text("notify")),
        ("sub_type", text("poke")),
        ("user_id", num(456)),
        ("target_id", num(10)),
    ]));
    assert_eq!(n.notice_type, NoticeType::FriendPoke);
    assert_eq!(n.group_id, None);
    assert_eq!(n.user_id, 456);
    assert_eq!(n.target_id, Some(10));
    let n = Notice::new(obj(vec![("notice_type", text("notify")), ("sub_type", text("poke")), ("group_id", num(7))]));
    assert_eq!(n.notice_type, NoticeType::Poke);
}

#[test]
fn meta_event_status_as_a_pair() {
    let e = MetaEvent::new(obj(vec![
        ("meta_event_type", text("heartbeat")),
        ("status", JsonValue::Array(vec![JsonValue::Bool(false), JsonValue::Bool(true)])),
    ]));
    assert_eq!(e.status, Some(Status { good: false, online: true }));
}
