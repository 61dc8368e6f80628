use luo9_bot::config::PluginEntry;
use luo9_bot::dispatch::{dispatch_meta_event, dispatch_notice, update_dispatch_list, DispatchList, EventKind};
use luo9_bot::event::MetaEvent;
use luo9_bot::json::{JsonNumber, JsonValue};
use luo9_bot::loader::{
    collect_subscriptions, extension, extract_display_name, is_plugin_file, make_info,
    native_info, plugin_kind, script_name, subscriber_topics, version_reply, PluginKind,
    PluginLoader, RuntimeSupport,
};
use luo9_bot::manager::{PluginHandle, PluginInfo, PluginManager};
use luo9_bot::notice::Notice;
use luo9_bot::plugin_data::PluginData;
use luo9_bot::scheduler::{handle_task, tick_event, Scheduler, TaskRequest};
use luo9_bot::sender::{extract_message_id, read_send_request, sent_receipt, SendAction};

fn obj(members: Vec<(&str, JsonValue)>) -> JsonValue {
    JsonValue::Object(members.into_iter().map(|(k, v)| (k.to_string(), v)).collect())
}

fn text(s: &str) -> JsonValue {
    JsonValue::Str(s.to_string())
}

fn num(n: u64) -> JsonValue {
    JsonValue::Number(JsonNumber::PosInt(n))
}

fn info(id: usize, name: &str, version: &str) -> PluginInfo {
    PluginInfo {
        id,
        name: name.to_string(),
        version: version.to_string(),
        enabled: true,
        path: None,
        priority: 0,
        block_enabled: false,
        active: true,
    }
}

fn handle_of(name: &str, priority: i32, active: bool) -> PluginHandle {
    PluginHandle {
        name: name.to_string(),
        priority,
        block_enabled: false,
        active,
        path: format!("plugins/lib{name}.so"),
        subscriber_ids: vec![("luo9_message".to_string(), 1), ("luo9_notice".to_string(), 2)],
    }
}

#[test]
fn dispatch_order_is_by_priority() {
    let mut m = PluginManager::new();
    m.register_handle(handle_of("low", 1, true));
    m.register_handle(handle_of("high", 10, true));
    m.register_handle(handle_of("off", 99, false));
    m.register_handle(handle_of("mid", 5, true));
    let list = m.get_dispatch_list();
    let names: Vec<&str> = list.iter().map(|e| e.name.as_str()).collect();
    assert_eq!(names, vec!["high", "mid", "low"]);
    assert_eq!(list[0].message_sub_id, Some(1));
    assert_eq!(list[0].notice_sub_id, Some(2));
    assert_eq!(list[0].meta_event_sub_id, None);
}

#[test]
fn registering_a_handle_again_replaces_it() {
    let mut m = PluginManager::new();
    m.register_handle(handle_of("a", 1, true));
    m.register_handle(handle_of("a", 7, true));
    let list = m.get_dispatch_list();
    assert_eq!(list.len(), 1);
    assert_eq!(list[0].priority, 7);
}

#[test]
fn disabling() {
    let mut m = PluginManager::new();
    m.register_plugin(info(0, "a", "1.0"));
    m.register_handle(handle_of("a", 1, true));
    let d = m.disable_plugin("a").ok().unwrap();
    assert_eq!(d.message, "插件 a 已禁用");
    assert_eq!(d.subscriptions, vec![("luo9_message".to_string(), 1), ("luo9_notice".to_string(), 2)]);
    assert_eq!(m.disable_plugin("a").err(), Some("插件 a 已经是禁用状态".to_string()));
    assert_eq!(m.disable_plugin("b").err(), Some("插件 b 不存在".to_string()));
    assert!(!m.get_plugin_info("a").unwrap().active);
    assert!(m.get_dispatch_list().is_empty());
}

#[test]
fn priorities_blocking_and_versions() {
    let mut m = PluginManager::new();
    m.register_plugin(info(0, "a", ""));
    m.register_plugin(info(1, "b", "2.0"));
    m.register_handle(handle_of("a", 1, true));
    assert_eq!(m.update_priority("a", 9), Ok(()));
    assert_eq!(m.get_plugin_info("a").unwrap().priority, 9);
    assert_eq!(m.get_dispatch_list()[0].priority, 9);
    assert_eq!(m.update_priority("zz", 1), Err("插件 zz 不存在".to_string()));
    assert_eq!(m.update_block("b", true), Ok(()));
    assert!(m.get_plugin_info("b").unwrap().block_enabled);
    m.update_plugin_version("b", "2.1");
    assert_eq!(m.get_plugin_info("b").unwrap().version, "2.1");
    m.mark_unknown_versions();
    assert_eq!(m.get_plugin_info("a").unwrap().version, "Unknown");
    assert_eq!(m.get_plugin_info("b").unwrap().version, "2.1");
    assert_eq!(m.get_all_plugins().len(), 2);
    assert_eq!(m.get_stats(), "插件统计: 总数=2, 活跃=1");
}

#[test]
fn configuration_entries_apply_on_registration() {
    let mut m = PluginManager::new();
    let entries = vec![PluginEntry { name: "a".to_string(), priority: 4, block_enabled: true }];
    m.register_all(vec![info(0, "a", ""), info(1, "b", "")], vec![handle_of("a", 0, true)], &entries);
    let a = m.get_plugin_info("a").unwrap();
    assert_eq!(a.priority, 4);
    assert!(a.block_enabled);
    assert_eq!(m.get_plugin_info("b").unwrap().priority, 0);
    let list = m.get_dispatch_list();
    assert_eq!(list[0].priority, 4);
    assert!(list[0].block_enabled);
}

#[test]
fn registering_all_replaces_handles_by_name() {
    let mut m = PluginManager::new();
    m.register_handle(handle_of("a", 1, true));
    m.register_handle(handle_of("c", 2, true));
    let entries = vec![PluginEntry { name: "b".to_string(), priority: 8, block_enabled: true }];
    m.register_all(vec![], vec![handle_of("a", 5, true), handle_of("b", 0, true)], &entries);
    let list = m.get_dispatch_list();
    let got: Vec<(&str, i32, bool)> = list.iter().map(|e| (e.name.as_str(), e.priority, e.block_enabled)).collect();
    assert_eq!(got, vec![("b", 8, true), ("a", 5, false), ("c", 2, false)]);
}

#[test]
fn unsubscribing() {
    let h = handle_of("a", 0, true);
    let subs = h.unsubscribe_all();
    assert_eq!(subs, vec![("luo9_message".to_string(), 1), ("luo9_notice".to_string(), 2)]);
}

#[test]
fn loader_decisions() {
    let loader = PluginLoader::new("plugins");
    assert_eq!(loader.plugin_dir, "plugins");
    assert_eq!(extension("libx.so"), Some("so".to_string()));
    assert_eq!(extension(".hidden"), None);
    assert_eq!(extension("noext"), None);
    assert_eq!(extension("a.tar.gz"), Some("gz".to_string()));
    assert_eq!(plugin_kind("x.dll"), PluginKind::Native);
    assert_eq!(plugin_kind("x.py"), PluginKind::Python);
    assert_eq!(plugin_kind("x.jar"), PluginKind::Jvm);
    assert_eq!(plugin_kind("x.js"), PluginKind::QuickJs);
    assert_eq!(plugin_kind("x.txt"), PluginKind::Unsupported);
    let none = RuntimeSupport { python: false, java: false, quickjs: false };
    assert!(is_plugin_file("libx.so", true, none));
    assert!(!is_plugin_file("libx.so", false, none));
    assert!(!is_plugin_file("x.py", true, none));
    assert!(is_plugin_file("x.py", true, RuntimeSupport { python: true, java: false, quickjs: false }));
    assert_eq!(extract_display_name("libdoro.so"), "doro");
    assert_eq!(extract_display_name("doro.dll"), "doro");
    assert_eq!(extract_display_name("libdoro.dylib"), "doro.dylib");
    assert_eq!(script_name("bot.py", ".py"), "bot");
    let i = make_info("x.txt", "plugins/x.txt", 3, false);
    assert_eq!(i.name, "x.txt");
    assert_eq!(i.path, Some("plugins/x.txt".to_string()));
    assert!(!i.active);
    let i = native_info("libdoro.so", "plugins/libdoro.so", 1, true);
    assert_eq!(i.name, "doro");
    assert!(i.active && i.enabled);
    assert_eq!(
        subscriber_topics(),
        vec!["luo9_message", "luo9_notice", "luo9_meta_event", "luo9_request", "luo9_task", "luo9_send"]
    );
    let subs = collect_subscriptions(vec![
        ("luo9_message".to_string(), Some(3)),
        ("luo9_notice".to_string(), None),
        ("luo9_task".to_string(), Some(4)),
    ]);
    assert_eq!(subs, vec![("luo9_message".to_string(), 3), ("luo9_task".to_string(), 4)]);
}

#[test]
fn version_replies() {
    let r = obj(vec![("action", text("response")), ("name", text("doro")), ("version", text("1.2"))]);
    assert_eq!(version_reply(&r), Some(("doro".to_string(), "1.2".to_string())));
    let r = obj(vec![("action", text("response")), ("name", text("doro"))]);
    assert_eq!(version_reply(&r), Some(("doro".to_string(), "Unknown".to_string())));
    let r = obj(vec![("action", text("response")), ("name", text(""))]);
    assert_eq!(version_reply(&r), None);
    let r = obj(vec![("action", text("query"))]);
    assert_eq!(version_reply(&r), None);
}

#[test]
fn dispatch_list() {
    let mut m = PluginManager::new();
    m.register_handle(handle_of("a", 1, true));
    let mut list = DispatchList::new();
    assert_eq!(list.len(), 0);
    update_dispatch_list(&mut list, m.get_dispatch_list());
    assert_eq!(list.len(), 1);
    assert_eq!(list.subscribed_to(EventKind::Message), vec!["a".to_string()]);
    assert!(list.subscribed_to(EventKind::MetaEvent).is_empty());
    let d = dispatch_notice(Notice::new(obj(vec![])));
    assert_eq!(d.topic(), "luo9_notice");
    let d = dispatch_meta_event(MetaEvent::new(obj(vec![])));
    assert!(matches!(d, PluginData::MetaEvent(_)));
}

#[test]
fn task_requests() {
    let req = obj(vec![
        ("action", text("schedule")),
        ("task_name", text("daily")),
        ("cron", text("0 0 8 * * ?")),
        ("payload", text("p")),
    ]);
    let task = match handle_task(&req) {
        TaskRequest::Schedule(t) => t,
        _ => panic!("a valid schedule request"),
    };
    assert_eq!(task.name, "daily");
    assert_eq!(task.cron_str(), "0 0 8 * * ?");
    assert_eq!(task.payload, "p");
    let req = obj(vec![("action", text("schedule")), ("cron", text("bad"))]);
    assert!(matches!(handle_task(&req), TaskRequest::InvalidCron(c) if c == "bad"));
    let req = obj(vec![("action", text("schedule")), ("cron", text("* * * * * *"))]);
    assert!(matches!(handle_task(&req), TaskRequest::Schedule(t) if t.name == "unnamed"));
    assert!(matches!(handle_task(&obj(vec![("action", text("cancel"))])), TaskRequest::MissingName));
    assert!(matches!(handle_task(&obj(vec![("action", text("cancel")), ("task_name", text("x"))])), TaskRequest::Cancel(n) if n == "x"));
    assert!(matches!(handle_task(&obj(vec![("action", text("tick"))])), TaskRequest::Tick));
    assert!(matches!(handle_task(&obj(vec![])), TaskRequest::UnknownAction(a) if a == "unknown"));
}

fn schedule(name: &str, cron: &str) -> luo9_bot::scheduler::ScheduledTask {
    match handle_task(&obj(vec![
        ("action", text("schedule")),
        ("task_name", text(name)),
        ("cron", text(cron)),
        ("payload", text(name)),
    ])) {
        TaskRequest::Schedule(t) => t,
        _ => panic!("a valid schedule request"),
    }
}

#[test]
fn scheduling_and_cancelling() {
    let mut s = Scheduler::new();
    s.add(schedule("every", "* * * * * *"));
    s.add(schedule("eight", "0 0 8 * * ?"));
    s.add(schedule("every", "0 * * * * *"));
    assert_eq!(s.len(), 3);
    let due = s.due(0, 0, 8, 1, 1, 1, 2024);
    assert_eq!(due, vec![
        ("every".to_string(), "every".to_string()),
        ("eight".to_string(), "eight".to_string()),
        ("every".to_string(), "every".to_string()),
    ]);
    assert_eq!(s.due(5, 0, 9, 1, 1, 1, 2024).len(), 1);
    assert!(s.cancel("every"));
    assert_eq!(s.len(), 1);
    assert!(!s.cancel("every"));
    assert_eq!(s.due(0, 0, 8, 1, 1, 1, 2024), vec![("eight".to_string(), "eight".to_string())]);
}

#[test]
fn tick_events() {
    match tick_event("t", "p") {
        JsonValue::Object(m) => {
            assert_eq!(m.len(), 3);
            assert_eq!(m[0].0, "event");
            assert!(matches!(&m[0].1, JsonValue::Str(s) if s == "tick"));
            assert!(matches!(&m[1].1, JsonValue::Str(s) if s == "t"));
            assert!(matches!(&m[2].1, JsonValue::Str(s) if s == "p"));
        }
        _ => panic!("an object"),
    }
}

#[test]
fn send_requests() {
    let r = obj(vec![("action", obj(vec![("send_group_msg", obj(vec![("group_id", num(5)), ("message", text("hi"))]))]))]);
    match read_send_request(&r) {
        Some(SendAction::SendGroupMsg { group_id, message }) => {
            assert_eq!(group_id, 5);
            assert_eq!(message, "hi");
        }
        _ => panic!("a group message"),
    }
    let r = obj(vec![("action", obj(vec![("delete_msg", obj(vec![("message_id", num(9))]))]))]);
    assert!(matches!(read_send_request(&r), Some(SendAction::DeleteMsg { message_id: 9 })));
    let r = obj(vec![("action", obj(vec![("set_msg_emoji_like", obj(vec![("message_id", num(1)), ("emoji_id", num(2))]))]))]);
    assert!(matches!(read_send_request(&r), Some(SendAction::SetMsgEmojiLike { message_id: 1, emoji_id: 2 })));
    let r = obj(vec![("action", obj(vec![("send_private_msg", obj(vec![("user_id", num(5))]))]))]);
    assert!(read_send_request(&r).is_none());
    let r = obj(vec![("action", obj(vec![("reboot", obj(vec![]))]))]);
    assert!(read_send_request(&r).is_none());
}

#[test]
fn send_requests_listing_fields_in_order() {
    let r = obj(vec![("action", obj(vec![("send_private_msg", JsonValue::Array(vec![num(7), text("yo")]))]))]);
    match read_send_request(&r) {
        Some(SendAction::SendPrivateMsg { user_id, message }) => {
            assert_eq!(user_id, 7);
            assert_eq!(message, "yo");
        }
        _ => panic!("a private message"),
    }
    let r = obj(vec![("action", obj(vec![("delete_msg", JsonValue::Array(vec![num(4)]))]))]);
    assert!(matches!(read_send_request(&r), Some(SendAction::DeleteMsg { message_id: 4 })));
    let r = obj(vec![("action", obj(vec![("delete_msg", JsonValue::Array(vec![num(4), num(5)]))]))]);
    assert!(read_send_request(&r).is_none());
    let r = obj(vec![("action", obj(vec![("set_msg_emoji_like", JsonValue::Array(vec![num(1)]))]))]);
    assert!(read_send_request(&r).is_none());
    let r = obj(vec![("action", obj(vec![("delete_msg", text("4"))]))]);
    assert!(read_send_request(&r).is_none());
}

#[test]
fn receipts() {
    let resp = obj(vec![("data", obj(vec![("message_id", text("77"))]))]);
    assert_eq!(extract_message_id(&resp), Some(77));
    let resp2 = obj(vec![("data", obj(vec![("message_id", num(78))]))]);
    assert_eq!(extract_message_id(&resp2), Some(78));
    assert_eq!(extract_message_id(&obj(vec![("status", text("ok"))])), None);
    let r = sent_receipt(None, 3, "hello", &resp, 1000).unwrap();
    match r {
        JsonValue::Object(outer) => {
            assert_eq!(outer[0].0, "Sent");
            match &outer[0].1 {
                JsonValue::Object(inner) => {
                    assert!(matches!(inner[0].1, JsonValue::Null));
                    assert!(matches!(inner[2].1, JsonValue::Number(JsonNumber::PosInt(77))));
                    assert!(matches!(inner[4].1, JsonValue::Number(JsonNumber::PosInt(1000))));
                }
                _ => panic!("an inner object"),
            }
        }
        _ => panic!("an object"),
    }
    assert!(sent_receipt(Some(1), 3, "x", &obj(vec![]), 0).is_none());
}
