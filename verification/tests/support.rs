use luo9_bot::config::{
    choose_config_path, default_auto_load, default_enabled, default_plugin_dir,
    default_webui_enabled, default_webui_host, default_webui_port, ConfigUpdate, LNConfig,
    LoggingConfig, LoggingUpdate, NapcatConfig, NapcatUpdate, PluginConfig, PluginEntry,
    WebuiConfig, WebuiUpdate,
};
use luo9_bot::logger::{get_logs, logs_after, push_log, strip_ansi, LogBuffer, MAX_LOG_LINES};
use luo9_bot::registry::{
    available_plugins, plan_install, Fallback, FallbackStep, Registry, RegistryPlugin,
    RegistryVersion,
};
use luo9_bot::webui::{json_err, json_ok, with_runtime_info, PluginFile};
use luo9_bot::manager::{PluginInfo, PluginManager};

fn config() -> LNConfig {
    LNConfig {
        napcat: NapcatConfig {
            ws_client_host: "127.0.0.1".to_string(),
            ws_client_port: 3001,
            ws_server_host: "localhost".to_string(),
            ws_server_port: 3002,
            timeout_seconds: 30,
            token: "t".to_string(),
        },
        logging: LoggingConfig { level: "info".to_string() },
        plugins: PluginConfig::default(),
        webui: WebuiConfig::default(),
    }
}

#[test]
fn defaults() {
    assert!(default_webui_enabled());
    assert_eq!(default_webui_host(), "0.0.0.0");
    assert_eq!(default_webui_port(), 27080);
    assert!(!default_enabled());
    assert_eq!(default_plugin_dir(), "plugins");
    assert!(default_auto_load());
    let p = PluginConfig::default();
    assert!(!p.enabled && p.auto_load && p.plugins.is_empty());
    let w = WebuiConfig::default();
    assert!(w.enabled);
    assert_eq!(w.port, 27080);
    assert_eq!(w.token, "");
}

#[test]
fn urls() {
    let c = config();
    assert_eq!(c.receiver_url(), "ws://127.0.0.1:3001");
    assert_eq!(c.sender_url(), "ws://localhost:3002");
}

#[test]
fn config_paths() {
    assert_eq!(choose_config_path(Some("/etc/x.toml".to_string()), Some("/h".to_string())), "/etc/x.toml");
    assert_eq!(choose_config_path(None, Some("/home/u/.luo9/config/default.toml".to_string())), "/home/u/.luo9/config/default.toml");
    assert_eq!(choose_config_path(None, None), "config/default.toml");
}

#[test]
fn plugin_entries() {
    let mut c = config();
    c.upsert_plugin_entry(PluginEntry { name: "a".to_string(), priority: 1, block_enabled: false });
    c.upsert_plugin_entry(PluginEntry { name: "b".to_string(), priority: 2, block_enabled: true });
    c.upsert_plugin_entry(PluginEntry { name: "a".to_string(), priority: 5, block_enabled: true });
    assert_eq!(c.plugins.plugins.len(), 2);
    let a = c.get_plugin_entry("a").unwrap();
    assert_eq!(a.priority, 5);
    assert!(a.block_enabled);
    assert!(c.get_plugin_entry("zz").is_none());
}

#[test]
fn partial_updates() {
    let mut c = config();
    c.apply_update(ConfigUpdate {
        napcat: Some(NapcatUpdate {
            ws_client_host: None,
            ws_client_port: Some(4000),
            ws_server_host: None,
            ws_server_port: None,
            timeout_seconds: None,
            token: Some("new".to_string()),
        }),
        logging: Some(LoggingUpdate { level: Some("debug".to_string()) }),
        plugins: None,
        webui: Some(WebuiUpdate { host: None, port: Some(8080), token: None }),
    });
    assert_eq!(c.napcat.ws_client_port, 4000);
    assert_eq!(c.napcat.ws_client_host, "127.0.0.1");
    assert_eq!(c.napcat.token, "new");
    assert_eq!(c.logging.level, "debug");
    assert_eq!(c.plugins.plugin_dir, "plugins");
    assert_eq!(c.webui.port, 8080);
    assert_eq!(c.webui.host, "0.0.0.0");
}

#[test]
fn log_buffer_keeps_the_latest_lines() {
    let mut b = LogBuffer::new();
    for i in 0..(MAX_LOG_LINES + 5) {
        push_log(&mut b, format!("line {i}"));
    }
    assert_eq!(b.len(), MAX_LOG_LINES);
    let logs = get_logs(&b);
    assert_eq!(logs.len(), 500);
    assert_eq!(logs[0], "line 5");
    assert_eq!(logs[499], "line 504");
}

#[test]
fn log_slices() {
    let all = vec!["a".to_string(), "b".to_string(), "c".to_string()];
    let (lines, total) = logs_after(all.clone(), Some(1));
    assert_eq!(lines, vec!["b".to_string(), "c".to_string()]);
    assert_eq!(total, 3);
    let (lines, total) = logs_after(all.clone(), Some(3));
    assert!(lines.is_empty());
    assert_eq!(total, 3);
    let (lines, _) = logs_after(all, None);
    assert_eq!(lines.len(), 3);
}

#[test]
fn ansi_codes_are_stripped() {
    assert_eq!(strip_ansi("\x1b[32mINFO\x1b[0m ready"), "INFO ready");
    assert_eq!(strip_ansi("plain"), "plain");
    assert_eq!(strip_ansi("cut \x1b[31"), "cut ");
}

fn registry() -> Registry {
    Registry {
        plugins: vec![
            (
                "zeta".to_string(),
                RegistryPlugin {
                    description: "z".to_string(),
                    repo: "luo9-bot/zeta".to_string(),
                    tags: vec![],
                    versions: vec![],
                },
            ),
            (
                "alpha".to_string(),
                RegistryPlugin {
                    description: "a".to_string(),
                    repo: "luo9-bot/alpha".to_string(),
                    tags: vec!["tool".to_string()],
                    versions: vec![
                        RegistryVersion {
                            version: "2.0.0".to_string(),
                            tag: "v2.0.0".to_string(),
                            sdk_version: "0.7.0".to_string(),
                            assets: vec![("linux-x86_64".to_string(), "libalpha.so".to_string())],
                        },
                        RegistryVersion {
                            version: "1.0.0".to_string(),
                            tag: "v1.0.0".to_string(),
                            sdk_version: "0.6.0".to_string(),
                            assets: vec![("windows-x86_64".to_string(), "alpha.dll".to_string())],
                        },
                    ],
                },
            ),
        ],
    }
}

#[test]
fn install_plans() {
    let reg = registry();
    let plan = plan_install(&reg, "alpha", None, "linux-x86_64").unwrap();
    assert_eq!(plan.version, "2.0.0");
    assert_eq!(plan.asset_name, "libalpha.so");
    assert_eq!(plan.primary_url, "https://github.com/luo9-bot/alpha/releases/download/v2.0.0/libalpha.so");
    assert_eq!(plan.download_urls.len(), 4);
    assert_eq!(plan.download_urls[0], plan.primary_url);
    assert_eq!(plan.download_urls[1], format!("https://ghfast.top/{}", plan.primary_url));
    let plan = plan_install(&reg, "alpha", Some("1.0.0"), "windows-x86_64").unwrap();
    assert_eq!(plan.asset_name, "alpha.dll");
    assert_eq!(plan_install(&reg, "beta", None, "x").err(), Some((404, "插件 beta 不在注册表中".to_string())));
    assert_eq!(plan_install(&reg, "alpha", Some("3.0"), "x").err(), Some((404, "插件 alpha 没有版本 3.0".to_string())));
    assert_eq!(plan_install(&reg, "zeta", None, "x").err(), Some((404, "插件 zeta 没有可用版本".to_string())));
    assert_eq!(
        plan_install(&reg, "alpha", None, "macos-aarch64").err(),
        Some((400, "插件 alpha v2.0.0 不支持当前平台 macos-aarch64".to_string()))
    );
}

#[test]
fn catalogue() {
    let files = vec![PluginFile {
        name: "alpha".to_string(),
        file: "libalpha.so".to_string(),
        enabled: true,
        priority: 0,
        block_enabled: false,
        active: false,
    }];
    let list = available_plugins(registry(), &files);
    assert_eq!(list.len(), 2);
    assert_eq!(list[0].name, "alpha");
    assert_eq!(list[1].name, "zeta");
    assert!(list[0].installed);
    assert_eq!(list[0].installed_version, Some("libalpha.so".to_string()));
    assert_eq!(list[0].latest_version, "2.0.0");
    assert_eq!(list[0].sdk_version, "0.7.0");
    assert!(!list[1].installed);
    assert_eq!(list[1].latest_version, "");
}

#[test]
fn fallbacks() {
    let (mut f, step) = Fallback::start::<String>(vec!["a".to_string(), "b".to_string()]);
    assert!(matches!(step, FallbackStep::Try(ref u) if u == "a"));
    let step: FallbackStep<String> = f.on_outcome(Err("down".to_string()));
    assert!(matches!(step, FallbackStep::Try(ref u) if u == "b"));
    let step = f.on_outcome(Ok("body".to_string()));
    assert!(matches!(step, FallbackStep::Done(Ok(ref b)) if b == "body"));
    let (mut f, _) = Fallback::start::<String>(vec!["a".to_string()]);
    let step: FallbackStep<String> = f.on_outcome(Err("last".to_string()));
    assert!(matches!(step, FallbackStep::Done(Err(ref e)) if e == "last"));
    let (_, step) = Fallback::start::<String>(vec![]);
    assert!(matches!(step, FallbackStep::Done(Err(ref e)) if e.is_empty()));
}

#[test]
fn answers() {
    let (status, body) = json_ok("done");
    assert_eq!(status, 200);
    assert!(body.ok);
    assert_eq!(body.message, "done");
    let (status, body) = json_err(404, "missing");
    assert_eq!(status, 404);
    assert!(!body.ok);
}

#[test]
fn runtime_info_is_merged() {
    let mut m = PluginManager::new();
    m.register_plugin(PluginInfo {
        id: 0,
        name: "alpha".to_string(),
        version: "1".to_string(),
        enabled: true,
        path: None,
        priority: 3,
        block_enabled: true,
        active: true,
    });
    let files = vec![
        PluginFile { name: "alpha".to_string(), file: "libalpha.so".to_string(), enabled: true, priority: 0, block_enabled: false, active: false },
        PluginFile { name: "beta".to_string(), file: "libbeta.so".to_string(), enabled: false, priority: 0, block_enabled: false, active: false },
    ];
    let merged = with_runtime_info(files, &m);
    assert_eq!(merged[0].priority, 3);
    assert!(merged[0].block_enabled && merged[0].active);
    assert_eq!(merged[1].priority, 0);
    assert!(!merged[1].active);
}
