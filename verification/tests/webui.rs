use luo9_bot::webui::{
    authorize, build_mirrored_urls, cookie_token, disabled_file_name, enabled_file_name, extract_plugin_name, extract_plugin_name_on,
    extract_query_param, find_disabled_file, find_enabled_file, is_library_file, is_mirror,
    platform_key, scan_plugin_files, url_host, AuthDecision, GITHUB_RAW_MIRRORS,
    GITHUB_RELEASE_MIRRORS, REGISTRY_URL,
};

#[test]
fn test_build_mirrored_urls_registry() {
    let urls = build_mirrored_urls(REGISTRY_URL, &GITHUB_RAW_MIRRORS);
    assert_eq!(urls.len(), 1 + GITHUB_RAW_MIRRORS.len());
    assert_eq!(urls[0], REGISTRY_URL);
    assert!(urls[1].starts_with("https://ghfast.top/"));
    assert!(urls[1].ends_with("registry.json"));
    assert!(urls[2].starts_with("https://ghproxy.cn/"));
    assert!(urls[3].starts_with("https://raw.gitmirror.com/"));
}

#[test]
fn test_build_mirrored_urls_release() {
    let primary = "https://github.com/luo9-bot/plugin/releases/download/v1.0/plugin.dll";
    let urls = build_mirrored_urls(primary, &GITHUB_RELEASE_MIRRORS);
    assert_eq!(urls.len(), 1 + GITHUB_RELEASE_MIRRORS.len());
    assert_eq!(urls[0], primary);
    assert_eq!(
        urls[1],
        "https://ghfast.top/https://github.com/luo9-bot/plugin/releases/download/v1.0/plugin.dll"
    );
}

#[test]
fn test_build_mirrored_urls_empty_mirrors() {
    let urls = build_mirrored_urls("https://example.com/file.json", &[]);
    assert_eq!(urls.len(), 1);
    assert_eq!(urls[0], "https://example.com/file.json");
}

#[test]
fn test_extract_plugin_name_dll() {
    assert_eq!(extract_plugin_name_on("plugin_doro.dll", true), Some("plugin_doro".to_string()));
    assert_eq!(extract_plugin_name_on("my_plugin.dll", true), Some("my_plugin".to_string()));
}

#[test]
fn test_extract_plugin_name_disabled_dll() {
    assert_eq!(
        extract_plugin_name_on("plugin_doro.dll.disabled", true),
        Some("plugin_doro".to_string())
    );
}

#[test]
fn test_extract_plugin_name_so() {
    assert_eq!(extract_plugin_name("libplugin_doro.so"), Some("plugin_doro".to_string()));
    assert_eq!(extract_plugin_name("libmy_plugin.so"), Some("my_plugin".to_string()));
    assert_eq!(extract_plugin_name("plugin_doro.so"), Some("plugin_doro".to_string()));
}

#[test]
fn test_extract_plugin_name_unknown() {
    assert_eq!(extract_plugin_name("readme.txt"), None);
    assert_eq!(extract_plugin_name("config.toml"), None);
}

#[test]
fn test_registry_url_is_valid() {
    assert!(REGISTRY_URL.starts_with("https://"));
    assert!(REGISTRY_URL.contains("raw.githubusercontent.com"));
    assert!(REGISTRY_URL.ends_with(".json"));
}

#[test]
fn test_mirror_urls_all_https() {
    for mirror in GITHUB_RAW_MIRRORS {
        assert!(mirror.starts_with("https://"), "镜像必须使用 HTTPS: {mirror}");
        assert!(mirror.ends_with('/'), "镜像前缀必须以 / 结尾: {mirror}");
    }
    for mirror in GITHUB_RELEASE_MIRRORS {
        assert!(mirror.starts_with("https://"), "镜像必须使用 HTTPS: {mirror}");
        assert!(mirror.ends_with('/'), "镜像前缀必须以 / 结尾: {mirror}");
    }
}

#[test]
fn so_names_are_not_plugins_on_windows() {
    assert_eq!(extract_plugin_name_on("libplugin_doro.so", true), None);
    assert_eq!(extract_plugin_name_on("plugin_doro.dll", false), None);
    assert_eq!(
        extract_plugin_name_on("libplugin_doro.so.disabled", false),
        Some("plugin_doro".to_string())
    );
    assert_eq!(
        extract_plugin_name_on("libx.so.disabled.disabled", false),
        Some("x".to_string())
    );
    assert_eq!(extract_plugin_name_on("x.so.so", false), Some("x".to_string()));
}

#[test]
fn platform_keys() {
    assert_eq!(platform_key("linux", "x86_64"), "linux-x86_64");
    assert_eq!(platform_key("windows", "aarch64"), "windows-aarch64");
    assert_eq!(platform_key("freebsd", "riscv64"), "macos-unknown");
}

#[test]
fn query_params() {
    assert_eq!(extract_query_param("a=1&token=abc&b=2", "token"), Some("abc".to_string()));
    assert_eq!(extract_query_param("token=x&token=y", "token"), Some("x".to_string()));
    assert_eq!(extract_query_param("token&token=z", "token"), Some("z".to_string()));
    assert_eq!(extract_query_param("t=1", "token"), None);
    assert_eq!(extract_query_param("token=a=b", "token"), Some("a=b".to_string()));
    assert_eq!(extract_query_param("", "token"), None);
}

#[test]
fn cookie_tokens() {
    assert_eq!(cookie_token("a=1; luo9_token=secret; b=2"), Some("secret".to_string()));
    assert_eq!(cookie_token("luo9_token=luo9_token=x"), Some("x".to_string()));
    assert_eq!(cookie_token("other=1"), None);
    assert_eq!(cookie_token("  luo9_token=t  "), Some("t".to_string()));
}

#[test]
fn authorization() {
    match authorize(Some("token=abc"), None, "abc") {
        AuthDecision::Allowed { set_cookie } => {
            assert_eq!(
                set_cookie,
                Some("luo9_token=abc; Path=/; HttpOnly; SameSite=Strict".to_string())
            );
        }
        AuthDecision::Unauthorized => panic!("a right query token is let in"),
    }
    match authorize(None, Some("luo9_token=abc"), "abc") {
        AuthDecision::Allowed { set_cookie } => assert_eq!(set_cookie, None),
        AuthDecision::Unauthorized => panic!("a right cookie token is let in"),
    }
    assert!(matches!(authorize(Some("token=bad"), Some("luo9_token=abc"), "abc"), AuthDecision::Unauthorized));
    assert!(matches!(authorize(None, None, "abc"), AuthDecision::Unauthorized));
    assert!(matches!(authorize(Some("x=1"), Some("luo9_token=nope"), "abc"), AuthDecision::Unauthorized));
}

#[test]
fn mirrors_and_hosts() {
    assert!(is_mirror("https://ghfast.top/https://github.com/a"));
    assert!(!is_mirror("https://github.com/a"));
    assert_eq!(url_host("https://ghproxy.cn/https://github.com/x"), "ghproxy.cn");
    assert_eq!(url_host("nohost"), "...");
}

#[test]
fn library_uploads() {
    assert!(is_library_file("plugin.DLL"));
    assert!(is_library_file("libx.So"));
    assert!(!is_library_file("readme.txt"));
    assert!(!is_library_file("so"));
}

#[test]
fn scanning_and_finding() {
    let names = vec![
        "libalpha.so".to_string(),
        "readme.md".to_string(),
        "libbeta.so.disabled".to_string(),
    ];
    let files = scan_plugin_files(&names, false);
    assert_eq!(files.len(), 2);
    assert_eq!(files[0].name, "alpha");
    assert!(files[0].enabled);
    assert_eq!(files[1].name, "beta");
    assert!(!files[1].enabled);
    assert_eq!(files[1].file, "libbeta.so.disabled");
    assert_eq!(find_enabled_file(&names, "alpha", false), Some(0));
    assert_eq!(find_enabled_file(&names, "beta", false), None);
    assert_eq!(find_disabled_file(&names, "beta", false), Some(2));
    assert_eq!(find_disabled_file(&names, "alpha", false), None);
}

#[test]
fn enabling_undoes_disabling() {
    assert_eq!(disabled_file_name("weather.dll"), "weather.dll.disabled");
    assert_eq!(enabled_file_name(&disabled_file_name("weather.dll")), "weather.dll");
    assert_eq!(enabled_file_name("libx.so.disabled.disabled"), "libx.so");
    assert_eq!(enabled_file_name("plain.py"), "plain.py");
}

#[test]
fn test_detect_platform_format() {
    for (os, arch) in [("windows", "x86_64"), ("linux", "aarch64"), ("macos", "x86_64"), ("freebsd", "riscv64")] {
        let platform = platform_key(os, arch);
        let parts: Vec<&str> = platform.split('-').collect();
        assert_eq!(parts.len(), 2, "平台格式应为 os-arch");
        assert!(["windows", "linux", "macos"].contains(&parts[0]), "未知操作系统: {}", parts[0]);
        assert!(["x86_64", "aarch64", "unknown"].contains(&parts[1]), "未知架构: {}", parts[1]);
    }
}

#[test]
fn test_detect_platform_current() {
    assert!(platform_key("windows", "x86_64").starts_with("windows"));
    assert!(platform_key("linux", "x86_64").starts_with("linux"));
    assert!(platform_key("macos", "aarch64").starts_with("macos"));
}
