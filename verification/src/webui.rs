//! The web UI's decisions: where plugins are downloaded from, which files
//! are plugins, who is let in, and what an install needs.
use vstd::prelude::*;
use crate::text::{
    chars_of, ends_with_chars, has_prefix, has_suffix, split_char, split_on, split_once_char,
    split_once_on, starts_with_chars, str_eq, string_of, strip_prefix_chars, strip_prefix_or_keep,
    trim, trim_chars, trim_end_all, trim_end_chars, trim_start_all, trim_start_chars, concat3,
    push_str_text,
};

verus! {

/// Where the plugin registry is published.
pub const REGISTRY_URL: &'static str =
    "https://raw.githubusercontent.com/luo9-bot/registry/main/registry.json";

/// Mirror prefixes for GitHub raw files, tried after the original.
pub const GITHUB_RAW_MIRRORS: [&'static str; 3] = [
    "https://ghfast.top/",
    "https://ghproxy.cn/",
    "https://raw.gitmirror.com/",
];

/// Mirror prefixes for GitHub release downloads, tried after the original.
pub const GITHUB_RELEASE_MIRRORS: [&'static str; 3] = [
    "https://ghfast.top/",
    "https://ghproxy.cn/",
    "https://mirror.ghproxy.com/",
];

/// How long one HTTP request may take, in seconds.
pub const HTTP_TIMEOUT_SECS: u64 = 15;

// ───────────────────────── download addresses ─────────────────────────

/// The addresses to try for `original`: the original first, then each
/// mirror prefix followed by the original.
pub open spec fn mirrored_urls(original: Seq<char>, mirrors: Seq<Seq<char>>) -> Seq<Seq<char>> {
    seq![original] + mirrors.map_values(|m: Seq<char>| m + original)
}

/// The plain views of texts.
pub open spec fn str_views(s: Seq<&str>) -> Seq<Seq<char>> {
    s.map_values(|x: &str| x@)
}

/// The plain views of strings.
pub open spec fn string_views(s: Seq<String>) -> Seq<Seq<char>> {
    s.map_values(|x: String| x@)
}

/// The addresses to try for `original`, the original first.
pub fn build_mirrored_urls(original: &str, mirrors: &[&str]) -> (r: Vec<String>)
    ensures
        string_views(r@) == mirrored_urls(original@, str_views(mirrors@)),
{
    let mut urls: Vec<String> = Vec::new();
    urls.push(original.to_owned());
    let mut i: usize = 0;
    while i < mirrors.len()
        invariant
            i <= mirrors@.len(),
            string_views(urls@) == seq![original@] + str_views(mirrors@).take(i as int).map_values(
                |m: Seq<char>| m + original@,
            ),
        decreases mirrors.len() - i,
    {
        let ghost before = urls@;
        let mut u = String::new();
        push_str_text(&mut u, mirrors[i]);
        push_str_text(&mut u, original);
        urls.push(u);
        assert(str_views(mirrors@).take(i + 1) =~= str_views(mirrors@).take(i as int).push(
            mirrors@[i as int]@,
        ));
        let ghost m = mirrors@[i as int]@;
        assert(string_views(urls@) =~= string_views(before).push(m + original@));
        assert(str_views(mirrors@).take(i + 1).map_values(|m: Seq<char>| m + original@)
            =~= str_views(mirrors@).take(i as int).map_values(|m: Seq<char>| m + original@).push(
            m + original@,
        ));
        assert(string_views(urls@) =~= seq![original@] + str_views(mirrors@).take(i + 1).map_values(
            |m: Seq<char>| m + original@,
        ));
        i = i + 1;
    }
    assert(str_views(mirrors@).take(i as int) =~= str_views(mirrors@));
    urls
}

/// Whether an address goes through one of the known mirrors.
pub open spec fn is_mirror_url(url: Seq<char>) -> bool {
    ||| contains_text(url, "ghfast.top"@)
    ||| contains_text(url, "ghproxy.cn"@)
    ||| contains_text(url, "gitmirror.com"@)
    ||| contains_text(url, "mirror.ghproxy.com"@)
}

/// Whether `needle` occurs in `s`.
pub open spec fn contains_text(s: Seq<char>, needle: Seq<char>) -> bool {
    exists|i: int| 0 <= i <= s.len() - needle.len() && #[trigger] s.subrange(i, i + needle.len())
        == needle
}

/// Whether `needle` occurs in `cs`.
pub fn contains_chars(cs: &[char], needle: &[char]) -> (r: bool)
    ensures
        r == contains_text(cs@, needle@),
{
    if needle.len() > cs.len() {
        return false;
    }
    let limit = cs.len() - needle.len();
    let mut i: usize = 0;
    loop
        invariant
            needle.len() <= cs.len(),
            limit == cs.len() - needle.len(),
            i <= limit,
            forall|j: int| 0 <= j < i ==> #[trigger] cs@.subrange(j, j + needle.len()) != needle@,
        decreases limit - i,
    {
        assert(cs@.skip(i as int).take(needle.len() as int) =~= cs@.subrange(
            i as int,
            i + needle.len(),
        ));
        if crate::text::starts_with_at(cs, i, needle) {
            return true;
        }
        if i == limit {
            return false;
        }
        i = i + 1;
    }
}

/// Whether an address goes through one of the known mirrors.
pub fn is_mirror(url: &str) -> (r: bool)
    ensures
        r == is_mirror_url(url@),
{
    let cs = chars_of(url);
    contains_chars(cs.as_slice(), chars_of("ghfast.top").as_slice()) || contains_chars(
        cs.as_slice(),
        chars_of("ghproxy.cn").as_slice(),
    ) || contains_chars(cs.as_slice(), chars_of("gitmirror.com").as_slice()) || contains_chars(
        cs.as_slice(),
        chars_of("mirror.ghproxy.com").as_slice(),
    )
}

/// The host of an address: its third `/`-separated piece, or `...`.
pub open spec fn url_host_spec(url: Seq<char>) -> Seq<char> {
    let parts = split_on(url, '/');
    if parts.len() > 2 {
        parts[2]
    } else {
        "..."@
    }
}

/// The host of an address: its third `/`-separated piece, or `...`.
pub fn url_host(url: &str) -> (r: String)
    ensures
        r@ == url_host_spec(url@),
{
    let parts = split_char(chars_of(url).as_slice(), '/');
    if parts.len() > 2 {
        string_of(parts[2].as_slice())
    } else {
        "...".to_owned()
    }
}

// ───────────────────────── platforms and file names ─────────────────────────

/// The registry's key for a platform: `<os>-<arch>`, with the operating
/// system read as `windows`, `linux` or (any other) `macos`, and the
/// architecture as `x86_64`, `aarch64` or `unknown`.
pub open spec fn platform_key_spec(os: Seq<char>, arch: Seq<char>) -> Seq<char> {
    let o = if os == "windows"@ {
        "windows"@
    } else if os == "linux"@ {
        "linux"@
    } else {
        "macos"@
    };
    let a = if arch == "x86_64"@ {
        "x86_64"@
    } else if arch == "aarch64"@ {
        "aarch64"@
    } else {
        "unknown"@
    };
    o + "-"@ + a
}

/// The registry's key for the platform with these `std::env::consts`
/// names.
pub fn platform_key(os: &str, arch: &str) -> (r: String)
    ensures
        r@ == platform_key_spec(os@, arch@),
{
    let o = if str_eq(os, "windows") {
        "windows"
    } else if str_eq(os, "linux") {
        "linux"
    } else {
        "macos"
    };
    let a = if str_eq(arch, "x86_64") {
        "x86_64"
    } else if str_eq(arch, "aarch64") {
        "aarch64"
    } else {
        "unknown"
    };
    concat3(o, "-", a)
}

/// The plugin name in a file name, if it is a plugin library of the
/// platform: `<name>.dll` on Windows, `[lib]<name>.so` elsewhere, either
/// possibly followed by `.disabled`.
pub open spec fn plugin_name_spec(file_name: Seq<char>, windows: bool) -> Option<Seq<char>> {
    let base = if has_suffix(file_name, ".disabled"@) {
        trim_end_all(file_name, ".disabled"@)
    } else {
        file_name
    };
    if windows {
        if has_suffix(base, ".dll"@) {
            Some(trim_end_all(base, ".dll"@))
        } else {
            None
        }
    } else if has_suffix(base, ".so"@) {
        Some(strip_prefix_or_keep(trim_end_all(base, ".so"@), "lib"@))
    } else {
        None
    }
}

/// The plugin name in a file name, for Windows (`windows`) or another
/// platform.
pub fn extract_plugin_name_on(file_name: &str, windows: bool) -> (r: Option<String>)
    ensures
        match r {
            Some(n) => plugin_name_spec(file_name@, windows) == Some(n@),
            None => plugin_name_spec(file_name@, windows) is None,
        },
{
    proof {
        reveal_strlit(".disabled");
        reveal_strlit(".dll");
        reveal_strlit(".so");
    }
    let cs = chars_of(file_name);
    let disabled = chars_of(".disabled");
    let base = if ends_with_chars(cs.as_slice(), disabled.as_slice()) {
        trim_end_chars(cs.as_slice(), disabled.as_slice())
    } else {
        cs
    };
    if windows {
        let dll = chars_of(".dll");
        if ends_with_chars(base.as_slice(), dll.as_slice()) {
            Some(string_of(trim_end_chars(base.as_slice(), dll.as_slice()).as_slice()))
        } else {
            None
        }
    } else {
        let so = chars_of(".so");
        if ends_with_chars(base.as_slice(), so.as_slice()) {
            let name = trim_end_chars(base.as_slice(), so.as_slice());
            Some(string_of(strip_prefix_chars(name.as_slice(), chars_of("lib").as_slice()).as_slice()))
        } else {
            None
        }
    }
}

/// `std::path::MAIN_SEPARATOR`: the path separator of the platform this
/// build targets. Nothing is claimed of it, since it depends on that
/// platform.
#[verifier::external_body]
fn main_separator() -> char {
    std::path::MAIN_SEPARATOR
}

/// The plugin name in a file name, for the platform this runs on.
pub fn extract_plugin_name(file_name: &str) -> (r: Option<String>)
    ensures
        exists|w: bool| match r {
            Some(n) => plugin_name_spec(file_name@, w) == Some(n@),
            None => plugin_name_spec(file_name@, w) is None,
        },
{
    let windows = main_separator() == '\\';
    extract_plugin_name_on(file_name, windows)
}

/// Whether an uploaded file is a plugin library: its name ends in `.dll` or
/// `.so`, in any case.
pub open spec fn is_library_name(name: Seq<char>) -> bool {
    ||| (name.len() >= 4 && lower_eq(name.skip(name.len() - 4), ".dll"@))
    ||| (name.len() >= 3 && lower_eq(name.skip(name.len() - 3), ".so"@))
}

/// Whether `s` lower-cases to the lower-case ASCII text `t`.
pub open spec fn lower_eq(s: Seq<char>, t: Seq<char>) -> bool {
    s.len() == t.len() && forall|i: int| 0 <= i < s.len() ==> (s[i] == t[i] || s[i] as int + 32
        == t[i] as int && 'a' <= t[i] <= 'z')
}

/// Whether `c` lower-cases to the ASCII character `t`.
fn lower_char_is(c: char, t: char) -> (r: bool)
    ensures
        r == (c == t || c as int + 32 == t as int && 'a' <= t <= 'z'),
{
    c == t || ('a' <= t && t <= 'z' && (c as u32) + 32 == (t as u32))
}

/// Whether the last characters of `cs` lower-case to `t`.
fn ends_with_lower(cs: &[char], t: &[char]) -> (r: bool)
    ensures
        r == (cs@.len() >= t@.len() && lower_eq(cs@.skip(cs@.len() - t@.len()), t@)),
{
    if cs.len() < t.len() {
        return false;
    }
    let off = cs.len() - t.len();
    let ghost tail = cs@.skip(off as int);
    let mut i: usize = 0;
    while i < t.len()
        invariant
            off + t.len() == cs.len(),
            tail == cs@.skip(off as int),
            i <= t.len(),
            forall|j: int| 0 <= j < i ==> (tail[j] == t@[j] || tail[j] as int + 32 == t@[j] as int
                && 'a' <= t@[j] <= 'z'),
        decreases t.len() - i,
    {
        if !lower_char_is(cs[off + i], t[i]) {
            return false;
        }
        i = i + 1;
    }
    true
}

/// Whether an uploaded file is a plugin library.
pub fn is_library_file(name: &str) -> (r: bool)
    ensures
        r == is_library_name(name@),
{
    proof {
        reveal_strlit(".dll");
        reveal_strlit(".so");
    }
    let cs = chars_of(name);
    ends_with_lower(cs.as_slice(), chars_of(".dll").as_slice()) || ends_with_lower(
        cs.as_slice(),
        chars_of(".so").as_slice(),
    )
}

/// A plugin file in the plugin directory.
pub struct PluginFile {
    pub name: String,
    pub file: String,
    pub enabled: bool,
    pub priority: i32,
    pub block_enabled: bool,
    pub active: bool,
}

/// The file name a disabled plugin is renamed to.
pub fn disabled_file_name(file_name: &str) -> (r: String)
    ensures
        r@ == file_name@ + ".disabled"@,
{
    let mut s = String::new();
    push_str_text(&mut s, file_name);
    push_str_text(&mut s, ".disabled");
    assert(s@ =~= file_name@ + ".disabled"@);
    s
}

/// The file name an enabled plugin gets back.
pub fn enabled_file_name(disabled_name: &str) -> (r: String)
    ensures
        r@ == trim_end_all(disabled_name@, ".disabled"@),
{
    proof {
        reveal_strlit(".disabled");
    }
    string_of(trim_end_chars(chars_of(disabled_name).as_slice(), chars_of(".disabled").as_slice()).as_slice())
}

/// Enabling a plugin gives back the file name it had before it was
/// disabled, for any name that does not itself end in `.disabled`.
pub proof fn law_enable_undoes_disable(file_name: Seq<char>)
    requires
        !has_suffix(file_name, ".disabled"@),
    ensures
        trim_end_all(file_name + ".disabled"@, ".disabled"@) == file_name,
{
    reveal_strlit(".disabled");
    let d = file_name + ".disabled"@;
    let k: int = 9;
    assert(".disabled"@.len() == k);
    assert(d.skip(d.len() - k) =~= ".disabled"@);
    assert(has_suffix(d, ".disabled"@));
    assert(d.take(d.len() - k) =~= file_name);
    assert(trim_end_all(d, ".disabled"@) == trim_end_all(file_name, ".disabled"@));
}

/// The plugin files among the directory's file names, in order.
pub open spec fn plugin_files_of(names: Seq<Seq<char>>, windows: bool) -> Seq<(Seq<char>, Seq<char>, bool)>
    decreases names.len(),
{
    if names.len() == 0 {
        Seq::empty()
    } else {
        let rest = plugin_files_of(names.drop_last(), windows);
        let f = names.last();
        match plugin_name_spec(f, windows) {
            Some(n) => rest.push((n, f, !has_suffix(f, ".disabled"@))),
            None => rest,
        }
    }
}

/// The plain view of a listing: name, file, enabled.
pub open spec fn file_views(s: Seq<PluginFile>) -> Seq<(Seq<char>, Seq<char>, bool)> {
    s.map_values(|p: PluginFile| (p.name@, p.file@, p.enabled))
}

/// The plugins among the directory's file names, with default dispatch
/// settings.
pub fn scan_plugin_files(names: &Vec<String>, windows: bool) -> (r: Vec<PluginFile>)
    ensures
        file_views(r@) == plugin_files_of(string_views(names@), windows),
        forall|i: int| 0 <= i < r@.len() ==> (#[trigger] r@[i]).priority == 0 && !r@[i].block_enabled
            && !r@[i].active,
{
    proof {
        reveal_strlit(".disabled");
    }
    let ghost all = string_views(names@);
    let mut out: Vec<PluginFile> = Vec::new();
    let mut i: usize = 0;
    assert(all.take(0) =~= Seq::<Seq<char>>::empty());
    assert(file_views(out@) =~= plugin_files_of(all.take(0), windows));
    while i < names.len()
        invariant
            i <= names@.len(),
            all == string_views(names@),
            file_views(out@) == plugin_files_of(all.take(i as int), windows),
            forall|k: int| 0 <= k < out@.len() ==> (#[trigger] out@[k]).priority == 0
                && !out@[k].block_enabled && !out@[k].active,
        decreases names.len() - i,
    {
        assert(all.take(i + 1).drop_last() =~= all.take(i as int));
        assert(all.take(i + 1).last() == names@[i as int]@);
        let ghost before = out@;
        match extract_plugin_name_on(names[i].as_str(), windows) {
            Some(n) => {
                let ghost nv = n@;
                let enabled = !ends_with_chars(chars_of(names[i].as_str()).as_slice(), chars_of(".disabled").as_slice());
                let f = PluginFile {
                    name: n,
                    file: names[i].clone(),
                    enabled,
                    priority: 0,
                    block_enabled: false,
                    active: false,
                };
                out.push(f);
                assert(file_views(out@) =~= file_views(before).push((nv, names@[i as int]@, enabled)));
            },
            None => {},
        }
        i = i + 1;
    }
    assert(all.take(i as int) =~= all);
    out
}

/// The position of the first file that is an enabled plugin called `name`.
pub open spec fn enabled_file_index(names: Seq<Seq<char>>, name: Seq<char>, windows: bool) -> Option<int>
    decreases names.len(),
{
    if names.len() == 0 {
        None
    } else if !has_suffix(names[0], ".disabled"@) && plugin_name_spec(names[0], windows) == Some(
        name,
    ) {
        Some(0)
    } else {
        match enabled_file_index(names.drop_first(), name, windows) {
            Some(i) => Some(i + 1),
            None => None,
        }
    }
}

/// The position of the first file that is a disabled plugin called `name`.
pub open spec fn disabled_file_index(names: Seq<Seq<char>>, name: Seq<char>, windows: bool) -> Option<int>
    decreases names.len(),
{
    if names.len() == 0 {
        None
    } else if has_suffix(names[0], ".disabled"@) && plugin_name_spec(
        trim_end_all(names[0], ".disabled"@),
        windows,
    ) == Some(name) {
        Some(0)
    } else {
        match disabled_file_index(names.drop_first(), name, windows) {
            Some(i) => Some(i + 1),
            None => None,
        }
    }
}

/// The first file that is an enabled plugin called `name`.
pub fn find_enabled_file(names: &Vec<String>, name: &str, windows: bool) -> (r: Option<usize>)
    ensures
        match r {
            Some(i) => i < names@.len() && enabled_file_index(string_views(names@), name@, windows)
                == Some(i as int),
            None => enabled_file_index(string_views(names@), name@, windows) is None,
        },
{
    proof {
        reveal_strlit(".disabled");
    }
    let ghost all = string_views(names@);
    let mut i: usize = 0;
    assert(all.skip(0) =~= all);
    while i < names.len()
        invariant
            i <= names@.len(),
            all == string_views(names@),
            enabled_file_index(all, name@, windows) == match enabled_file_index(all.skip(i as int), name@, windows) {
                Some(k) => Some(k + i),
                None => None,
            },
        decreases names.len() - i,
    {
        let ghost rest = all.skip(i as int);
        assert(rest[0] == names@[i as int]@);
        assert(rest.drop_first() =~= all.skip(i + 1));
        let disabled = ends_with_chars(chars_of(names[i].as_str()).as_slice(), chars_of(".disabled").as_slice());
        if !disabled {
            match extract_plugin_name_on(names[i].as_str(), windows) {
                Some(n) => {
                    if str_eq(n.as_str(), name) {
                        return Some(i);
                    }
                },
                None => {},
            }
        }
        i = i + 1;
    }
    assert(all.skip(i as int) =~= Seq::<Seq<char>>::empty());
    None
}

/// The first file that is a disabled plugin called `name`.
pub fn find_disabled_file(names: &Vec<String>, name: &str, windows: bool) -> (r: Option<usize>)
    ensures
        match r {
            Some(i) => i < names@.len() && disabled_file_index(string_views(names@), name@, windows)
                == Some(i as int),
            None => disabled_file_index(string_views(names@), name@, windows) is None,
        },
{
    proof {
        reveal_strlit(".disabled");
    }
    let ghost all = string_views(names@);
    let mut i: usize = 0;
    assert(all.skip(0) =~= all);
    while i < names.len()
        invariant
            i <= names@.len(),
            all == string_views(names@),
            disabled_file_index(all, name@, windows) == match disabled_file_index(all.skip(i as int), name@, windows) {
                Some(k) => Some(k + i),
                None => None,
            },
        decreases names.len() - i,
    {
        let ghost rest = all.skip(i as int);
        assert(rest[0] == names@[i as int]@);
        assert(rest.drop_first() =~= all.skip(i + 1));
        proof {
            reveal_strlit(".disabled");
        }
        let cs = chars_of(names[i].as_str());
        let sfx = chars_of(".disabled");
        if ends_with_chars(cs.as_slice(), sfx.as_slice()) {
            let base = string_of(trim_end_chars(cs.as_slice(), sfx.as_slice()).as_slice());
            match extract_plugin_name_on(base.as_str(), windows) {
                Some(n) => {
                    if str_eq(n.as_str(), name) {
                        return Some(i);
                    }
                },
                None => {},
            }
        }
        i = i + 1;
    }
    assert(all.skip(i as int) =~= Seq::<Seq<char>>::empty());
    None
}

/// Whether `after` is the listing `before` with the dispatch settings and
/// run state of the registered plugin of the same name, where there is one.
pub open spec fn with_info(before: PluginFile, after: PluginFile, infos: Seq<crate::manager::InfoView>) -> bool {
    &&& after.name@ == before.name@
    &&& after.file@ == before.file@
    &&& after.enabled == before.enabled
    &&& match crate::manager::info_index(infos, before.name@) {
        Some(k) => after.priority == infos[k].priority && after.block_enabled
            == infos[k].block_enabled && after.active == infos[k].active,
        None => after.priority == before.priority && after.block_enabled == before.block_enabled
            && after.active == before.active,
    }
}

/// The listing with each plugin's dispatch settings and run state filled in
/// from the registry of loaded plugins.
pub fn with_runtime_info(files: Vec<PluginFile>, manager: &crate::manager::PluginManager) -> (r: Vec<PluginFile>)
    ensures
        r@.len() == files@.len(),
        forall|i: int| 0 <= i < r@.len() ==> with_info(files@[i], #[trigger] r@[i], manager@.infos),
{
    let ghost all = files@;
    let mut files = files;
    let total = files.len();
    let mut out: Vec<PluginFile> = Vec::new();
    let mut i: usize = 0;
    while files.len() > 0
        invariant
            i + files@.len() == all.len(),
            all.len() == total,
            files@ == all.skip(i as int),
            out@.len() == i,
            forall|k: int| 0 <= k < i ==> with_info(all[k], #[trigger] out@[k], manager@.infos),
        decreases files.len(),
    {
        let f = files.remove(0);
        assert(f == all[i as int]);
        assert(files@ =~= all.skip(i + 1));
        let g = match manager.get_plugin_info(f.name.as_str()) {
            Some(info) => PluginFile {
                priority: info.priority,
                block_enabled: info.block_enabled,
                active: info.active,
                ..f
            },
            None => f,
        };
        out.push(g);
        i = i + 1;
    }
    out
}

/// Whether a refusal to disable a running plugin stops the web UI from
/// disabling its file: only "already disabled" lets it go on.
pub fn disable_error_is_fatal(err: &str) -> (r: bool)
    ensures
        r == !contains_text(err@, "已经是禁用状态"@),
{
    !contains_chars(chars_of(err).as_slice(), chars_of("已经是禁用状态").as_slice())
}

// ───────────────────────── access ─────────────────────────

/// The value of the first `key=value` pair among `pairs` with that key.
pub open spec fn param_in(pairs: Seq<Seq<char>>, key: Seq<char>) -> Option<Seq<char>>
    decreases pairs.len(),
{
    if pairs.len() == 0 {
        None
    } else {
        match split_once_on(pairs[0], '=') {
            Some((k, v)) => if k == key {
                Some(v)
            } else {
                param_in(pairs.drop_first(), key)
            },
            None => param_in(pairs.drop_first(), key),
        }
    }
}

/// The value of `key` in a query string (`a=1&b=2`): the first pair with
/// that key.
pub fn extract_query_param(query: &str, key: &str) -> (r: Option<String>)
    ensures
        match r {
            Some(v) => param_in(split_on(query@, '&'), key@) == Some(v@),
            None => param_in(split_on(query@, '&'), key@) is None,
        },
{
    let pairs = split_char(chars_of(query).as_slice(), '&');
    let ghost all = split_on(query@, '&');
    let mut i: usize = 0;
    assert(all.skip(0) =~= all);
    while i < pairs.len()
        invariant
            i <= pairs@.len(),
            pairs@.len() == all.len(),
            forall|k: int| 0 <= k < pairs@.len() ==> #[trigger] pairs@[k]@ == all[k],
            all == split_on(query@, '&'),
            param_in(all, key@) == param_in(all.skip(i as int), key@),
        decreases pairs.len() - i,
    {
        let ghost rest = all.skip(i as int);
        assert(rest[0] == pairs@[i as int]@);
        assert(rest.drop_first() =~= all.skip(i + 1));
        match split_once_char(pairs[i].as_slice(), '=') {
            Some((k, v)) => {
                if str_eq(string_of(k.as_slice()).as_str(), key) {
                    return Some(string_of(v.as_slice()));
                }
            },
            None => {},
        }
        i = i + 1;
    }
    None
}

/// The token in the first cookie (of `;`-separated, trimmed pieces) that
/// starts with `luo9_token=`, with that prefix removed (as often as it
/// repeats).
pub open spec fn token_in(pieces: Seq<Seq<char>>) -> Option<Seq<char>>
    decreases pieces.len(),
{
    if pieces.len() == 0 {
        None
    } else {
        let c = trim(pieces[0]);
        if has_prefix(c, "luo9_token="@) {
            Some(trim_start_all(c, "luo9_token="@))
        } else {
            token_in(pieces.drop_first())
        }
    }
}

/// The web UI token carried by a `Cookie` header.
pub fn cookie_token(cookies: &str) -> (r: Option<String>)
    ensures
        match r {
            Some(t) => token_in(split_on(cookies@, ';')) == Some(t@),
            None => token_in(split_on(cookies@, ';')) is None,
        },
{
    let pieces = split_char(chars_of(cookies).as_slice(), ';');
    let ghost all = split_on(cookies@, ';');
    let mut i: usize = 0;
    assert(all.skip(0) =~= all);
    while i < pieces.len()
        invariant
            i <= pieces@.len(),
            pieces@.len() == all.len(),
            forall|k: int| 0 <= k < pieces@.len() ==> #[trigger] pieces@[k]@ == all[k],
            all == split_on(cookies@, ';'),
            token_in(all) == token_in(all.skip(i as int)),
        decreases pieces.len() - i,
    {
        proof {
            reveal_strlit("luo9_token=");
        }
        let ghost rest = all.skip(i as int);
        assert(rest[0] == pieces@[i as int]@);
        assert(rest.drop_first() =~= all.skip(i + 1));
        let c = trim_chars(pieces[i].as_slice());
        let prefix = chars_of("luo9_token=");
        if starts_with_chars(c.as_slice(), prefix.as_slice()) {
            return Some(string_of(trim_start_chars(c.as_slice(), prefix.as_slice()).as_slice()));
        }
        i = i + 1;
    }
    None
}

/// Whether a request to the API is let in, and the cookie to set.
pub enum AuthDecision {
    /// The token is missing or wrong.
    Unauthorized,
    /// Let in; a token given in the query is remembered in this cookie.
    Allowed { set_cookie: Option<String> },
}

/// The cookie that remembers the token.
pub open spec fn token_cookie(token: Seq<char>) -> Seq<char> {
    "luo9_token="@ + token + "; Path=/; HttpOnly; SameSite=Strict"@
}

/// The token a request presents: the one in its query, else the one in its
/// cookie.
pub open spec fn presented_token(query: Option<Seq<char>>, cookies: Option<Seq<char>>) -> Option<Seq<char>> {
    let from_query = match query {
        Some(q) => param_in(split_on(q, '&'), "token"@),
        None => None,
    };
    match from_query {
        Some(t) => Some(t),
        None => match cookies {
            Some(c) => token_in(split_on(c, ';')),
            None => None,
        },
    }
}

/// The view of an optional text.
pub open spec fn opt_view(s: Option<&str>) -> Option<Seq<char>> {
    match s {
        Some(x) => Some(x@),
        None => None,
    }
}

/// Whether `r` is the decision on a request with this query and cookie
/// header, for the web UI token `token`.
pub open spec fn auth_decided(
    query: Option<Seq<char>>,
    cookies: Option<Seq<char>>,
    token: Seq<char>,
    r: AuthDecision,
) -> bool {
    match presented_token(query, cookies) {
        Some(t) => if t == token {
            r matches AuthDecision::Allowed { set_cookie } && match set_cookie {
                Some(c) => c@ == token_cookie(token) && (match query {
                    Some(q) => param_in(split_on(q, '&'), "token"@) is Some,
                    None => false,
                }),
                None => match query {
                    Some(q) => param_in(split_on(q, '&'), "token"@) is None,
                    None => true,
                },
            }
        } else {
            r is Unauthorized
        },
        None => r is Unauthorized,
    }
}

/// The token parameter of a query string, if there is a query.
pub open spec fn query_token(query: Option<Seq<char>>) -> Option<Seq<char>> {
    match query {
        Some(q) => param_in(split_on(q, '&'), "token"@),
        None => None,
    }
}

/// When the query carries no token (whatever other parameters it has), the
/// cookie decides: a cookie holding the web UI token lets the request in
/// without setting a cookie, and any other cookie, or none, keeps it out.
pub proof fn law_cookie_decides_without_query_token(
    query: Option<Seq<char>>,
    cookies: Seq<char>,
    token: Seq<char>,
    r: AuthDecision,
)
    requires
        query_token(query) is None,
        auth_decided(query, Some(cookies), token, r),
    ensures
        token_in(split_on(cookies, ';')) == Some(token) ==> r == (AuthDecision::Allowed {
            set_cookie: None,
        }),
        token_in(split_on(cookies, ';')) != Some(token) ==> r is Unauthorized,
{
}

/// A token in the query decides, whatever the cookie says: the web UI token
/// lets the request in and is remembered in a cookie; any other token keeps
/// it out.
pub proof fn law_query_token_decides(
    query: Seq<char>,
    cookies: Option<Seq<char>>,
    token: Seq<char>,
    r: AuthDecision,
)
    requires
        query_token(Some(query)) is Some,
        auth_decided(Some(query), cookies, token, r),
    ensures
        query_token(Some(query)) == Some(token) ==> (r matches AuthDecision::Allowed { set_cookie }
            && set_cookie matches Some(c) && c@ == token_cookie(token)),
        query_token(Some(query)) != Some(token) ==> r is Unauthorized,
{
}

/// A request that presents no token at all is kept out.
pub proof fn law_no_token_refused(query: Option<Seq<char>>, token: Seq<char>, r: AuthDecision)
    requires
        query_token(query) is None,
        auth_decided(query, None, token, r),
    ensures
        r is Unauthorized,
{
}

/// Lets a request in when the token it presents (query first, then cookie)
/// is the web UI token; a token from the query is then set as a cookie.
pub fn authorize(query: Option<&str>, cookies: Option<&str>, token: &str) -> (r: AuthDecision)
    ensures
        auth_decided(opt_view(query), opt_view(cookies), token@, r),
        match presented_token(opt_view(query), opt_view(cookies)) {
            Some(t) => if t == token@ {
                r matches AuthDecision::Allowed { set_cookie } && match set_cookie {
                    Some(c) => c@ == token_cookie(token@) && query is Some && (match query {
                        Some(q) => param_in(split_on(q@, '&'), "token"@) is Some,
                        None => false,
                    }),
                    None => match query {
                        Some(q) => param_in(split_on(q@, '&'), "token"@) is None,
                        None => true,
                    },
                }
            } else {
                r is Unauthorized
            },
            None => r is Unauthorized,
        },
{
    let query_token = match query {
        Some(q) => extract_query_param(q, "token"),
        None => None,
    };
    let presented = match &query_token {
        Some(t) => Some(t.clone()),
        None => match cookies {
            Some(c) => cookie_token(c),
            None => None,
        },
    };
    let valid = match &presented {
        Some(t) => str_eq(t.as_str(), token),
        None => false,
    };
    if !valid {
        return AuthDecision::Unauthorized;
    }
    let set_cookie = if query_token.is_some() {
        Some(concat3("luo9_token=", token, "; Path=/; HttpOnly; SameSite=Strict"))
    } else {
        None
    };
    AuthDecision::Allowed { set_cookie }
}

/// The body of an API answer.
pub struct MsgResponse {
    pub ok: bool,
    pub message: String,
}

/// A success answer (status 200).
pub fn json_ok(msg: &str) -> (r: (u16, MsgResponse))
    ensures
        r.0 == 200,
        r.1.ok,
        r.1.message@ == msg@,
{
    (200, MsgResponse { ok: true, message: msg.to_owned() })
}

/// A failure answer with the given status.
pub fn json_err(status: u16, msg: &str) -> (r: (u16, MsgResponse))
    ensures
        r.0 == status,
        !r.1.ok,
        r.1.message@ == msg@,
{
    (status, MsgResponse { ok: false, message: msg.to_owned() })
}

} // verus!
