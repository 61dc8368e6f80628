//! The plugin registry: what it lists, how an install is planned from it,
//! and how a download falls back from one address to the next.
use vstd::prelude::*;
use crate::text::{push_str_text, str_eq};
use crate::webui::{
    build_mirrored_urls, mirrored_urls, str_views, string_views, PluginFile, GITHUB_RELEASE_MIRRORS,
};

verus! {

broadcast use vstd::seq_lib::to_multiset_insert;

/// One published version of a plugin, with its file for each platform.
pub struct RegistryVersion {
    pub version: String,
    pub tag: String,
    pub sdk_version: String,
    pub assets: Vec<(String, String)>,
}

/// A plugin in the registry.
pub struct RegistryPlugin {
    pub description: String,
    pub repo: String,
    pub tags: Vec<String>,
    pub versions: Vec<RegistryVersion>,
}

/// The registry: plugins by name, each name once.
pub struct Registry {
    pub plugins: Vec<(String, RegistryPlugin)>,
}

/// What installing a plugin takes.
pub struct InstallPlan {
    pub version: String,
    pub asset_name: String,
    pub primary_url: String,
    pub download_urls: Vec<String>,
}

/// The position of the first element that satisfies `p`.
pub open spec fn first_where<A>(s: Seq<A>, p: spec_fn(A) -> bool) -> Option<int>
    decreases s.len(),
{
    if s.len() == 0 {
        None
    } else if p(s[0]) {
        Some(0)
    } else {
        match first_where(s.drop_first(), p) {
            Some(i) => Some(i + 1),
            None => None,
        }
    }
}

/// The first match is at `i`.
pub proof fn lemma_first_where_found<A>(s: Seq<A>, p: spec_fn(A) -> bool, i: int)
    requires
        0 <= i < s.len(),
        p(s[i]),
        forall|j: int| 0 <= j < i ==> !p(#[trigger] s[j]),
    ensures
        first_where(s, p) == Some(i),
    decreases i,
{
    if i > 0 {
        let rest = s.drop_first();
        assert forall|j: int| 0 <= j < i - 1 implies !p(#[trigger] rest[j]) by {
            assert(rest[j] == s[j + 1]);
        }
        lemma_first_where_found(rest, p, i - 1);
    }
}

/// Nothing matches.
pub proof fn lemma_first_where_absent<A>(s: Seq<A>, p: spec_fn(A) -> bool)
    requires
        forall|j: int| 0 <= j < s.len() ==> !p(#[trigger] s[j]),
    ensures
        first_where(s, p) is None,
    decreases s.len(),
{
    if s.len() > 0 {
        let rest = s.drop_first();
        assert forall|j: int| 0 <= j < rest.len() implies !p(#[trigger] rest[j]) by {
            assert(rest[j] == s[j + 1]);
        }
        lemma_first_where_absent(rest, p);
    }
}

/// The texts joined in order.
pub open spec fn concat_all(parts: Seq<Seq<char>>) -> Seq<char>
    decreases parts.len(),
{
    if parts.len() == 0 {
        Seq::empty()
    } else {
        concat_all(parts.drop_last()) + parts.last()
    }
}

/// The texts joined in order.
pub fn join_texts(parts: &[&str]) -> (r: String)
    ensures
        r@ == concat_all(str_views(parts@)),
{
    let mut out = String::new();
    let mut i: usize = 0;
    assert(str_views(parts@).take(0) =~= Seq::<Seq<char>>::empty());
    while i < parts.len()
        invariant
            i <= parts@.len(),
            out@ == concat_all(str_views(parts@).take(i as int)),
        decreases parts.len() - i,
    {
        push_str_text(&mut out, parts[i]);
        assert(str_views(parts@).take(i + 1).drop_last() =~= str_views(parts@).take(i as int));
        i = i + 1;
    }
    assert(str_views(parts@).take(i as int) =~= str_views(parts@));
    out
}

/// Whether a registry entry is named `name`.
pub open spec fn named(name: Seq<char>) -> spec_fn((String, RegistryPlugin)) -> bool {
    |e: (String, RegistryPlugin)| e.0@ == name
}

/// Whether a version is `version`.
pub open spec fn versioned(version: Seq<char>) -> spec_fn(RegistryVersion) -> bool {
    |v: RegistryVersion| v.version@ == version
}

/// Whether an asset is for `platform`.
pub open spec fn for_platform(platform: Seq<char>) -> spec_fn((String, String)) -> bool {
    |a: (String, String)| a.0@ == platform
}

/// `https://github.com/<repo>/releases/download/<tag>/<asset>`.
pub open spec fn release_url(repo: Seq<char>, tag: Seq<char>, asset: Seq<char>) -> Seq<char> {
    "https://github.com/"@ + repo + "/releases/download/"@ + tag + "/"@ + asset
}

/// What an install of `name` (at `version`, or the latest) on `platform`
/// needs, or the status and message it is refused with.
pub open spec fn install_planned(
    reg: Registry,
    name: Seq<char>,
    version: Option<Seq<char>>,
    platform: Seq<char>,
    r: Result<InstallPlan, (u16, String)>,
) -> bool {
    match first_where(reg.plugins@, named(name)) {
        None => r matches Err(e) && e.0 == 404 && e.1@ == "插件 "@ + name + " 不在注册表中"@,
        Some(p) => {
            let plugin = reg.plugins@[p].1;
            let chosen = match version {
                Some(v) => first_where(plugin.versions@, versioned(v)),
                None => if plugin.versions@.len() > 0 {
                    Some(0int)
                } else {
                    None
                },
            };
            match chosen {
                None => match version {
                    Some(v) => r matches Err(e) && e.0 == 404 && e.1@ == "插件 "@ + name
                        + " 没有版本 "@ + v,
                    None => r matches Err(e) && e.0 == 404 && e.1@ == "插件 "@ + name
                        + " 没有可用版本"@,
                },
                Some(k) => {
                    let ver = plugin.versions@[k];
                    match first_where(ver.assets@, for_platform(platform)) {
                        None => r matches Err(e) && e.0 == 400 && e.1@ == "插件 "@ + name + " v"@
                            + ver.version@ + " 不支持当前平台 "@ + platform,
                        Some(a) => {
                            let asset = ver.assets@[a].1@;
                            let url = release_url(plugin.repo@, ver.tag@, asset);
                            &&& r matches Ok(plan)
                            &&& plan.version@ == ver.version@
                            &&& plan.asset_name@ == asset
                            &&& plan.primary_url@ == url
                            &&& string_views(plan.download_urls@) == mirrored_urls(
                                url,
                                str_views(GITHUB_RELEASE_MIRRORS@),
                            )
                        },
                    }
                },
            }
        },
    }
}

/// Whether `plan` installs, for `platform`, the file of version `k` of the
/// registry's plugin `p`: the plan's version is that version's, its file is
/// that version's file for the platform, and it downloads from that
/// version's release, first from GitHub itself and then through each
/// mirror.
pub open spec fn plan_of_version(
    reg: Registry,
    platform: Seq<char>,
    plan: InstallPlan,
    p: int,
    k: int,
    a: int,
) -> bool {
    &&& 0 <= p < reg.plugins@.len()
    &&& 0 <= k < reg.plugins@[p].1.versions@.len()
    &&& 0 <= a < reg.plugins@[p].1.versions@[k].assets@.len()
    &&& plan.version@ == reg.plugins@[p].1.versions@[k].version@
    &&& reg.plugins@[p].1.versions@[k].assets@[a].0@ == platform
    &&& plan.asset_name@ == reg.plugins@[p].1.versions@[k].assets@[a].1@
    &&& plan.primary_url@ == "https://github.com/"@ + reg.plugins@[p].1.repo@
        + "/releases/download/"@ + reg.plugins@[p].1.versions@[k].tag@ + "/"@ + plan.asset_name@
    &&& plan.download_urls@.len() == 1 + GITHUB_RELEASE_MIRRORS@.len()
    &&& plan.download_urls@[0]@ == plan.primary_url@
    &&& forall|m: int|
        0 <= m < GITHUB_RELEASE_MIRRORS@.len() ==> #[trigger] plan.download_urls@[m + 1]@
            == GITHUB_RELEASE_MIRRORS@[m]@ + plan.primary_url@
}

/// A planned install takes everything from one version of the plugin asked
/// for: the version asked for (the first listed when none is asked for),
/// whose version string, file and release tag the plan carries together.
pub proof fn law_install_plan_is_of_one_version(
    reg: Registry,
    name: Seq<char>,
    version: Option<Seq<char>>,
    platform: Seq<char>,
    r: Result<InstallPlan, (u16, String)>,
)
    requires
        install_planned(reg, name, version, platform, r),
        r is Ok,
    ensures
        exists|p: int, k: int, a: int|
            #![trigger plan_of_version(reg, platform, r->Ok_0, p, k, a)]
            plan_of_version(reg, platform, r->Ok_0, p, k, a) && reg.plugins@[p].0@ == name && match version {
                Some(v) => reg.plugins@[p].1.versions@[k].version@ == v,
                None => k == 0,
            },
{
    let plan = r->Ok_0;
    lemma_first_where_is(reg.plugins@, named(name));
    let p = first_where(reg.plugins@, named(name))->0;
    let plugin = reg.plugins@[p].1;
    let k = match version {
        Some(v) => {
            lemma_first_where_is(plugin.versions@, versioned(v));
            first_where(plugin.versions@, versioned(v))->0
        },
        None => 0int,
    };
    let ver = plugin.versions@[k];
    lemma_first_where_is(ver.assets@, for_platform(platform));
    let a = first_where(ver.assets@, for_platform(platform))->0;
    let urls = string_views(plan.download_urls@);
    let mirrors = str_views(GITHUB_RELEASE_MIRRORS@);
    assert(urls == mirrored_urls(plan.primary_url@, mirrors));
    assert(urls.len() == plan.download_urls@.len());
    assert(mirrors.len() == GITHUB_RELEASE_MIRRORS@.len());
    assert(urls.len() == 1 + mirrors.len());
    assert(urls[0] == plan.download_urls@[0]@);
    assert forall|m: int| 0 <= m < GITHUB_RELEASE_MIRRORS@.len() implies #[trigger] plan.download_urls@[m
        + 1]@ == GITHUB_RELEASE_MIRRORS@[m]@ + plan.primary_url@ by {
        assert(urls[m + 1] == plan.download_urls@[m + 1]@);
        assert(mirrors[m] == GITHUB_RELEASE_MIRRORS@[m]@);
    }
    assert(plan_of_version(reg, platform, plan, p, k, a));
}

/// A match, when there is one, satisfies the test.
pub proof fn lemma_first_where_is<A>(s: Seq<A>, p: spec_fn(A) -> bool)
    ensures
        first_where(s, p) matches Some(i) ==> 0 <= i < s.len() && p(s[i]),
    decreases s.len(),
{
    if s.len() > 0 && !p(s[0]) {
        lemma_first_where_is(s.drop_first(), p);
        match first_where(s.drop_first(), p) {
            Some(i) => {
                assert(s.drop_first()[i] == s[i + 1]);
            },
            None => {},
        }
    }
}

/// The position of the plugin named `name`.
fn find_plugin(reg: &Registry, name: &str) -> (r: Option<usize>)
    ensures
        match r {
            Some(i) => i < reg.plugins@.len() && first_where(reg.plugins@, named(name@)) == Some(
                i as int,
            ),
            None => first_where(reg.plugins@, named(name@)) is None,
        },
{
    let mut i: usize = 0;
    while i < reg.plugins.len()
        invariant
            i <= reg.plugins@.len(),
            forall|j: int| 0 <= j < i ==> !named(name@)(#[trigger] reg.plugins@[j]),
        decreases reg.plugins.len() - i,
    {
        if str_eq(reg.plugins[i].0.as_str(), name) {
            proof {
                lemma_first_where_found(reg.plugins@, named(name@), i as int);
            }
            return Some(i);
        }
        i = i + 1;
    }
    proof {
        lemma_first_where_absent(reg.plugins@, named(name@));
    }
    None
}

/// The position of the version `version`.
fn find_version(versions: &Vec<RegistryVersion>, version: &str) -> (r: Option<usize>)
    ensures
        match r {
            Some(i) => i < versions@.len() && first_where(versions@, versioned(version@)) == Some(
                i as int,
            ),
            None => first_where(versions@, versioned(version@)) is None,
        },
{
    let mut i: usize = 0;
    while i < versions.len()
        invariant
            i <= versions@.len(),
            forall|j: int| 0 <= j < i ==> !versioned(version@)(#[trigger] versions@[j]),
        decreases versions.len() - i,
    {
        if str_eq(versions[i].version.as_str(), version) {
            proof {
                lemma_first_where_found(versions@, versioned(version@), i as int);
            }
            return Some(i);
        }
        i = i + 1;
    }
    proof {
        lemma_first_where_absent(versions@, versioned(version@));
    }
    None
}

/// The position of the asset for `platform`.
fn find_asset(assets: &Vec<(String, String)>, platform: &str) -> (r: Option<usize>)
    ensures
        match r {
            Some(i) => i < assets@.len() && first_where(assets@, for_platform(platform@)) == Some(
                i as int,
            ),
            None => first_where(assets@, for_platform(platform@)) is None,
        },
{
    let mut i: usize = 0;
    while i < assets.len()
        invariant
            i <= assets@.len(),
            forall|j: int| 0 <= j < i ==> !for_platform(platform@)(#[trigger] assets@[j]),
        decreases assets.len() - i,
    {
        if str_eq(assets[i].0.as_str(), platform) {
            proof {
                lemma_first_where_found(assets@, for_platform(platform@), i as int);
            }
            return Some(i);
        }
        i = i + 1;
    }
    proof {
        lemma_first_where_absent(assets@, for_platform(platform@));
    }
    None
}

/// Plans the install of `name` at `version` (the latest when absent) for
/// `platform`: the version, its file, and the addresses to download it
/// from, mirrors after the original.
pub fn plan_install(reg: &Registry, name: &str, version: Option<&str>, platform: &str) -> (r: Result<
    InstallPlan,
    (u16, String),
>)
    ensures
        install_planned(
            *reg,
            name@,
            match version {
                Some(v) => Some(v@),
                None => None,
            },
            platform@,
            r,
        ),
{
    let p = match find_plugin(reg, name) {
        Some(p) => p,
        None => {
            let parts = vec!["插件 ", name, " 不在注册表中"];
            let m = join_texts(parts.as_slice());
            proof {
                reveal_with_fuel(concat_all, 4);
                assert(str_views(parts@) =~= seq!["插件 "@, name@, " 不在注册表中"@]);
                assert(m@ =~= "插件 "@ + name@ + " 不在注册表中"@);
            }
            return Err((404, m));
        },
    };
    let plugin = &reg.plugins[p].1;
    let chosen = match version {
        Some(v) => find_version(&plugin.versions, v),
        None => if plugin.versions.len() > 0 {
            Some(0)
        } else {
            None
        },
    };
    let k = match chosen {
        Some(k) => k,
        None => {
            match version {
                Some(v) => {
                    let parts = vec!["插件 ", name, " 没有版本 ", v];
                    let m = join_texts(parts.as_slice());
                    proof {
                        reveal_with_fuel(concat_all, 5);
                        assert(str_views(parts@) =~= seq!["插件 "@, name@, " 没有版本 "@, v@]);
                        assert(m@ =~= "插件 "@ + name@ + " 没有版本 "@ + v@);
                    }
                    return Err((404, m));
                },
                None => {
                    let parts = vec!["插件 ", name, " 没有可用版本"];
                    let m = join_texts(parts.as_slice());
                    proof {
                        reveal_with_fuel(concat_all, 4);
                        assert(str_views(parts@) =~= seq!["插件 "@, name@, " 没有可用版本"@]);
                        assert(m@ =~= "插件 "@ + name@ + " 没有可用版本"@);
                    }
                    return Err((404, m));
                },
            }
        },
    };
    let ver = &plugin.versions[k];
    let a = match find_asset(&ver.assets, platform) {
        Some(a) => a,
        None => {
            let parts = vec!["插件 ", name, " v", ver.version.as_str(), " 不支持当前平台 ", platform];
            let m = join_texts(parts.as_slice());
            proof {
                reveal_with_fuel(concat_all, 7);
                assert(str_views(parts@) =~= seq![
                    "插件 "@,
                    name@,
                    " v"@,
                    ver.version@,
                    " 不支持当前平台 "@,
                    platform@,
                ]);
                assert(m@ =~= "插件 "@ + name@ + " v"@ + ver.version@ + " 不支持当前平台 "@ + platform@);
            }
            return Err((400, m));
        },
    };
    let asset = ver.assets[a].1.clone();
    let parts = vec![
        "https://github.com/",
        plugin.repo.as_str(),
        "/releases/download/",
        ver.tag.as_str(),
        "/",
        asset.as_str(),
    ];
    let primary_url = join_texts(parts.as_slice());
    proof {
        reveal_with_fuel(concat_all, 7);
        assert(str_views(parts@) =~= seq![
            "https://github.com/"@,
            plugin.repo@,
            "/releases/download/"@,
            ver.tag@,
            "/"@,
            asset@,
        ]);
        assert(primary_url@ =~= release_url(plugin.repo@, ver.tag@, asset@));
    }
    let download_urls = build_mirrored_urls(primary_url.as_str(), &GITHUB_RELEASE_MIRRORS);
    Ok(InstallPlan { version: ver.version.clone(), asset_name: asset, primary_url, download_urls })
}

// ───────────────────────── the catalogue ─────────────────────────

/// A registry plugin as the web UI lists it.
pub struct AvailablePlugin {
    pub name: String,
    pub description: String,
    pub repo: String,
    pub tags: Vec<String>,
    pub latest_version: String,
    pub sdk_version: String,
    pub installed: bool,
    pub installed_version: Option<String>,
    pub versions: Vec<RegistryVersion>,
}

/// Text order (by code point, which is the byte order of UTF-8).
pub open spec fn lex_le(a: Seq<char>, b: Seq<char>) -> bool
    decreases a.len(),
{
    if a.len() == 0 {
        true
    } else if b.len() == 0 {
        false
    } else if a[0] != b[0] {
        a[0] < b[0]
    } else {
        lex_le(a.drop_first(), b.drop_first())
    }
}

/// Any two texts are ordered one way or the other.
pub proof fn lemma_lex_total(a: Seq<char>, b: Seq<char>)
    ensures
        lex_le(a, b) || lex_le(b, a),
    decreases a.len(),
{
    if a.len() > 0 && b.len() > 0 && a[0] == b[0] {
        lemma_lex_total(a.drop_first(), b.drop_first());
    }
}

/// The text order is transitive.
pub proof fn lemma_lex_transitive(a: Seq<char>, b: Seq<char>, c: Seq<char>)
    requires
        lex_le(a, b),
        lex_le(b, c),
    ensures
        lex_le(a, c),
    decreases a.len(),
{
    if a.len() > 0 && b.len() > 0 && c.len() > 0 && a[0] == b[0] && b[0] == c[0] {
        lemma_lex_transitive(a.drop_first(), b.drop_first(), c.drop_first());
    }
}

/// Whether `a` comes no later than `b` in text order.
pub fn text_le(a: &str, b: &str) -> (r: bool)
    ensures
        r == lex_le(a@, b@),
{
    let x = crate::text::chars_of(a);
    let y = crate::text::chars_of(b);
    let mut i: usize = 0;
    assert(x@.skip(0) =~= x@);
    assert(y@.skip(0) =~= y@);
    while i < x.len() && i < y.len() && x[i] == y[i]
        invariant
            i <= x@.len(),
            i <= y@.len(),
            lex_le(x@, y@) == lex_le(x@.skip(i as int), y@.skip(i as int)),
        decreases x.len() - i,
    {
        assert(x@.skip(i as int).drop_first() =~= x@.skip(i + 1));
        assert(y@.skip(i as int).drop_first() =~= y@.skip(i + 1));
        i = i + 1;
    }
    if i == x.len() {
        true
    } else if i == y.len() {
        false
    } else {
        x[i] < y[i]
    }
}

/// The file of the last listed plugin called `name`.
pub open spec fn installed_file(files: Seq<PluginFile>, name: Seq<char>) -> Option<Seq<char>>
    decreases files.len(),
{
    if files.len() == 0 {
        None
    } else if files.last().name@ == name {
        Some(files.last().file@)
    } else {
        installed_file(files.drop_last(), name)
    }
}

/// Whether `a` lists the registry entry `e`, given the installed files.
pub open spec fn lists(a: AvailablePlugin, e: (String, RegistryPlugin), files: Seq<PluginFile>) -> bool {
    let p = e.1;
    &&& a.name@ == e.0@
    &&& a.description@ == p.description@
    &&& a.repo@ == p.repo@
    &&& a.tags == p.tags
    &&& a.latest_version@ == if p.versions@.len() > 0 {
        p.versions@[0].version@
    } else {
        Seq::empty()
    }
    &&& a.sdk_version@ == if p.versions@.len() > 0 {
        p.versions@[0].sdk_version@
    } else {
        Seq::empty()
    }
    &&& a.installed == (installed_file(files, e.0@) is Some)
    &&& match a.installed_version {
        Some(f) => installed_file(files, e.0@) == Some(f@),
        None => installed_file(files, e.0@) is None,
    }
    &&& a.versions == p.versions
}

/// Whether `a` lists one of the registry entries.
pub open spec fn listed_from(a: AvailablePlugin, entries: Seq<(String, RegistryPlugin)>, files: Seq<PluginFile>) -> bool {
    exists|j: int| 0 <= j < entries.len() && lists(a, #[trigger] entries[j], files)
}

/// The names of listed plugins.
pub open spec fn listed_names(s: Seq<AvailablePlugin>) -> Seq<Seq<char>> {
    s.map_values(|a: AvailablePlugin| a.name@)
}

/// The names of registry entries.
pub open spec fn entry_names(s: Seq<(String, RegistryPlugin)>) -> Seq<Seq<char>> {
    s.map_values(|e: (String, RegistryPlugin)| e.0@)
}

/// Whether names are in text order.
pub open spec fn names_sorted(s: Seq<Seq<char>>) -> bool {
    forall|i: int, j: int| 0 <= i < j < s.len() ==> lex_le(s[i], s[j])
}

/// The file of the last listed plugin called `name`.
fn find_installed(files: &Vec<PluginFile>, name: &str) -> (r: Option<String>)
    ensures
        match r {
            Some(f) => installed_file(files@, name@) == Some(f@),
            None => installed_file(files@, name@) is None,
        },
{
    let mut i = files.len();
    assert(files@.take(i as int) =~= files@);
    while i > 0
        invariant
            i <= files@.len(),
            installed_file(files@, name@) == installed_file(files@.take(i as int), name@),
        decreases i,
    {
        assert(files@.take(i as int).last() == files@[i - 1]);
        assert(files@.take(i as int).drop_last() =~= files@.take(i - 1));
        if str_eq(files[i - 1].name.as_str(), name) {
            return Some(files[i - 1].file.clone());
        }
        i = i - 1;
    }
    None
}

/// The registry's plugins as the web UI lists them, in name order, each
/// marked with whether (and as which file) it is installed.
pub fn available_plugins(reg: Registry, files: &Vec<PluginFile>) -> (r: Vec<AvailablePlugin>)
    ensures
        names_sorted(listed_names(r@)),
        listed_names(r@).to_multiset() == entry_names(reg.plugins@).to_multiset(),
        forall|i: int| 0 <= i < r@.len() ==> listed_from(#[trigger] r@[i], reg.plugins@, files@),
{
    let ghost all = reg.plugins@;
    let mut entries = reg.plugins;
    let total = entries.len();
    let mut out: Vec<AvailablePlugin> = Vec::new();
    let mut i: usize = 0;
    assert(entry_names(all.take(0)) =~= Seq::<Seq<char>>::empty());
    assert(listed_names(out@) =~= Seq::<Seq<char>>::empty());
    while entries.len() > 0
        invariant
            i + entries@.len() == all.len(),
            all.len() == total,
            entries@ == all.skip(i as int),
            names_sorted(listed_names(out@)),
            listed_names(out@).to_multiset() == entry_names(all.take(i as int)).to_multiset(),
            forall|k: int| 0 <= k < out@.len() ==> listed_from(#[trigger] out@[k], all, files@),
        decreases entries.len(),
    {
        let ghost before_entries = entries@;
        let (name, plugin) = entries.remove(0);
        let ghost entry = (name, plugin);
        assert(entry == all[i as int]);
        assert(entries@ =~= all.skip(i + 1));
        let latest_version = if plugin.versions.len() > 0 {
            plugin.versions[0].version.clone()
        } else {
            String::new()
        };
        let sdk_version = if plugin.versions.len() > 0 {
            plugin.versions[0].sdk_version.clone()
        } else {
            String::new()
        };
        let installed_version = find_installed(files, name.as_str());
        let a = AvailablePlugin {
            name,
            description: plugin.description,
            repo: plugin.repo,
            tags: plugin.tags,
            latest_version,
            sdk_version,
            installed: installed_version.is_some(),
            installed_version,
            versions: plugin.versions,
        };
        assert(lists(a, all[i as int], files@));
        let mut pos: usize = 0;
        while pos < out.len() && text_le(out[pos].name.as_str(), a.name.as_str())
            invariant
                pos <= out@.len(),
                forall|k: int| 0 <= k < pos ==> lex_le((#[trigger] out@[k]).name@, a.name@),
            decreases out.len() - pos,
        {
            pos = pos + 1;
        }
        let ghost before = out@;
        let ghost names_before = listed_names(before);
        let ghost an = a.name@;
        proof {
            if pos < out@.len() {
                lemma_lex_total(out@[pos as int].name@, an);
            }
        }
        out.insert(pos, a);
        assert(listed_names(out@) =~= names_before.insert(pos as int, an));
        proof {
            let after = listed_names(out@);
            assert forall|x: int, y: int| 0 <= x < y < after.len() implies lex_le(after[x], after[y]) by {
                if y < pos {
                } else if x < pos && y == pos {
                } else if x < pos && y > pos {
                    assert(after[y] == names_before[y - 1]);
                    if pos < names_before.len() {
                        assert(lex_le(names_before[x], an));
                    }
                    assert(lex_le(after[x], after[pos as int]));
                    assert(lex_le(after[pos as int], after[y])) by {
                        if y - 1 > pos {
                            lemma_lex_transitive(an, names_before[pos as int], names_before[y - 1]);
                        }
                    }
                    lemma_lex_transitive(after[x], after[pos as int], after[y]);
                } else if x == pos {
                    assert(after[y] == names_before[y - 1]);
                    if y - 1 > pos {
                        lemma_lex_transitive(an, names_before[pos as int], names_before[y - 1]);
                    }
                } else {
                    assert(after[x] == names_before[x - 1]);
                    assert(after[y] == names_before[y - 1]);
                }
            }
            assert(entry_names(all.take(i + 1)) =~= entry_names(all.take(i as int)).push(an));
            vstd::seq_lib::to_multiset_build(entry_names(all.take(i as int)), an);
            assert forall|k: int| 0 <= k < out@.len() implies listed_from(#[trigger] out@[k], all, files@) by {
                if k < pos {
                    assert(out@[k] == before[k]);
                } else if k == pos {
                    assert(lists(out@[k], all[i as int], files@));
                } else {
                    assert(out@[k] == before[k - 1]);
                }
            }
        }
        i = i + 1;
    }
    assert(all.take(i as int) =~= all);
    assert(all == reg.plugins@);
    out
}

// ───────────────────────── fallback downloads ─────────────────────────

/// What to do next when fetching from a list of addresses.
pub enum FallbackStep<T> {
    /// Fetch from this address.
    Try(String),
    /// Finished: the first success, or the last error (empty when there was
    /// no address at all).
    Done(Result<T, String>),
}

/// Fetching from a list of addresses, one after the other, until one
/// succeeds.
pub struct Fallback {
    urls: Vec<String>,
    next: usize,
}

impl Fallback {
    /// The addresses still to try.
    pub closed spec fn remaining(&self) -> Seq<Seq<char>> {
        string_views(self.urls@).skip(self.next as int)
    }

    /// Whether `next` is within the list.
    pub closed spec fn wf(&self) -> bool {
        self.next <= self.urls@.len()
    }

    /// Starts on the addresses, in order; the first step tries the first one.
    pub fn start<T>(urls: Vec<String>) -> (r: (Fallback, FallbackStep<T>))
        ensures
            r.0.wf(),
            string_views(urls@).len() == 0 ==> (r.1 matches FallbackStep::Done(Err(e)) && e@.len()
                == 0),
            string_views(urls@).len() > 0 ==> (r.1 matches FallbackStep::Try(u) && u@ == urls@[0]@
                && r.0.remaining() == string_views(urls@).skip(1)),
    {
        if urls.len() == 0 {
            return (Fallback { urls, next: 0 }, FallbackStep::Done(Err(String::new())));
        }
        let first = urls[0].clone();
        (Fallback { urls, next: 1 }, FallbackStep::Try(first))
    }

    /// Takes the outcome of the last try: a success ends the fetch with it; a
    /// failure moves on to the next address, or ends with that failure when
    /// there is none.
    pub fn on_outcome<T>(&mut self, outcome: Result<T, String>) -> (r: FallbackStep<T>)
        requires
            old(self).wf(),
        ensures
            final(self).wf(),
            match outcome {
                Ok(v) => r matches FallbackStep::Done(Ok(x)) && x == v,
                Err(e) => if old(self).remaining().len() == 0 {
                    r matches FallbackStep::Done(Err(x)) && x@ == e@
                } else {
                    &&& r matches FallbackStep::Try(u) && u@ == old(self).remaining()[0]
                    &&& final(self).remaining() == old(self).remaining().drop_first()
                },
            },
    {
        match outcome {
            Ok(v) => FallbackStep::Done(Ok(v)),
            Err(e) => {
                if self.next >= self.urls.len() {
                    assert(self.remaining().len() == 0);
                    return FallbackStep::Done(Err(e));
                }
                let u = self.urls[self.next].clone();
                let ghost before = self.remaining();
                self.next = self.next + 1;
                assert(self.remaining() =~= before.drop_first());
                FallbackStep::Try(u)
            },
        }
    }
}

} // verus!
