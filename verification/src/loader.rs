//! What the plugin loader decides: which files are plugins, what runtime
//! each needs, what it is called, and what is recorded about it.
use vstd::prelude::*;
use crate::json::{get_str_or, member_str, JsonValue};
use crate::manager::{
    PluginInfo, TOPIC_MESSAGE, TOPIC_META_EVENT, TOPIC_NOTICE, TOPIC_REQUEST, TOPIC_SEND,
    TOPIC_TASK,
};
use crate::text::{
    chars_of, ends_with_chars, has_suffix, str_eq, string_of, strip_prefix_chars,
    strip_prefix_or_keep, trim_end_all, trim_end_chars,
};
use crate::webui::str_views;

verus! {

/// The runtime a plugin file needs.
#[derive(Debug, Clone, Copy, PartialEq, Eq, Structural)]
pub enum PluginKind {
    /// A native library (`.dll`, `.so`).
    Native,
    /// A Python script (`.py`).
    Python,
    /// A Java archive (`.jar`).
    Jvm,
    /// A JavaScript file (`.js`).
    QuickJs,
    /// Anything else.
    Unsupported,
}

/// Which embedded runtimes this build has.
#[derive(Debug, Clone, Copy, PartialEq, Eq, Structural)]
pub struct RuntimeSupport {
    pub python: bool,
    pub java: bool,
    pub quickjs: bool,
}

/// Loads the plugins of one directory.
pub struct PluginLoader {
    pub plugin_dir: String,
}

impl PluginLoader {
    /// A loader for the plugins in `plugin_dir`.
    pub fn new(plugin_dir: &str) -> (r: PluginLoader)
        ensures
            r.plugin_dir@ == plugin_dir@,
    {
        PluginLoader { plugin_dir: plugin_dir.to_owned() }
    }
}

/// The last position of `c` in `s`.
pub open spec fn last_index_of(s: Seq<char>, c: char) -> Option<int>
    decreases s.len(),
{
    if s.len() == 0 {
        None
    } else if s.last() == c {
        Some(s.len() - 1)
    } else {
        last_index_of(s.drop_last(), c)
    }
}

/// `Path::extension` of a file name: the text after its last `.`, unless
/// that dot starts the name.
pub open spec fn extension_of(file_name: Seq<char>) -> Option<Seq<char>> {
    match last_index_of(file_name, '.') {
        Some(i) => if i == 0 {
            None
        } else {
            Some(file_name.skip(i + 1))
        },
        None => None,
    }
}

/// The runtime a file needs, by its extension.
pub open spec fn kind_of(file_name: Seq<char>) -> PluginKind {
    match extension_of(file_name) {
        Some(e) => if e == "dll"@ || e == "so"@ {
            PluginKind::Native
        } else if e == "py"@ {
            PluginKind::Python
        } else if e == "jar"@ {
            PluginKind::Jvm
        } else if e == "js"@ {
            PluginKind::QuickJs
        } else {
            PluginKind::Unsupported
        },
        None => PluginKind::Unsupported,
    }
}

/// Whether a directory entry is loaded as a plugin: a file whose runtime
/// this build has.
pub open spec fn loads_as_plugin(file_name: Seq<char>, is_file: bool, support: RuntimeSupport) -> bool {
    is_file && match kind_of(file_name) {
        PluginKind::Native => true,
        PluginKind::Python => support.python,
        PluginKind::Jvm => support.java,
        PluginKind::QuickJs => support.quickjs,
        PluginKind::Unsupported => false,
    }
}

/// The extension of a file name.
pub fn extension(file_name: &str) -> (r: Option<String>)
    ensures
        match r {
            Some(e) => extension_of(file_name@) == Some(e@),
            None => extension_of(file_name@) is None,
        },
{
    let cs = chars_of(file_name);
    let mut i = cs.len();
    assert(cs@.take(i as int) =~= cs@);
    while i > 0 && cs[i - 1] != '.'
        invariant
            i <= cs@.len(),
            last_index_of(cs@, '.') == last_index_of(cs@.take(i as int), '.'),
        decreases i,
    {
        assert(cs@.take(i as int).drop_last() =~= cs@.take(i - 1));
        i = i - 1;
    }
    if i == 0 {
        return None;
    }
    assert(cs@.take(i as int).last() == '.');
    if i == 1 {
        return None;
    }
    let e = crate::text::slice_chars(cs.as_slice(), i, cs.len());
    assert(e@ =~= cs@.skip(i as int));
    Some(string_of(e.as_slice()))
}

/// The runtime a file needs.
pub fn plugin_kind(file_name: &str) -> (r: PluginKind)
    ensures
        r == kind_of(file_name@),
{
    match extension(file_name) {
        Some(e) => {
            let e = e.as_str();
            if str_eq(e, "dll") || str_eq(e, "so") {
                PluginKind::Native
            } else if str_eq(e, "py") {
                PluginKind::Python
            } else if str_eq(e, "jar") {
                PluginKind::Jvm
            } else if str_eq(e, "js") {
                PluginKind::QuickJs
            } else {
                PluginKind::Unsupported
            }
        },
        None => PluginKind::Unsupported,
    }
}

/// Whether a directory entry is loaded as a plugin.
pub fn is_plugin_file(file_name: &str, is_file: bool, support: RuntimeSupport) -> (r: bool)
    ensures
        r == loads_as_plugin(file_name@, is_file, support),
{
    if !is_file {
        return false;
    }
    match plugin_kind(file_name) {
        PluginKind::Native => true,
        PluginKind::Python => support.python,
        PluginKind::Jvm => support.java,
        PluginKind::QuickJs => support.quickjs,
        PluginKind::Unsupported => false,
    }
}

/// The display name of a native library: without `.so` or `.dll` (as often
/// as it repeats) and without a leading `lib`.
pub open spec fn display_name_spec(file_name: Seq<char>) -> Seq<char> {
    let n = if has_suffix(file_name, ".so"@) {
        trim_end_all(file_name, ".so"@)
    } else if has_suffix(file_name, ".dll"@) {
        trim_end_all(file_name, ".dll"@)
    } else {
        file_name
    };
    strip_prefix_or_keep(n, "lib"@)
}

/// The display name of a native library.
pub fn extract_display_name(file_name: &str) -> (r: String)
    ensures
        r@ == display_name_spec(file_name@),
{
    proof {
        reveal_strlit(".so");
        reveal_strlit(".dll");
    }
    let cs = chars_of(file_name);
    let so = chars_of(".so");
    let dll = chars_of(".dll");
    let n = if ends_with_chars(cs.as_slice(), so.as_slice()) {
        trim_end_chars(cs.as_slice(), so.as_slice())
    } else if ends_with_chars(cs.as_slice(), dll.as_slice()) {
        trim_end_chars(cs.as_slice(), dll.as_slice())
    } else {
        cs
    };
    string_of(strip_prefix_chars(n.as_slice(), chars_of("lib").as_slice()).as_slice())
}

/// The name of a script plugin: the file name without its extension (as
/// often as it repeats).
pub fn script_name(file_name: &str, extension: &str) -> (r: String)
    requires
        extension@.len() > 0,
    ensures
        r@ == trim_end_all(file_name@, extension@),
{
    string_of(trim_end_chars(chars_of(file_name).as_slice(), chars_of(extension).as_slice()).as_slice())
}

/// What is recorded about a plugin file that is not (or cannot be) run.
pub fn make_info(file_name: &str, path: &str, id: usize, enabled: bool) -> (r: PluginInfo)
    ensures
        r.id == id,
        r.name@ == file_name@,
        r.version@.len() == 0,
        r.enabled == enabled,
        r.path matches Some(p) && p@ == path@,
        r.priority == 0,
        !r.block_enabled,
        !r.active,
{
    PluginInfo {
        id,
        name: file_name.to_owned(),
        version: String::new(),
        enabled,
        path: Some(path.to_owned()),
        priority: 0,
        block_enabled: false,
        active: false,
    }
}

/// What is recorded about a native plugin: it runs when it has an entry
/// point.
pub fn native_info(file_name: &str, path: &str, id: usize, has_main: bool) -> (r: PluginInfo)
    ensures
        r.id == id,
        r.name@ == display_name_spec(file_name@),
        r.version@.len() == 0,
        r.enabled == has_main,
        r.path matches Some(p) && p@ == path@,
        r.priority == 0,
        !r.block_enabled,
        r.active == has_main,
{
    PluginInfo {
        id,
        name: extract_display_name(file_name),
        version: String::new(),
        enabled: has_main,
        path: Some(path.to_owned()),
        priority: 0,
        block_enabled: false,
        active: has_main,
    }
}

/// The topics a plugin is subscribed to, in order.
pub open spec fn subscriber_topics_spec() -> Seq<Seq<char>> {
    seq![
        "luo9_message"@,
        "luo9_notice"@,
        "luo9_meta_event"@,
        "luo9_request"@,
        "luo9_task"@,
        "luo9_send"@,
    ]
}

/// The topics a plugin is subscribed to, in order.
pub fn subscriber_topics() -> (r: Vec<&'static str>)
    ensures
        str_views(r@) == subscriber_topics_spec(),
{
    let r = vec![TOPIC_MESSAGE, TOPIC_NOTICE, TOPIC_META_EVENT, TOPIC_REQUEST, TOPIC_TASK, TOPIC_SEND];
    assert(str_views(r@) =~= subscriber_topics_spec());
    r
}

/// The subscriptions that succeeded, in order.
pub open spec fn succeeded(results: Seq<(Seq<char>, Option<usize>)>) -> Seq<(Seq<char>, usize)>
    decreases results.len(),
{
    if results.len() == 0 {
        Seq::empty()
    } else {
        let rest = succeeded(results.drop_last());
        match results.last().1 {
            Some(id) => rest.push((results.last().0, id)),
            None => rest,
        }
    }
}

/// The plain views of subscription results.
pub open spec fn result_views(s: Seq<(String, Option<usize>)>) -> Seq<(Seq<char>, Option<usize>)> {
    s.map_values(|p: (String, Option<usize>)| (p.0@, p.1))
}

/// Keeps the subscriptions that succeeded (a failed one is left out).
pub fn collect_subscriptions(results: Vec<(String, Option<usize>)>) -> (r: Vec<(String, usize)>)
    ensures
        crate::manager::sub_views(r@) == succeeded(result_views(results@)),
{
    let ghost all = result_views(results@);
    let mut results = results;
    let total = results.len();
    let mut out: Vec<(String, usize)> = Vec::new();
    let mut i: usize = 0;
    assert(all.take(0) =~= Seq::<(Seq<char>, Option<usize>)>::empty());
    assert(crate::manager::sub_views(out@) =~= Seq::<(Seq<char>, usize)>::empty());
    while results.len() > 0
        invariant
            i + results@.len() == all.len(),
            all.len() == total,
            result_views(results@) == all.skip(i as int),
            crate::manager::sub_views(out@) == succeeded(all.take(i as int)),
        decreases results.len(),
    {
        let ghost before = results@;
        let (topic, id) = results.remove(0);
        assert(result_views(before)[0] == (topic@, id));
        assert((topic@, id) == all[i as int]);
        assert(all.take(i + 1).drop_last() =~= all.take(i as int));
        let ghost out_before = out@;
        match id {
            Some(n) => {
                out.push((topic, n));
                assert(crate::manager::sub_views(out@) =~= crate::manager::sub_views(out_before).push(
                    (all[i as int].0, n),
                ));
            },
            None => {},
        }
        assert forall|k: int| 0 <= k < results@.len() implies #[trigger] result_views(results@)[k] == all.skip(i + 1)[k] by {
            assert(results@[k] == before[k + 1]);
            assert(result_views(before)[k + 1] == all.skip(i as int)[k + 1]);
        }
        assert(result_views(results@) =~= all.skip(i + 1));
        i = i + 1;
    }
    assert(all.take(i as int) =~= all);
    out
}

/// A reply to the version query: `{"action": "response", "name": ..,
/// "version": ..}` with a non-empty name gives the name and the version
/// (`Unknown` when it is missing).
pub open spec fn version_reply_spec(resp: JsonValue) -> Option<(Seq<char>, Seq<char>)> {
    let action = match member_str(resp, "action"@) {
        Some(a) => a,
        None => Seq::empty(),
    };
    let name = match member_str(resp, "name"@) {
        Some(n) => n,
        None => Seq::empty(),
    };
    let version = match member_str(resp, "version"@) {
        Some(v) => v,
        None => "Unknown"@,
    };
    if action == "response"@ && name.len() > 0 {
        Some((name, version))
    } else {
        None
    }
}

/// Reads a reply to the version query.
pub fn version_reply(resp: &JsonValue) -> (r: Option<(String, String)>)
    ensures
        match r {
            Some(p) => version_reply_spec(*resp) == Some((p.0@, p.1@)),
            None => version_reply_spec(*resp) is None,
        },
{
    proof {
        reveal_strlit("");
    }
    let action = get_str_or(resp, "action", "");
    assert(""@ =~= Seq::<char>::empty());
    if !str_eq(action.as_str(), "response") {
        assert(version_reply_spec(*resp) is None);
        return None;
    }
    let name = get_str_or(resp, "name", "");
    if name.as_str().is_empty() {
        assert(version_reply_spec(*resp) is None);
        return None;
    }
    let version = get_str_or(resp, "version", "Unknown");
    assert(version_reply_spec(*resp) == Some((name@, version@)));
    Some((name, version))
}

} // verus!
