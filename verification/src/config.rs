//! The bot's configuration: its sections, their defaults, the per-plugin
//! entries, and the partial updates the web UI applies.
use vstd::prelude::*;
use crate::text::{decimal_text, push_decimal, push_str_text, str_eq};

verus! {

/// The NapCat connection.
pub struct NapcatConfig {
    pub ws_client_host: String,
    pub ws_client_port: u16,
    pub ws_server_host: String,
    pub ws_server_port: u16,
    pub timeout_seconds: u64,
    pub token: String,
}

/// Logging.
pub struct LoggingConfig {
    pub level: String,
}

/// A plugin's dispatch settings.
pub struct PluginEntry {
    pub name: String,
    pub priority: i32,
    pub block_enabled: bool,
}

/// Plugins.
pub struct PluginConfig {
    pub enabled: bool,
    pub plugin_dir: String,
    pub auto_load: bool,
    pub plugins: Vec<PluginEntry>,
}

/// The web UI.
pub struct WebuiConfig {
    pub enabled: bool,
    pub host: String,
    pub port: u16,
    pub token: String,
}

/// The whole configuration.
pub struct LNConfig {
    pub napcat: NapcatConfig,
    pub logging: LoggingConfig,
    pub plugins: PluginConfig,
    pub webui: WebuiConfig,
}

/// Changes to the NapCat connection.
pub struct NapcatUpdate {
    pub ws_client_host: Option<String>,
    pub ws_client_port: Option<u16>,
    pub ws_server_host: Option<String>,
    pub ws_server_port: Option<u16>,
    pub timeout_seconds: Option<u64>,
    pub token: Option<String>,
}

/// Changes to logging.
pub struct LoggingUpdate {
    pub level: Option<String>,
}

/// Changes to the plugin settings.
pub struct PluginsUpdate {
    pub enabled: Option<bool>,
    pub plugin_dir: Option<String>,
    pub auto_load: Option<bool>,
}

/// Changes to the web UI.
pub struct WebuiUpdate {
    pub host: Option<String>,
    pub port: Option<u16>,
    pub token: Option<String>,
}

/// A partial change of the configuration: each given value replaces the
/// current one.
pub struct ConfigUpdate {
    pub napcat: Option<NapcatUpdate>,
    pub logging: Option<LoggingUpdate>,
    pub plugins: Option<PluginsUpdate>,
    pub webui: Option<WebuiUpdate>,
}

/// Whether `after` is `before` with the given values of `u` put in.
pub open spec fn napcat_updated(before: NapcatConfig, u: Option<NapcatUpdate>, after: NapcatConfig) -> bool {
    &&& after.ws_client_host@ == match u {
        Some(x) => match x.ws_client_host {
            Some(v) => v@,
            None => before.ws_client_host@,
        },
        None => before.ws_client_host@,
    }
    &&& after.ws_client_port == match u {
        Some(x) => match x.ws_client_port {
            Some(v) => v,
            None => before.ws_client_port,
        },
        None => before.ws_client_port,
    }
    &&& after.ws_server_host@ == match u {
        Some(x) => match x.ws_server_host {
            Some(v) => v@,
            None => before.ws_server_host@,
        },
        None => before.ws_server_host@,
    }
    &&& after.ws_server_port == match u {
        Some(x) => match x.ws_server_port {
            Some(v) => v,
            None => before.ws_server_port,
        },
        None => before.ws_server_port,
    }
    &&& after.timeout_seconds == match u {
        Some(x) => match x.timeout_seconds {
            Some(v) => v,
            None => before.timeout_seconds,
        },
        None => before.timeout_seconds,
    }
    &&& after.token@ == match u {
        Some(x) => match x.token {
            Some(v) => v@,
            None => before.token@,
        },
        None => before.token@,
    }
}

/// Whether `after` is `before` with the given values of `u` put in.
pub open spec fn logging_updated(before: LoggingConfig, u: Option<LoggingUpdate>, after: LoggingConfig) -> bool {
    &&& after.level@ == match u {
        Some(x) => match x.level {
            Some(v) => v@,
            None => before.level@,
        },
        None => before.level@,
    }
}

/// Whether `after` is `before` with the given values of `u` put in.
pub open spec fn plugins_updated(before: PluginConfig, u: Option<PluginsUpdate>, after: PluginConfig) -> bool {
    &&& after.enabled == match u {
        Some(x) => match x.enabled {
            Some(v) => v,
            None => before.enabled,
        },
        None => before.enabled,
    }
    &&& after.plugin_dir@ == match u {
        Some(x) => match x.plugin_dir {
            Some(v) => v@,
            None => before.plugin_dir@,
        },
        None => before.plugin_dir@,
    }
    &&& after.auto_load == match u {
        Some(x) => match x.auto_load {
            Some(v) => v,
            None => before.auto_load,
        },
        None => before.auto_load,
    }
    &&& entry_views(after.plugins@) == entry_views(before.plugins@)
}

/// Whether `after` is `before` with the given values of `u` put in.
pub open spec fn webui_updated(before: WebuiConfig, u: Option<WebuiUpdate>, after: WebuiConfig) -> bool {
    &&& after.host@ == match u {
        Some(x) => match x.host {
            Some(v) => v@,
            None => before.host@,
        },
        None => before.host@,
    }
    &&& after.port == match u {
        Some(x) => match x.port {
            Some(v) => v,
            None => before.port,
        },
        None => before.port,
    }
    &&& after.token@ == match u {
        Some(x) => match x.token {
            Some(v) => v@,
            None => before.token@,
        },
        None => before.token@,
    }
    &&& after.enabled == before.enabled
}

/// Whether `after` is `before` with the given values of `u` put in.
pub open spec fn config_updated(before: LNConfig, u: ConfigUpdate, after: LNConfig) -> bool {
    &&& napcat_updated(before.napcat, u.napcat, after.napcat)
    &&& logging_updated(before.logging, u.logging, after.logging)
    &&& plugins_updated(before.plugins, u.plugins, after.plugins)
    &&& webui_updated(before.webui, u.webui, after.webui)
}

/// Every value an update gives replaces the current one: after the update,
/// each field that the update sets holds the value it was set to.
pub proof fn law_given_values_replace(before: LNConfig, u: ConfigUpdate, after: LNConfig)
    requires
        config_updated(before, u, after),
    ensures
        u.napcat matches Some(x) ==> {
            &&& x.ws_client_host matches Some(v) ==> after.napcat.ws_client_host@ == v@
            &&& x.ws_client_port matches Some(v) ==> after.napcat.ws_client_port == v
            &&& x.ws_server_host matches Some(v) ==> after.napcat.ws_server_host@ == v@
            &&& x.ws_server_port matches Some(v) ==> after.napcat.ws_server_port == v
            &&& x.timeout_seconds matches Some(v) ==> after.napcat.timeout_seconds == v
            &&& x.token matches Some(v) ==> after.napcat.token@ == v@
        },
        u.logging matches Some(x) ==> (x.level matches Some(v) ==> after.logging.level@ == v@),
        u.plugins matches Some(x) ==> {
            &&& x.enabled matches Some(v) ==> after.plugins.enabled == v
            &&& x.plugin_dir matches Some(v) ==> after.plugins.plugin_dir@ == v@
            &&& x.auto_load matches Some(v) ==> after.plugins.auto_load == v
        },
        u.webui matches Some(x) ==> {
            &&& x.host matches Some(v) ==> after.webui.host@ == v@
            &&& x.port matches Some(v) ==> after.webui.port == v
            &&& x.token matches Some(v) ==> after.webui.token@ == v@
        },
{
}

/// Every value an update leaves out is kept: a section the update does not
/// name is unchanged, and so is each field of a named section that the
/// update does not set; the plugin entries and the web UI switch are never
/// changed by an update.
pub proof fn law_absent_values_kept(before: LNConfig, u: ConfigUpdate, after: LNConfig)
    requires
        config_updated(before, u, after),
    ensures
        u.napcat is None ==> {
            &&& after.napcat.ws_client_host@ == before.napcat.ws_client_host@
            &&& after.napcat.ws_client_port == before.napcat.ws_client_port
            &&& after.napcat.ws_server_host@ == before.napcat.ws_server_host@
            &&& after.napcat.ws_server_port == before.napcat.ws_server_port
            &&& after.napcat.timeout_seconds == before.napcat.timeout_seconds
            &&& after.napcat.token@ == before.napcat.token@
        },
        u.napcat matches Some(x) ==> {
            &&& x.ws_client_host is None ==> after.napcat.ws_client_host@ == before.napcat.ws_client_host@
            &&& x.ws_client_port is None ==> after.napcat.ws_client_port == before.napcat.ws_client_port
            &&& x.ws_server_host is None ==> after.napcat.ws_server_host@ == before.napcat.ws_server_host@
            &&& x.ws_server_port is None ==> after.napcat.ws_server_port == before.napcat.ws_server_port
            &&& x.timeout_seconds is None ==> after.napcat.timeout_seconds == before.napcat.timeout_seconds
            &&& x.token is None ==> after.napcat.token@ == before.napcat.token@
        },
        (u.logging is None || u.logging->0.level is None) ==> after.logging.level@
            == before.logging.level@,
        u.plugins is None ==> {
            &&& after.plugins.enabled == before.plugins.enabled
            &&& after.plugins.plugin_dir@ == before.plugins.plugin_dir@
            &&& after.plugins.auto_load == before.plugins.auto_load
        },
        u.plugins matches Some(x) ==> {
            &&& x.enabled is None ==> after.plugins.enabled == before.plugins.enabled
            &&& x.plugin_dir is None ==> after.plugins.plugin_dir@ == before.plugins.plugin_dir@
            &&& x.auto_load is None ==> after.plugins.auto_load == before.plugins.auto_load
        },
        entry_views(after.plugins.plugins@) == entry_views(before.plugins.plugins@),
        u.webui is None ==> {
            &&& after.webui.host@ == before.webui.host@
            &&& after.webui.port == before.webui.port
            &&& after.webui.token@ == before.webui.token@
        },
        u.webui matches Some(x) ==> {
            &&& x.host is None ==> after.webui.host@ == before.webui.host@
            &&& x.port is None ==> after.webui.port == before.webui.port
            &&& x.token is None ==> after.webui.token@ == before.webui.token@
        },
        after.webui.enabled == before.webui.enabled,
{
}

/// A plugin entry as plain values.
pub struct EntryView {
    pub name: Seq<char>,
    pub priority: i32,
    pub block_enabled: bool,
}

impl View for PluginEntry {
    type V = EntryView;

    open spec fn view(&self) -> EntryView {
        EntryView { name: self.name@, priority: self.priority, block_enabled: self.block_enabled }
    }
}

/// The plain views of plugin entries.
pub open spec fn entry_views(s: Seq<PluginEntry>) -> Seq<EntryView> {
    s.map_values(|e: PluginEntry| e@)
}

/// The position of the first entry named `name`.
pub open spec fn entry_index(es: Seq<EntryView>, name: Seq<char>) -> Option<int>
    decreases es.len(),
{
    if es.len() == 0 {
        None
    } else if es[0].name == name {
        Some(0)
    } else {
        match entry_index(es.drop_first(), name) {
            Some(i) => Some(i + 1),
            None => None,
        }
    }
}

/// The first match is at `i`.
pub proof fn lemma_entry_index_found(es: Seq<EntryView>, name: Seq<char>, i: int)
    requires
        0 <= i < es.len(),
        es[i].name == name,
        forall|j: int| 0 <= j < i ==> (#[trigger] es[j]).name != name,
    ensures
        entry_index(es, name) == Some(i),
    decreases i,
{
    if i > 0 {
        let rest = es.drop_first();
        assert forall|j: int| 0 <= j < i - 1 implies (#[trigger] rest[j]).name != name by {
            assert(rest[j] == es[j + 1]);
        }
        lemma_entry_index_found(rest, name, i - 1);
    }
}

/// No entry has that name.
pub proof fn lemma_entry_index_absent(es: Seq<EntryView>, name: Seq<char>)
    requires
        forall|j: int| 0 <= j < es.len() ==> (#[trigger] es[j]).name != name,
    ensures
        entry_index(es, name) is None,
    decreases es.len(),
{
    if es.len() > 0 {
        let rest = es.drop_first();
        assert forall|j: int| 0 <= j < rest.len() implies (#[trigger] rest[j]).name != name by {
            assert(rest[j] == es[j + 1]);
        }
        lemma_entry_index_absent(rest, name);
    }
}

/// The entries after `e` is written: it replaces the first entry of its
/// name, or is added at the end.
pub open spec fn upserted(es: Seq<EntryView>, e: EntryView) -> Seq<EntryView> {
    match entry_index(es, e.name) {
        Some(i) => es.update(i, e),
        None => es.push(e),
    }
}

/// Where `entry_index` finds something, the entry has that name.
pub proof fn lemma_entry_index_is(es: Seq<EntryView>, name: Seq<char>)
    ensures
        entry_index(es, name) matches Some(i) ==> 0 <= i < es.len() && es[i].name == name
            && forall|j: int| 0 <= j < i ==> (#[trigger] es[j]).name != name,
    decreases es.len(),
{
    if es.len() > 0 && es[0].name != name {
        lemma_entry_index_is(es.drop_first(), name);
        let rest = es.drop_first();
        if let Some(k) = entry_index(rest, name) {
            assert forall|j: int| 0 <= j < k + 1 implies (#[trigger] es[j]).name != name by {
                if j > 0 {
                    assert(es[j] == rest[j - 1]);
                }
            }
        }
    }
}

/// Where `entry_index` finds nothing, no entry has the name.
pub proof fn lemma_entry_index_none(es: Seq<EntryView>, name: Seq<char>)
    ensures
        entry_index(es, name) is None ==> forall|j: int| 0 <= j < es.len() ==> (#[trigger] es[j]).name
            != name,
    decreases es.len(),
{
    if es.len() > 0 && es[0].name != name {
        lemma_entry_index_none(es.drop_first(), name);
        if entry_index(es, name) is None {
            assert forall|j: int| 0 <= j < es.len() implies (#[trigger] es[j]).name != name by {
                if j > 0 {
                    assert(es[j] == es.drop_first()[j - 1]);
                }
            }
        }
    }
}

/// Reading a plugin's entry after writing it gives what was written, and
/// the entries of other plugins read as before.
pub proof fn law_upsert_then_get(es: Seq<EntryView>, e: EntryView, other: Seq<char>)
    ensures
        entry_index(upserted(es, e), e.name) matches Some(k) && upserted(es, e)[k] == e,
        other != e.name ==> match (entry_index(upserted(es, e), other), entry_index(es, other)) {
            (Some(a), Some(b)) => upserted(es, e)[a] == es[b],
            (None, None) => true,
            _ => false,
        },
{
    lemma_entry_index_is(es, e.name);
    lemma_entry_index_none(es, e.name);
    lemma_entry_index_is(es, other);
    lemma_entry_index_none(es, other);
    let after = upserted(es, e);
    match entry_index(es, e.name) {
        Some(i) => {
            lemma_entry_index_found(after, e.name, i);
        },
        None => {
            lemma_entry_index_found(after, e.name, es.len() as int);
        },
    }
    if other != e.name {
        match entry_index(es, other) {
            Some(b) => {
                lemma_entry_index_found(after, other, b);
            },
            None => {
                lemma_entry_index_absent(after, other);
            },
        }
    }
}

/// The position of the first entry named `name`.
pub fn find_entry(entries: &Vec<PluginEntry>, name: &str) -> (r: Option<usize>)
    ensures
        match r {
            Some(i) => i < entries@.len() && entry_index(entry_views(entries@), name@) == Some(
                i as int,
            ),
            None => entry_index(entry_views(entries@), name@) is None,
        },
{
    let ghost es = entry_views(entries@);
    let mut i: usize = 0;
    while i < entries.len()
        invariant
            i <= entries@.len(),
            es == entry_views(entries@),
            forall|j: int| 0 <= j < i ==> (#[trigger] es[j]).name != name@,
        decreases entries.len() - i,
    {
        assert(es[i as int] == entries@[i as int]@);
        if str_eq(entries[i].name.as_str(), name) {
            proof {
                lemma_entry_index_found(es, name@, i as int);
            }
            return Some(i);
        }
        i = i + 1;
    }
    proof {
        lemma_entry_index_absent(es, name@);
    }
    None
}

/// Whether the web UI is on by default.
pub fn default_webui_enabled() -> (r: bool)
    ensures
        r,
{
    true
}

/// The address the web UI listens on by default.
pub fn default_webui_host() -> (r: String)
    ensures
        r@ == "0.0.0.0"@,
{
    "0.0.0.0".to_owned()
}

/// The port the web UI listens on by default.
pub fn default_webui_port() -> (r: u16)
    ensures
        r == 27080,
{
    27080
}

/// Whether plugins are on by default.
pub fn default_enabled() -> (r: bool)
    ensures
        !r,
{
    false
}

/// The plugin directory by default.
pub fn default_plugin_dir() -> (r: String)
    ensures
        r@ == "plugins"@,
{
    "plugins".to_owned()
}

/// Whether plugins are loaded at start by default.
pub fn default_auto_load() -> (r: bool)
    ensures
        r,
{
    true
}

impl Default for PluginConfig {
    fn default() -> (r: PluginConfig)
        ensures
            r.enabled == false,
            r.plugin_dir@ == "plugins"@,
            r.auto_load == true,
            r.plugins@.len() == 0,
    {
        PluginConfig {
            enabled: default_enabled(),
            plugin_dir: default_plugin_dir(),
            auto_load: default_auto_load(),
            plugins: Vec::new(),
        }
    }
}

impl Default for WebuiConfig {
    fn default() -> (r: WebuiConfig)
        ensures
            r.enabled == true,
            r.host@ == "0.0.0.0"@,
            r.port == 27080,
            r.token@.len() == 0,
    {
        WebuiConfig {
            enabled: default_webui_enabled(),
            host: default_webui_host(),
            port: default_webui_port(),
            token: String::new(),
        }
    }
}

/// `ws://host:port`.
pub open spec fn ws_url(host: Seq<char>, port: u16) -> Seq<char> {
    "ws://"@ + host + ":"@ + decimal_text(port as nat)
}

/// `ws://host:port`.
fn ws_url_of(host: &String, port: u16) -> (r: String)
    ensures
        r@ == ws_url(host@, port),
{
    let mut s = String::new();
    push_str_text(&mut s, "ws://");
    push_str_text(&mut s, host.as_str());
    push_str_text(&mut s, ":");
    push_decimal(&mut s, port as u64);
    assert(s@ =~= ws_url(host@, port));
    s
}

/// Which configuration file is read: the one the environment names, else
/// the one in the home directory when it exists, else `config/default.toml`.
pub fn choose_config_path(from_env: Option<String>, existing_home_file: Option<String>) -> (r: String)
    ensures
        r@ == match from_env {
            Some(p) => p@,
            None => match existing_home_file {
                Some(h) => h@,
                None => "config/default.toml"@,
            },
        },
{
    match from_env {
        Some(p) => p,
        None => match existing_home_file {
            Some(h) => h,
            None => "config/default.toml".to_owned(),
        },
    }
}

/// Puts the given values of `u` in place of the current ones.
fn apply_napcat_update(c: &mut NapcatConfig, u: Option<NapcatUpdate>)
    ensures
        napcat_updated(*old(c), u, *final(c)),
{
    if let Some(x) = u {
        if let Some(v) = x.ws_client_host {
            c.ws_client_host = v;
        }
        if let Some(v) = x.ws_client_port {
            c.ws_client_port = v;
        }
        if let Some(v) = x.ws_server_host {
            c.ws_server_host = v;
        }
        if let Some(v) = x.ws_server_port {
            c.ws_server_port = v;
        }
        if let Some(v) = x.timeout_seconds {
            c.timeout_seconds = v;
        }
        if let Some(v) = x.token {
            c.token = v;
        }
    }
}

/// Puts the given values of `u` in place of the current ones.
fn apply_logging_update(c: &mut LoggingConfig, u: Option<LoggingUpdate>)
    ensures
        logging_updated(*old(c), u, *final(c)),
{
    if let Some(x) = u {
        if let Some(v) = x.level {
            c.level = v;
        }
    }
}

/// Puts the given values of `u` in place of the current ones.
fn apply_plugins_update(c: &mut PluginConfig, u: Option<PluginsUpdate>)
    ensures
        plugins_updated(*old(c), u, *final(c)),
{
    if let Some(x) = u {
        if let Some(v) = x.enabled {
            c.enabled = v;
        }
        if let Some(v) = x.plugin_dir {
            c.plugin_dir = v;
        }
        if let Some(v) = x.auto_load {
            c.auto_load = v;
        }
    }
}

/// Puts the given values of `u` in place of the current ones.
fn apply_webui_update(c: &mut WebuiConfig, u: Option<WebuiUpdate>)
    ensures
        webui_updated(*old(c), u, *final(c)),
{
    if let Some(x) = u {
        if let Some(v) = x.host {
            c.host = v;
        }
        if let Some(v) = x.port {
            c.port = v;
        }
        if let Some(v) = x.token {
            c.token = v;
        }
    }
}

impl LNConfig {
    /// The address events are received from.
    pub fn receiver_url(&self) -> (r: String)
        ensures
            r@ == ws_url(self.napcat.ws_client_host@, self.napcat.ws_client_port),
    {
        ws_url_of(&self.napcat.ws_client_host, self.napcat.ws_client_port)
    }

    /// The address API calls are sent to.
    pub fn sender_url(&self) -> (r: String)
        ensures
            r@ == ws_url(self.napcat.ws_server_host@, self.napcat.ws_server_port),
    {
        ws_url_of(&self.napcat.ws_server_host, self.napcat.ws_server_port)
    }

    /// The first plugin entry named `name`.
    pub fn get_plugin_entry(&self, name: &str) -> (r: Option<&PluginEntry>)
        ensures
            match entry_index(entry_views(self.plugins.plugins@), name@) {
                Some(i) => r matches Some(e) && e@ == entry_views(self.plugins.plugins@)[i],
                None => r is None,
            },
    {
        match find_entry(&self.plugins.plugins, name) {
            Some(i) => {
                assert(self.plugins.plugins@[i as int]@ == entry_views(self.plugins.plugins@)[i as int]);
                Some(&self.plugins.plugins[i])
            },
            None => None,
        }
    }

    /// Replaces the first entry of the same name, or adds the entry.
    pub fn upsert_plugin_entry(&mut self, entry: PluginEntry)
        ensures
            entry_views(final(self).plugins.plugins@) == upserted(
                entry_views(old(self).plugins.plugins@),
                entry@,
            ),
    {
        let ghost before = entry_views(self.plugins.plugins@);
        let ghost ev = entry@;
        match find_entry(&self.plugins.plugins, entry.name.as_str()) {
            Some(i) => {
                self.plugins.plugins.set(i, entry);
                assert(entry_views(self.plugins.plugins@) =~= before.update(i as int, ev));
            },
            None => {
                self.plugins.plugins.push(entry);
                assert(entry_views(self.plugins.plugins@) =~= before.push(ev));
            },
        }
    }

    /// Puts the given values of `u` in place of the current ones.
    pub fn apply_update(&mut self, u: ConfigUpdate)
        ensures
            config_updated(*old(self), u, *final(self)),
    {
        apply_napcat_update(&mut self.napcat, u.napcat);
        apply_logging_update(&mut self.logging, u.logging);
        apply_plugins_update(&mut self.plugins, u.plugins);
        apply_webui_update(&mut self.webui, u.webui);
    }
}

} // verus!
