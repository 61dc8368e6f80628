//! The registry of loaded plugins: their descriptions, their run state, and
//! the priority order in which events are dispatched to them.
use vstd::prelude::*;
use crate::config::PluginEntry;
use crate::text::{concat3, decimal_text, push_decimal, push_str_text, str_eq};

verus! {

broadcast use vstd::seq_lib::to_multiset_insert;

/// The topic on which plugins receive messages.
pub const TOPIC_MESSAGE: &'static str = "luo9_message";
/// The topic on which plugins receive meta events.
pub const TOPIC_META_EVENT: &'static str = "luo9_meta_event";
/// The topic on which plugins receive notices.
pub const TOPIC_NOTICE: &'static str = "luo9_notice";
/// The topic on which plugins receive requests.
pub const TOPIC_REQUEST: &'static str = "luo9_request";
/// The topic on which plugins receive task events.
pub const TOPIC_TASK: &'static str = "luo9_task";
/// The topic on which plugins ask the bot to send something.
pub const TOPIC_SEND: &'static str = "luo9_send";

/// What is known of a plugin (shown by the web UI).
pub struct PluginInfo {
    pub id: usize,
    pub name: String,
    pub version: String,
    pub enabled: bool,
    pub path: Option<String>,
    pub priority: i32,
    pub block_enabled: bool,
    pub active: bool,
}

/// A running plugin: its dispatch settings and its subscriptions, by topic.
pub struct PluginHandle {
    pub name: String,
    pub priority: i32,
    pub block_enabled: bool,
    pub active: bool,
    pub path: String,
    pub subscriber_ids: Vec<(String, usize)>,
}

/// What disabling a plugin leaves for the caller to do: the message to
/// report, and the subscriptions to cancel on the bus before waiting for
/// the plugin to exit.
pub struct Disabled {
    pub message: String,
    pub subscriptions: Vec<(String, usize)>,
}

/// One plugin in the dispatch order.
pub struct DispatchEntry {
    pub name: String,
    pub priority: i32,
    pub block_enabled: bool,
    pub message_sub_id: Option<usize>,
    pub notice_sub_id: Option<usize>,
    pub meta_event_sub_id: Option<usize>,
}

/// A plugin description as plain values.
pub struct InfoView {
    pub id: usize,
    pub name: Seq<char>,
    pub version: Seq<char>,
    pub enabled: bool,
    pub path: Option<Seq<char>>,
    pub priority: i32,
    pub block_enabled: bool,
    pub active: bool,
}

/// A running plugin as plain values.
pub struct HandleView {
    pub name: Seq<char>,
    pub priority: i32,
    pub block_enabled: bool,
    pub active: bool,
    pub path: Seq<char>,
    pub subscriber_ids: Seq<(Seq<char>, usize)>,
}

/// A dispatch entry as plain values.
pub struct EntryView {
    pub name: Seq<char>,
    pub priority: i32,
    pub block_enabled: bool,
    pub message_sub_id: Option<usize>,
    pub notice_sub_id: Option<usize>,
    pub meta_event_sub_id: Option<usize>,
}

impl View for PluginInfo {
    type V = InfoView;

    open spec fn view(&self) -> InfoView {
        InfoView {
            id: self.id,
            name: self.name@,
            version: self.version@,
            enabled: self.enabled,
            path: match self.path {
                Some(p) => Some(p@),
                None => None,
            },
            priority: self.priority,
            block_enabled: self.block_enabled,
            active: self.active,
        }
    }
}

/// The plain view of subscriptions.
pub open spec fn sub_views(ids: Seq<(String, usize)>) -> Seq<(Seq<char>, usize)> {
    ids.map_values(|p: (String, usize)| (p.0@, p.1))
}

impl View for PluginHandle {
    type V = HandleView;

    open spec fn view(&self) -> HandleView {
        HandleView {
            name: self.name@,
            priority: self.priority,
            block_enabled: self.block_enabled,
            active: self.active,
            path: self.path@,
            subscriber_ids: sub_views(self.subscriber_ids@),
        }
    }
}

impl View for DispatchEntry {
    type V = EntryView;

    open spec fn view(&self) -> EntryView {
        EntryView {
            name: self.name@,
            priority: self.priority,
            block_enabled: self.block_enabled,
            message_sub_id: self.message_sub_id,
            notice_sub_id: self.notice_sub_id,
            meta_event_sub_id: self.meta_event_sub_id,
        }
    }
}

/// The plain views of plugin descriptions.
pub open spec fn info_views(s: Seq<PluginInfo>) -> Seq<InfoView> {
    s.map_values(|i: PluginInfo| i@)
}

/// The plain views of running plugins.
pub open spec fn handle_views(s: Seq<PluginHandle>) -> Seq<HandleView> {
    s.map_values(|h: PluginHandle| h@)
}

/// The plain views of dispatch entries.
pub open spec fn entry_views(s: Seq<DispatchEntry>) -> Seq<EntryView> {
    s.map_values(|e: DispatchEntry| e@)
}

// ───────────────────────── model ─────────────────────────

/// The subscription id for `topic`, if there is one.
pub open spec fn sub_id_of(ids: Seq<(Seq<char>, usize)>, topic: Seq<char>) -> Option<usize>
    decreases ids.len(),
{
    if ids.len() == 0 {
        None
    } else if ids[0].0 == topic {
        Some(ids[0].1)
    } else {
        sub_id_of(ids.drop_first(), topic)
    }
}

/// The dispatch entry of a running plugin.
pub open spec fn entry_of(h: HandleView) -> EntryView {
    EntryView {
        name: h.name,
        priority: h.priority,
        block_enabled: h.block_enabled,
        message_sub_id: sub_id_of(h.subscriber_ids, "luo9_message"@),
        notice_sub_id: sub_id_of(h.subscriber_ids, "luo9_notice"@),
        meta_event_sub_id: sub_id_of(h.subscriber_ids, "luo9_meta_event"@),
    }
}

/// The entries of the active plugins, in registration order.
pub open spec fn active_entries(hs: Seq<HandleView>) -> Seq<EntryView>
    decreases hs.len(),
{
    if hs.len() == 0 {
        Seq::empty()
    } else {
        let rest = active_entries(hs.drop_last());
        if hs.last().active {
            rest.push(entry_of(hs.last()))
        } else {
            rest
        }
    }
}

/// Whether the entries are in non-increasing priority.
pub open spec fn by_priority_desc(es: Seq<EntryView>) -> bool {
    forall|i: int, j: int| 0 <= i < j < es.len() ==> es[i].priority >= es[j].priority
}

/// The position of the first entry of `infos` named `name`.
pub open spec fn info_index(infos: Seq<InfoView>, name: Seq<char>) -> Option<int>
    decreases infos.len(),
{
    if infos.len() == 0 {
        None
    } else if infos[0].name == name {
        Some(0)
    } else {
        match info_index(infos.drop_first(), name) {
            Some(i) => Some(i + 1),
            None => None,
        }
    }
}

/// The position of the running plugin named `name`.
pub open spec fn handle_index(hs: Seq<HandleView>, name: Seq<char>) -> Option<int>
    decreases hs.len(),
{
    if hs.len() == 0 {
        None
    } else if hs[0].name == name {
        Some(0)
    } else {
        match handle_index(hs.drop_first(), name) {
            Some(i) => Some(i + 1),
            None => None,
        }
    }
}

/// No two running plugins share a name.
pub open spec fn unique_names(hs: Seq<HandleView>) -> bool {
    forall|i: int, j: int| 0 <= i < j < hs.len() ==> hs[i].name != hs[j].name
}

/// The count of active plugins.
pub open spec fn active_count(hs: Seq<HandleView>) -> nat
    decreases hs.len(),
{
    if hs.len() == 0 {
        0
    } else {
        active_count(hs.drop_last()) + if hs.last().active { 1nat } else { 0nat }
    }
}

/// The first match is at `i`.
pub proof fn lemma_info_index_found(infos: Seq<InfoView>, name: Seq<char>, i: int)
    requires
        0 <= i < infos.len(),
        infos[i].name == name,
        forall|j: int| 0 <= j < i ==> (#[trigger] infos[j]).name != name,
    ensures
        info_index(infos, name) == Some(i),
    decreases i,
{
    if i > 0 {
        let rest = infos.drop_first();
        assert forall|j: int| 0 <= j < i - 1 implies (#[trigger] rest[j]).name != name by {
            assert(rest[j] == infos[j + 1]);
        }
        lemma_info_index_found(rest, name, i - 1);
    }
}

/// No description has that name.
pub proof fn lemma_info_index_absent(infos: Seq<InfoView>, name: Seq<char>)
    requires
        forall|j: int| 0 <= j < infos.len() ==> (#[trigger] infos[j]).name != name,
    ensures
        info_index(infos, name) is None,
    decreases infos.len(),
{
    if infos.len() > 0 {
        let rest = infos.drop_first();
        assert forall|j: int| 0 <= j < rest.len() implies (#[trigger] rest[j]).name != name by {
            assert(rest[j] == infos[j + 1]);
        }
        lemma_info_index_absent(rest, name);
    }
}

/// The first match is at `i`.
pub proof fn lemma_handle_index_found(hs: Seq<HandleView>, name: Seq<char>, i: int)
    requires
        0 <= i < hs.len(),
        hs[i].name == name,
        forall|j: int| 0 <= j < i ==> (#[trigger] hs[j]).name != name,
    ensures
        handle_index(hs, name) == Some(i),
    decreases i,
{
    if i > 0 {
        let rest = hs.drop_first();
        assert forall|j: int| 0 <= j < i - 1 implies (#[trigger] rest[j]).name != name by {
            assert(rest[j] == hs[j + 1]);
        }
        lemma_handle_index_found(rest, name, i - 1);
    }
}

/// No running plugin has that name.
pub proof fn lemma_handle_index_absent(hs: Seq<HandleView>, name: Seq<char>)
    requires
        forall|j: int| 0 <= j < hs.len() ==> (#[trigger] hs[j]).name != name,
    ensures
        handle_index(hs, name) is None,
    decreases hs.len(),
{
    if hs.len() > 0 {
        let rest = hs.drop_first();
        assert forall|j: int| 0 <= j < rest.len() implies (#[trigger] rest[j]).name != name by {
            assert(rest[j] == hs[j + 1]);
        }
        lemma_handle_index_absent(rest, name);
    }
}

/// The first subscription for `topic` is at `i`.
pub proof fn lemma_sub_id_found(ids: Seq<(Seq<char>, usize)>, topic: Seq<char>, i: int)
    requires
        0 <= i < ids.len(),
        ids[i].0 == topic,
        forall|j: int| 0 <= j < i ==> (#[trigger] ids[j]).0 != topic,
    ensures
        sub_id_of(ids, topic) == Some(ids[i].1),
    decreases i,
{
    if i > 0 {
        let rest = ids.drop_first();
        assert forall|j: int| 0 <= j < i - 1 implies (#[trigger] rest[j]).0 != topic by {
            assert(rest[j] == ids[j + 1]);
        }
        lemma_sub_id_found(rest, topic, i - 1);
    }
}

/// No subscription for `topic`.
pub proof fn lemma_sub_id_absent(ids: Seq<(Seq<char>, usize)>, topic: Seq<char>)
    requires
        forall|j: int| 0 <= j < ids.len() ==> (#[trigger] ids[j]).0 != topic,
    ensures
        sub_id_of(ids, topic) is None,
    decreases ids.len(),
{
    if ids.len() > 0 {
        let rest = ids.drop_first();
        assert forall|j: int| 0 <= j < rest.len() implies (#[trigger] rest[j]).0 != topic by {
            assert(rest[j] == ids[j + 1]);
        }
        lemma_sub_id_absent(rest, topic);
    }
}

// ───────────────────────── executable ─────────────────────────

/// The subscription id for `topic`.
pub fn subscription_for(ids: &Vec<(String, usize)>, topic: &str) -> (r: Option<usize>)
    ensures
        r == sub_id_of(sub_views(ids@), topic@),
{
    let ghost v = sub_views(ids@);
    let mut i: usize = 0;
    while i < ids.len()
        invariant
            i <= ids@.len(),
            v == sub_views(ids@),
            forall|j: int| 0 <= j < i ==> (#[trigger] v[j]).0 != topic@,
        decreases ids.len() - i,
    {
        assert(v[i as int] == (ids@[i as int].0@, ids@[i as int].1));
        if str_eq(ids[i].0.as_str(), topic) {
            proof {
                lemma_sub_id_found(v, topic@, i as int);
            }
            return Some(ids[i].1);
        }
        i = i + 1;
    }
    proof {
        lemma_sub_id_absent(v, topic@);
    }
    None
}

impl PluginHandle {
    /// The subscriptions to cancel so that the plugin stops: every topic and
    /// its subscription id.
    pub fn unsubscribe_all(&self) -> (r: Vec<(String, usize)>)
        ensures
            sub_views(r@) == sub_views(self.subscriber_ids@),
    {
        let mut out: Vec<(String, usize)> = Vec::new();
        let mut i: usize = 0;
        while i < self.subscriber_ids.len()
            invariant
                i <= self.subscriber_ids@.len(),
                sub_views(out@) == sub_views(self.subscriber_ids@.take(i as int)),
            decreases self.subscriber_ids.len() - i,
        {
            let ghost before = out@;
            out.push((self.subscriber_ids[i].0.clone(), self.subscriber_ids[i].1));
            let ghost item = (self.subscriber_ids@[i as int].0@, self.subscriber_ids@[i as int].1);
            assert(sub_views(out@) =~= sub_views(before).push(item));
            assert(self.subscriber_ids@.take(i + 1) =~= self.subscriber_ids@.take(i as int).push(
                self.subscriber_ids@[i as int],
            ));
            assert(sub_views(self.subscriber_ids@.take(i + 1)) =~= sub_views(
                self.subscriber_ids@.take(i as int),
            ).push(item));
            i = i + 1;
        }
        assert(self.subscriber_ids@.take(i as int) =~= self.subscriber_ids@);
        out
    }

    /// The dispatch entry of this plugin.
    pub fn dispatch_entry(&self) -> (e: DispatchEntry)
        ensures
            e@ == entry_of(self@),
    {
        DispatchEntry {
            name: self.name.clone(),
            priority: self.priority,
            block_enabled: self.block_enabled,
            message_sub_id: subscription_for(&self.subscriber_ids, TOPIC_MESSAGE),
            notice_sub_id: subscription_for(&self.subscriber_ids, TOPIC_NOTICE),
            meta_event_sub_id: subscription_for(&self.subscriber_ids, TOPIC_META_EVENT),
        }
    }
}

/// The plugin registry.
pub struct PluginManager {
    plugin_infos: Vec<PluginInfo>,
    handles: Vec<PluginHandle>,
}

/// The registry as plain values.
pub struct ManagerView {
    pub infos: Seq<InfoView>,
    pub handles: Seq<HandleView>,
}

impl View for PluginManager {
    type V = ManagerView;

    closed spec fn view(&self) -> ManagerView {
        ManagerView { infos: info_views(self.plugin_infos@), handles: handle_views(self.handles@) }
    }
}

impl PluginManager {
    /// Running plugins are registered once per name.
    #[verifier::type_invariant]
    spec fn inv(&self) -> bool {
        unique_names(handle_views(self.handles@))
    }

    /// An empty registry.
    pub fn new() -> (m: PluginManager)
        ensures
            m@.infos == Seq::<InfoView>::empty(),
            m@.handles == Seq::<HandleView>::empty(),
    {
        let m = PluginManager { plugin_infos: Vec::new(), handles: Vec::new() };
        assert(m@.infos =~= Seq::<InfoView>::empty());
        assert(m@.handles =~= Seq::<HandleView>::empty());
        m
    }

    /// Records a plugin description.
    pub fn register_plugin(&mut self, info: PluginInfo)
        ensures
            final(self)@.infos == old(self)@.infos.push(info@),
            final(self)@.handles == old(self)@.handles,
    {
        proof {
            use_type_invariant(&*self);
        }
        let ghost old_infos = self@.infos;
        let mut infos = Vec::new();
        std::mem::swap(&mut infos, &mut self.plugin_infos);
        infos.push(info);
        assert(info_views(infos@) =~= old_infos.push(info@));
        self.plugin_infos = infos;
    }

    /// The position of the running plugin named `name`.
    fn handle_position(&self, name: &str) -> (r: Option<usize>)
        ensures
            match r {
                Some(i) => i < self@.handles.len() && handle_index(self@.handles, name@) == Some(
                    i as int,
                ),
                None => handle_index(self@.handles, name@) is None,
            },
    {
        let ghost hs = self@.handles;
        let mut i: usize = 0;
        while i < self.handles.len()
            invariant
                i <= self.handles@.len(),
                hs == handle_views(self.handles@),
                forall|j: int| 0 <= j < i ==> (#[trigger] hs[j]).name != name@,
            decreases self.handles.len() - i,
        {
            assert(hs[i as int] == self.handles@[i as int]@);
            if str_eq(self.handles[i].name.as_str(), name) {
                proof {
                    lemma_handle_index_found(hs, name@, i as int);
                }
                return Some(i);
            }
            i = i + 1;
        }
        proof {
            lemma_handle_index_absent(hs, name@);
        }
        None
    }

    /// The position of the first description named `name`.
    fn info_position(&self, name: &str) -> (r: Option<usize>)
        ensures
            match r {
                Some(i) => i < self@.infos.len() && info_index(self@.infos, name@) == Some(i as int),
                None => info_index(self@.infos, name@) is None,
            },
    {
        let ghost infos = self@.infos;
        let mut i: usize = 0;
        while i < self.plugin_infos.len()
            invariant
                i <= self.plugin_infos@.len(),
                infos == info_views(self.plugin_infos@),
                forall|j: int| 0 <= j < i ==> (#[trigger] infos[j]).name != name@,
            decreases self.plugin_infos.len() - i,
        {
            assert(infos[i as int] == self.plugin_infos@[i as int]@);
            if str_eq(self.plugin_infos[i].name.as_str(), name) {
                proof {
                    lemma_info_index_found(infos, name@, i as int);
                }
                return Some(i);
            }
            i = i + 1;
        }
        proof {
            lemma_info_index_absent(infos, name@);
        }
        None
    }

    /// Records a running plugin; one of the same name is replaced.
    pub fn register_handle(&mut self, handle: PluginHandle)
        ensures
            final(self)@.infos == old(self)@.infos,
            match handle_index(old(self)@.handles, handle@.name) {
                Some(i) => final(self)@.handles == old(self)@.handles.update(i, handle@),
                None => final(self)@.handles == old(self)@.handles.push(handle@),
            },
    {
        proof {
            use_type_invariant(&*self);
        }
        let ghost old_hs = self@.handles;
        let ghost hv = handle@;
        match self.handle_position(handle.name.as_str()) {
            Some(i) => {
                let mut hs = Vec::new();
                std::mem::swap(&mut hs, &mut self.handles);
                hs.set(i, handle);
                assert(handle_views(hs@) =~= old_hs.update(i as int, hv));
                proof {
                    let nv = old_hs.update(i as int, hv);
                    assert forall|a: int, b: int| 0 <= a < b < nv.len() implies nv[a].name
                        != nv[b].name by {
                        if a == i {
                            lemma_handle_index_unique(old_hs, hv.name, b);
                        } else if b == i {
                            lemma_handle_index_unique(old_hs, hv.name, a);
                        }
                    }
                }
                self.handles = hs;
            },
            None => {
                let mut hs = Vec::new();
                std::mem::swap(&mut hs, &mut self.handles);
                hs.push(handle);
                assert(handle_views(hs@) =~= old_hs.push(hv));
                proof {
                    let nv = old_hs.push(hv);
                    assert forall|a: int, b: int| 0 <= a < b < nv.len() implies nv[a].name
                        != nv[b].name by {
                        if b == old_hs.len() {
                            lemma_handle_index_none(old_hs, hv.name, a);
                        }
                    }
                }
                self.handles = hs;
            },
        }
    }

    /// The subscriptions of the running plugin named `name`, which are
    /// cancelled to stop it.
    pub fn subscriptions_of(&self, name: &str) -> (r: Option<Vec<(String, usize)>>)
        ensures
            match handle_index(self@.handles, name@) {
                Some(i) => r matches Some(v) && sub_views(v@) == self@.handles[i].subscriber_ids,
                None => r is None,
            },
    {
        match self.handle_position(name) {
            Some(i) => {
                assert(self.handles@[i as int]@ == self@.handles[i as int]);
                Some(self.handles[i].unsubscribe_all())
            },
            None => None,
        }
    }

    /// Every plugin description.
    pub fn get_all_plugins(&self) -> (r: &[PluginInfo])
        ensures
            info_views(r@) == self@.infos,
    {
        self.plugin_infos.as_slice()
    }

    /// The first description named `name`.
    pub fn get_plugin_info(&self, name: &str) -> (r: Option<&PluginInfo>)
        ensures
            match info_index(self@.infos, name@) {
                Some(i) => r matches Some(p) && p@ == self@.infos[i],
                None => r is None,
            },
    {
        match self.info_position(name) {
            Some(i) => {
                assert(self.plugin_infos@[i as int]@ == self@.infos[i as int]);
                Some(&self.plugin_infos[i])
            },
            None => None,
        }
    }

    /// Sets the version of the first description named `name`, if any.
    pub fn update_plugin_version(&mut self, name: &str, version: &str)
        ensures
            final(self)@.handles == old(self)@.handles,
            final(self)@.infos == match info_index(old(self)@.infos, name@) {
                Some(i) => old(self)@.infos.update(i, InfoView { version: version@, ..old(self)@.infos[i] }),
                None => old(self)@.infos,
            },
    {
        proof {
            use_type_invariant(&*self);
        }
        let ghost old_infos = self@.infos;
        match self.info_position(name) {
            Some(i) => {
                let mut infos = Vec::new();
                std::mem::swap(&mut infos, &mut self.plugin_infos);
                let old_info = infos.remove(i);
                let info = PluginInfo { version: version.to_owned(), ..old_info };
                infos.insert(i, info);
                assert(info_views(infos@) =~= old_infos.update(
                    i as int,
                    InfoView { version: version@, ..old_infos[i as int] },
                ));
                self.plugin_infos = infos;
            },
            None => {},
        }
    }

    /// Gives every description without a version the version `Unknown`.
    pub fn mark_unknown_versions(&mut self)
        ensures
            final(self)@.handles == old(self)@.handles,
            final(self)@.infos.len() == old(self)@.infos.len(),
            forall|i: int| 0 <= i < old(self)@.infos.len() ==> (#[trigger] final(self)@.infos[i])
                == if old(self)@.infos[i].version.len() == 0 {
                    InfoView { version: "Unknown"@, ..old(self)@.infos[i] }
                } else {
                    old(self)@.infos[i]
                },
    {
        proof {
            use_type_invariant(&*self);
        }
        let ghost old_infos = self@.infos;
        let mut infos = Vec::new();
        std::mem::swap(&mut infos, &mut self.plugin_infos);
        let mut i: usize = 0;
        while i < infos.len()
            invariant
                i <= infos@.len(),
                infos@.len() == old_infos.len(),
                forall|k: int| 0 <= k < i ==> (#[trigger] info_views(infos@)[k]) == if old_infos[k].version.len()
                    == 0 {
                    InfoView { version: "Unknown"@, ..old_infos[k] }
                } else {
                    old_infos[k]
                },
                forall|k: int| i <= k < infos@.len() ==> (#[trigger] info_views(infos@)[k]) == old_infos[k],
            decreases infos.len() - i,
        {
            assert(info_views(infos@)[i as int] == old_infos[i as int]);
            if infos[i].version.as_str().is_empty() {
                let ghost before = infos@;
                let old_info = infos.remove(i);
                let info = PluginInfo { version: "Unknown".to_owned(), ..old_info };
                let ghost iv = info@;
                infos.insert(i, info);
                assert(infos@ =~= before.update(i as int, infos@[i as int]));
                assert(info_views(infos@) =~= info_views(before).update(i as int, iv));
            }
            i = i + 1;
        }
        self.plugin_infos = infos;
    }

    /// Stops dispatching to the plugin named `name`: refused when there is no
    /// such running plugin or it is already inactive. On success it hands
    /// back every subscription of the plugin; the caller cancels each of them
    /// on the bus, which makes the plugin exit, and waits for it.
    pub fn disable_plugin(&mut self, name: &str) -> (r: Result<Disabled, String>)
        ensures
            match handle_index(old(self)@.handles, name@) {
                None => r matches Err(e) && e@ == "插件 "@ + name@ + " 不存在"@ && final(self)@
                    == old(self)@,
                Some(i) => if !old(self)@.handles[i].active {
                    r matches Err(e) && e@ == "插件 "@ + name@ + " 已经是禁用状态"@ && final(self)@
                        == old(self)@
                } else {
                    &&& r matches Ok(d) && d.message@ == "插件 "@ + name@ + " 已禁用"@ && sub_views(
                        d.subscriptions@,
                    ) == old(self)@.handles[i].subscriber_ids
                    &&& final(self)@.handles == deactivated(old(self)@.handles, i)
                    &&& final(self)@.infos == match info_index(old(self)@.infos, name@) {
                        Some(k) => old(self)@.infos.update(
                            k,
                            InfoView { active: false, ..old(self)@.infos[k] },
                        ),
                        None => old(self)@.infos,
                    }
                },
            },
    {
        proof {
            use_type_invariant(&*self);
        }
        let ghost old_hs = self@.handles;
        let ghost old_infos = self@.infos;
        let i = match self.handle_position(name) {
            Some(i) => i,
            None => return Err(concat3("插件 ", name, " 不存在")),
        };
        if !self.handles[i].active {
            assert(old_hs[i as int] == self.handles@[i as int]@);
            return Err(concat3("插件 ", name, " 已经是禁用状态"));
        }
        assert(old_hs[i as int] == self.handles@[i as int]@);
        let subscriptions = self.handles[i].unsubscribe_all();
        let mut hs = Vec::new();
        std::mem::swap(&mut hs, &mut self.handles);
        let h = hs.remove(i);
        let h2 = PluginHandle { active: false, ..h };
        hs.insert(i, h2);
        assert(handle_views(hs@) =~= old_hs.update(
            i as int,
            HandleView { active: false, ..old_hs[i as int] },
        ));
        assert(unique_names(handle_views(hs@))) by {
            let nv = handle_views(hs@);
            assert forall|a: int, b: int| 0 <= a < b < nv.len() implies nv[a].name != nv[b].name by {
                assert(nv[a].name == old_hs[a].name);
                assert(nv[b].name == old_hs[b].name);
            }
        }
        self.handles = hs;
        match self.info_position(name) {
            Some(k) => {
                let mut infos = Vec::new();
                std::mem::swap(&mut infos, &mut self.plugin_infos);
                let old_info = infos.remove(k);
                let info = PluginInfo { active: false, ..old_info };
                infos.insert(k, info);
                assert(info_views(infos@) =~= old_infos.update(
                    k as int,
                    InfoView { active: false, ..old_infos[k as int] },
                ));
                self.plugin_infos = infos;
            },
            None => {},
        }
        Ok(Disabled { message: concat3("插件 ", name, " 已禁用"), subscriptions })
    }

    /// The active plugins, highest priority first.
    pub fn get_dispatch_list(&self) -> (r: Vec<DispatchEntry>)
        ensures
            by_priority_desc(entry_views(r@)),
            entry_views(r@).to_multiset() == active_entries(self@.handles).to_multiset(),
    {
        let ghost hs = self@.handles;
        let mut out: Vec<DispatchEntry> = Vec::new();
        let mut i: usize = 0;
        assert(hs.take(0) =~= Seq::<HandleView>::empty());
        assert(entry_views(out@) =~= Seq::<EntryView>::empty());
        while i < self.handles.len()
            invariant
                i <= self.handles@.len(),
                hs == handle_views(self.handles@),
                by_priority_desc(entry_views(out@)),
                entry_views(out@).to_multiset() == active_entries(hs.take(i as int)).to_multiset(),
            decreases self.handles.len() - i,
        {
            assert(hs.take(i + 1).drop_last() =~= hs.take(i as int));
            assert(hs.take(i + 1).last() == self.handles@[i as int]@);
            let ghost prev = entry_views(out@);
            if self.handles[i].active {
                let e = self.handles[i].dispatch_entry();
                assert(active_entries(hs.take(i + 1)) == active_entries(hs.take(i as int)).push(e@));
                let mut pos: usize = 0;
                while pos < out.len() && out[pos].priority >= e.priority
                    invariant
                        pos <= out@.len(),
                        forall|k: int| 0 <= k < pos ==> (#[trigger] out@[k]).priority >= e.priority,
                    decreases out.len() - pos,
                {
                    pos = pos + 1;
                }
                let ghost before = entry_views(out@);
                let ghost ev = e@;
                out.insert(pos, e);
                assert(entry_views(out@) =~= before.insert(pos as int, ev));
                assert(before.insert(pos as int, ev).to_multiset() == before.to_multiset().insert(ev));
                assert(active_entries(hs.take(i as int)).push(ev).to_multiset()
                    == active_entries(hs.take(i as int)).to_multiset().insert(ev)) by {
                    vstd::seq_lib::to_multiset_build(active_entries(hs.take(i as int)), ev);
                }
                proof {
                    let after = entry_views(out@);
                    assert forall|a: int, b: int| 0 <= a < b < after.len() implies after[a].priority
                        >= after[b].priority by {
                        if b < pos {
                        } else if a < pos && b == pos {
                        } else if a < pos && b > pos {
                            assert(after[b] == before[b - 1]);
                        } else if a == pos {
                            assert(after[b] == before[b - 1]);
                            if b - 1 > pos {
                                assert(before[pos as int].priority >= before[b - 1].priority);
                            }
                        } else {
                            assert(after[a] == before[a - 1]);
                            assert(after[b] == before[b - 1]);
                        }
                    }
                }
            } else {
                assert(active_entries(hs.take(i + 1)) == active_entries(hs.take(i as int)));
            }
            i = i + 1;
        }
        assert(hs.take(i as int) =~= hs);
        out
    }

    /// Sets the priority of the plugin named `name`; refused when no
    /// description has that name.
    pub fn update_priority(&mut self, name: &str, priority: i32) -> (r: Result<(), String>)
        ensures
            final(self)@.handles == match handle_index(old(self)@.handles, name@) {
                Some(i) => old(self)@.handles.update(i, HandleView { priority, ..old(self)@.handles[i] }),
                None => old(self)@.handles,
            },
            match info_index(old(self)@.infos, name@) {
                Some(k) => r is Ok && final(self)@.infos == old(self)@.infos.update(
                    k,
                    InfoView { priority, ..old(self)@.infos[k] },
                ),
                None => r matches Err(e) && e@ == "插件 "@ + name@ + " 不存在"@ && final(self)@.infos
                    == old(self)@.infos,
            },
    {
        proof {
            use_type_invariant(&*self);
        }
        let ghost old_hs = self@.handles;
        let ghost old_infos = self@.infos;
        match self.handle_position(name) {
            Some(i) => {
                let mut hs = Vec::new();
                std::mem::swap(&mut hs, &mut self.handles);
                let h = hs.remove(i);
                hs.insert(i, PluginHandle { priority, ..h });
                assert(handle_views(hs@) =~= old_hs.update(
                    i as int,
                    HandleView { priority, ..old_hs[i as int] },
                ));
                assert(unique_names(handle_views(hs@))) by {
                    let nv = handle_views(hs@);
                    assert forall|a: int, b: int| 0 <= a < b < nv.len() implies nv[a].name
                        != nv[b].name by {
                        assert(nv[a].name == old_hs[a].name);
                        assert(nv[b].name == old_hs[b].name);
                    }
                }
                self.handles = hs;
            },
            None => {},
        }
        match self.info_position(name) {
            Some(k) => {
                let mut infos = Vec::new();
                std::mem::swap(&mut infos, &mut self.plugin_infos);
                let info = infos.remove(k);
                infos.insert(k, PluginInfo { priority, ..info });
                assert(info_views(infos@) =~= old_infos.update(
                    k as int,
                    InfoView { priority, ..old_infos[k as int] },
                ));
                self.plugin_infos = infos;
                Ok(())
            },
            None => Err(concat3("插件 ", name, " 不存在")),
        }
    }

    /// Sets whether the plugin named `name` blocks later plugins; refused
    /// when no description has that name.
    pub fn update_block(&mut self, name: &str, block_enabled: bool) -> (r: Result<(), String>)
        ensures
            final(self)@.handles == match handle_index(old(self)@.handles, name@) {
                Some(i) => old(self)@.handles.update(
                    i,
                    HandleView { block_enabled, ..old(self)@.handles[i] },
                ),
                None => old(self)@.handles,
            },
            match info_index(old(self)@.infos, name@) {
                Some(k) => r is Ok && final(self)@.infos == old(self)@.infos.update(
                    k,
                    InfoView { block_enabled, ..old(self)@.infos[k] },
                ),
                None => r matches Err(e) && e@ == "插件 "@ + name@ + " 不存在"@ && final(self)@.infos
                    == old(self)@.infos,
            },
    {
        proof {
            use_type_invariant(&*self);
        }
        let ghost old_hs = self@.handles;
        let ghost old_infos = self@.infos;
        match self.handle_position(name) {
            Some(i) => {
                let mut hs = Vec::new();
                std::mem::swap(&mut hs, &mut self.handles);
                let h = hs.remove(i);
                hs.insert(i, PluginHandle { block_enabled, ..h });
                assert(handle_views(hs@) =~= old_hs.update(
                    i as int,
                    HandleView { block_enabled, ..old_hs[i as int] },
                ));
                assert(unique_names(handle_views(hs@))) by {
                    let nv = handle_views(hs@);
                    assert forall|a: int, b: int| 0 <= a < b < nv.len() implies nv[a].name
                        != nv[b].name by {
                        assert(nv[a].name == old_hs[a].name);
                        assert(nv[b].name == old_hs[b].name);
                    }
                }
                self.handles = hs;
            },
            None => {},
        }
        match self.info_position(name) {
            Some(k) => {
                let mut infos = Vec::new();
                std::mem::swap(&mut infos, &mut self.plugin_infos);
                let info = infos.remove(k);
                infos.insert(k, PluginInfo { block_enabled, ..info });
                assert(info_views(infos@) =~= old_infos.update(
                    k as int,
                    InfoView { block_enabled, ..old_infos[k as int] },
                ));
                self.plugin_infos = infos;
                Ok(())
            },
            None => Err(concat3("插件 ", name, " 不存在")),
        }
    }

    /// `插件统计: 总数=<descriptions>, 活跃=<active plugins>`.
    pub fn get_stats(&self) -> (r: String)
        ensures
            r@ == "插件统计: 总数="@ + decimal_text(self@.infos.len()) + ", 活跃="@ + decimal_text(
                active_count(self@.handles),
            ),
    {
        let ghost hs = self@.handles;
        let mut active: usize = 0;
        let mut i: usize = 0;
        assert(hs.take(0) =~= Seq::<HandleView>::empty());
        while i < self.handles.len()
            invariant
                i <= self.handles@.len(),
                hs == handle_views(self.handles@),
                active == active_count(hs.take(i as int)),
                active <= i,
            decreases self.handles.len() - i,
        {
            assert(hs.take(i + 1).drop_last() =~= hs.take(i as int));
            assert(hs.take(i + 1).last() == self.handles@[i as int]@);
            if self.handles[i].active {
                active = active + 1;
            }
            i = i + 1;
        }
        assert(hs.take(i as int) =~= hs);
        let mut s = String::new();
        push_str_text(&mut s, "插件统计: 总数=");
        push_decimal(&mut s, self.plugin_infos.len() as u64);
        push_str_text(&mut s, ", 活跃=");
        push_decimal(&mut s, active as u64);
        assert(s@ =~= "插件统计: 总数="@ + decimal_text(self@.infos.len()) + ", 活跃="@
            + decimal_text(active_count(self@.handles)));
        s
    }

    /// Registers the loaded plugins, each taking its priority and blocking
    /// from the first configuration entry of its name, when there is one:
    /// the descriptions are appended in order, and the running plugins are
    /// registered in order, each replacing one of the same name.
    pub fn register_all(&mut self, infos: Vec<PluginInfo>, handles: Vec<PluginHandle>, entries: &Vec<PluginEntry>)
        ensures
            final(self)@.handles == registered_all(
                old(self)@.handles,
                handle_views(handles@),
                crate::config::entry_views(entries@),
            ),
            final(self)@.infos.len() == old(self)@.infos.len() + infos@.len(),
            forall|k: int| 0 <= k < old(self)@.infos.len() ==> #[trigger] final(self)@.infos[k]
                == old(self)@.infos[k],
            forall|k: int| 0 <= k < infos@.len() ==> #[trigger] final(self)@.infos[old(self)@.infos.len() + k]
                == configured_info(infos@[k]@, crate::config::entry_views(entries@)),
    {
        let ghost start = self@.infos;
        let ghost start_handles = self@.handles;
        let ghost ev = crate::config::entry_views(entries@);
        let mut infos = infos;
        let ghost all = infos@;
        let total = infos.len();
        let mut i: usize = 0;
        while infos.len() > 0
            invariant
                i + infos@.len() == all.len(),
                all.len() == total,
                infos@ == all.skip(i as int),
                ev == crate::config::entry_views(entries@),
                self@.infos.len() == start.len() + i,
                forall|k: int| 0 <= k < start.len() ==> #[trigger] self@.infos[k] == start[k],
                forall|k: int| 0 <= k < i ==> #[trigger] self@.infos[start.len() + k]
                    == configured_info(all[k]@, ev),
                self@.handles == start_handles,
            decreases infos.len(),
        {
            let ghost before = infos@;
            let info = infos.remove(0);
            assert(info == all[i as int]);
            let info = match crate::config::find_entry(entries, info.name.as_str()) {
                Some(e) => PluginInfo {
                    priority: entries[e].priority,
                    block_enabled: entries[e].block_enabled,
                    ..info
                },
                None => info,
            };
            self.register_plugin(info);
            assert(infos@ =~= all.skip(i + 1));
            i = i + 1;
        }
        let mut handles = handles;
        let ghost all_h = handle_views(handles@);
        let ghost total_h = handles@.len();
        assert(total_h == handles.len());
        let mut j: usize = 0;
        assert(all_h.take(0) =~= Seq::<HandleView>::empty());
        assert(all_h.skip(0) =~= all_h);
        while handles.len() > 0
            invariant
                self@.infos.len() == start.len() + all.len(),
                forall|k: int| 0 <= k < start.len() ==> #[trigger] self@.infos[k] == start[k],
                forall|k: int| 0 <= k < all.len() ==> #[trigger] self@.infos[start.len() + k]
                    == configured_info(all[k]@, ev),
                ev == crate::config::entry_views(entries@),
                j + handles@.len() == total_h,
                total_h <= usize::MAX,
                all_h.len() == total_h,
                handle_views(handles@) == all_h.skip(j as int),
                self@.handles == registered_all(start_handles, all_h.take(j as int), ev),
            decreases handles.len(),
        {
            let ghost before = handles@;
            assert(handle_views(before)[0] == before[0]@);
            assert(all_h.skip(j as int)[0] == all_h[j as int]);
            let h = handles.remove(0);
            assert(h@ == all_h[j as int]);
            let h = match crate::config::find_entry(entries, h.name.as_str()) {
                Some(e) => PluginHandle {
                    priority: entries[e].priority,
                    block_enabled: entries[e].block_enabled,
                    ..h
                },
                None => h,
            };
            assert(h@ == configured_handle(all_h[j as int], ev));
            self.register_handle(h);
            assert(all_h.take(j + 1).drop_last() =~= all_h.take(j as int));
            assert(all_h.take(j + 1).last() == all_h[j as int]);
            assert(handles@ =~= before.drop_first());
            assert forall|k: int| 0 <= k < handle_views(handles@).len() implies #[trigger] handle_views(
                handles@,
            )[k] == all_h.skip(j + 1)[k] by {
                assert(handle_views(before)[k + 1] == all_h.skip(j as int)[k + 1]);
            }
            assert(handle_views(handles@) =~= all_h.skip(j + 1));
            j = j + 1;
        }
        assert(all_h.take(j as int) =~= all_h);
    }
}

/// A running plugin with the priority and blocking of the first
/// configuration entry of its name, when there is one.
pub open spec fn configured_handle(h: HandleView, entries: Seq<crate::config::EntryView>) -> HandleView {
    match crate::config::entry_index(entries, h.name) {
        Some(e) => HandleView {
            priority: entries[e].priority,
            block_enabled: entries[e].block_enabled,
            ..h
        },
        None => h,
    }
}

/// The running plugins after `h` is registered: it replaces the one of the
/// same name, or is appended.
pub open spec fn registered(hs: Seq<HandleView>, h: HandleView) -> Seq<HandleView> {
    match handle_index(hs, h.name) {
        Some(i) => hs.update(i, h),
        None => hs.push(h),
    }
}

/// A registered plugin is found under its name, as it was registered.
pub proof fn law_registered_is_found(hs: Seq<HandleView>, h: HandleView)
    requires
        unique_names(hs),
    ensures
        handle_index(registered(hs, h), h.name) matches Some(i) && registered(hs, h)[i] == h,
{
    let after = registered(hs, h);
    match handle_index(hs, h.name) {
        Some(i) => {
            lemma_handle_index_is(hs, h.name);
            assert forall|j: int| 0 <= j < i implies (#[trigger] after[j]).name != h.name by {
                lemma_handle_index_unique(hs, h.name, j);
            }
            lemma_handle_index_found(after, h.name, i);
        },
        None => {
            assert forall|j: int| 0 <= j < hs.len() implies (#[trigger] after[j]).name != h.name by {
                lemma_handle_index_none(hs, h.name, j);
            }
            lemma_handle_index_found(after, h.name, hs.len() as int);
        },
    }
}

/// The running plugins after each of `new`, configured, is registered in
/// order.
pub open spec fn registered_all(
    hs: Seq<HandleView>,
    new: Seq<HandleView>,
    entries: Seq<crate::config::EntryView>,
) -> Seq<HandleView>
    decreases new.len(),
{
    if new.len() == 0 {
        hs
    } else {
        registered(registered_all(hs, new.drop_last(), entries), configured_handle(new.last(), entries))
    }
}

/// A description with the priority and blocking of the first configuration
/// entry of its name, when there is one.
pub open spec fn configured_info(info: InfoView, entries: Seq<crate::config::EntryView>) -> InfoView {
    match crate::config::entry_index(entries, info.name) {
        Some(e) => InfoView {
            priority: entries[e].priority,
            block_enabled: entries[e].block_enabled,
            ..info
        },
        None => info,
    }
}

/// Where `name` is first found, no earlier running plugin has it.
pub proof fn lemma_handle_index_unique(hs: Seq<HandleView>, name: Seq<char>, j: int)
    requires
        unique_names(hs),
        handle_index(hs, name) matches Some(i) && 0 <= j < hs.len() && j != i,
    ensures
        hs[j].name != name,
{
    let i = handle_index(hs, name)->0;
    lemma_handle_index_is(hs, name);
    assert(hs[i].name == name);
}

/// Without a match, no running plugin has the name.
pub proof fn lemma_handle_index_none(hs: Seq<HandleView>, name: Seq<char>, j: int)
    requires
        handle_index(hs, name) is None,
        0 <= j < hs.len(),
    ensures
        hs[j].name != name,
    decreases hs.len(),
{
    if j > 0 {
        assert(hs.drop_first()[j - 1] == hs[j]);
        lemma_handle_index_none(hs.drop_first(), name, j - 1);
    }
}

/// A match names a running plugin of that name.
pub proof fn lemma_handle_index_is(hs: Seq<HandleView>, name: Seq<char>)
    ensures
        handle_index(hs, name) matches Some(i) ==> 0 <= i < hs.len() && hs[i].name == name,
    decreases hs.len(),
{
    if hs.len() > 0 && hs[0].name != name {
        lemma_handle_index_is(hs.drop_first(), name);
    }
}

/// The running plugins with the one at `i` marked inactive.
pub open spec fn deactivated(hs: Seq<HandleView>, i: int) -> Seq<HandleView> {
    hs.update(i, HandleView { active: false, ..hs[i] })
}

/// A disabled plugin is no longer dispatched to: after the running plugin
/// at `i` is marked inactive, no dispatch entry bears its name (names being
/// unique).
pub proof fn law_disabled_plugin_not_dispatched(hs: Seq<HandleView>, i: int)
    requires
        unique_names(hs),
        0 <= i < hs.len(),
    ensures
        forall|k: int| 0 <= k < active_entries(deactivated(hs, i)).len()
            ==> (#[trigger] active_entries(deactivated(hs, i))[k]).name != hs[i].name,
{
    let after = deactivated(hs, i);
    assert forall|j: int| 0 <= j < after.len() && after[j].active implies after[j].name != hs[i].name by {
        if j != i {
            assert(after[j] == hs[j]);
        }
    }
    lemma_active_entries_from(after, hs[i].name);
}

/// Every dispatch entry comes from an active plugin: when no active plugin
/// has the name, no entry has it.
pub proof fn lemma_active_entries_from(hs: Seq<HandleView>, name: Seq<char>)
    requires
        forall|j: int| 0 <= j < hs.len() && hs[j].active ==> hs[j].name != name,
    ensures
        forall|k: int| 0 <= k < active_entries(hs).len() ==> (#[trigger] active_entries(hs)[k]).name
            != name,
    decreases hs.len(),
{
    if hs.len() > 0 {
        let init = hs.drop_last();
        assert forall|j: int| 0 <= j < init.len() && init[j].active implies init[j].name != name by {
            assert(init[j] == hs[j]);
        }
        lemma_active_entries_from(init, name);
        assert(hs.last() == hs[hs.len() - 1]);
    }
}

/// Changing a description's settings keeps where it is found: reading it
/// back by name gives the new settings.
pub proof fn law_update_then_get_info(infos: Seq<InfoView>, name: Seq<char>, new_info: InfoView)
    requires
        info_index(infos, name) is Some,
        new_info.name == name,
    ensures
        info_index(infos.update(info_index(infos, name)->0, new_info), name) == info_index(infos, name),
        infos.update(info_index(infos, name)->0, new_info)[info_index(infos, name)->0] == new_info,
{
    let k = info_index(infos, name)->0;
    lemma_info_index_is(infos, name);
    let after = infos.update(k, new_info);
    assert forall|j: int| 0 <= j < k implies (#[trigger] after[j]).name != name by {
        assert(after[j] == infos[j]);
    }
    lemma_info_index_found(after, name, k);
}

/// Where `info_index` finds something, that description has the name and
/// no earlier one does.
pub proof fn lemma_info_index_is(infos: Seq<InfoView>, name: Seq<char>)
    ensures
        info_index(infos, name) matches Some(i) ==> 0 <= i < infos.len() && infos[i].name == name
            && forall|j: int| 0 <= j < i ==> (#[trigger] infos[j]).name != name,
    decreases infos.len(),
{
    if infos.len() > 0 && infos[0].name != name {
        lemma_info_index_is(infos.drop_first(), name);
        let rest = infos.drop_first();
        if let Some(k) = info_index(rest, name) {
            assert forall|j: int| 0 <= j < k + 1 implies (#[trigger] infos[j]).name != name by {
                if j > 0 {
                    assert(infos[j] == rest[j - 1]);
                }
            }
        }
    }
}

/// The count of active plugins is the length of the dispatch list.
pub proof fn law_dispatch_list_counts_active(hs: Seq<HandleView>)
    ensures
        active_entries(hs).len() == active_count(hs),
    decreases hs.len(),
{
    if hs.len() > 0 {
        law_dispatch_list_counts_active(hs.drop_last());
    }
}

} // verus!
