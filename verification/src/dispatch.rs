//! The dispatch of events to plugins: the list of active plugins in
//! priority order, and what is published for each kind of event.
use vstd::prelude::*;
use crate::event::MetaEvent;
use crate::manager::{entry_views, DispatchEntry, EntryView};
use crate::message::Message;
use crate::notice::Notice;
use crate::plugin_data::{data_topic, PluginData};
use crate::request::Request;

verus! {

/// The active plugins in the order events reach them.
pub struct DispatchList {
    entries: Vec<DispatchEntry>,
}

impl View for DispatchList {
    type V = Seq<EntryView>;

    closed spec fn view(&self) -> Seq<EntryView> {
        entry_views(self.entries@)
    }
}

/// The kinds of event a plugin can be subscribed to.
#[derive(Debug, Clone, Copy, PartialEq, Eq, Structural)]
pub enum EventKind {
    Message,
    Notice,
    MetaEvent,
}

/// Whether an entry is subscribed to a kind of event.
pub open spec fn subscribed(e: EntryView, kind: EventKind) -> bool {
    match kind {
        EventKind::Message => e.message_sub_id is Some,
        EventKind::Notice => e.notice_sub_id is Some,
        EventKind::MetaEvent => e.meta_event_sub_id is Some,
    }
}

/// The names of the entries subscribed to `kind`, in order.
pub open spec fn subscribed_names(es: Seq<EntryView>, kind: EventKind) -> Seq<Seq<char>>
    decreases es.len(),
{
    if es.len() == 0 {
        Seq::empty()
    } else {
        let rest = subscribed_names(es.drop_last(), kind);
        if subscribed(es.last(), kind) {
            rest.push(es.last().name)
        } else {
            rest
        }
    }
}

impl DispatchList {
    /// No plugins.
    pub fn new() -> (r: DispatchList)
        ensures
            r@ == Seq::<EntryView>::empty(),
    {
        let r = DispatchList { entries: Vec::new() };
        assert(r@ =~= Seq::<EntryView>::empty());
        r
    }

    /// The number of plugins in the list.
    pub fn len(&self) -> (n: usize)
        ensures
            n == self@.len(),
    {
        self.entries.len()
    }

    /// The plugins subscribed to `kind`, whose statistics a dispatch of that
    /// kind updates.
    pub fn subscribed_to(&self, kind: EventKind) -> (r: Vec<String>)
        ensures
            crate::webui::string_views(r@) == subscribed_names(self@, kind),
    {
        let ghost all = self@;
        let mut out: Vec<String> = Vec::new();
        let mut i: usize = 0;
        assert(all.take(0) =~= Seq::<EntryView>::empty());
        assert(crate::webui::string_views(out@) =~= Seq::<Seq<char>>::empty());
        while i < self.entries.len()
            invariant
                i <= self.entries@.len(),
                all == self@,
                crate::webui::string_views(out@) == subscribed_names(all.take(i as int), kind),
            decreases self.entries.len() - i,
        {
            assert(all.take(i + 1).drop_last() =~= all.take(i as int));
            assert(all.take(i + 1).last() == self.entries@[i as int]@);
            let e = &self.entries[i];
            let yes = match kind {
                EventKind::Message => e.message_sub_id.is_some(),
                EventKind::Notice => e.notice_sub_id.is_some(),
                EventKind::MetaEvent => e.meta_event_sub_id.is_some(),
            };
            if yes {
                let ghost before = out@;
                out.push(e.name.clone());
                assert(crate::webui::string_views(out@) =~= crate::webui::string_views(before).push(
                    e.name@,
                ));
            }
            i = i + 1;
        }
        assert(all.take(i as int) =~= all);
        out
    }
}

/// Replaces the dispatch list (when plugins are enabled, disabled or
/// reconfigured).
pub fn update_dispatch_list(list: &mut DispatchList, entries: Vec<DispatchEntry>)
    ensures
        final(list)@ == entry_views(entries@),
{
    list.entries = entries;
}

/// A message for the plugins, on the message topic.
pub fn dispatch_message(msg: Message) -> (r: PluginData)
    ensures
        r == PluginData::Message(msg),
        data_topic(r) == "luo9_message"@,
{
    PluginData::Message(msg)
}

/// A meta event for the plugins, on the meta-event topic.
pub fn dispatch_meta_event(event: MetaEvent) -> (r: PluginData)
    ensures
        r == PluginData::MetaEvent(event),
        data_topic(r) == "luo9_meta_event"@,
{
    PluginData::MetaEvent(event)
}

/// A notice for the plugins, on the notice topic.
pub fn dispatch_notice(notice: Notice) -> (r: PluginData)
    ensures
        r == PluginData::Notice(notice),
        data_topic(r) == "luo9_notice"@,
{
    PluginData::Notice(notice)
}

/// A request for the plugins, on the request topic.
pub fn dispatch_request(request: Request) -> (r: PluginData)
    ensures
        r == PluginData::Request(request),
        data_topic(r) == "luo9_request"@,
{
    PluginData::Request(request)
}

} // verus!
