//! The events handed to plugins, and the bus topic each kind goes to.
use vstd::prelude::*;
use crate::event::MetaEvent;
use crate::manager::{TOPIC_MESSAGE, TOPIC_META_EVENT, TOPIC_NOTICE, TOPIC_REQUEST};
use crate::message::Message;
use crate::notice::Notice;
use crate::request::Request;

verus! {

/// An event for the plugins.
pub enum PluginData {
    Message(Message),
    MetaEvent(MetaEvent),
    Notice(Notice),
    Request(Request),
}

/// The name of a kind of event.
pub open spec fn data_type_name(d: PluginData) -> Seq<char> {
    match d {
        PluginData::Message(_) => "Message"@,
        PluginData::MetaEvent(_) => "MetaEvent"@,
        PluginData::Notice(_) => "Notice"@,
        PluginData::Request(_) => "Request"@,
    }
}

/// The topic a kind of event is published on.
pub open spec fn data_topic(d: PluginData) -> Seq<char> {
    match d {
        PluginData::Message(_) => "luo9_message"@,
        PluginData::MetaEvent(_) => "luo9_meta_event"@,
        PluginData::Notice(_) => "luo9_notice"@,
        PluginData::Request(_) => "luo9_request"@,
    }
}

impl PluginData {
    /// The name of the kind of event.
    pub fn kind_name(&self) -> (r: &'static str)
        ensures
            r@ == data_type_name(*self),
    {
        match self {
            PluginData::Message(_) => "Message",
            PluginData::MetaEvent(_) => "MetaEvent",
            PluginData::Notice(_) => "Notice",
            PluginData::Request(_) => "Request",
        }
    }

    /// The topic the event is published on.
    pub fn topic(&self) -> (r: &'static str)
        ensures
            r@ == data_topic(*self),
    {
        match self {
            PluginData::Message(_) => TOPIC_MESSAGE,
            PluginData::MetaEvent(_) => TOPIC_META_EVENT,
            PluginData::Notice(_) => TOPIC_NOTICE,
            PluginData::Request(_) => TOPIC_REQUEST,
        }
    }

    /// The message, if this is one.
    pub fn as_message(&self) -> (r: Option<&Message>)
        ensures
            match *self {
                PluginData::Message(m) => r == Some(&m),
                _ => r is None,
            },
    {
        match self {
            PluginData::Message(m) => Some(m),
            _ => None,
        }
    }

    /// The meta event, if this is one.
    pub fn as_meta_event(&self) -> (r: Option<&MetaEvent>)
        ensures
            match *self {
                PluginData::MetaEvent(e) => r == Some(&e),
                _ => r is None,
            },
    {
        match self {
            PluginData::MetaEvent(e) => Some(e),
            _ => None,
        }
    }

    /// The notice, if this is one.
    pub fn as_notice(&self) -> (r: Option<&Notice>)
        ensures
            match *self {
                PluginData::Notice(n) => r == Some(&n),
                _ => r is None,
            },
    {
        match self {
            PluginData::Notice(n) => Some(n),
            _ => None,
        }
    }
}

} // verus!
