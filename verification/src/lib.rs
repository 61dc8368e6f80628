//! The verified core of a QQ bot that talks OneBot v11 to NapCat and hands
//! events to plugins: reading events from JSON, routing them to plugins by
//! priority, the plugin registry and its install plans, the cron scheduler,
//! configuration updates, the log buffer and the web UI's request logic.
use vstd::prelude::*;

pub mod calendar;
pub mod config;
pub mod connection;
pub mod cron;
pub mod dispatch;
pub mod error;
pub mod event;
pub mod handler;
pub mod json;
pub mod loader;
pub mod logger;
pub mod manager;
pub mod message;
pub mod notice;
pub mod plugin_data;
pub mod registry;
pub mod request;
pub mod scheduler;
pub mod sender;
pub mod sub_type;
pub mod text;
pub mod webui;

verus! {

} // verus!
