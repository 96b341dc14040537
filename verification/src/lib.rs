use vstd::prelude::*;

pub mod adapter_settings;
pub mod adapter_yaml;
pub mod adapters;
pub mod article;
pub mod base64_save;
pub mod autostart;
pub mod batch;
pub mod bg_fetch;
pub mod browser;
pub mod calendar;
pub mod command;
pub mod connect;
pub mod daemon_http;
pub mod dash;
pub mod download;
pub mod dump;
pub mod engine;
pub mod entry_usage;
pub mod error;
pub mod extension;
pub mod ext_messages;
pub mod feedback;
pub mod helpers;
pub mod index;
pub mod issues;
pub mod jobs;
pub mod navigate;
pub mod json;
pub mod json_text;
pub mod kv;
pub mod kv_cli;
pub mod kv_steps;
pub mod order;
pub mod page_steps;
pub mod plugin;
pub mod socket_rpc;
pub mod steps;
pub mod tasks;
pub mod text;
pub mod tools;
pub mod update;
pub mod ytdlp;

verus! {

/// Default TCP address of the adapter daemon.
pub fn default_addr() -> (r: String)
    ensures
        r@ == "127.0.0.1:10008"@,
{
    String::from_str("127.0.0.1:10008")
}

} // verus!
