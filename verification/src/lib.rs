use vstd::prelude::*;

pub mod json;
pub mod json_text;
pub mod text;
pub mod paths;
pub mod remote;
pub mod remote_commands;
pub mod remote_control;
pub mod capture;
pub mod sanitize;
pub mod codex;
pub mod web;
pub mod chat_bridge;
pub mod responses;
pub mod response_stream;
pub mod bridge_service;
pub mod provider;
pub mod provider_snapshot;
pub mod settings;
pub mod usage;
pub mod desktop;
pub mod storage;
pub mod usage_index;
pub mod pricing;
pub mod dates;
pub mod local_usage;
pub mod cost_scan;
pub mod environment;
pub mod assoc;
pub mod cost_report;
pub mod project_report;
pub mod ranked;
pub mod rate_limits;
pub mod thread_merge;

verus! {

} // verus!
