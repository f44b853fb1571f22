//! A manager for precompiled Rust libraries.

pub mod artifacts;
pub mod compose;
pub mod comptime;
pub mod comptime_laws;
pub mod config;
pub mod config_laws;
pub mod dialog;
pub mod dialog_laws;
pub mod folder;
pub mod folder_laws;
pub mod help;
pub mod list;
pub mod list_laws;
pub mod making;
pub mod making_flow;
pub mod making_laws;
pub mod manifest;
pub mod manifest_laws;
pub mod order;
pub mod registry;
pub mod request;
pub mod request_laws;
pub mod run;
pub mod run_flow;
pub mod run_laws;
pub mod search;
pub mod session;
pub mod session_laws;
pub mod templates;
pub mod testing;
pub mod testing_flow;
pub mod testing_laws;
pub mod text;
pub mod text_laws;
pub mod upkeep;
pub mod upkeep_flow;
pub mod upkeep_laws;
