//! Capability sandbox for script plugins: permission-gated dispatch,
//! path jailing, SSRF-safe URL classification, bounded value marshalling,
//! a quota-checked key/value store, and the pure decision logic behind the
//! filesystem, network, process, storage and UI namespaces.

pub mod core_type;
pub mod element_bridge;
pub mod errors;
pub mod fs_rules;
pub mod http_rules;
pub mod i18n;
pub mod jail;
pub mod jar_manifest;
pub mod json_out;
pub mod log_pipeline;
pub mod log_rules;
pub mod models;
pub mod net_guard;
pub mod permissions;
pub mod plugins_rules;
pub mod process_rules;
pub mod semver;
pub mod server_jar;
pub mod storage;
pub mod text;
pub mod ui_rules;
pub mod update_helpers;
pub mod value;
