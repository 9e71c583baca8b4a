//! Port-forwarding tunnel definitions, their merging and validation,
//! SSH command import, runtime state bookkeeping and the decisions made
//! when tunnels are started, inspected and stopped.

pub mod answers;
pub mod commands;
pub mod config;
pub mod dashboard;
pub mod display;
pub mod doctor;
pub mod edit;
pub mod lsof;
pub mod operations;
pub mod order;
pub mod overrides;
pub mod paths;
pub mod report;
pub mod runtime_paths;
pub mod selection;
pub mod ssh_import;
pub mod state;
pub mod strings;
pub mod table;
pub mod tags;
pub mod targets;
pub mod tunnel;
pub mod text;
pub mod validate;
pub mod workspace;
