//! The issue tracker in the directory format: one directory per issue,
//! a timeline of comments and tag changes per issue.
pub mod serdetime;
pub mod issue;
pub mod status_storage;
pub mod selection;
pub mod date_sort;
pub mod event_order;
pub mod merge;
pub mod source;
pub mod config;
pub mod vcs_status;
pub mod file_manager;
pub mod commands;
