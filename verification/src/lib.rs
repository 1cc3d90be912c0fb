//! A small issue tracker kept beside the source tree: issues, their
//! comments and tags, status bookkeeping, branch merging and the
//! command-line front end's decisions.
#![allow(non_snake_case)]
#![allow(non_camel_case_types)]

pub mod fsm;
pub mod text;
pub mod clock;
pub mod order;
pub mod evict;
pub mod json;
pub mod issue;
pub mod vcs_status;
pub mod config;
pub mod status_storage;
pub mod file_manager;
pub mod date_sort;
pub mod selection;
pub mod merge;
pub mod commands;
