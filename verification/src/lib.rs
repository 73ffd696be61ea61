//! Library core of the session manager: scanning, remapping, restoring and
//! synchronising AI coding-assistant transcripts.

pub mod config;
pub mod gitcli;
pub mod json;
pub mod model;
pub mod paths;
pub mod records;
pub mod restore;
pub mod scan_claude;
pub mod scan_codex;
pub mod sync;
pub mod syncrepo;
pub mod text;
pub mod tree;
