//! Rendering core of a file-search command line tool.
//!
//! The crate turns one matched filesystem entry into one line of output:
//! a user template with path placeholders, optional ANSI styling, optional
//! hyperlink wrapping and optional path-separator remapping. Paths are kept
//! as raw byte strings throughout, so no byte of a path is ever lost.

pub mod cli;
pub mod config;
pub mod dir_entry;
pub mod error_codes;
pub mod filesystem;
pub mod filetypes;
pub mod filter;
pub mod fmt;
pub mod hyperlink;
pub mod output;
pub mod paths;
pub mod regex_helper;
