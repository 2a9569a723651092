//! Verified core of a code-editor backend.
//!
//! The library keeps a table of open files with their in-memory buffers,
//! a cache of incremental syntax trees (one per file, produced by the
//! tree-sitter parsers), and a per-language registry of compiled highlight
//! queries. From a cached tree it produces the delta-encoded semantic-token
//! stream that a Monaco-style editor client consumes.
//!
//! All file, configuration and front-end I/O lives outside this crate; the
//! functions here work on plain values (ids, strings, byte buffers) and are
//! verified against their contracts.

pub mod app_config;
pub mod backend_api;
pub mod error;
pub mod files_api;
pub mod language;
pub mod numtext;
pub mod textutil;
pub mod treesitter_backend;
