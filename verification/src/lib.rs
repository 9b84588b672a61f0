//! Deterministic rendering of Kafka wire schemas into Rust source.

pub mod versions;
pub mod verification_files;
pub mod strings;
pub mod text;
pub mod naming;
pub mod order;
pub mod schema;
pub mod source;
pub mod tag_assertions;
pub mod tag_census;
pub mod field;
pub mod api;
pub mod fixtures;
pub mod fuzz_dispatch;
pub mod group;
pub mod module_file;
pub mod header_version;
pub mod laws;
pub mod output_laws;
pub mod established;
pub mod provenance;
pub mod registry;
