//! API-module rendering: everything that turns one message into Rust.

pub mod codec;
pub mod declarations;
pub mod file;
pub mod header;
pub mod imports;
pub mod message;
pub mod metadata;
pub mod prose;
pub mod structs;
pub mod protocol_eq;
pub mod symbol;
pub mod tag_plan;
pub mod tagged;
pub mod tagged_payload;
pub mod tagged_proof;
pub mod tagged_validation;
pub mod validation;
