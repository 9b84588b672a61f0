//! Field rendering: validation, types, version gates, and codec expressions.

pub mod codec;
pub mod regime;
pub mod types;
pub mod usage;
pub mod validate;
pub mod version;
