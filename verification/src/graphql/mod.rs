//! What the schema's resolvers build on: filter inputs, rows and records.

pub mod filter;
pub mod loader;
pub mod model;
pub mod query;
