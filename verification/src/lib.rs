//! Filter trees, their translation into parameterised SQL, and the keyed
//! grouping of decoded rows.

pub mod config;
pub mod graphql;
pub mod query;
pub mod server;
pub mod util;
