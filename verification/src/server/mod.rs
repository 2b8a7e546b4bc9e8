//! What the server decides of a request before it logs or answers.

pub mod logging;
pub mod request_id;
