//! Filters diagnostic records read from a JSON document by substring
//! rules on their message text, and renders the survivors either as a
//! human-readable report with a table or as pretty-printed JSON.

pub mod decode;
pub mod filter;
pub mod pipeline;
pub mod problem;
pub mod render;
pub mod text;
