//! Line filtering: select the lines of a text that contain a query,
//! exactly or under Unicode lowercasing.

pub mod config;
pub mod laws;
pub mod lines;
pub mod matching;
pub mod search;
pub mod text;

pub use config::{run, Config};
pub use search::{search, search_case_insensitive};
