//! Line-oriented text search: report the lines of a text that contain a query,
//! either exactly or after lowercasing both sides.
pub mod config;
pub mod search;
pub mod text;

pub use config::Config;
pub use search::{search, search_case_insensitive};
