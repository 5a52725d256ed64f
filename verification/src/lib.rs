//! A small line-oriented text search library: literal and regular-expression
//! queries over an in-memory text, with context windows around matches,
//! per-line pattern attribution, match-span merging for highlighting, and
//! aggregate match counting.
pub mod config;
pub mod context;
pub mod engine;
pub mod files;
pub mod fold;
pub mod laws;
pub mod lines;
pub mod query;
pub mod results;
pub mod search;
pub mod spans;
pub mod stats;
pub mod text;

pub use config::{Config, ConfigError};
pub use context::{ContextFlag, ContextMode};
pub use engine::PatternError;
pub use files::is_hidden_file;
pub use query::{classify, split_query, QueryKind};
pub use results::SearchResult;
pub use search::search;
pub use spans::{literal_spans, merge_spans};
pub use stats::{count_actual_matches, SearchStats};
