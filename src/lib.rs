//! Recursive content search: the decisions and text handling of a
//! regex-driven file search, verified.

pub mod lines;
pub mod pattern;
pub mod render;
pub mod searcher;

pub use lines::{decode_lines, split_lines};
pub use render::{render_colored, render_header, render_plain, ColoredLine};
pub use searcher::{EntryAction, LineMatch, PatternError, Searcher};
