//! File previews: encoding detection, loading, search-match highlighting
//! and syntax-highlight span handling.
pub mod encoding;
pub mod highlight;
pub mod lines;
pub mod loader;
pub mod service;
pub mod syntax;

pub use encoding::{Encoding, EncodingResult};
pub use highlight::HighlightedMatch;
pub use loader::{LoadConfig, LoadResult};
pub use service::{PreviewConfig, PreviewError, PreviewLine, PreviewOutput, PreviewService};
pub use syntax::{HighlightedLine, Style, SyntaxHighlighter};
