//! Core logic of the GlintIndex desktop search tool: text decoding, syntax
//! and search-match highlighting for previews, the scanning rules and
//! statistics, background job bookkeeping, filesystem watching decisions
//! and the search screen's state machine.
pub mod error;
pub mod paths;
pub mod preview;
pub mod scanner;
pub mod tasks;
pub mod text;
pub mod ui;
pub mod watcher;
