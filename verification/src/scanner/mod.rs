//! Filesystem scanning rules, scan bookkeeping and statistics.
//!
//! The rules that decide which directories are skipped and which files are
//! indexed, the binary-content heuristic, the per-scan statistics and the
//! decisions taken for every directory entry during a scan.
pub mod ignore;
pub mod parser;
pub mod progress;
pub mod service;
pub mod statistics;

pub use ignore::IgnoreRules;
pub use progress::{NoopReporter, ProgressReporter};
pub use service::FilesystemScanner;
pub use statistics::ScannerStatistics;
