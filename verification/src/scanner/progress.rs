//! Progress reporting for scanning and indexing operations.
//!
//! Provides a [`ProgressReporter`] trait that the scanner calls during
//! file processing, allowing frontends (CLI, GUI) to display real-time
//! progress without duplicating scan logic.
use vstd::prelude::*;

verus! {

/// A callback interface for reporting scanning progress.
///
/// The scanner calls these methods as files are discovered and processed.
/// Frontends implement this trait to display progress. Paths are passed
/// as text. Implementations must be `Send + Sync` because the reporter may
/// be called from background threads.
pub trait ProgressReporter: Send + Sync {
    /// Called when a file is discovered during directory traversal.
    fn on_file_discovered(&self, path: &str);

    /// Called after a file is successfully indexed.
    fn on_file_indexed(&self, path: &str);

    /// Called when a file is skipped (unsupported type, binary, etc.).
    fn on_file_skipped(&self, path: &str);

    /// Called when a file fails to process (I/O error, etc.).
    fn on_file_failed(&self, path: &str, reason: &str);

    /// Called when a parser returns an error for a file.
    fn on_parser_error(&self, path: &str, parser: &str, reason: &str);

    /// Called when a parser panics while processing a file.
    fn on_parser_panic(&self, path: &str, parser: &str);

    /// Sets the total number of files to process (if known ahead of time).
    fn set_total_files(&self, total: u64);

    /// Called when an indexing operation starts.
    fn on_operation_started(&self, operation: &str);

    /// Called when an indexing operation completes.
    fn on_operation_completed(&self);
}

/// A no-op reporter that discards all progress information.
pub struct NoopReporter;

impl ProgressReporter for NoopReporter {
    fn on_file_discovered(&self, _path: &str) {
    }

    fn on_file_indexed(&self, _path: &str) {
    }

    fn on_file_skipped(&self, _path: &str) {
    }

    fn on_file_failed(&self, _path: &str, _reason: &str) {
    }

    fn on_parser_error(&self, _path: &str, _parser: &str, _reason: &str) {
    }

    fn on_parser_panic(&self, _path: &str, _parser: &str) {
    }

    fn set_total_files(&self, _total: u64) {
    }

    fn on_operation_started(&self, _operation: &str) {
    }

    fn on_operation_completed(&self) {
    }
}

} // verus!
