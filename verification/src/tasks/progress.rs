//! Progress reporting for background tasks.
use vstd::prelude::*;

use crate::scanner::statistics::ScannerStatistics;
use crate::text::owned;

verus! {

/// Progress information for a background indexing or rebuild operation.
#[derive(Debug, Clone, PartialEq, Eq)]
pub struct Progress {
    /// Human-readable status message (e.g., "Indexing", "Rebuilding").
    pub status_message: String,
    /// Number of files processed so far.
    pub files_processed: u64,
    /// Total number of files to process, if known.
    pub total_files: Option<u64>,
    /// Number of files successfully indexed.
    pub files_indexed: u64,
    /// Number of files skipped (unsupported, binary, etc.).
    pub files_skipped: u64,
    /// Number of files that failed to parse.
    pub files_failed: u64,
    /// Number of parser errors (corrupted files, invalid format).
    pub parser_errors: u64,
    /// Number of parser panics caught during extraction.
    pub parser_panics: u64,
    /// The path of the file currently being processed, if any.
    pub current_file: Option<String>,
}

/// The contents of a [`Progress`], with texts as character sequences.
pub struct ProgressModel {
    pub status_message: Seq<char>,
    pub files_processed: u64,
    pub total_files: Option<u64>,
    pub files_indexed: u64,
    pub files_skipped: u64,
    pub files_failed: u64,
    pub parser_errors: u64,
    pub parser_panics: u64,
    pub current_file: Option<Seq<char>>,
}

impl View for Progress {
    type V = ProgressModel;

    open spec fn view(&self) -> ProgressModel {
        ProgressModel {
            status_message: self.status_message@,
            files_processed: self.files_processed,
            total_files: self.total_files,
            files_indexed: self.files_indexed,
            files_skipped: self.files_skipped,
            files_failed: self.files_failed,
            parser_errors: self.parser_errors,
            parser_panics: self.parser_panics,
            current_file: match self.current_file {
                Some(f) => Some(f@),
                None => None,
            },
        }
    }
}

/// A progress with the given message and every counter at zero.
pub open spec fn fresh_progress(status_message: Seq<char>) -> ProgressModel {
    ProgressModel {
        status_message,
        files_processed: 0,
        total_files: None,
        files_indexed: 0,
        files_skipped: 0,
        files_failed: 0,
        parser_errors: 0,
        parser_panics: 0,
        current_file: None,
    }
}

/// The progress a statistics snapshot reports: files discovered count as
/// processed; the total is unknown.
pub open spec fn progress_of_statistics(stats: ScannerStatistics, status_message: Seq<char>) -> ProgressModel {
    ProgressModel {
        status_message,
        files_processed: stats.files_discovered,
        total_files: None,
        files_indexed: stats.files_indexed,
        files_skipped: stats.files_skipped,
        files_failed: stats.files_failed,
        parser_errors: stats.parser_errors,
        parser_panics: stats.parser_panics,
        current_file: None,
    }
}

/// Law: the progress of a statistics snapshot carries each counter into the
/// field of the same meaning: files found are the files processed, and the
/// indexed, skipped and failed files and the parser errors and panics are
/// those of the statistics; no total and no current file are known.
pub proof fn law_progress_keeps_counters(stats: ScannerStatistics, status_message: Seq<char>)
    ensures
        progress_of_statistics(stats, status_message).status_message == status_message,
        progress_of_statistics(stats, status_message).files_processed == stats.files_discovered,
        progress_of_statistics(stats, status_message).total_files is None,
        progress_of_statistics(stats, status_message).files_indexed == stats.files_indexed,
        progress_of_statistics(stats, status_message).files_skipped == stats.files_skipped,
        progress_of_statistics(stats, status_message).files_failed == stats.files_failed,
        progress_of_statistics(stats, status_message).parser_errors == stats.parser_errors,
        progress_of_statistics(stats, status_message).parser_panics == stats.parser_panics,
        progress_of_statistics(stats, status_message).current_file is None,
{
}

impl Progress {
    /// Creates a new `Progress` with the given status message and all
    /// counters at zero.
    pub fn new(status_message: &str) -> (r: Self)
        ensures
            r@ == fresh_progress(status_message@),
    {
        Progress {
            status_message: owned(status_message),
            files_processed: 0,
            total_files: None,
            files_indexed: 0,
            files_skipped: 0,
            files_failed: 0,
            parser_errors: 0,
            parser_panics: 0,
            current_file: None,
        }
    }

    /// Sets the current file being processed.
    pub fn with_current_file(self, path: &str) -> (r: Self)
        ensures
            r@ == (ProgressModel { current_file: Some(path@), ..self@ }),
    {
        Progress { current_file: Some(owned(path)), ..self }
    }

    /// Sets the total number of files to process.
    pub fn with_total_files(self, total: u64) -> (r: Self)
        ensures
            r@ == (ProgressModel { total_files: Some(total), ..self@ }),
    {
        Progress { total_files: Some(total), ..self }
    }

    /// Returns `true` if a total file count is known.
    pub fn has_total(&self) -> (r: bool)
        ensures
            r == self.total_files is Some,
    {
        self.total_files.is_some()
    }

    /// Creates a `Progress` from a `ScannerStatistics` snapshot.
    pub fn from_statistics(stats: &ScannerStatistics, status_message: &str) -> (r: Self)
        ensures
            r@ == progress_of_statistics(*stats, status_message@),
            r.status_message@ == status_message@,
            r.files_processed == stats.files_discovered,
            r.total_files is None,
            r.files_indexed == stats.files_indexed,
            r.files_skipped == stats.files_skipped,
            r.files_failed == stats.files_failed,
            r.parser_errors == stats.parser_errors,
            r.parser_panics == stats.parser_panics,
            r.current_file is None,
    {
        Progress {
            status_message: owned(status_message),
            files_processed: stats.files_discovered,
            total_files: None,
            files_indexed: stats.files_indexed,
            files_skipped: stats.files_skipped,
            files_failed: stats.files_failed,
            parser_errors: stats.parser_errors,
            parser_panics: stats.parser_panics,
            current_file: None,
        }
    }

    /// A copy of this progress.
    pub fn copy(&self) -> (r: Self)
        ensures
            r@ == self@,
    {
        Progress {
            status_message: owned(self.status_message.as_str()),
            files_processed: self.files_processed,
            total_files: self.total_files,
            files_indexed: self.files_indexed,
            files_skipped: self.files_skipped,
            files_failed: self.files_failed,
            parser_errors: self.parser_errors,
            parser_panics: self.parser_panics,
            current_file: match &self.current_file {
                Some(f) => Some(owned(f.as_str())),
                None => None,
            },
        }
    }
}

impl Default for Progress {
    fn default() -> (r: Self)
        ensures
            r@ == fresh_progress(Seq::empty()),
    {
        Progress {
            status_message: String::new(),
            files_processed: 0,
            total_files: None,
            files_indexed: 0,
            files_skipped: 0,
            files_failed: 0,
            parser_errors: 0,
            parser_panics: 0,
            current_file: None,
        }
    }
}

} // verus!
