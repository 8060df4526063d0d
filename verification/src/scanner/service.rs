//! The decisions a filesystem scan takes for every directory entry, and the
//! scanner configuration.
//!
//! Walking the directories, reading files and talking to the index happen
//! outside this module; for every entry the walker asks the scanner what to
//! do and records the outcome in a [`ScanSession`], which keeps the
//! statistics and decides when the index is committed.
use vstd::prelude::*;

use super::ignore::IgnoreRules;
use crate::paths::{extension_or_empty, extension_or_empty_of};
use super::parser::{is_likely_binary, looks_binary};
use super::progress::{NoopReporter, ProgressReporter};
use super::statistics::{can_merge, merged, ScannerStatistics, zero_statistics};
use crate::error::GlintIndexError;
use crate::text::str_eq;

verus! {

/// High-level filesystem scanner configuration: the ignore rules, the
/// progress reporter, the commit interval, the size limit for text
/// extraction and the parser timeout.
pub struct FilesystemScanner<'a> {
    ignore_rules: IgnoreRules,
    reporter: &'a dyn ProgressReporter,
    commit_interval: usize,
    max_file_size_bytes: u64,
    parser_timeout_secs: u64,
}

/// The default size limit for text extraction: 50 MiB.
pub open spec fn default_max_file_size() -> u64 {
    52428800
}

impl<'a> FilesystemScanner<'a> {
    /// The ignore rules applied to directory names.
    pub closed spec fn spec_ignore_rules(&self) -> IgnoreRules {
        self.ignore_rules
    }

    /// The commit interval (0: a single commit at the end of the scan).
    pub closed spec fn spec_commit_interval(&self) -> usize {
        self.commit_interval
    }

    /// Files larger than this many bytes are indexed by metadata only.
    pub closed spec fn spec_max_file_size(&self) -> u64 {
        self.max_file_size_bytes
    }

    /// The parser timeout in seconds.
    pub closed spec fn spec_parser_timeout(&self) -> u64 {
        self.parser_timeout_secs
    }

    /// Whether `reporter` is the reporter notified during the scan.
    pub closed spec fn has_reporter(&self, reporter: &dyn ProgressReporter) -> bool {
        self.reporter == reporter
    }

    /// Whether this scanner notifies the same reporter as `other`.
    pub closed spec fn same_reporter(&self, other: Self) -> bool {
        self.reporter == other.reporter
    }

    /// Creates a new scanner with default ignore rules and no progress reporting.
    pub fn new() -> (r: Self)
        ensures
            r.spec_ignore_rules()@ == super::ignore::default_ignored_dirs(),
            r.spec_commit_interval() == 0,
            r.spec_max_file_size() == default_max_file_size(),
            r.spec_parser_timeout() == 10,
            r.has_reporter(&NoopReporter),
    {
        Self {
            ignore_rules: IgnoreRules::new(),
            reporter: &NoopReporter,
            commit_interval: 0,
            max_file_size_bytes: 50 * 1024 * 1024,
            parser_timeout_secs: 10,
        }
    }

    /// Creates a new scanner with custom ignore names merged into the defaults.
    pub fn with_custom_ignores(custom: &[String]) -> (r: Self)
        ensures
            r.spec_ignore_rules()@ == IgnoreRules::with_custom_spec(custom@),
            r.spec_commit_interval() == 0,
            r.spec_max_file_size() == default_max_file_size(),
            r.spec_parser_timeout() == 10,
            r.has_reporter(&NoopReporter),
    {
        Self {
            ignore_rules: IgnoreRules::with_custom(custom),
            reporter: &NoopReporter,
            commit_interval: 0,
            max_file_size_bytes: 50 * 1024 * 1024,
            parser_timeout_secs: 10,
        }
    }

    /// Sets a progress reporter for scanning operations.
    pub fn with_progress(self, reporter: &'a dyn ProgressReporter) -> (r: Self)
        ensures
            r.spec_ignore_rules() == self.spec_ignore_rules(),
            r.spec_commit_interval() == self.spec_commit_interval(),
            r.spec_max_file_size() == self.spec_max_file_size(),
            r.spec_parser_timeout() == self.spec_parser_timeout(),
            r.has_reporter(reporter),
    {
        Self { reporter, ..self }
    }

    /// Sets the commit interval for incremental commits.
    ///
    /// When greater than 0, the index is committed every `interval`
    /// indexed documents; 0 means a single commit at the end of the scan.
    pub fn with_commit_interval(self, interval: usize) -> (r: Self)
        ensures
            r.spec_ignore_rules() == self.spec_ignore_rules(),
            r.spec_commit_interval() == interval,
            r.spec_max_file_size() == self.spec_max_file_size(),
            r.spec_parser_timeout() == self.spec_parser_timeout(),
            r.same_reporter(self),
    {
        Self { commit_interval: interval, ..self }
    }

    /// Sets the maximum file size in bytes: larger files are indexed by
    /// metadata only.
    pub fn with_max_file_size(self, bytes: u64) -> (r: Self)
        ensures
            r.spec_ignore_rules() == self.spec_ignore_rules(),
            r.spec_commit_interval() == self.spec_commit_interval(),
            r.spec_max_file_size() == bytes,
            r.spec_parser_timeout() == self.spec_parser_timeout(),
            r.same_reporter(self),
    {
        Self { max_file_size_bytes: bytes, ..self }
    }

    /// Sets the parser timeout in seconds.
    pub fn with_parser_timeout(self, secs: u64) -> (r: Self)
        ensures
            r.spec_ignore_rules() == self.spec_ignore_rules(),
            r.spec_commit_interval() == self.spec_commit_interval(),
            r.spec_max_file_size() == self.spec_max_file_size(),
            r.spec_parser_timeout() == secs,
            r.same_reporter(self),
    {
        Self { parser_timeout_secs: secs, ..self }
    }

    /// The ignore rules the directory walk applies.
    pub fn ignore_rules(&self) -> (r: &IgnoreRules)
        ensures
            *r == self.spec_ignore_rules(),
    {
        &self.ignore_rules
    }

    /// The reporter to notify during the scan.
    pub fn reporter(&self) -> &'a dyn ProgressReporter {
        self.reporter
    }

    /// The commit interval.
    pub fn commit_interval(&self) -> (r: usize)
        ensures
            r == self.spec_commit_interval(),
    {
        self.commit_interval
    }

    /// Starts the bookkeeping of a scan with this scanner's commit interval.
    pub fn start_session(&self) -> (r: ScanSession)
        ensures
            r.statistics() == zero_statistics(),
            r.interval() == self.spec_commit_interval(),
    {
        ScanSession::new(self.commit_interval)
    }

    /// Whether the directory walk descends into a directory with this name.
    pub fn should_descend(&self, dir_name: &str) -> (r: bool)
        ensures
            r == !self.spec_ignore_rules()@.contains(dir_name@),
    {
        !self.ignore_rules.should_ignore_dir(dir_name)
    }

    /// Whether a file of `file_size` bytes is indexed by metadata only,
    /// without reading its content.
    pub fn exceeds_size_limit(&self, file_size: u64) -> (r: bool)
        ensures
            r == (file_size > self.spec_max_file_size()),
    {
        file_size > self.max_file_size_bytes
    }

    /// Whether the text of a file whose content is `bytes` is extracted by
    /// its parser. Content for the plain-text parser that looks binary is
    /// indexed by metadata only.
    pub fn should_extract_text(&self, plain_text_parser: bool, bytes: &[u8]) -> (r: bool)
        ensures
            r == !(plain_text_parser && looks_binary(bytes@)),
    {
        !(plain_text_parser && is_likely_binary(bytes))
    }
}

/// The statistics of a directory's scan, or zero for a failed one.
pub open spec fn stats_of(r: Result<ScannerStatistics, GlintIndexError>) -> ScannerStatistics {
    match r {
        Ok(s) => s,
        Err(_) => zero_statistics(),
    }
}

/// The statistics of the scans in `rs` added up, counter by counter.
pub open spec fn combined(rs: Seq<Result<ScannerStatistics, GlintIndexError>>) -> ScannerStatistics
    decreases rs.len(),
{
    if rs.len() == 0 {
        zero_statistics()
    } else {
        merged(combined(rs.drop_last()), stats_of(rs.last()))
    }
}

/// The scans in `rs` before index `i` all succeeded.
pub open spec fn all_ok_before(rs: Seq<Result<ScannerStatistics, GlintIndexError>>, i: int) -> bool {
    forall|j: int| 0 <= j < i ==> (#[trigger] rs[j]) is Ok
}

/// Adding up the statistics of the successful scans up to the first failed
/// one overflows no counter.
pub open spec fn combinable(rs: Seq<Result<ScannerStatistics, GlintIndexError>>) -> bool {
    forall|i: int|
        0 <= i < rs.len() && all_ok_before(rs, i + 1) ==> can_merge(
            #[trigger] combined(rs.take(i)),
            stats_of(rs[i]),
        )
}

/// The message of an error.
pub open spec fn error_text(e: GlintIndexError) -> Seq<char> {
    match e {
        GlintIndexError::Other(m) => m@,
    }
}

fn copy_error(e: &GlintIndexError) -> (r: GlintIndexError)
    ensures
        error_text(r) == error_text(*e),
{
    match e {
        GlintIndexError::Other(m) => GlintIndexError::Other(m.clone()),
    }
}

impl<'a> FilesystemScanner<'a> {
    /// Combines the outcomes of scanning several directories, in order:
    /// the first failed scan ends the whole with its error, else the
    /// statistics of all of them are added up.
    pub fn scan_directories(&self, scanned: &[Result<ScannerStatistics, GlintIndexError>]) -> (r: Result<
        ScannerStatistics,
        GlintIndexError,
    >)
        requires
            combinable(scanned@),
        ensures
            r is Ok <==> all_ok_before(scanned@, scanned@.len() as int),
            r matches Ok(total) ==> total == combined(scanned@),
            r matches Err(e) ==> exists|k: int|
                0 <= k < scanned@.len() && all_ok_before(scanned@, k) && ((#[trigger] scanned@[k]) matches Err(
                    f,
                ) && error_text(f) == error_text(e)),
    {
        let mut total = ScannerStatistics::new();
        let mut i: usize = 0;
        while i < scanned.len()
            invariant
                i <= scanned@.len(),
                combinable(scanned@),
                all_ok_before(scanned@, i as int),
                total == combined(scanned@.take(i as int)),
            decreases scanned.len() - i,
        {
            match &scanned[i] {
                Ok(stats) => {
                    proof {
                        assert(all_ok_before(scanned@, i + 1));
                        assert(scanned@.take(i + 1).drop_last() =~= scanned@.take(i as int));
                        assert(scanned@.take(i + 1).last() == scanned@[i as int]);
                    }
                    total.merge(stats);
                },
                Err(e) => {
                    let err = copy_error(e);
                    assert(scanned@[i as int] matches Err(f) && error_text(f) == error_text(err));
                    return Err(err);
                },
            }
            i += 1;
        }
        assert(scanned@.take(i as int) =~= scanned@);
        Ok(total)
    }
}

/// How a file compares with what the index recorded for its path.
#[derive(Debug, Clone, Copy, PartialEq, Eq)]
pub enum FileChange {
    /// Nothing is recorded for the path (or the record could not be read).
    New,
    /// The size or the modification time differ from the record.
    Changed,
    /// Size and modification time match the record.
    Unchanged,
}

/// Compares the recorded `(size, modified)` of a file with its current ones.
pub fn classify_change(recorded: Option<(i64, i64)>, size: i64, modified: i64) -> (r: FileChange)
    ensures
        r == match recorded {
            None => FileChange::New,
            Some((s, m)) => if s == size && m == modified {
                FileChange::Unchanged
            } else {
                FileChange::Changed
            },
        },
{
    match recorded {
        None => FileChange::New,
        Some((s, m)) => {
            if s == size && m == modified {
                FileChange::Unchanged
            } else {
                FileChange::Changed
            }
        },
    }
}

/// The number of commits a scan makes when `n` documents are indexed with
/// commit interval `k`: one every `k` documents and one more for a
/// remainder; with `k == 0`, a single commit if anything was indexed.
pub open spec fn commits_for(n: int, k: int) -> int {
    if k > 0 {
        n / k + (if n % k > 0 { 1int } else { 0int })
    } else if n > 0 {
        1
    } else {
        0
    }
}

/// The bookkeeping of one scan: its statistics, and the documents indexed
/// since the last commit.
pub struct ScanSession {
    stats: ScannerStatistics,
    docs_since_commit: usize,
    commit_interval: usize,
}

impl ScanSession {
    /// The statistics so far.
    pub closed spec fn statistics(&self) -> ScannerStatistics {
        self.stats
    }

    /// The commit interval of the scan.
    pub closed spec fn interval(&self) -> usize {
        self.commit_interval
    }

    /// The number of documents indexed so far, new or changed.
    pub open spec fn indexed(&self) -> int {
        self.statistics().files_indexed + self.statistics().files_reindexed
    }

    /// The documents indexed since the last commit, and the commits made,
    /// follow from the number of indexed documents and the interval.
    #[verifier::type_invariant]
    spec fn wf(self) -> bool {
        let n = self.stats.files_indexed + self.stats.files_reindexed;
        let k = self.commit_interval as int;
        &&& n < usize::MAX
        &&& self.docs_since_commit == (if k > 0 { n % k } else { n })
        &&& self.stats.commits == (if k > 0 { n / k } else { 0 })
    }

    /// Starts a scan with the given commit interval.
    pub fn new(commit_interval: usize) -> (r: Self)
        ensures
            r.statistics() == zero_statistics(),
            r.interval() == commit_interval,
    {
        ScanSession { stats: ScannerStatistics::new(), docs_since_commit: 0, commit_interval }
    }

    /// The statistics so far.
    pub fn stats(&self) -> (r: &ScannerStatistics)
        ensures
            *r == self.statistics(),
    {
        &self.stats
    }

    /// Records a directory entered by the walk.
    pub fn directory_entered(&mut self)
        requires
            old(self).statistics().directories_scanned < u64::MAX,
        ensures
            final(self).interval() == old(self).interval(),
            final(self).statistics() == (ScannerStatistics {
                directories_scanned: (old(self).statistics().directories_scanned + 1) as u64,
                ..old(self).statistics()
            }),
    {
        proof {
            use_type_invariant(&*self);
        }
        self.stats.inc_directories_scanned();
    }

    /// Records a file found by the walk.
    pub fn file_discovered(&mut self)
        requires
            old(self).statistics().files_discovered < u64::MAX,
        ensures
            final(self).interval() == old(self).interval(),
            final(self).statistics() == (ScannerStatistics {
                files_discovered: (old(self).statistics().files_discovered + 1) as u64,
                ..old(self).statistics()
            }),
    {
        proof {
            use_type_invariant(&*self);
        }
        self.stats.inc_files_discovered();
    }

    /// Records a file skipped because its type is not indexed.
    pub fn file_skipped(&mut self)
        requires
            old(self).statistics().files_skipped < u64::MAX,
        ensures
            final(self).interval() == old(self).interval(),
            final(self).statistics() == (ScannerStatistics {
                files_skipped: (old(self).statistics().files_skipped + 1) as u64,
                ..old(self).statistics()
            }),
    {
        proof {
            use_type_invariant(&*self);
        }
        self.stats.inc_files_skipped();
    }

    /// Records a file left alone because it did not change.
    pub fn file_unchanged(&mut self)
        requires
            old(self).statistics().files_unchanged < u64::MAX,
        ensures
            final(self).interval() == old(self).interval(),
            final(self).statistics() == (ScannerStatistics {
                files_unchanged: (old(self).statistics().files_unchanged + 1) as u64,
                ..old(self).statistics()
            }),
    {
        proof {
            use_type_invariant(&*self);
        }
        self.stats.inc_files_unchanged();
    }

    /// Records a file that could not be read, parsed or indexed.
    pub fn file_failed(&mut self)
        requires
            old(self).statistics().files_failed < u64::MAX,
        ensures
            final(self).interval() == old(self).interval(),
            final(self).statistics() == (ScannerStatistics {
                files_failed: (old(self).statistics().files_failed + 1) as u64,
                ..old(self).statistics()
            }),
    {
        proof {
            use_type_invariant(&*self);
        }
        self.stats.inc_files_failed();
    }

    /// Records a document written to the index (`is_new`: nothing was
    /// recorded for its path before) and returns whether the index must be
    /// committed now.
    pub fn file_indexed(&mut self, is_new: bool) -> (commit_now: bool)
        requires
            old(self).indexed() + 1 < usize::MAX,
        ensures
            final(self).interval() == old(self).interval(),
            final(self).indexed() == old(self).indexed() + 1,
            final(self).statistics() == (if is_new {
                ScannerStatistics {
                    files_indexed: (old(self).statistics().files_indexed + 1) as u64,
                    commits: final(self).statistics().commits,
                    ..old(self).statistics()
                }
            } else {
                ScannerStatistics {
                    files_reindexed: (old(self).statistics().files_reindexed + 1) as u64,
                    commits: final(self).statistics().commits,
                    ..old(self).statistics()
                }
            }),
            commit_now == (old(self).interval() > 0 && (old(self).indexed() + 1)
                % (old(self).interval() as int) == 0),
            final(self).statistics().commits == old(self).statistics().commits + (if commit_now {
                1int
            } else {
                0int
            }),
    {
        proof {
            use_type_invariant(&*self);
        }
        let k = self.commit_interval;
        count_indexed(&mut self.stats, &mut self.docs_since_commit, k, is_new)
    }

    /// Ends the scan: returns whether a final commit is due (documents were
    /// indexed since the last commit) and the final statistics, which count
    /// that commit.
    pub fn finish(self) -> (r: (bool, ScannerStatistics))
        ensures
            r.0 == (if self.interval() > 0 {
                self.indexed() % (self.interval() as int) > 0
            } else {
                self.indexed() > 0
            }),
            r.1.commits as int == commits_for(self.indexed(), self.interval() as int),
            r.1 == (ScannerStatistics { commits: r.1.commits, ..self.statistics() }),
    {
        proof {
            use_type_invariant(&self);
        }
        let mut stats = self.stats;
        let final_commit = self.docs_since_commit > 0;
        if final_commit {
            stats.inc_commits();
        }
        (final_commit, stats)
    }
}

/// Counts one more indexed document into `stats` and `docs` (the documents
/// since the last commit) with commit interval `k`, committing every `k`
/// documents; returns whether a commit is due now.
fn count_indexed(stats: &mut ScannerStatistics, docs: &mut usize, k: usize, is_new: bool) -> (commit_now: bool)
    requires
        old(stats).files_indexed + old(stats).files_reindexed + 1 < usize::MAX,
        *old(docs) == (if k > 0 {
            (old(stats).files_indexed + old(stats).files_reindexed) % (k as int)
        } else {
            old(stats).files_indexed + old(stats).files_reindexed
        }),
        old(stats).commits == (if k > 0 {
            (old(stats).files_indexed + old(stats).files_reindexed) / (k as int)
        } else {
            0
        }),
    ensures
        *final(docs) == (if k > 0 {
            (final(stats).files_indexed + final(stats).files_reindexed) % (k as int)
        } else {
            final(stats).files_indexed + final(stats).files_reindexed
        }),
        final(stats).commits == (if k > 0 {
            (final(stats).files_indexed + final(stats).files_reindexed) / (k as int)
        } else {
            0
        }),
        *final(stats) == (if is_new {
            ScannerStatistics {
                files_indexed: (old(stats).files_indexed + 1) as u64,
                commits: final(stats).commits,
                ..*old(stats)
            }
        } else {
            ScannerStatistics {
                files_reindexed: (old(stats).files_reindexed + 1) as u64,
                commits: final(stats).commits,
                ..*old(stats)
            }
        }),
        commit_now == (k > 0 && (old(stats).files_indexed + old(stats).files_reindexed + 1) % (k as int) == 0),
        final(stats).commits == old(stats).commits + (if commit_now { 1int } else { 0int }),
    no_unwind
{
    let ghost n = stats.files_indexed + stats.files_reindexed;
    if is_new {
        stats.inc_files_indexed();
    } else {
        stats.inc_files_reindexed();
    }
    *docs = *docs + 1;
    if k > 0 && *docs >= k {
        proof {
            vstd::arithmetic::div_mod::lemma_fundamental_div_mod(n, k as int);
            vstd::arithmetic::div_mod::lemma_fundamental_div_mod(n + 1, k as int);
            vstd::arithmetic::div_mod::lemma_mod_bound(n + 1, k as int);
            vstd::arithmetic::div_mod::lemma_mod_bound(n, k as int);
            vstd::arithmetic::div_mod::lemma_div_pos_is_pos(n, k as int);
            assert((n + 1) % (k as int) == 0 && (n + 1) / (k as int) == n / (k as int) + 1) by (nonlinear_arith)
                requires
                    n % (k as int) + 1 == k as int,
                    n == (k as int) * (n / (k as int)) + n % (k as int),
                    n + 1 == (k as int) * ((n + 1) / (k as int)) + (n + 1) % (k as int),
                    0 <= (n + 1) % (k as int) < k as int,
                    k > 0,
            ;
        }
        *docs = 0;
        stats.inc_commits();
    } else {
        proof {
            if k > 0 {
                vstd::arithmetic::div_mod::lemma_fundamental_div_mod(n, k as int);
                vstd::arithmetic::div_mod::lemma_fundamental_div_mod(n + 1, k as int);
                vstd::arithmetic::div_mod::lemma_mod_bound(n + 1, k as int);
                vstd::arithmetic::div_mod::lemma_mod_bound(n, k as int);
                assert((n + 1) % (k as int) == n % (k as int) + 1 && (n + 1) / (k as int) == n / (k as int)) by (nonlinear_arith)
                    requires
                        n % (k as int) + 1 < k as int,
                        0 <= n % (k as int),
                        n == (k as int) * (n / (k as int)) + n % (k as int),
                        n + 1 == (k as int) * ((n + 1) / (k as int)) + (n + 1) % (k as int),
                        0 <= (n + 1) % (k as int) < k as int,
                        k > 0,
                ;
            }
        }
    }
    k > 0 && *docs == 0
}

/// A human-readable parser name for an extension, for logging.
pub open spec fn parser_name(ext: Seq<char>) -> Seq<char> {
    if ext == "pdf"@ {
        "PDF"@
    } else if ext == "docx"@ || ext == "docm"@ {
        "DOCX"@
    } else if ext == "xlsx"@ || ext == "xlsm"@ || ext == "xlsb"@ || ext == "xls"@ {
        "XLSX"@
    } else if ext == "pptx"@ || ext == "pptm"@ {
        "PPTX"@
    } else if ext == "rtf"@ {
        "RTF"@
    } else if ext == "odt"@ {
        "ODT"@
    } else {
        "text"@
    }
}

/// Returns the parser name for a file extension.
pub fn parser_name_for_extension(ext: &str) -> (r: &'static str)
    ensures
        r@ == parser_name(ext@),
{
    if str_eq(ext, "pdf") {
        "PDF"
    } else if str_eq(ext, "docx") || str_eq(ext, "docm") {
        "DOCX"
    } else if str_eq(ext, "xlsx") || str_eq(ext, "xlsm") || str_eq(ext, "xlsb") || str_eq(ext, "xls") {
        "XLSX"
    } else if str_eq(ext, "pptx") || str_eq(ext, "pptm") {
        "PPTX"
    } else if str_eq(ext, "rtf") {
        "RTF"
    } else if str_eq(ext, "odt") {
        "ODT"
    } else {
        "text"
    }
}

/// Returns a human-readable parser name for logging based on file extension.
pub fn parser_type_name(path: &str) -> (r: &'static str)
    ensures
        r@ == parser_name(extension_or_empty(path@)),
{
    let ext = extension_or_empty_of(path);
    parser_name_for_extension(ext.as_str())
}

} // verus!
