//! Statistics collected during a filesystem scan.
use vstd::prelude::*;

verus! {

/// Statistics collected during a filesystem scan.
///
/// Provides an overview of what the scanner found and processed.
#[derive(Debug, Clone, PartialEq, Eq)]
pub struct ScannerStatistics {
    /// Number of directories traversed during the scan.
    pub directories_scanned: u64,
    /// Total number of files discovered (regardless of type).
    pub files_discovered: u64,
    /// Number of new files successfully indexed.
    pub files_indexed: u64,
    /// Number of changed files indexed again.
    pub files_reindexed: u64,
    /// Number of files left alone because their size and modification time did not change.
    pub files_unchanged: u64,
    /// Number of files skipped (unsupported extension, binary, ignored).
    pub files_skipped: u64,
    /// Number of files that failed to parse or read.
    pub files_failed: u64,
    /// Number of files skipped due to parser errors (corrupted, invalid format, etc.).
    pub parser_errors: u64,
    /// Number of files skipped due to parser panics.
    pub parser_panics: u64,
    /// Number of index commits made during the scan.
    pub commits: u64,
}

/// Statistics with every counter at zero.
pub open spec fn zero_statistics() -> ScannerStatistics {
    ScannerStatistics {
        directories_scanned: 0,
        files_discovered: 0,
        files_indexed: 0,
        files_reindexed: 0,
        files_unchanged: 0,
        files_skipped: 0,
        files_failed: 0,
        parser_errors: 0,
        parser_panics: 0,
        commits: 0,
    }
}

/// Every counter of `a` plus the same counter of `b` fits in a `u64`.
pub open spec fn can_merge(a: ScannerStatistics, b: ScannerStatistics) -> bool {
    &&& a.directories_scanned + b.directories_scanned <= u64::MAX
    &&& a.files_discovered + b.files_discovered <= u64::MAX
    &&& a.files_indexed + b.files_indexed <= u64::MAX
    &&& a.files_reindexed + b.files_reindexed <= u64::MAX
    &&& a.files_unchanged + b.files_unchanged <= u64::MAX
    &&& a.files_skipped + b.files_skipped <= u64::MAX
    &&& a.files_failed + b.files_failed <= u64::MAX
    &&& a.parser_errors + b.parser_errors <= u64::MAX
    &&& a.parser_panics + b.parser_panics <= u64::MAX
    &&& a.commits + b.commits <= u64::MAX
}

/// The counters of `a` and `b` added up one by one.
pub open spec fn merged(a: ScannerStatistics, b: ScannerStatistics) -> ScannerStatistics {
    ScannerStatistics {
        directories_scanned: (a.directories_scanned + b.directories_scanned) as u64,
        files_discovered: (a.files_discovered + b.files_discovered) as u64,
        files_indexed: (a.files_indexed + b.files_indexed) as u64,
        files_reindexed: (a.files_reindexed + b.files_reindexed) as u64,
        files_unchanged: (a.files_unchanged + b.files_unchanged) as u64,
        files_skipped: (a.files_skipped + b.files_skipped) as u64,
        files_failed: (a.files_failed + b.files_failed) as u64,
        parser_errors: (a.parser_errors + b.parser_errors) as u64,
        parser_panics: (a.parser_panics + b.parser_panics) as u64,
        commits: (a.commits + b.commits) as u64,
    }
}

impl ScannerStatistics {
    /// Creates a new `ScannerStatistics` with all counters at zero.
    pub fn new() -> (r: Self)
        ensures
            r == zero_statistics(),
    {
        ScannerStatistics {
            directories_scanned: 0,
            files_discovered: 0,
            files_indexed: 0,
            files_reindexed: 0,
            files_unchanged: 0,
            files_skipped: 0,
            files_failed: 0,
            parser_errors: 0,
            parser_panics: 0,
            commits: 0,
        }
    }

    /// Increments the directories scanned counter.
    pub fn inc_directories_scanned(&mut self)
        requires
            old(self).directories_scanned < u64::MAX,
        ensures
            *final(self) == (ScannerStatistics { directories_scanned: (old(self).directories_scanned + 1) as u64, ..*old(self) }),
        no_unwind
    {
        self.directories_scanned = self.directories_scanned + 1;
    }

    /// Increments the files discovered counter.
    pub fn inc_files_discovered(&mut self)
        requires
            old(self).files_discovered < u64::MAX,
        ensures
            *final(self) == (ScannerStatistics { files_discovered: (old(self).files_discovered + 1) as u64, ..*old(self) }),
        no_unwind
    {
        self.files_discovered = self.files_discovered + 1;
    }

    /// Increments the files indexed counter.
    pub fn inc_files_indexed(&mut self)
        requires
            old(self).files_indexed < u64::MAX,
        ensures
            *final(self) == (ScannerStatistics { files_indexed: (old(self).files_indexed + 1) as u64, ..*old(self) }),
        no_unwind
    {
        self.files_indexed = self.files_indexed + 1;
    }

    /// Increments the files reindexed counter.
    pub fn inc_files_reindexed(&mut self)
        requires
            old(self).files_reindexed < u64::MAX,
        ensures
            *final(self) == (ScannerStatistics { files_reindexed: (old(self).files_reindexed + 1) as u64, ..*old(self) }),
        no_unwind
    {
        self.files_reindexed = self.files_reindexed + 1;
    }

    /// Increments the files unchanged counter.
    pub fn inc_files_unchanged(&mut self)
        requires
            old(self).files_unchanged < u64::MAX,
        ensures
            *final(self) == (ScannerStatistics { files_unchanged: (old(self).files_unchanged + 1) as u64, ..*old(self) }),
        no_unwind
    {
        self.files_unchanged = self.files_unchanged + 1;
    }

    /// Increments the files skipped counter.
    pub fn inc_files_skipped(&mut self)
        requires
            old(self).files_skipped < u64::MAX,
        ensures
            *final(self) == (ScannerStatistics { files_skipped: (old(self).files_skipped + 1) as u64, ..*old(self) }),
        no_unwind
    {
        self.files_skipped = self.files_skipped + 1;
    }

    /// Increments the files failed counter.
    pub fn inc_files_failed(&mut self)
        requires
            old(self).files_failed < u64::MAX,
        ensures
            *final(self) == (ScannerStatistics { files_failed: (old(self).files_failed + 1) as u64, ..*old(self) }),
        no_unwind
    {
        self.files_failed = self.files_failed + 1;
    }

    /// Increments the parser errors counter.
    pub fn inc_parser_errors(&mut self)
        requires
            old(self).parser_errors < u64::MAX,
        ensures
            *final(self) == (ScannerStatistics { parser_errors: (old(self).parser_errors + 1) as u64, ..*old(self) }),
        no_unwind
    {
        self.parser_errors = self.parser_errors + 1;
    }

    /// Increments the parser panics counter.
    pub fn inc_parser_panics(&mut self)
        requires
            old(self).parser_panics < u64::MAX,
        ensures
            *final(self) == (ScannerStatistics { parser_panics: (old(self).parser_panics + 1) as u64, ..*old(self) }),
        no_unwind
    {
        self.parser_panics = self.parser_panics + 1;
    }

    /// Increments the commits counter.
    pub fn inc_commits(&mut self)
        requires
            old(self).commits < u64::MAX,
        ensures
            *final(self) == (ScannerStatistics { commits: (old(self).commits + 1) as u64, ..*old(self) }),
        no_unwind
    {
        self.commits = self.commits + 1;
    }

    /// Merges another `ScannerStatistics` into this one by adding all counters.
    pub fn merge(&mut self, other: &ScannerStatistics)
        requires
            can_merge(*old(self), *other),
        ensures
            *final(self) == merged(*old(self), *other),
            final(self).directories_scanned == old(self).directories_scanned + other.directories_scanned,
            final(self).files_discovered == old(self).files_discovered + other.files_discovered,
            final(self).files_indexed == old(self).files_indexed + other.files_indexed,
            final(self).files_reindexed == old(self).files_reindexed + other.files_reindexed,
            final(self).files_unchanged == old(self).files_unchanged + other.files_unchanged,
            final(self).files_skipped == old(self).files_skipped + other.files_skipped,
            final(self).files_failed == old(self).files_failed + other.files_failed,
            final(self).parser_errors == old(self).parser_errors + other.parser_errors,
            final(self).parser_panics == old(self).parser_panics + other.parser_panics,
            final(self).commits == old(self).commits + other.commits,
    {
        self.directories_scanned = self.directories_scanned + other.directories_scanned;
        self.files_discovered = self.files_discovered + other.files_discovered;
        self.files_indexed = self.files_indexed + other.files_indexed;
        self.files_reindexed = self.files_reindexed + other.files_reindexed;
        self.files_unchanged = self.files_unchanged + other.files_unchanged;
        self.files_skipped = self.files_skipped + other.files_skipped;
        self.files_failed = self.files_failed + other.files_failed;
        self.parser_errors = self.parser_errors + other.parser_errors;
        self.parser_panics = self.parser_panics + other.parser_panics;
        self.commits = self.commits + other.commits;
    }
}

impl Default for ScannerStatistics {
    fn default() -> (r: Self)
        ensures
            r == zero_statistics(),
    {
        Self::new()
    }
}

/// Law: merging is commutative.
pub proof fn law_merge_commutative(a: ScannerStatistics, b: ScannerStatistics)
    ensures
        merged(a, b) == merged(b, a),
{
}

/// Law: merging adds the counters one by one: each counter of the merged
/// statistics is the sum of that counter in the two merged ones.
pub proof fn law_merge_adds_counters(a: ScannerStatistics, b: ScannerStatistics)
    requires
        can_merge(a, b),
    ensures
        merged(a, b).directories_scanned == a.directories_scanned + b.directories_scanned,
        merged(a, b).files_discovered == a.files_discovered + b.files_discovered,
        merged(a, b).files_indexed == a.files_indexed + b.files_indexed,
        merged(a, b).files_reindexed == a.files_reindexed + b.files_reindexed,
        merged(a, b).files_unchanged == a.files_unchanged + b.files_unchanged,
        merged(a, b).files_skipped == a.files_skipped + b.files_skipped,
        merged(a, b).files_failed == a.files_failed + b.files_failed,
        merged(a, b).parser_errors == a.parser_errors + b.parser_errors,
        merged(a, b).parser_panics == a.parser_panics + b.parser_panics,
        merged(a, b).commits == a.commits + b.commits,
{
}

/// Law: merging is associative, as long as the counters fit in a `u64`.
pub proof fn law_merge_associative(a: ScannerStatistics, b: ScannerStatistics, c: ScannerStatistics)
    requires
        can_merge(a, b),
        can_merge(merged(a, b), c),
    ensures
        can_merge(b, c),
        can_merge(a, merged(b, c)),
        merged(merged(a, b), c) == merged(a, merged(b, c)),
{
}

/// Law: fresh statistics are the identity of merging.
pub proof fn law_merge_zero_identity(a: ScannerStatistics)
    ensures
        merged(a, zero_statistics()) == a,
        merged(zero_statistics(), a) == a,
        can_merge(a, zero_statistics()),
{
}

} // verus!
