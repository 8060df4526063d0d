use glintindex_core::error::GlintIndexError;
use glintindex_core::scanner::parser::is_likely_binary;
use glintindex_core::scanner::progress::{NoopReporter, ProgressReporter};
use glintindex_core::scanner::service::{classify_change, parser_type_name, FileChange, FilesystemScanner, ScanSession};
use glintindex_core::scanner::{IgnoreRules, ScannerStatistics};
use std::sync::atomic::{AtomicU64, Ordering};

#[test]
fn default_rules_contain_common_dirs() {
    let rules = IgnoreRules::new();
    assert!(rules.should_ignore_dir(".git"));
    assert!(rules.should_ignore_dir("target"));
    assert!(rules.should_ignore_dir("node_modules"));
    assert!(rules.should_ignore_dir(".idea"));
    assert!(rules.should_ignore_dir(".vscode"));
    assert!(rules.should_ignore_dir(".cache"));
    assert!(rules.should_ignore_dir("dist"));
    assert!(rules.should_ignore_dir("build"));
}

#[test]
fn default_rules_do_not_ignore_src() {
    let rules = IgnoreRules::new();
    assert!(!rules.should_ignore_dir("src"));
    assert!(!rules.should_ignore_dir("crates"));
}

#[test]
fn custom_rules_merge() {
    let custom = vec!["my_custom_dir".to_string(), ".git".to_string()];
    let rules = IgnoreRules::with_custom(&custom);
    assert!(rules.should_ignore_dir("my_custom_dir"));
    assert!(rules.should_ignore_dir(".git"));
}

#[test]
fn supported_extensions() {
    assert!(IgnoreRules::is_supported_file("main.rs"));
    assert!(IgnoreRules::is_supported_file("index.html"));
    assert!(IgnoreRules::is_supported_file("style.css"));
    assert!(IgnoreRules::is_supported_file("readme.md"));
    assert!(IgnoreRules::is_supported_file("data.json"));
}

#[test]
fn unsupported_extensions() {
    assert!(!IgnoreRules::is_supported_file("image.png"));
    assert!(!IgnoreRules::is_supported_file("binary"));
    assert!(!IgnoreRules::is_supported_file("archive.zip"));
}

#[test]
fn binary_detection_null_byte() {
    let data = [0x00, 0x01, 0x02, 0x03];
    assert!(is_likely_binary(&data));
}

#[test]
fn binary_detection_text() {
    let data = b"fn main() {\n    println!(\"hello\");\n}\n";
    assert!(!is_likely_binary(data));
}

#[test]
fn binary_detection_empty() {
    assert!(!is_likely_binary(&[]));
}

#[test]
fn binary_detection_control_chars() {
    let data: Vec<u8> = (0..100).map(|i| (i % 32) as u8).collect();
    assert!(is_likely_binary(&data));
}

struct TestReporter {
    files_discovered: AtomicU64,
    files_indexed: AtomicU64,
    files_skipped: AtomicU64,
    files_failed: AtomicU64,
    parser_errors: AtomicU64,
    parser_panics: AtomicU64,
}

impl TestReporter {
    fn new() -> Self {
        Self {
            files_discovered: AtomicU64::new(0),
            files_indexed: AtomicU64::new(0),
            files_skipped: AtomicU64::new(0),
            files_failed: AtomicU64::new(0),
            parser_errors: AtomicU64::new(0),
            parser_panics: AtomicU64::new(0),
        }
    }
}

impl ProgressReporter for TestReporter {
    fn on_file_discovered(&self, _path: &str) {
        self.files_discovered.fetch_add(1, Ordering::Relaxed);
    }
    fn on_file_indexed(&self, _path: &str) {
        self.files_indexed.fetch_add(1, Ordering::Relaxed);
    }
    fn on_file_skipped(&self, _path: &str) {
        self.files_skipped.fetch_add(1, Ordering::Relaxed);
    }
    fn on_file_failed(&self, _path: &str, _reason: &str) {
        self.files_failed.fetch_add(1, Ordering::Relaxed);
    }
    fn on_parser_error(&self, _path: &str, _parser: &str, _reason: &str) {
        self.parser_errors.fetch_add(1, Ordering::Relaxed);
    }
    fn on_parser_panic(&self, _path: &str, _parser: &str) {
        self.parser_panics.fetch_add(1, Ordering::Relaxed);
    }
    fn set_total_files(&self, _total: u64) {}
    fn on_operation_started(&self, _operation: &str) {}
    fn on_operation_completed(&self) {}
}

#[test]
fn test_reporter_counts() {
    let reporter = TestReporter::new();
    let path = "/tmp/test.txt";

    reporter.on_file_discovered(path);
    reporter.on_file_indexed(path);
    reporter.on_file_discovered(path);
    reporter.on_file_skipped(path);
    reporter.on_file_failed(path, "error");
    reporter.on_parser_error(path, "PDF", "corrupted");
    reporter.on_parser_panic(path, "DOCX");

    assert_eq!(reporter.files_discovered.load(Ordering::Relaxed), 2);
    assert_eq!(reporter.files_indexed.load(Ordering::Relaxed), 1);
    assert_eq!(reporter.files_skipped.load(Ordering::Relaxed), 1);
    assert_eq!(reporter.files_failed.load(Ordering::Relaxed), 1);
    assert_eq!(reporter.parser_errors.load(Ordering::Relaxed), 1);
    assert_eq!(reporter.parser_panics.load(Ordering::Relaxed), 1);
}

#[test]
fn noop_reporter_compiles() {
    let reporter = NoopReporter;
    let path = "/tmp/test.txt";
    reporter.on_file_discovered(path);
    reporter.on_file_indexed(path);
    reporter.on_file_skipped(path);
    reporter.on_file_failed(path, "error");
    reporter.on_parser_error(path, "PDF", "corrupted");
    reporter.on_parser_panic(path, "DOCX");
    reporter.set_total_files(100);
    reporter.on_operation_started("Indexing");
    reporter.on_operation_completed();
}

#[test]
fn reporter_is_send_sync() {
    fn assert_send_sync<T: Send + Sync>() {}
    assert_send_sync::<NoopReporter>();
    assert_send_sync::<TestReporter>();
}

#[test]
fn parser_name_returns_correct_names() {
    assert_eq!(parser_type_name("test.pdf"), "PDF");
    assert_eq!(parser_type_name("test.docx"), "DOCX");
    assert_eq!(parser_type_name("test.xlsx"), "XLSX");
    assert_eq!(parser_type_name("test.pptx"), "PPTX");
    assert_eq!(parser_type_name("test.rtf"), "RTF");
    assert_eq!(parser_type_name("test.odt"), "ODT");
    assert_eq!(parser_type_name("test.txt"), "text");
    assert_eq!(parser_type_name("test.rs"), "text");
}

#[test]
fn new_statistics_are_zero() {
    let stats = ScannerStatistics::new();
    assert_eq!(stats.directories_scanned, 0);
    assert_eq!(stats.files_discovered, 0);
    assert_eq!(stats.files_indexed, 0);
    assert_eq!(stats.files_skipped, 0);
    assert_eq!(stats.files_failed, 0);
    assert_eq!(stats.parser_errors, 0);
    assert_eq!(stats.parser_panics, 0);
}

#[test]
fn increment_counters() {
    let mut stats = ScannerStatistics::new();
    stats.inc_directories_scanned();
    stats.inc_directories_scanned();
    stats.inc_files_discovered();
    stats.inc_files_indexed();
    stats.inc_files_skipped();
    stats.inc_files_failed();
    stats.inc_files_failed();
    stats.inc_parser_errors();
    stats.inc_parser_errors();
    stats.inc_parser_errors();
    stats.inc_parser_panics();

    assert_eq!(stats.directories_scanned, 2);
    assert_eq!(stats.files_discovered, 1);
    assert_eq!(stats.files_indexed, 1);
    assert_eq!(stats.files_skipped, 1);
    assert_eq!(stats.files_failed, 2);
    assert_eq!(stats.parser_errors, 3);
    assert_eq!(stats.parser_panics, 1);
}

#[test]
fn merge_statistics() {
    let mut a = ScannerStatistics::new();
    a.directories_scanned = 5;
    a.files_discovered = 20;
    a.files_indexed = 15;
    a.files_skipped = 3;
    a.files_failed = 2;
    a.parser_errors = 1;
    a.parser_panics = 1;

    let mut b = ScannerStatistics::new();
    b.directories_scanned = 3;
    b.files_discovered = 10;
    b.files_indexed = 8;
    b.files_skipped = 1;
    b.files_failed = 1;
    b.parser_errors = 2;
    b.parser_panics = 0;

    a.merge(&b);

    assert_eq!(a.directories_scanned, 8);
    assert_eq!(a.files_discovered, 30);
    assert_eq!(a.files_indexed, 23);
    assert_eq!(a.files_skipped, 4);
    assert_eq!(a.files_failed, 3);
    assert_eq!(a.parser_errors, 3);
    assert_eq!(a.parser_panics, 1);
}

#[test]
fn commit_interval_default_is_0() {
    let scanner = FilesystemScanner::new();
    assert_eq!(scanner.commit_interval(), 0);
}

#[test]
fn merge_order_does_not_matter() {
    let mut a = ScannerStatistics::new();
    a.files_indexed = 7;
    a.commits = 2;
    let mut b = ScannerStatistics::new();
    b.files_indexed = 5;
    b.files_unchanged = 9;
    let mut ab = a.clone();
    ab.merge(&b);
    let mut ba = b.clone();
    ba.merge(&a);
    assert_eq!(ab, ba);
    let mut with_zero = a.clone();
    with_zero.merge(&ScannerStatistics::new());
    assert_eq!(with_zero, a);
}

#[test]
fn scan_directories_adds_up_statistics() {
    let scanner = FilesystemScanner::new();
    let mut one = ScannerStatistics::new();
    one.files_indexed = 2;
    one.directories_scanned = 1;
    let mut two = ScannerStatistics::new();
    two.files_indexed = 3;
    two.files_skipped = 4;
    let total = scanner.scan_directories(&[Ok(one), Ok(two)]).unwrap();
    assert_eq!(total.files_indexed, 5);
    assert_eq!(total.files_skipped, 4);
    assert_eq!(total.directories_scanned, 1);
    assert_eq!(scanner.scan_directories(&[]).unwrap(), ScannerStatistics::new());
}

#[test]
fn scan_directories_stops_at_first_error() {
    let scanner = FilesystemScanner::new();
    let results = vec![
        Ok(ScannerStatistics::new()),
        Err(GlintIndexError::Other("cannot read root".to_string())),
        Err(GlintIndexError::Other("second".to_string())),
    ];
    let err = scanner.scan_directories(&results).unwrap_err();
    assert_eq!(err.message(), "cannot read root");
}

#[test]
fn scanner_configuration_builders() {
    let custom = vec!["vendor".to_string()];
    let scanner = FilesystemScanner::with_custom_ignores(&custom)
        .with_commit_interval(3)
        .with_max_file_size(10)
        .with_parser_timeout(5);
    assert_eq!(scanner.commit_interval(), 3);
    assert!(!scanner.should_descend("vendor"));
    assert!(!scanner.should_descend(".git"));
    assert!(scanner.should_descend("src"));
    assert!(scanner.exceeds_size_limit(11));
    assert!(!scanner.exceeds_size_limit(10));
    assert!(!scanner.should_extract_text(true, &[0, 1, 2]));
    assert!(scanner.should_extract_text(false, &[0, 1, 2]));
    assert!(scanner.should_extract_text(true, b"text"));
    assert!(FilesystemScanner::new().exceeds_size_limit(50 * 1024 * 1024 + 1));
}

#[test]
fn classify_change_compares_size_and_time() {
    assert_eq!(classify_change(None, 10, 20), FileChange::New);
    assert_eq!(classify_change(Some((10, 20)), 10, 20), FileChange::Unchanged);
    assert_eq!(classify_change(Some((10, 20)), 11, 20), FileChange::Changed);
    assert_eq!(classify_change(Some((10, 20)), 10, 21), FileChange::Changed);
}

#[test]
fn scan_session_commits_every_interval() {
    let mut session = ScanSession::new(2);
    assert!(!session.file_indexed(true));
    assert!(session.file_indexed(false));
    assert!(!session.file_indexed(true));
    session.file_discovered();
    session.file_skipped();
    let (final_commit, stats) = session.finish();
    assert!(final_commit);
    assert_eq!(stats.files_indexed, 2);
    assert_eq!(stats.files_reindexed, 1);
    assert_eq!(stats.commits, 2);
    assert_eq!(stats.files_discovered, 1);
    assert_eq!(stats.files_skipped, 1);
}

#[test]
fn scan_session_without_interval_commits_once() {
    let mut session = ScanSession::new(0);
    for _ in 0..5 {
        assert!(!session.file_indexed(true));
    }
    session.file_unchanged();
    session.file_failed();
    session.directory_entered();
    let (final_commit, stats) = session.finish();
    assert!(final_commit);
    assert_eq!(stats.commits, 1);
    assert_eq!(stats.files_unchanged, 1);
    assert_eq!(stats.files_failed, 1);
    assert_eq!(stats.directories_scanned, 1);
    let (nothing, empty) = ScanSession::new(0).finish();
    assert!(!nothing);
    assert_eq!(empty.commits, 0);
}
