use glintindex_core::preview::highlight::find_matches;
use glintindex_core::preview::loader::{cannot_read, failed_to_load, load_bytes, needs_truncation};
use glintindex_core::preview::{Encoding, LoadConfig, LoadResult};

#[test]
fn load_config_default() {
    let config = LoadConfig::default();
    assert_eq!(config.max_size, 1024 * 1024);
}

#[test]
fn load_result_success() {
    let result = LoadResult::success("test".to_string(), Encoding::Utf8, 4);
    assert!(!result.is_binary);
    assert!(!result.truncated);
    assert!(result.error.is_none());
}

#[test]
fn load_result_truncated() {
    let result = LoadResult::truncated("test".to_string(), Encoding::Utf8, 1000);
    assert!(result.truncated);
    assert_eq!(result.original_size, 1000);
}

#[test]
fn load_result_binary() {
    let result = LoadResult::binary(512);
    assert!(result.is_binary);
    assert!(result.error.is_some());
    assert!(result.error.unwrap().contains("Binary"));
}

#[test]
fn load_result_error() {
    let result = LoadResult::error("test error".to_string(), 0);
    assert!(result.error.is_some());
    assert_eq!(result.error.unwrap(), "test error");
}

#[test]
fn preview_match_finding() {
    let matches = find_matches("hello world hello", "hello");
    assert_eq!(matches.len(), 2);
}

#[test]
fn load_text_bytes() {
    let result = load_bytes(b"Hello, world!", 13, &LoadConfig::default());
    assert!(!result.is_binary);
    assert!(!result.truncated);
    assert_eq!(result.content, "Hello, world!");
    assert_eq!(result.encoding, Encoding::Utf8);
    assert_eq!(result.original_size, 13);
    assert!(result.error.is_none());
}

#[test]
fn load_binary_bytes() {
    let result = load_bytes(&[0x00, 0x01, 0x02, 0x03], 4, &LoadConfig::default());
    assert!(result.is_binary);
    assert_eq!(result.error.as_deref(), Some("Binary file preview is not available."));
    assert!(result.content.is_empty());
    assert_eq!(result.original_size, 4);
}

#[test]
fn load_large_bytes_truncated() {
    let config = LoadConfig { max_size: 1024 };
    let head = "x".repeat(1024);
    let result = load_bytes(head.as_bytes(), 2000, &config);
    assert!(result.truncated);
    assert!(result.content.contains("Preview truncated"));
    assert_eq!(
        result.content,
        format!("{}\n\nPreview truncated.\nOnly the first 1 MB is displayed.", head)
    );
    assert_eq!(result.original_size, 2000);
}

#[test]
fn load_empty_bytes() {
    let result = load_bytes(&[], 0, &LoadConfig::default());
    assert!(!result.is_binary);
    assert!(result.content.is_empty());
}

#[test]
fn truncation_threshold_is_exclusive() {
    let config = LoadConfig { max_size: 10 };
    assert!(!needs_truncation(10, &config));
    assert!(needs_truncation(11, &config));
    let exact = load_bytes(b"0123456789", 10, &config);
    assert!(!exact.truncated);
    assert_eq!(exact.content, "0123456789");
}

#[test]
fn large_binary_file_is_binary_not_truncated() {
    let config = LoadConfig { max_size: 4 };
    let result = load_bytes(&[1, 0, 2, 3], 100, &config);
    assert!(result.is_binary);
    assert!(!result.truncated);
    assert_eq!(result.original_size, 100);
}

#[test]
fn load_failures_carry_messages() {
    let unreadable = cannot_read("No such file or directory");
    assert_eq!(unreadable.error.as_deref(), Some("Cannot read file: No such file or directory"));
    assert_eq!(unreadable.original_size, 0);
    let failed = failed_to_load("permission denied", 42);
    assert_eq!(failed.error.as_deref(), Some("Failed to load file: permission denied"));
    assert_eq!(failed.original_size, 42);
    assert!(!failed.is_binary);
}
