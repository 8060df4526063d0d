use glintindex_core::preview::loader::{cannot_read, load_bytes};
use glintindex_core::preview::{LoadConfig, LoadResult, PreviewConfig, PreviewError, PreviewService};
use glintindex_core::preview::Encoding;

fn load(text: &str) -> LoadResult {
    load_bytes(text.as_bytes(), text.len() as u64, &LoadConfig::default())
}

#[test]
fn create_preview_service() {
    let service = PreviewService::new(PreviewConfig::default());
    assert_eq!(service.config().max_file_size, 1024 * 1024);
}

#[test]
fn preview_default_config() {
    let service = PreviewService::with_default_config();
    assert_eq!(service.config().max_file_size, 1024 * 1024);
}

#[test]
fn preview_nonexistent_file() {
    let mut service = PreviewService::new(PreviewConfig::default());
    let output = service.preview_loaded("/nonexistent/file.txt", cannot_read("not found"), "").unwrap();
    assert!(output.error.is_some());
}

#[test]
fn preview_text_content() {
    let mut service = PreviewService::new(PreviewConfig::default());
    let output = service.preview_loaded("test.txt", load("Hello, world!"), "").unwrap();
    assert!(output.error.is_none());
    assert!(!output.is_binary);
    assert_eq!(output.lines.len(), 1);
    assert_eq!(output.lines[0].text, "Hello, world!");
    assert_eq!(output.lines[0].line_number, 1);
    assert_eq!(output.path, "test.txt");
}

#[test]
fn preview_with_search_query() {
    let mut service = PreviewService::new(PreviewConfig::default());
    let output = service.preview_loaded("test.txt", load("Hello world!"), "world").unwrap();
    assert!(!output.lines[0].match_highlights.is_empty());
    assert_eq!(output.lines[0].match_highlights[0].text, "world");
}

#[test]
fn preview_case_insensitive_search() {
    let mut service = PreviewService::new(PreviewConfig::default());
    let output = service.preview_loaded("test.txt", load("Hello World"), "hello").unwrap();
    assert!(!output.lines[0].match_highlights.is_empty());
}

#[test]
fn preview_binary_content() {
    let mut service = PreviewService::new(PreviewConfig::default());
    let loaded = load_bytes(&[0x00, 0x01, 0x02], 3, &LoadConfig::default());
    let output = service.preview_loaded("test.bin", loaded, "").unwrap();
    assert!(output.is_binary);
    assert_eq!(output.error.as_deref(), Some("Binary file preview is not available."));
    assert!(output.lines.is_empty());
    // Binary previews are not cached.
    assert!(service.cached_preview("test.bin", "").unwrap().is_none());
}

#[test]
fn preview_multiline_numbers_lines() {
    let mut service = PreviewService::new(PreviewConfig::default());
    let output = service.preview_loaded("test.txt", load("line 1\nline 2\nline 3"), "").unwrap();
    assert_eq!(output.lines.len(), 3);
    assert_eq!(output.lines[0].line_number, 1);
    assert_eq!(output.lines[1].line_number, 2);
    assert_eq!(output.lines[2].line_number, 3);
}

#[test]
fn preview_cache_returns_loaded_lines() {
    let mut service = PreviewService::new(PreviewConfig::default());
    let output1 = service.preview_loaded("test.txt", load("Hello"), "").unwrap();
    let output2 = service.cached_preview("test.txt", "").unwrap().unwrap();
    assert_eq!(output1.lines.len(), output2.lines.len());
    assert_eq!(output1.lines[0].text, output2.lines[0].text);
    assert_eq!(output1.lines[0].syntax_spans, output2.lines[0].syntax_spans);
    // Another path misses the cache.
    assert!(service.cached_preview("other.txt", "").unwrap().is_none());
}

#[test]
fn cache_research_uses_new_query() {
    let mut service = PreviewService::new(PreviewConfig::default());
    service.preview_loaded("a.txt", load("abc abc"), "abc").unwrap();
    let again = service.cached_preview("a.txt", "c a").unwrap().unwrap();
    assert_eq!(again.lines[0].match_highlights.len(), 1);
    assert_eq!(again.lines[0].match_highlights[0].start, 2);
    // An empty query gives no highlights, whatever the earlier query was.
    let plain = service.cached_preview("a.txt", "").unwrap().unwrap();
    assert!(plain.lines[0].match_highlights.is_empty());
}

#[test]
fn clear_cache() {
    let mut service = PreviewService::new(PreviewConfig::default());
    service.preview_loaded("test.txt", load("Hello"), "").unwrap();
    service.clear_cache();
    assert!(service.cached_preview("test.txt", "").unwrap().is_none());
}

#[test]
fn preview_empty_query() {
    let mut service = PreviewService::new(PreviewConfig::default());
    let output = service.preview_loaded("test.txt", load("Hello"), "").unwrap();
    for line in &output.lines {
        assert!(line.match_highlights.is_empty());
    }
}

#[test]
fn preview_truncated_content() {
    let mut service = PreviewService::new(PreviewConfig { max_file_size: 1024 });
    let config = service.load_config();
    assert_eq!(config.max_size, 1024);
    let head = "x".repeat(1024);
    let loaded = load_bytes(head.as_bytes(), 2000, &config);
    let output = service.preview_loaded("large.txt", loaded, "").unwrap();
    assert!(output.truncated);
    assert_eq!(output.original_size, 2000);
    assert_eq!(output.encoding, Encoding::Utf8);
    assert_eq!(output.lines.len(), 4);
    assert_eq!(output.lines[2].text, "Preview truncated.");
}

#[test]
fn preview_module_integration() {
    let mut service = PreviewService::new(PreviewConfig::default());
    let output = service
        .preview_loaded("test.rs", load("fn main() {\n    println!(\"Hello\");\n}"), "Hello")
        .unwrap();
    assert!(output.error.is_none());
    assert_eq!(output.lines.len(), 3);
    assert_eq!(output.lines[0].line_number, 1);
    assert_eq!(output.lines[1].match_highlights.len(), 1);
}

#[test]
fn preview_refuses_match_inside_character() {
    let mut service = PreviewService::new(PreviewConfig::default());
    let r = service.preview_loaded("t.txt", load("ok\nİ"), "\u{307}");
    assert_eq!(r.unwrap_err(), PreviewError::MatchInsideCharacter { line_number: 2 });
    assert!(service.cached_preview("t.txt", "").unwrap().is_none());
}
