use glintindex_core::ui::search::blank;
use glintindex_core::ui::{generate_css, pagination, ready_status, uses_dark_css, ColorTheme, SearchState, UiAction};

fn create_test_state() -> SearchState {
    SearchState::new("Ready".to_string())
}

fn create_test_result(filename: &str) -> String {
    format!("/tmp/{}", filename)
}

#[test]
fn navigate_up_empty_results() {
    let mut state = create_test_state();
    state.results = Vec::new();
    state.selected_index = None;
    state.navigate_up();
    assert!(state.selected_index.is_none());
}

#[test]
fn navigate_down_empty_results() {
    let mut state = create_test_state();
    state.results = Vec::new();
    state.selected_index = None;
    state.navigate_down();
    assert!(state.selected_index.is_none());
}

#[test]
fn navigate_up_no_selection() {
    let mut state = create_test_state();
    state.results = vec![create_test_result("file1.txt")];
    state.selected_index = None;
    state.navigate_up();
    assert_eq!(state.selected_index, Some(0));
}

#[test]
fn navigate_down_no_selection() {
    let mut state = create_test_state();
    state.results = vec![create_test_result("file1.txt")];
    state.selected_index = None;
    state.navigate_down();
    assert_eq!(state.selected_index, Some(0));
}

#[test]
fn navigate_up_at_top() {
    let mut state = create_test_state();
    state.results = vec![create_test_result("file1.txt")];
    state.selected_index = Some(0);
    state.navigate_up();
    assert_eq!(state.selected_index, Some(0));
}

#[test]
fn navigate_down_at_bottom() {
    let mut state = create_test_state();
    state.results = vec![create_test_result("file1.txt")];
    state.selected_index = Some(0);
    state.navigate_down();
    assert_eq!(state.selected_index, Some(0));
}

#[test]
fn navigate_up_middle() {
    let mut state = create_test_state();
    state.results = vec![
        create_test_result("file1.txt"),
        create_test_result("file2.txt"),
        create_test_result("file3.txt"),
    ];
    state.selected_index = Some(2);
    state.navigate_up();
    assert_eq!(state.selected_index, Some(1));
    assert_eq!(state.status, "file2.txt");
}

#[test]
fn navigate_down_middle() {
    let mut state = create_test_state();
    state.results = vec![
        create_test_result("file1.txt"),
        create_test_result("file2.txt"),
        create_test_result("file3.txt"),
    ];
    state.selected_index = Some(0);
    state.navigate_down();
    assert_eq!(state.selected_index, Some(1));
    assert_eq!(state.status, "file2.txt");
}

#[test]
fn blank_queries_clear_results() {
    let mut state = create_test_state();
    state.results = vec![create_test_result("a.txt")];
    state.selected_index = Some(0);
    assert_eq!(state.search_changed(" \t\u{3000}".to_string()), UiAction::Nothing);
    assert!(state.results.is_empty());
    assert!(state.selected_index.is_none());
    assert!(!state.search_pending);
}

#[test]
fn search_is_debounced() {
    let mut state = create_test_state();
    assert_eq!(state.search_changed("rust".to_string()), UiAction::ScheduleDebounce);
    assert!(state.search_pending);
    assert_eq!(state.search_debounced(), UiAction::Search("rust".to_string()));
    assert!(!state.search_pending);
    assert!(state.pending_query.is_empty());
    // A second debounce without a new change does nothing.
    assert_eq!(state.search_debounced(), UiAction::Nothing);
}

#[test]
fn search_results_update_status() {
    let mut state = create_test_state();
    state.search_completed(vec![create_test_result("a.txt")]);
    assert_eq!(state.status, "Found 1 result");
    state.search_completed(vec![create_test_result("a.txt"), create_test_result("b.txt")]);
    assert_eq!(state.status, "Found 2 results");
    assert!(state.selected_index.is_none());
    state.search_completed(Vec::new());
    assert_eq!(state.status, "Found 0 results");
    state.search_failed("index missing");
    assert_eq!(state.status, "Search error: index missing");
    state.search_error("boom");
    assert_eq!(state.status, "Error: boom");
}

#[test]
fn selecting_a_result_loads_its_preview() {
    let mut state = create_test_state();
    state.query = "fn".to_string();
    state.results = vec![create_test_result("a.rs"), create_test_result("b.rs")];
    let action = state.result_selected(1);
    assert_eq!(action, UiAction::LoadPreview("/tmp/b.rs".to_string(), "fn".to_string()));
    assert_eq!(state.selected_index, Some(1));
    assert_eq!(state.status, "b.rs");
    assert_eq!(state.result_selected(5), UiAction::Nothing);
}

#[test]
fn submitting_opens_selected_or_first_result() {
    let mut state = create_test_state();
    assert_eq!(state.search_submitted(), UiAction::Nothing);
    state.results = vec![create_test_result("a.txt"), create_test_result("b.txt")];
    assert_eq!(state.search_submitted(), UiAction::Open("/tmp/a.txt".to_string()));
    assert_eq!(state.selected_index, Some(0));
    state.selected_index = Some(1);
    assert_eq!(state.search_submitted(), UiAction::Open("/tmp/b.txt".to_string()));
    assert_eq!(state.result_activated(7), UiAction::Nothing);
    state.file_opened("/tmp/b.txt");
    assert_eq!(state.status, "Opened: b.txt");
    state.open_failed("no application");
    assert_eq!(state.status, "Failed to open: no application");
}

#[test]
fn recent_searches() {
    let mut state = create_test_state();
    state.recent_searches_open = true;
    assert_eq!(state.recent_search_selected("notes".to_string()), UiAction::ScheduleDebounce);
    assert_eq!(state.query, "notes");
    assert!(!state.recent_searches_open);
    assert_eq!(state.clear_recent_searches(), UiAction::ClearRecentSearches);
    assert_eq!(state.status, "Recent searches cleared.");
}

#[test]
fn blank_follows_char_is_whitespace() {
    for s in ["", " ", "\n\t", "\u{a0}", "\u{2029}", "x", " a ", "\u{200b}"] {
        assert_eq!(blank(s), s.trim().is_empty(), "{:?}", s);
    }
}

#[test]
fn generated_css_appends_font_rule() {
    assert_eq!(generate_css("body {}", 12), "body {}\n* { font-size: 12pt; }");
    assert_eq!(generate_css("", 0), "\n* { font-size: 0pt; }");
    assert!(uses_dark_css(ColorTheme::Dark, false));
    assert!(!uses_dark_css(ColorTheme::Light, true));
    assert!(uses_dark_css(ColorTheme::System, true));
    assert!(!uses_dark_css(ColorTheme::System, false));
}

#[test]
fn status_texts() {
    assert_eq!(ready_status(0), "No folders configured");
    assert_eq!(ready_status(1), "Ready — 1 folder configured");
    assert_eq!(ready_status(12), "Ready — 12 folders configured");
    assert_eq!(pagination(1, 3), ("Page 1 of 3".to_string(), false, true));
    assert_eq!(pagination(3, 3), ("Page 3 of 3".to_string(), true, false));
    assert_eq!(pagination(0, 0), ("Page 0 of 0".to_string(), false, false));
}

#[test]
fn preview_outcomes_update_status() {
    let mut state = create_test_state();
    state.results = vec![create_test_result("a.rs")];
    state.result_selected(0);
    assert!(state.preview_loading);
    state.preview_loaded(Some("Binary file preview is not available."));
    assert!(!state.preview_loading);
    assert_eq!(state.preview_error.as_deref(), Some("Binary file preview is not available."));
    assert_eq!(state.status, "Preview error: Binary file preview is not available.");
    state.preview_loaded(None);
    assert!(state.preview_error.is_none());
    state.preview_failed("worker stopped");
    assert_eq!(state.status, "Preview failed: worker stopped");
}
