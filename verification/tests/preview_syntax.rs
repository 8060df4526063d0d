use glintindex_core::paths::{extension_or_empty_of, file_name_or_empty_of};
use glintindex_core::preview::lines::split_lines;
use glintindex_core::preview::syntax::{spans_from_pieces, StyledPiece};
use glintindex_core::preview::{Style, SyntaxHighlighter};

#[test]
fn style_creation() {
    let style = Style::new((255, 0, 0), true, false);
    assert_eq!(style.foreground, (255, 0, 0));
    assert!(style.bold);
    assert!(!style.italic);
}

#[test]
fn style_default() {
    let style = Style::default();
    assert_eq!(style.foreground, (255, 255, 255));
    assert!(!style.bold);
    assert!(!style.italic);
}

#[test]
fn syntax_highlighter_creation() {
    let highlighter = SyntaxHighlighter::new();
    let syntax = highlighter.detect_syntax("test.rs");
    assert!(syntax.is_some());
    assert!(!syntax.unwrap().name.is_empty());
}

#[test]
fn detect_rust_syntax() {
    let highlighter = SyntaxHighlighter::new();
    let syntax = highlighter.detect_syntax("main.rs");
    assert!(syntax.is_some());
    assert!(syntax.unwrap().name.to_lowercase().contains("rust"));
}

#[test]
fn detect_python_syntax() {
    let highlighter = SyntaxHighlighter::new();
    let syntax = highlighter.detect_syntax("script.py");
    assert!(syntax.is_some());
    assert!(syntax.unwrap().name.to_lowercase().contains("python"));
}

#[test]
fn detect_javascript_syntax() {
    let highlighter = SyntaxHighlighter::new();
    let syntax = highlighter.detect_syntax("app.js");
    assert!(syntax.is_some());
    assert!(syntax.unwrap().name.to_lowercase().contains("javascript"));
}

#[test]
fn detect_json_syntax() {
    let highlighter = SyntaxHighlighter::new();
    let syntax = highlighter.detect_syntax("data.json");
    assert!(syntax.is_some());
    assert!(syntax.unwrap().name.to_lowercase().contains("json"));
}

#[test]
fn detect_yaml_syntax() {
    let highlighter = SyntaxHighlighter::new();
    let syntax = highlighter.detect_syntax("config.yml");
    assert!(syntax.is_some());
    assert!(syntax.unwrap().name.to_lowercase().contains("yaml"));
}

#[test]
fn detect_toml_syntax() {
    let highlighter = SyntaxHighlighter::new();
    let syntax = highlighter.detect_syntax("Cargo.toml");
    assert!(syntax.is_some());
    assert!(!syntax.unwrap().name.is_empty());
}

#[test]
fn detect_html_syntax() {
    let highlighter = SyntaxHighlighter::new();
    let syntax = highlighter.detect_syntax("index.html");
    assert!(syntax.is_some());
    assert!(syntax.unwrap().name.to_lowercase().contains("html"));
}

#[test]
fn detect_css_syntax() {
    let highlighter = SyntaxHighlighter::new();
    let syntax = highlighter.detect_syntax("style.css");
    assert!(syntax.is_some());
    assert!(syntax.unwrap().name.to_lowercase().contains("css"));
}

#[test]
fn highlight_simple_code() {
    let highlighter = SyntaxHighlighter::new();
    let lines = highlighter.highlight_lines("fn main() {}", "test.rs");
    assert!(!lines.is_empty());
    assert_eq!(lines[0].text, "fn main() {}");
    assert!(!lines[0].spans.is_empty());
}

#[test]
fn highlight_multiline() {
    let highlighter = SyntaxHighlighter::new();
    let code = "fn main() {\n    println!(\"Hello\");\n}";
    let lines = highlighter.highlight_lines(code, "test.rs");
    assert_eq!(lines.len(), 3);
    assert_eq!(lines[0].text, "fn main() {");
    assert_eq!(lines[1].text, "    println!(\"Hello\");");
    assert_eq!(lines[2].text, "}");
}

#[test]
fn preview_syntax_detection() {
    let highlighter = SyntaxHighlighter::new();
    let syntax = highlighter.detect_syntax("test.py");
    assert!(syntax.is_some());
    assert!(!syntax.unwrap().name.is_empty());
}

#[test]
fn unknown_extension_falls_back_to_plain_text() {
    let highlighter = SyntaxHighlighter::new();
    let syntax = highlighter.detect_syntax("notes.unknownext");
    assert_eq!(syntax.unwrap().name, "Plain Text");
}

#[test]
fn highlighted_spans_stay_within_their_line() {
    let highlighter = SyntaxHighlighter::new();
    let code = "let x = \"é\";\r\n// comment\n\nfn f() {}";
    let lines = highlighter.highlight_lines(code, "lib.rs");
    assert_eq!(lines.len(), 4);
    assert_eq!(lines[0].text, "let x = \"é\";");
    assert_eq!(lines[2].text, "");
    for line in &lines {
        let mut last_end = 0;
        for &(start, end, _) in &line.spans {
            assert!(start >= last_end);
            assert!(start <= end && end <= line.text.len());
            last_end = end;
        }
    }
}

#[test]
fn split_lines_follows_line_endings() {
    assert_eq!(split_lines("a\nb\r\nc"), vec!["a", "b", "c"]);
    assert_eq!(split_lines("a\n"), vec!["a"]);
    assert_eq!(split_lines("\n\n"), vec!["", ""]);
    assert_eq!(split_lines("a\rb"), vec!["a\rb"]);
    assert_eq!(split_lines("x\r"), vec!["x\r"]);
    assert!(split_lines("").is_empty());
}

#[test]
fn split_lines_matches_std_lines() {
    for text in ["one\ntwo\n", "é\r\nü", "\r\n", "tail", "a\n\nb"] {
        let std_lines: Vec<&str> = text.lines().collect();
        assert_eq!(split_lines(text), std_lines);
    }
}

fn piece(color: u8, bits: u8, text: &str) -> StyledPiece {
    StyledPiece { foreground: (color, color, color), font_bits: bits, text: text.to_string() }
}

#[test]
fn spans_from_pieces_drop_the_line_feed() {
    let pieces = vec![piece(1, 1, "fn"), piece(2, 4, " main"), piece(3, 0, "\n")];
    let spans = spans_from_pieces(7, &pieces);
    assert_eq!(
        spans,
        vec![
            (0, 2, Style::new((1, 1, 1), true, false)),
            (2, 7, Style::new((2, 2, 2), false, true)),
        ]
    );
}

#[test]
fn spans_from_pieces_fill_the_rest_with_default_style() {
    let pieces = vec![piece(9, 5, "ab")];
    let spans = spans_from_pieces(5, &pieces);
    assert_eq!(spans, vec![(0, 2, Style::new((9, 9, 9), true, true)), (2, 5, Style::default())]);
}

#[test]
fn spans_from_pieces_of_empty_line() {
    let spans = spans_from_pieces(0, &[piece(4, 0, "\n")]);
    assert!(spans.is_empty());
    let spans = spans_from_pieces(3, &[]);
    assert_eq!(spans, vec![(0, 3, Style::default())]);
}

#[test]
fn extension_is_the_part_after_the_last_dot_of_the_file_name() {
    assert_eq!(extension_or_empty_of("src/archive.tar.gz"), "gz");
    assert_eq!(extension_or_empty_of("dir/main.rs"), "rs");
    assert_eq!(extension_or_empty_of("home/.bashrc"), "");
    assert_eq!(extension_or_empty_of("home/.config.toml"), "toml");
    assert_eq!(extension_or_empty_of("Makefile"), "");
    assert_eq!(extension_or_empty_of("notes."), "");
    assert_eq!(file_name_or_empty_of("dir/main.rs"), "main.rs");
    assert_eq!(file_name_or_empty_of("dir/.."), "");
}

#[test]
fn detect_syntax_always_finds_a_syntax() {
    let highlighter = SyntaxHighlighter::new();
    assert_eq!(highlighter.detect_syntax("main.rs").map(|s| s.name.as_str()), Some("Rust"));
    assert_eq!(highlighter.detect_syntax("data.nosuchextension").map(|s| s.name.as_str()), Some("Plain Text"));
    assert_eq!(highlighter.detect_syntax("README").map(|s| s.name.as_str()), Some("Plain Text"));
    assert!(highlighter.detect_syntax("Makefile").is_some());
}
