//! Syntax highlighting for file previews.
//!
//! `syntect` detects the language of a file from its extension or name and
//! splits each line into styled pieces; this module turns those pieces into
//! byte-offset spans over the line.
use vstd::prelude::*;

use syntect::easy::HighlightLines;
use syntect::highlighting::ThemeSet;
use syntect::parsing::{SyntaxReference, SyntaxSet};

use crate::preview::highlight::Span;
use crate::preview::lines::{line_bytes, lines_from, split_lines, strip_cr};
use crate::paths::{extension_or_empty_of, file_name_or_empty_of};
use crate::text::concat;
use vstd::string::StringSliceAdditionalSpecFns;
use vstd::utf8::*;

verus! {

/// Declares syntect's `SyntaxSet` so that the highlighter can hold one;
/// nothing of its contents is stated.
#[verifier::external_type_specification]
#[verifier::external_body]
pub struct ExSyntaxSet(SyntaxSet);

/// Declares syntect's `SyntaxReference`, a syntax of a set; nothing of it
/// is stated.
#[verifier::external_type_specification]
#[verifier::external_body]
pub struct ExSyntaxReference(SyntaxReference);

/// Declares syntect's `ThemeSet`; nothing of its contents is stated.
#[verifier::external_type_specification]
#[verifier::external_body]
pub struct ExThemeSet(ThemeSet);

/// Declares syntect's `Theme`; nothing of it is stated.
#[verifier::external_type_specification]
#[verifier::external_body]
pub struct ExTheme(syntect::highlighting::Theme);

/// Declares syntect's `HighlightLines`, the highlighting state carried from
/// one line of a file to the next; nothing of it is stated.
#[verifier::external_type_specification]
#[verifier::external_body]
pub struct ExHighlightLines<'a>(HighlightLines<'a>);

/// Simplified style information for a text span.
#[derive(Debug, Clone, Copy, PartialEq, Eq)]
pub struct Style {
    /// Foreground color as (r, g, b).
    pub foreground: (u8, u8, u8),
    /// Whether the text is bold.
    pub bold: bool,
    /// Whether the text is italic.
    pub italic: bool,
}

impl Style {
    /// Creates a new style with the given properties.
    pub fn new(foreground: (u8, u8, u8), bold: bool, italic: bool) -> (r: Self)
        ensures
            r == (Style { foreground, bold, italic }),
    {
        Style { foreground, bold, italic }
    }
}

/// The style used for unstyled text: white, neither bold nor italic.
pub open spec fn default_style() -> Style {
    Style { foreground: (255, 255, 255), bold: false, italic: false }
}

impl Default for Style {
    fn default() -> (r: Self)
        ensures
            r == default_style(),
    {
        Style { foreground: (255, 255, 255), bold: false, italic: false }
    }
}

/// A piece of a line as the highlighter styled it: its foreground color,
/// its font style flags (bold is bit 0, italic bit 2) and its text.
pub struct StyledPiece {
    pub foreground: (u8, u8, u8),
    pub font_bits: u8,
    pub text: String,
}

/// The UTF-8 length of a piece's text.
pub open spec fn piece_len(p: StyledPiece) -> int {
    encode_utf8(p.text@).len() as int
}

/// Whether a piece's text ends with a line feed.
pub open spec fn piece_ends_line(p: StyledPiece) -> bool {
    let b = encode_utf8(p.text@);
    b.len() > 0 && b.last() == 10u8
}

/// The style of a piece.
pub open spec fn piece_style(p: StyledPiece) -> Style {
    Style {
        foreground: p.foreground,
        bold: p.font_bits & 1u8 != 0,
        italic: p.font_bits & 4u8 != 0,
    }
}

/// The UTF-8 bytes of the pieces' texts, one after the other.
pub open spec fn pieces_bytes(ps: Seq<StyledPiece>) -> Seq<u8>
    decreases ps.len(),
{
    if ps.len() == 0 {
        Seq::empty()
    } else {
        encode_utf8(ps[0].text@) + pieces_bytes(ps.drop_first())
    }
}

/// Pieces that, from byte `pos` on, fit a line of `line_len` bytes followed
/// by a line feed: they end at or before the line feed, and a piece that
/// reaches it ends with it.
pub open spec fn pieces_fit(ps: Seq<StyledPiece>, pos: int, line_len: int) -> bool {
    let b = pieces_bytes(ps);
    &&& pos + b.len() <= line_len + 1
    &&& (pos + b.len() == line_len + 1 && b.len() > 0 ==> b.last() == 10u8)
}

/// The spans of a line of `line_len` bytes whose pieces, from byte `pos`
/// on, are `ps`: each piece covers its bytes, less a final line feed, with
/// its style; empty spans are left out; text after the last piece keeps the
/// default style.
pub open spec fn piece_spans(ps: Seq<StyledPiece>, pos: int, line_len: int) -> Seq<Span>
    decreases ps.len(),
{
    if ps.len() == 0 {
        if pos < line_len {
            seq![(pos as usize, line_len as usize, default_style())]
        } else {
            seq![]
        }
    } else {
        let p = ps[0];
        let end = pos + piece_len(p);
        let shown_end = if piece_ends_line(p) { end - 1 } else { end };
        (if pos < shown_end { seq![(pos as usize, shown_end as usize, piece_style(p))] } else { seq![] })
            + piece_spans(ps.drop_first(), end, line_len)
    }
}

/// The single span of a line that keeps the default style throughout.
pub open spec fn unstyled_spans(line_len: int) -> Seq<Span> {
    seq![(0usize, line_len as usize, default_style())]
}

/// Every span lies within the first `line_len` bytes, and ends at or before
/// the start of the next one.
pub open spec fn spans_within(spans: Seq<Span>, line_len: int) -> bool {
    &&& forall|k: int| 0 <= k < spans.len() ==> (#[trigger] spans[k]).0 <= spans[k].1 <= line_len
    &&& forall|k: int| 0 <= k < spans.len() - 1 ==> (#[trigger] spans[k]).1 <= spans[k + 1].0
}

proof fn lemma_pieces_fit_rest(ps: Seq<StyledPiece>, pos: int, line_len: int)
    requires
        ps.len() > 0,
        pieces_fit(ps, pos, line_len),
    ensures
        pieces_bytes(ps).len() == piece_len(ps[0]) + pieces_bytes(ps.drop_first()).len(),
        pieces_fit(ps.drop_first(), pos + piece_len(ps[0]), line_len),
        pos + piece_len(ps[0]) == line_len + 1 && piece_len(ps[0]) > 0 ==> piece_ends_line(ps[0]),
{
    let b = pieces_bytes(ps);
    let head = encode_utf8(ps[0].text@);
    let rest = pieces_bytes(ps.drop_first());
    assert(b == head + rest);
    if rest.len() > 0 {
        assert(b.last() == rest.last());
    }
    if pos + piece_len(ps[0]) == line_len + 1 && piece_len(ps[0]) > 0 {
        assert(rest.len() == 0);
        assert(b.last() == head.last());
    }
}

proof fn lemma_piece_spans_within(ps: Seq<StyledPiece>, pos: int, line_len: int)
    requires
        0 <= pos,
        pieces_fit(ps, pos, line_len),
        line_len < usize::MAX,
    ensures
        spans_within(piece_spans(ps, pos, line_len), line_len),
        forall|k: int|
            0 <= k < piece_spans(ps, pos, line_len).len() ==> pos <= (#[trigger] piece_spans(
                ps,
                pos,
                line_len,
            )[k]).0,
    decreases ps.len(),
{
    if ps.len() > 0 {
        let p = ps[0];
        let end = pos + piece_len(p);
        let shown_end = if piece_ends_line(p) { end - 1 } else { end };
        lemma_pieces_fit_rest(ps, pos, line_len);
        lemma_piece_spans_within(ps.drop_first(), end, line_len);
        let rest = piece_spans(ps.drop_first(), end, line_len);
        if pos < shown_end {
            let out = seq![(pos as usize, shown_end as usize, piece_style(p))] + rest;
            assert(out == piece_spans(ps, pos, line_len));
            assert forall|k: int| 0 <= k < out.len() - 1 implies (#[trigger] out[k]).1 <= out[k
                + 1].0 by {
                if k > 0 {
                    assert(out[k] == rest[k - 1]);
                    assert(out[k + 1] == rest[k]);
                } else {
                    assert(out[1] == rest[0]);
                }
            }
            assert forall|k: int| 0 <= k < out.len() implies (#[trigger] out[k]).0 <= out[k].1
                <= line_len && pos <= out[k].0 by {
                if k > 0 {
                    assert(out[k] == rest[k - 1]);
                }
            }
        } else {
            assert(rest =~= piece_spans(ps, pos, line_len));
        }
    }
}

/// Turns the pieces of a line of `line_len` bytes into spans.
pub fn spans_from_pieces(line_len: usize, pieces: &[StyledPiece]) -> (r: Vec<Span>)
    requires
        pieces_fit(pieces@, 0, line_len as int),
        line_len < usize::MAX,
    ensures
        r@ == piece_spans(pieces@, 0, line_len as int),
        spans_within(r@, line_len as int),
{
    let mut spans: Vec<Span> = Vec::new();
    let mut pos: usize = 0;
    let mut i: usize = 0;
    assert(pieces@.subrange(0, pieces@.len() as int) =~= pieces@);
    assert(spans@ + piece_spans(pieces@, 0, line_len as int) =~= piece_spans(pieces@, 0, line_len as int));
    while i < pieces.len()
        invariant
            i <= pieces@.len(),
            line_len < usize::MAX,
            pieces_fit(pieces@.subrange(i as int, pieces@.len() as int), pos as int, line_len as int),
            spans@ + piece_spans(pieces@.subrange(i as int, pieces@.len() as int), pos as int, line_len as int)
                == piece_spans(pieces@, 0, line_len as int),
        decreases pieces.len() - i,
    {
        let ghost rest = pieces@.subrange(i as int, pieces@.len() as int);
        let p = &pieces[i];
        let bytes = p.text.as_str().as_bytes();
        let len = bytes.len();
        proof {
            lemma_pieces_fit_rest(rest, pos as int, line_len as int);
            assert(rest[0] == pieces@[i as int]);
            assert(rest.drop_first() =~= pieces@.subrange(i + 1, pieces@.len() as int));
        }
        let end = pos + len;
        let shown_end = if len > 0 && bytes[len - 1] == 10 {
            end - 1
        } else {
            end
        };
        let ghost before = spans@;
        if pos < shown_end {
            let style = Style::new(p.foreground, p.font_bits & 1 != 0, p.font_bits & 4 != 0);
            spans.push((pos, shown_end, style));
        }
        proof {
            assert(spans@ + piece_spans(rest.drop_first(), end as int, line_len as int) =~= before
                + piece_spans(rest, pos as int, line_len as int));
        }
        pos = end;
        i += 1;
    }
    if pos < line_len {
        spans.push((pos, line_len, Style { foreground: (255, 255, 255), bold: false, italic: false }));
    }
    proof {
        assert(pieces@.subrange(i as int, pieces@.len() as int) =~= Seq::<StyledPiece>::empty());
        assert(spans@ =~= piece_spans(pieces@, 0, line_len as int));
        lemma_piece_spans_within(pieces@, 0, line_len as int);
    }
    spans
}

/// A highlighted line: its text and its styled spans.
#[derive(Debug, Clone)]
pub struct HighlightedLine {
    /// The plain text content of the line.
    pub text: String,
    /// Style information as (start_byte, end_byte, style) spans.
    pub spans: Vec<Span>,
}

/// Names the names of the syntaxes a syntect `SyntaxSet` holds.
pub uninterp spec fn syntax_names(set: SyntaxSet) -> Set<Seq<char>>;

/// Names whether some syntax of a syntect `SyntaxSet` lists the extension
/// among its file extensions, compared without regard to ASCII case.
pub uninterp spec fn lists_extension(set: SyntaxSet, extension: Seq<char>) -> bool;

/// Names the names of the themes a syntect `ThemeSet` holds (the keys of
/// its `themes` map).
pub uninterp spec fn theme_names(set: ThemeSet) -> Set<Seq<char>>;

/// Loads syntect's default syntaxes (`SyntaxSet::load_defaults_newlines`).
/// syntect's documentation of `find_syntax_plain_text` says that a "Plain
/// Text" syntax is always present (its own example falls back to it with
/// the default set); nothing else of the set is stated.
#[verifier::external_body]
fn default_syntaxes() -> (r: SyntaxSet)
    ensures
        syntax_names(r).contains("Plain Text"@),
{
    SyntaxSet::load_defaults_newlines()
}

/// Loads syntect's default themes (`ThemeSet::load_defaults`), whose
/// documentation lists `base16-ocean.dark` among the keys of the map;
/// nothing else of the set is stated.
#[verifier::external_body]
fn default_themes() -> (r: ThemeSet)
    ensures
        theme_names(r).contains("base16-ocean.dark"@),
{
    ThemeSet::load_defaults()
}

/// Calls `SyntaxSet::find_syntax_by_extension`: the last syntax of the set
/// that lists the extension, compared without regard to ASCII case, so one
/// is found exactly when some syntax lists it. Nothing is stated of which
/// syntax that is.
#[verifier::external_body]
fn syntax_by_extension<'s>(set: &'s SyntaxSet, extension: &str) -> (r: Option<&'s SyntaxReference>)
    ensures
        r is Some <==> lists_extension(*set, extension@),
{
    set.find_syntax_by_extension(extension)
}

/// Calls `SyntaxSet::find_syntax_by_name`: the last syntax of the set with
/// exactly that name, so one is found exactly when the set holds a syntax
/// of that name. Nothing is stated of which syntax that is.
#[verifier::external_body]
fn syntax_by_name<'s>(set: &'s SyntaxSet, name: &str) -> (r: Option<&'s SyntaxReference>)
    ensures
        r is Some <==> syntax_names(*set).contains(name@),
{
    set.find_syntax_by_name(name)
}

/// Looks a theme up by name in the theme set's map (`BTreeMap::get`): one
/// is found exactly when the name is a key. Nothing is stated of the theme.
#[verifier::external_body]
fn theme_by_name<'s>(set: &'s ThemeSet, name: &str) -> (r: Option<&'s syntect::highlighting::Theme>)
    ensures
        r is Some <==> theme_names(*set).contains(name@),
{
    set.themes.get(name)
}

/// Calls `HighlightLines::new`: a highlighter for the syntax and theme at
/// the start of a file.
#[verifier::external_body]
fn start_highlighting<'t>(syntax: &SyntaxReference, theme: &'t syntect::highlighting::Theme) -> HighlightLines<'t> {
    HighlightLines::new(syntax, theme)
}

/// Calls `HighlightLines::highlight_line` and turns each styled piece into
/// its color, font flags and text. The pieces it returns are consecutive
/// slices of the line starting at its first byte (its source slices the
/// line from the end of the previous piece each time), so their bytes are a
/// prefix of the line's. Their styles depend on the lines highlighted
/// before and are not stated; a parse error gives `None`.
#[verifier::external_body]
fn highlight_pieces(highlighter: &mut HighlightLines, line: &str, syntaxes: &SyntaxSet) -> (r: Option<
    Vec<StyledPiece>,
>)
    ensures
        r matches Some(ps) ==> pieces_bytes(ps@).is_prefix_of(encode_utf8(line@)),
{
    match highlighter.highlight_line(line, syntaxes) {
        Ok(ranges) => Some(
            ranges.into_iter().map(|(style, text)| StyledPiece {
                foreground: (style.foreground.r, style.foreground.g, style.foreground.b),
                font_bits: style.font_style.bits(),
                text: text.to_string(),
            }).collect(),
        ),
        Err(_) => None,
    }
}

/// The spans a highlighted line whose UTF-8 bytes are `line` may have:
/// either the default style over the whole line, or the spans of pieces
/// whose bytes, one after the other, are a prefix of the line followed by a
/// line feed.
pub open spec fn possible_spans(spans: Seq<Span>, line: Seq<u8>) -> bool {
    ||| spans == unstyled_spans(line.len() as int)
    ||| exists|ps: Seq<StyledPiece>|
        pieces_bytes(ps).is_prefix_of(line + seq![10u8]) && spans == #[trigger] piece_spans(
            ps,
            0,
            line.len() as int,
        )
}

/// The spans cover a line of `line_len` bytes one after the other: none is
/// empty, the first starts at 0, each ends where the next starts and the
/// last ends at `line_len`. A line of no bytes has at most an empty span at
/// its start.
pub open spec fn spans_tile(spans: Seq<Span>, line_len: int) -> bool {
    if line_len == 0 {
        forall|k: int| 0 <= k < spans.len() ==> (#[trigger] spans[k]).0 == 0 && spans[k].1 == 0
    } else {
        &&& spans.len() > 0
        &&& spans[0].0 == 0
        &&& spans.last().1 == line_len
        &&& forall|k: int| 0 <= k < spans.len() ==> (#[trigger] spans[k]).0 < spans[k].1
        &&& forall|k: int| 0 <= k < spans.len() - 1 ==> (#[trigger] spans[k]).1 == spans[k + 1].0
    }
}

/// Like [`spans_tile`], from byte `pos` on: no spans when `pos` is at or
/// past the end of the line.
pub open spec fn spans_tile_from(spans: Seq<Span>, pos: int, line_len: int) -> bool {
    if pos >= line_len {
        spans.len() == 0
    } else {
        &&& spans.len() > 0
        &&& spans[0].0 == pos
        &&& spans.last().1 == line_len
        &&& forall|k: int| 0 <= k < spans.len() ==> (#[trigger] spans[k]).0 < spans[k].1
        &&& forall|k: int| 0 <= k < spans.len() - 1 ==> (#[trigger] spans[k]).1 == spans[k + 1].0
    }
}

proof fn lemma_piece_spans_tile(ps: Seq<StyledPiece>, pos: int, line: Seq<u8>)
    requires
        0 <= pos <= line.len() + 1,
        line.len() < usize::MAX,
        !line.contains(10u8),
        pieces_bytes(ps).is_prefix_of((line + seq![10u8]).subrange(pos, line.len() as int + 1)),
    ensures
        spans_tile_from(piece_spans(ps, pos, line.len() as int), pos, line.len() as int),
    decreases ps.len(),
{
    let len = line.len() as int;
    let full = line + seq![10u8];
    if ps.len() > 0 {
        let p = ps[0];
        let b = encode_utf8(p.text@);
        let rest_b = pieces_bytes(ps.drop_first());
        assert(pieces_bytes(ps) == b + rest_b);
        let end = pos + b.len();
        assert(b =~= full.subrange(pos, end)) by {
            assert forall|i: int| 0 <= i < b.len() implies b[i] == full.subrange(pos, end)[i] by {
                assert(pieces_bytes(ps)[i] == b[i]);
                assert((line + seq![10u8]).subrange(pos, line.len() as int + 1)[i] == full[pos + i]);
            }
        }
        assert(end <= len + 1);
        assert(rest_b.is_prefix_of(full.subrange(end, len + 1))) by {
            assert forall|i: int| 0 <= i < rest_b.len() implies rest_b[i] == full.subrange(end, len + 1)[i] by {
                assert(pieces_bytes(ps)[b.len() + i] == rest_b[i]);
                assert((line + seq![10u8]).subrange(pos, line.len() as int + 1)[b.len() + i] == full[end + i]);
            }
        }
        if b.len() > 0 {
            assert(b.last() == full[end - 1]);
            if end - 1 < len {
                assert(full[end - 1] == line[end - 1]);
                assert(line[end - 1] != 10u8) by {
                    if line[end - 1] == 10u8 {
                        assert(line.contains(10u8));
                    }
                }
            }
        }
        lemma_piece_spans_tile(ps.drop_first(), end, line);
    }
}

proof fn lemma_lines_have_no_line_feed(b: Seq<u8>, start: int, i: int)
    requires
        0 <= start <= i,
        forall|j: int| start <= j < i && j < b.len() ==> b[j] != 10u8,
    ensures
        forall|k: int|
            0 <= k < lines_from(b, start, i).len() ==> !(#[trigger] lines_from(b, start, i)[k]).contains(
                10u8,
            ),
    decreases b.len() - i,
{
    if !(0 <= start <= i < b.len()) {
        if 0 <= start < b.len() {
            let l = b.subrange(start, b.len() as int);
            assert(lines_from(b, start, i) == seq![l]);
            assert(!l.contains(10u8)) by {
                if l.contains(10u8) {
                    let j = choose|j: int| 0 <= j < l.len() && l[j] == 10u8;
                    assert(b[start + j] == 10u8);
                }
            }
            assert forall|k: int| 0 <= k < lines_from(b, start, i).len() implies !(#[trigger] lines_from(
                b,
                start,
                i,
            )[k]).contains(10u8) by {
                assert(lines_from(b, start, i)[k] == l);
            }
        } else {
            assert(lines_from(b, start, i) =~= Seq::<Seq<u8>>::empty());
        }
    } else if b[i] == 10u8 {
        lemma_lines_have_no_line_feed(b, i + 1, i + 1);
        let l = strip_cr(b.subrange(start, i));
        let rest = lines_from(b, i + 1, i + 1);
        assert(lines_from(b, start, i) == seq![l] + rest);
        assert(!l.contains(10u8)) by {
            if l.contains(10u8) {
                let j = choose|j: int| 0 <= j < l.len() && l[j] == 10u8;
                assert(b.subrange(start, i)[j] == 10u8);
                assert(b[start + j] == 10u8);
            }
        }
        assert forall|k: int| 0 <= k < lines_from(b, start, i).len() implies !(#[trigger] lines_from(
            b,
            start,
            i,
        )[k]).contains(10u8) by {
            if k > 0 {
                assert(lines_from(b, start, i)[k] == rest[k - 1]);
            } else {
                assert(lines_from(b, start, i)[k] == l);
            }
        }
    } else {
        lemma_lines_have_no_line_feed(b, start, i + 1);
        assert(lines_from(b, start, i) == lines_from(b, start, i + 1));
    }
}

/// The lines of `text`, each with its spans: the UTF-8 bytes of each line's
/// text are the line's, and its spans are possible ones.
pub open spec fn highlights_lines(r: Seq<HighlightedLine>, text: Seq<char>) -> bool {
    let lines = line_bytes(encode_utf8(text));
    &&& r.len() == lines.len()
    &&& forall|k: int|
        0 <= k < r.len() ==> {
            &&& encode_utf8((#[trigger] r[k]).text@) == lines[k]
            &&& possible_spans(r[k].spans@, lines[k])
            &&& spans_within(r[k].spans@, lines[k].len() as int)
            &&& spans_tile(r[k].spans@, lines[k].len() as int)
        }
}

/// Syntax highlighter for source code.
pub struct SyntaxHighlighter {
    syntax_set: SyntaxSet,
    theme_set: ThemeSet,
}

impl SyntaxHighlighter {
    /// The highlighter's syntaxes include "Plain Text" and its themes
    /// `base16-ocean.dark`, so that a syntax and the theme are always found.
    pub closed spec fn knows_defaults(&self) -> bool {
        &&& syntax_names(self.syntax_set).contains("Plain Text"@)
        &&& theme_names(self.theme_set).contains("base16-ocean.dark"@)
    }

    #[verifier::type_invariant]
    spec fn holds_defaults(self) -> bool {
        self.knows_defaults()
    }

    /// Creates a new syntax highlighter with syntect's default syntaxes and
    /// themes.
    pub fn new() -> (r: Self)
        ensures
            r.knows_defaults(),
    {
        SyntaxHighlighter { syntax_set: default_syntaxes(), theme_set: default_themes() }
    }

    /// Detects the syntax for a file: by its extension, else by its file
    /// name (for files like `Makefile`), else the set's "Plain Text" syntax
    /// (which syntect's `find_syntax_plain_text` looks up the same way).
    pub fn detect_syntax(&self, path: &str) -> (r: Option<&SyntaxReference>)
        ensures
            r is Some,
    {
        proof {
            use_type_invariant(self);
        }
        let extension = extension_or_empty_of(path);
        if let Some(syntax) = syntax_by_extension(&self.syntax_set, extension.as_str()) {
            return Some(syntax);
        }
        let file_name = file_name_or_empty_of(path);
        if let Some(syntax) = syntax_by_name(&self.syntax_set, file_name.as_str()) {
            return Some(syntax);
        }
        syntax_by_name(&self.syntax_set, "Plain Text")
    }

    /// Highlights the lines of `text` as the syntax detected for `path`, in
    /// the `base16-ocean.dark` theme; a line the highlighter fails on keeps
    /// the default style.
    pub fn highlight_lines(&self, text: &str, path: &str) -> (r: Vec<HighlightedLine>)
        ensures
            highlights_lines(r@, text@),
    {
        let lines = split_lines(text);
        let ghost expected = line_bytes(text.spec_bytes());
        proof {
            lemma_lines_have_no_line_feed(text.spec_bytes(), 0, 0);
        }
        let mut out: Vec<HighlightedLine> = Vec::new();
        let syntax = self.detect_syntax(path);
        let theme = theme_by_name(&self.theme_set, "base16-ocean.dark");
        let mut highlighter = match (syntax, theme) {
            (Some(s), Some(t)) => Some(start_highlighting(s, t)),
            _ => None,
        };
        let mut i: usize = 0;
        while i < lines.len()
            invariant
                i <= lines@.len(),
                crate::preview::lines::encoded_all(lines@) == expected,
                expected == line_bytes(encode_utf8(text@)),
                out@.len() == i,
                forall|k: int| 0 <= k < expected.len() ==> !(#[trigger] expected[k]).contains(10u8),
                forall|k: int|
                    0 <= k < i ==> {
                        &&& encode_utf8((#[trigger] out@[k]).text@) == expected[k]
                        &&& possible_spans(out@[k].spans@, expected[k])
                        &&& spans_within(out@[k].spans@, expected[k].len() as int)
                        &&& spans_tile(out@[k].spans@, expected[k].len() as int)
                    },
            decreases lines.len() - i,
        {
            let line = &lines[i];
            let line_len = line.as_str().as_bytes().len();
            proof {
                assert(encode_utf8(line@) == expected[i as int]);
            }
            let spans = match &mut highlighter {
                Some(h) => self.line_spans(h, line.as_str()),
                None => unstyled(line_len),
            };
            assert(possible_spans(spans@, expected[i as int]));
            out.push(HighlightedLine { text: line.clone(), spans });
            proof {
                assert(out@[i as int].text == lines@[i as int]);
            }
            i += 1;
        }
        out
    }

    /// The spans of one line, from the pieces the highlighter gives for the
    /// line followed by a line feed, or the default style over the whole
    /// line when highlighting fails.
    fn line_spans(&self, highlighter: &mut HighlightLines, line: &str) -> (r: Vec<Span>)
        requires
            !line.spec_bytes().contains(10u8),
        ensures
            possible_spans(r@, line.spec_bytes()),
            spans_within(r@, line.spec_bytes().len() as int),
            spans_tile(r@, line.spec_bytes().len() as int),
    {
        let line_len = line.as_bytes().len();
        let with_newline = concat(line, "\n");
        let full_len = with_newline.as_str().as_bytes().len();
        let ghost full = encode_utf8(line@) + seq![10u8];
        proof {
            reveal_strlit("\n");
            lemma_encode_concat(line@, seq!['\n']);
            lemma_encode_newline();
            assert("\n"@ =~= seq!['\n']);
            assert(with_newline@ =~= line@ + seq!['\n']);
            assert(encode_utf8(with_newline@) == full);
            assert(full_len == line_len + 1);
        }
        match highlight_pieces(highlighter, with_newline.as_str(), &self.syntax_set) {
            Some(pieces) => {
                proof {
                    let b = pieces_bytes(pieces@);
                    if b.len() == line_len + 1 {
                        assert(b =~= full);
                        assert(b.last() == 10u8);
                    }
                    assert(pieces_fit(pieces@, 0, line_len as int));
                    assert(full.subrange(0, line_len + 1) =~= full);
                    lemma_piece_spans_tile(pieces@, 0, line.spec_bytes());
                }
                let spans = spans_from_pieces(line_len, pieces.as_slice());
                assert(possible_spans(spans@, line.spec_bytes()));
                spans
            },
            None => {
                let spans = unstyled(line_len);
                assert(possible_spans(spans@, line.spec_bytes()));
                spans
            },
        }
    }
}

impl Default for SyntaxHighlighter {
    fn default() -> (r: Self)
        ensures
            r.knows_defaults(),
    {
        SyntaxHighlighter::new()
    }
}

/// The default style over a whole line of `line_len` bytes.
fn unstyled(line_len: usize) -> (r: Vec<Span>)
    ensures
        r@ == unstyled_spans(line_len as int),
        spans_within(r@, line_len as int),
        spans_tile(r@, line_len as int),
{
    let r = vec![(0, line_len, Style { foreground: (255, 255, 255), bold: false, italic: false })];
    assert(r@ =~= unstyled_spans(line_len as int));
    r
}

proof fn lemma_encode_concat(s: Seq<char>, t: Seq<char>)
    ensures
        encode_utf8(s + t) == encode_utf8(s) + encode_utf8(t),
    decreases s.len(),
{
    if s.len() == 0 {
        assert(s + t =~= t);
        assert(encode_utf8(s) + encode_utf8(t) =~= encode_utf8(t));
    } else {
        lemma_encode_concat(s.drop_first(), t);
        assert((s + t).drop_first() =~= s.drop_first() + t);
        assert((s + t)[0] == s[0]);
        assert(encode_utf8(s + t) =~= encode_utf8(s) + encode_utf8(t));
    }
}

proof fn lemma_encode_newline()
    ensures
        encode_utf8(seq!['\n']) == seq![10u8],
{
    assert(('\n' as u32) == 10u32);
    assert(((10u32 & 0x7Fu32) as u8) == 10u8) by (bit_vector);
    assert(seq!['\n'].drop_first() =~= Seq::<char>::empty());
    assert(encode_utf8(Seq::<char>::empty()) =~= Seq::<u8>::empty());
    assert(encode_scalar(10u32) =~= seq![10u8]);
    assert(encode_utf8(seq!['\n']) =~= seq![10u8]);
}

} // verus!
