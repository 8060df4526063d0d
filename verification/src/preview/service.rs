//! The preview service: turns loaded file content into numbered,
//! syntax-highlighted lines with search-match highlights, and keeps the
//! last loaded preview so that it is not loaded again.
//!
//! Reading the file is left to the caller: it asks [`PreviewService::cached_preview`]
//! first, and on a miss reads the file with [`PreviewService::load_config`]
//! and hands the [`LoadResult`] to [`PreviewService::preview_loaded`].
use vstd::prelude::*;

use crate::preview::encoding::Encoding;
use crate::preview::highlight::{
    find_matches_checked, matches_sliceable, reports_matches, HighlightedMatch, Span,
};
use crate::preview::lines::line_bytes;
use crate::preview::loader::{binary_message, message_view, LoadConfig, LoadModel, LoadResult};
use crate::preview::syntax::{highlights_lines, possible_spans, spans_tile, spans_within, SyntaxHighlighter};
use crate::text::owned;
use vstd::utf8::*;

verus! {

/// The default maximum file size for previews: 1 MiB.
pub open spec fn default_preview_size() -> u64 {
    1048576
}

/// Configuration for the preview service.
#[derive(Debug, Clone, Copy, PartialEq, Eq)]
pub struct PreviewConfig {
    /// Maximum file size for preview in bytes.
    pub max_file_size: u64,
}

impl Default for PreviewConfig {
    fn default() -> (r: Self)
        ensures
            r.max_file_size == default_preview_size(),
    {
        PreviewConfig { max_file_size: 1024 * 1024 }
    }
}

/// A single line in the preview output.
#[derive(Debug, Clone)]
pub struct PreviewLine {
    /// The line number (1-indexed).
    pub line_number: usize,
    /// The plain text content of the line.
    pub text: String,
    /// Syntax-highlighted segments.
    pub syntax_spans: Vec<Span>,
    /// Search match highlights (byte offsets).
    pub match_highlights: Vec<HighlightedMatch>,
}

/// Complete preview output for a file.
#[derive(Debug, Clone)]
pub struct PreviewOutput {
    /// The file path being previewed.
    pub path: String,
    /// The highlighted lines with syntax information.
    pub lines: Vec<PreviewLine>,
    /// Whether the file was truncated.
    pub truncated: bool,
    /// The detected encoding.
    pub encoding: Encoding,
    /// Whether the file is binary.
    pub is_binary: bool,
    /// Error message if loading failed.
    pub error: Option<String>,
    /// The original file size.
    pub original_size: u64,
}

/// A match highlight as start, end and text.
pub open spec fn match_view(m: HighlightedMatch) -> (usize, usize, Seq<char>) {
    (m.start, m.end, m.text@)
}

/// The match highlights as starts, ends and texts.
pub open spec fn matches_view(ms: Seq<HighlightedMatch>) -> Seq<(usize, usize, Seq<char>)> {
    ms.map_values(|m: HighlightedMatch| match_view(m))
}

/// A [`PreviewLine`] with its texts taken as character sequences.
pub struct LineModel {
    pub line_number: usize,
    pub text: Seq<char>,
    pub syntax_spans: Seq<Span>,
    pub match_highlights: Seq<(usize, usize, Seq<char>)>,
}

impl View for PreviewLine {
    type V = LineModel;

    open spec fn view(&self) -> LineModel {
        LineModel {
            line_number: self.line_number,
            text: self.text@,
            syntax_spans: self.syntax_spans@,
            match_highlights: matches_view(self.match_highlights@),
        }
    }
}

/// A [`PreviewOutput`] with its texts taken as character sequences.
pub struct OutputModel {
    pub path: Seq<char>,
    pub lines: Seq<LineModel>,
    pub truncated: bool,
    pub encoding: Encoding,
    pub is_binary: bool,
    pub error: Option<Seq<char>>,
    pub original_size: u64,
}

impl View for PreviewOutput {
    type V = OutputModel;

    open spec fn view(&self) -> OutputModel {
        OutputModel {
            path: self.path@,
            lines: self.lines@.map_values(|l: PreviewLine| l@),
            truncated: self.truncated,
            encoding: self.encoding,
            is_binary: self.is_binary,
            error: message_view(self.error),
            original_size: self.original_size,
        }
    }
}

/// Why a preview cannot be given.
#[derive(Debug, Clone, Copy, PartialEq, Eq)]
pub enum PreviewError {
    /// Reporting a search match of this line would cut its text inside a
    /// character.
    MatchInsideCharacter { line_number: usize },
}

/// The match highlights `mv` report the matches of `query` in `text`.
pub open spec fn reports_match_views(
    mv: Seq<(usize, usize, Seq<char>)>,
    text: Seq<char>,
    query: Seq<char>,
) -> bool {
    exists|ms: Seq<HighlightedMatch>| reports_matches(ms, text, query) && #[trigger] matches_view(ms) == mv
}

/// The match highlights of a line depend on its text and the query alone:
/// two reports of the matches of `query` in `text` are the same.
pub proof fn law_match_highlights_determined(
    a: Seq<(usize, usize, Seq<char>)>,
    b: Seq<(usize, usize, Seq<char>)>,
    text: Seq<char>,
    query: Seq<char>,
)
    requires
        reports_match_views(a, text, query),
        reports_match_views(b, text, query),
    ensures
        a == b,
{
    broadcast use encode_utf8_decode_utf8;

    let ma = choose|ms: Seq<HighlightedMatch>| reports_matches(ms, text, query) && #[trigger] matches_view(ms) == a;
    let mb = choose|ms: Seq<HighlightedMatch>| reports_matches(ms, text, query) && #[trigger] matches_view(ms) == b;
    assert forall|k: int| 0 <= k < a.len() implies #[trigger] a[k] == b[k] by {
        assert(a[k] == match_view(ma[k]));
        assert(b[k] == match_view(mb[k]));
        assert(encode_utf8(ma[k].text@) == encode_utf8(mb[k].text@));
        assert(decode_utf8(encode_utf8(ma[k].text@)) == decode_utf8(encode_utf8(mb[k].text@)));
    }
    assert(a =~= b);
}

/// The highlights of a line searched for `query`: none for an empty query,
/// else the matches of the query.
pub open spec fn searched(
    after: Seq<(usize, usize, Seq<char>)>,
    text: Seq<char>,
    query: Seq<char>,
) -> bool {
    if query.len() == 0 {
        after.len() == 0
    } else {
        reports_match_views(after, text, query)
    }
}

/// Every line of the preview can be searched for `query`.
pub open spec fn searchable(lines: Seq<LineModel>, query: Seq<char>) -> bool {
    query.len() == 0 || forall|k: int|
        0 <= k < lines.len() ==> matches_sliceable((#[trigger] lines[k]).text, query)
}

/// The lines of `content`, each decoded from its UTF-8 bytes.
pub open spec fn decoded_lines(content: Seq<char>) -> Seq<Seq<char>> {
    line_bytes(encode_utf8(content)).map_values(|b: Seq<u8>| decode_utf8(b))
}

/// The texts of the lines.
pub open spec fn line_texts(lines: Seq<LineModel>) -> Seq<Seq<char>> {
    lines.map_values(|l: LineModel| l.text)
}

/// The text at `k` is the first of `texts` whose matches of `query` cannot
/// be reported.
pub open spec fn first_refused(texts: Seq<Seq<char>>, query: Seq<char>, k: int) -> bool {
    &&& 0 <= k < texts.len()
    &&& !matches_sliceable(texts[k], query)
    &&& forall|j: int| 0 <= j < k ==> matches_sliceable(#[trigger] texts[j], query)
}

/// `after` is `before` with each line searched for `query`.
pub open spec fn searched_lines(before: Seq<LineModel>, after: Seq<LineModel>, query: Seq<char>) -> bool {
    &&& after.len() == before.len()
    &&& forall|k: int|
        0 <= k < after.len() ==> {
            &&& (#[trigger] after[k]).line_number == before[k].line_number
            &&& after[k].text == before[k].text
            &&& after[k].syntax_spans == before[k].syntax_spans
            &&& searched(after[k].match_highlights, before[k].text, query)
        }
}

/// `out` is `before` with each line searched for `query`, the rest unchanged.
pub open spec fn searched_output(before: OutputModel, out: OutputModel, query: Seq<char>) -> bool {
    &&& searched_lines(before.lines, out.lines, query)
    &&& out.path == before.path
    &&& out.truncated == before.truncated
    &&& out.encoding == before.encoding
    &&& out.is_binary == before.is_binary
    &&& out.error == before.error
    &&& out.original_size == before.original_size
}

/// The lines of a preview of `content`: numbered from 1, with the text of
/// each line of the content, possible syntax spans within it, and the
/// matches of `query` (none for an empty query).
pub open spec fn preview_lines(lines: Seq<LineModel>, content: Seq<char>, query: Seq<char>) -> bool {
    let bytes = line_bytes(encode_utf8(content));
    &&& lines.len() == bytes.len()
    &&& forall|k: int|
        0 <= k < lines.len() ==> {
            &&& (#[trigger] lines[k]).line_number == k + 1
            &&& encode_utf8(lines[k].text) == bytes[k]
            &&& possible_spans(lines[k].syntax_spans, bytes[k])
            &&& spans_within(lines[k].syntax_spans, bytes[k].len() as int)
            &&& spans_tile(lines[k].syntax_spans, bytes[k].len() as int)
            &&& searched(lines[k].match_highlights, lines[k].text, query)
        }
}

/// The preview for a file that could not be shown as text: no lines, the
/// load's encoding, size and message.
pub open spec fn failed_preview(path: Seq<char>, load: LoadModel, message: Seq<char>) -> OutputModel {
    OutputModel {
        path,
        lines: Seq::empty(),
        truncated: false,
        encoding: load.encoding,
        is_binary: load.is_binary,
        error: Some(message),
        original_size: load.original_size,
    }
}

/// The preview of a text load: the lines of its content, its truncation,
/// encoding and size, and no error.
pub open spec fn text_preview(out: OutputModel, path: Seq<char>, load: LoadModel, query: Seq<char>) -> bool {
    &&& preview_lines(out.lines, load.content, query)
    &&& out.path == path
    &&& out.truncated == load.truncated
    &&& out.encoding == load.encoding
    &&& !out.is_binary
    &&& out.error is None
    &&& out.original_size == load.original_size
}

/// A preview served from the cache is the loaded preview searched anew: it
/// has the same lines of the content, with the same numbers, texts and
/// syntax spans, and the matches of the new query (none for an empty
/// query), whatever query it was loaded with.
pub proof fn law_cached_preview_repeats_load(
    loaded: OutputModel,
    served: OutputModel,
    path: Seq<char>,
    load: LoadModel,
    first_query: Seq<char>,
    query: Seq<char>,
)
    requires
        text_preview(loaded, path, load, first_query),
        searched_output(loaded, served, query),
    ensures
        text_preview(served, path, load, query),
        forall|k: int|
            0 <= k < served.lines.len() ==> (#[trigger] served.lines[k]).syntax_spans
                == loaded.lines[k].syntax_spans,
{
    let bytes = line_bytes(encode_utf8(load.content));
    assert forall|k: int| 0 <= k < served.lines.len() implies {
        &&& (#[trigger] served.lines[k]).line_number == k + 1
        &&& encode_utf8(served.lines[k].text) == bytes[k]
        &&& possible_spans(served.lines[k].syntax_spans, bytes[k])
        &&& spans_within(served.lines[k].syntax_spans, bytes[k].len() as int)
        &&& spans_tile(served.lines[k].syntax_spans, bytes[k].len() as int)
        &&& searched(served.lines[k].match_highlights, served.lines[k].text, query)
    } by {
        assert(loaded.lines[k].line_number == k + 1);
    }
}

fn copy_match(m: &HighlightedMatch) -> (r: HighlightedMatch)
    ensures
        match_view(r) == match_view(*m),
{
    HighlightedMatch { start: m.start, end: m.end, text: m.text.clone() }
}

fn copy_matches(ms: &Vec<HighlightedMatch>) -> (r: Vec<HighlightedMatch>)
    ensures
        matches_view(r@) == matches_view(ms@),
{
    let mut out: Vec<HighlightedMatch> = Vec::new();
    let mut i: usize = 0;
    while i < ms.len()
        invariant
            i <= ms@.len(),
            out@.len() == i,
            forall|k: int| 0 <= k < i ==> match_view(#[trigger] out@[k]) == match_view(ms@[k]),
        decreases ms.len() - i,
    {
        out.push(copy_match(&ms[i]));
        i += 1;
    }
    assert(matches_view(out@) =~= matches_view(ms@));
    out
}

fn copy_spans(spans: &Vec<Span>) -> (r: Vec<Span>)
    ensures
        r@ == spans@,
{
    let mut out: Vec<Span> = Vec::new();
    let mut i: usize = 0;
    while i < spans.len()
        invariant
            i <= spans@.len(),
            out@ =~= spans@.subrange(0, i as int),
        decreases spans.len() - i,
    {
        let s = spans[i];
        out.push(s);
        i += 1;
    }
    assert(out@ =~= spans@);
    out
}

fn copy_message(m: &Option<String>) -> (r: Option<String>)
    ensures
        message_view(r) == message_view(*m),
{
    match m {
        Some(s) => Some(s.clone()),
        None => None,
    }
}

/// The line with its match highlights replaced by the matches of `query`
/// (none for an empty query).
fn searched_line(line: &PreviewLine, query: &str) -> (r: Result<PreviewLine, PreviewError>)
    ensures
        r is Ok <==> (query@.len() == 0 || matches_sliceable(line.text@, query@)),
        r matches Ok(l) ==> {
            &&& l@.line_number == line@.line_number
            &&& l@.text == line@.text
            &&& l@.syntax_spans == line@.syntax_spans
            &&& searched(l@.match_highlights, line@.text, query@)
        },
        r matches Err(e) ==> e == (PreviewError::MatchInsideCharacter { line_number: line.line_number }),
{
    let highlights = if query.is_empty() {
        Vec::new()
    } else {
        match find_matches_checked(line.text.as_str(), query) {
            Some(ms) => ms,
            None => {
                return Err(PreviewError::MatchInsideCharacter { line_number: line.line_number });
            },
        }
    };
    Ok(
        PreviewLine {
            line_number: line.line_number,
            text: line.text.clone(),
            syntax_spans: copy_spans(&line.syntax_spans),
            match_highlights: highlights,
        },
    )
}

/// The output with each line searched for `query`.
fn search_output(output: &PreviewOutput, query: &str) -> (r: Result<PreviewOutput, PreviewError>)
    ensures
        r is Ok <==> searchable(output@.lines, query@),
        r matches Ok(o) ==> searched_output(output@, o@, query@),
        r matches Err(e) ==> exists|k: int|
            first_refused(line_texts(output@.lines), query@, k) && e == (PreviewError::MatchInsideCharacter {
                line_number: #[trigger] output@.lines[k].line_number,
            }),
{
    let mut lines: Vec<PreviewLine> = Vec::new();
    let mut i: usize = 0;
    while i < output.lines.len()
        invariant
            i <= output.lines@.len(),
            lines@.len() == i,
            query@.len() == 0 || forall|k: int|
                0 <= k < i ==> matches_sliceable((#[trigger] output.lines@[k]).text@, query@),
            forall|k: int|
                0 <= k < i ==> {
                    &&& (#[trigger] lines@[k])@.line_number == output.lines@[k]@.line_number
                    &&& lines@[k]@.text == output.lines@[k]@.text
                    &&& lines@[k]@.syntax_spans == output.lines@[k]@.syntax_spans
                    &&& searched(
                        lines@[k]@.match_highlights,
                        output.lines@[k]@.text,
                        query@,
                    )
                },
        decreases output.lines.len() - i,
    {
        match searched_line(&output.lines[i], query) {
            Ok(l) => {
                lines.push(l);
            },
            Err(e) => {
                assert(output@.lines[i as int] == output.lines@[i as int]@);
                proof {
                    let texts = line_texts(output@.lines);
                    assert forall|j: int| 0 <= j < i implies matches_sliceable(#[trigger] texts[j], query@) by {
                        assert(output@.lines[j] == output.lines@[j]@);
                    }
                    assert(texts[i as int] == output.lines@[i as int].text@);
                    assert(first_refused(texts, query@, i as int));
                    assert(e == (PreviewError::MatchInsideCharacter {
                        line_number: output@.lines[i as int].line_number,
                    }));
                }
                return Err(e);
            },
        }
        i += 1;
    }
    let out = PreviewOutput {
        path: output.path.clone(),
        lines,
        truncated: output.truncated,
        encoding: output.encoding,
        is_binary: output.is_binary,
        error: copy_message(&output.error),
        original_size: output.original_size,
    };
    assert forall|k: int| 0 <= k < out@.lines.len() implies {
        &&& (#[trigger] out@.lines[k]).line_number == output@.lines[k].line_number
        &&& out@.lines[k].text == output@.lines[k].text
        &&& out@.lines[k].syntax_spans == output@.lines[k].syntax_spans
        &&& searched(out@.lines[k].match_highlights, output@.lines[k].text, query@)
    } by {
        assert(out@.lines[k] == out.lines@[k]@);
        assert(output@.lines[k] == output.lines@[k]@);
    }
    assert(searchable(output@.lines, query@)) by {
        if query@.len() != 0 {
            assert forall|k: int| 0 <= k < output@.lines.len() implies matches_sliceable(
                (#[trigger] output@.lines[k]).text,
                query@,
            ) by {
                assert(output@.lines[k] == output.lines@[k]@);
            }
        }
    }
    Ok(out)
}

/// High-level preview service: configuration, syntax highlighter and the
/// last loaded preview.
pub struct PreviewService {
    config: PreviewConfig,
    syntax_highlighter: SyntaxHighlighter,
    cache: Option<(String, PreviewOutput)>,
}

impl PreviewService {
    /// The service's configuration.
    pub closed spec fn spec_config(&self) -> PreviewConfig {
        self.config
    }

    /// The cached preview, with the path it was loaded for.
    pub closed spec fn cached(&self) -> Option<(Seq<char>, OutputModel)> {
        match self.cache {
            Some((p, o)) => Some((p@, o@)),
            None => None,
        }
    }

    /// Creates a new preview service with the given configuration.
    pub fn new(config: PreviewConfig) -> (r: Self)
        ensures
            r.spec_config() == config,
            r.cached() is None,
    {
        PreviewService { config, syntax_highlighter: SyntaxHighlighter::new(), cache: None }
    }

    /// Creates a new preview service with the default configuration.
    pub fn with_default_config() -> (r: Self)
        ensures
            r.spec_config().max_file_size == default_preview_size(),
            r.cached() is None,
    {
        PreviewService::new(PreviewConfig::default())
    }

    /// Returns the current configuration.
    pub fn config(&self) -> (r: &PreviewConfig)
        ensures
            *r == self.spec_config(),
    {
        &self.config
    }

    /// The load configuration for reading a file to preview.
    pub fn load_config(&self) -> (r: LoadConfig)
        ensures
            r.max_size == self.spec_config().max_file_size,
    {
        LoadConfig { max_size: self.config.max_file_size }
    }

    /// Clears the preview cache.
    pub fn clear_cache(&mut self)
        ensures
            final(self).cached() is None,
            final(self).spec_config() == old(self).spec_config(),
    {
        self.cache = None;
    }

    /// The preview of `path` from the cache, searched for `query`: `None`
    /// unless the cached preview is of `path` and has no error.
    pub fn cached_preview(&self, path: &str, query: &str) -> (r: Result<
        Option<PreviewOutput>,
        PreviewError,
    >)
        ensures
            match self.cached() {
                Some((p, o)) if p == path@ && o.error is None => {
                    &&& (r is Ok <==> searchable(o.lines, query@))
                    &&& (r matches Ok(res) ==> res matches Some(out) && searched_output(
                        o,
                        out@,
                        query@,
                    ))
                    &&& (r matches Err(e) ==> exists|k: int|
                        first_refused(line_texts(o.lines), query@, k) && e
                            == (PreviewError::MatchInsideCharacter {
                            line_number: #[trigger] o.lines[k].line_number,
                        }))
                },
                _ => r matches Ok(res) && res is None,
            },
    {
        match &self.cache {
            Some((cached_path, cached_output)) => {
                if crate::text::str_eq(cached_path.as_str(), path) && cached_output.error.is_none() {
                    match search_output(cached_output, query) {
                        Ok(out) => Ok(Some(out)),
                        Err(e) => Err(e),
                    }
                } else {
                    Ok(None)
                }
            },
            None => Ok(None),
        }
    }

    /// The preview of `path` from what loading it gave: binary and failed
    /// loads give their message and no lines; text gives its numbered,
    /// highlighted lines searched for `query`, and becomes the cached
    /// preview.
    pub fn preview_loaded(&mut self, path: &str, load: LoadResult, query: &str) -> (r: Result<
        PreviewOutput,
        PreviewError,
    >)
        ensures
            final(self).spec_config() == old(self).spec_config(),
            load.is_binary ==> (r matches Ok(out) && out@ == failed_preview(
                path@,
                load@,
                binary_message(),
            )),
            !load.is_binary && load.error is Some ==> (r matches Ok(out) && out@ == failed_preview(
                path@,
                load@,
                load.error->0@,
            )),
            load.is_binary || load.error is Some ==> final(self).cached() == old(self).cached(),
            !load.is_binary && load.error is None ==> {
                &&& r is Ok <==> (query@.len() == 0 || forall|k: int|
                    0 <= k < line_bytes(encode_utf8(load.content@)).len() ==> matches_sliceable(
                        decode_utf8(#[trigger] line_bytes(encode_utf8(load.content@))[k]),
                        query@,
                    ))
                &&& r matches Ok(out) ==> text_preview(out@, path@, load@, query@)
                    && final(self).cached() == Some((path@, out@))
                &&& r is Err ==> final(self).cached() == old(self).cached()
                &&& r matches Err(e) ==> exists|k: int|
                    #[trigger] first_refused(decoded_lines(load.content@), query@, k) && e == (PreviewError::MatchInsideCharacter { line_number: (k + 1) as usize })
            },
    {
        if load.is_binary {
            let out = PreviewOutput {
                path: owned(path),
                lines: Vec::new(),
                truncated: false,
                encoding: load.encoding,
                is_binary: true,
                error: Some(owned("Binary file preview is not available.")),
                original_size: load.original_size,
            };
            assert(out@.lines =~= Seq::<LineModel>::empty());
            assert(out@ == failed_preview(path@, load@, binary_message()));
            return Ok(out);
        }
        if let Some(error) = &load.error {
            let out = PreviewOutput {
                path: owned(path),
                lines: Vec::new(),
                truncated: false,
                encoding: load.encoding,
                is_binary: false,
                error: Some(error.clone()),
                original_size: load.original_size,
            };
            assert(out@.lines =~= Seq::<LineModel>::empty());
            return Ok(out);
        }
        let highlighted = self.syntax_highlighter.highlight_lines(load.content.as_str(), path);
        let ghost bytes = line_bytes(encode_utf8(load.content@));
        let mut lines: Vec<PreviewLine> = Vec::new();
        let mut i: usize = 0;
        while i < highlighted.len()
            invariant
                !load.is_binary,
                load.error is None,
                self.cached() == old(self).cached(),
                self.spec_config() == old(self).spec_config(),
                highlights_lines(highlighted@, load.content@),
                bytes == line_bytes(encode_utf8(load.content@)),
                i <= highlighted@.len(),
                lines@.len() == i,
                query@.len() == 0 || forall|k: int|
                    0 <= k < i ==> matches_sliceable(decode_utf8(#[trigger] bytes[k]), query@),
                forall|k: int|
                    0 <= k < i ==> {
                        &&& (#[trigger] lines@[k])@.line_number == k + 1
                        &&& encode_utf8(lines@[k]@.text) == bytes[k]
                        &&& possible_spans(lines@[k]@.syntax_spans, bytes[k])
                        &&& spans_within(lines@[k]@.syntax_spans, bytes[k].len() as int)
                        &&& spans_tile(lines@[k]@.syntax_spans, bytes[k].len() as int)
                        &&& searched(lines@[k]@.match_highlights, lines@[k]@.text, query@)
                    },
            decreases highlighted.len() - i,
        {
            let h = &highlighted[i];
            proof {
                encode_utf8_decode_utf8(h.text@);
            }
            let matches = if query.is_empty() {
                Vec::new()
            } else {
                match find_matches_checked(h.text.as_str(), query) {
                    Some(ms) => ms,
                    None => {
                        proof {
                            let texts = decoded_lines(load.content@);
                            assert(texts[i as int] == h.text@);
                            assert forall|j: int| 0 <= j < i implies matches_sliceable(#[trigger] texts[j], query@) by {
                                assert(texts[j] == decode_utf8(bytes[j]));
                            }
                            assert(first_refused(texts, query@, i as int));
                        }
                        return Err(PreviewError::MatchInsideCharacter { line_number: i + 1 });
                    },
                }
            };
            let line = PreviewLine {
                line_number: i + 1,
                text: h.text.clone(),
                syntax_spans: copy_spans(&h.spans),
                match_highlights: matches,
            };
            proof {
                if query@.len() == 0 {
                    assert(matches_view(line.match_highlights@) =~= Seq::empty());
                }
            }
            lines.push(line);
            i += 1;
        }
        let out = PreviewOutput {
            path: owned(path),
            lines,
            truncated: load.truncated,
            encoding: load.encoding,
            is_binary: false,
            error: None,
            original_size: load.original_size,
        };
        assert forall|k: int| 0 <= k < out@.lines.len() implies {
            &&& (#[trigger] out@.lines[k]).line_number == k + 1
            &&& encode_utf8(out@.lines[k].text) == bytes[k]
            &&& possible_spans(out@.lines[k].syntax_spans, bytes[k])
            &&& spans_within(out@.lines[k].syntax_spans, bytes[k].len() as int)
            &&& spans_tile(out@.lines[k].syntax_spans, bytes[k].len() as int)
            &&& searched(out@.lines[k].match_highlights, out@.lines[k].text, query@)
        } by {
            assert(out@.lines[k] == out.lines@[k]@);
        }
        let cached = PreviewOutput {
            path: owned(path),
            lines: copy_lines(&out.lines),
            truncated: out.truncated,
            encoding: out.encoding,
            is_binary: false,
            error: None,
            original_size: out.original_size,
        };
        self.cache = Some((owned(path), cached));
        Ok(out)
    }
}

fn copy_lines(lines: &Vec<PreviewLine>) -> (r: Vec<PreviewLine>)
    ensures
        r@.map_values(|l: PreviewLine| l@) == lines@.map_values(|l: PreviewLine| l@),
{
    let mut out: Vec<PreviewLine> = Vec::new();
    let mut i: usize = 0;
    while i < lines.len()
        invariant
            i <= lines@.len(),
            out@.len() == i,
            forall|k: int| 0 <= k < i ==> (#[trigger] out@[k])@ == lines@[k]@,
        decreases lines.len() - i,
    {
        let l = &lines[i];
        let c = PreviewLine {
            line_number: l.line_number,
            text: l.text.clone(),
            syntax_spans: copy_spans(&l.syntax_spans),
            match_highlights: copy_matches(&l.match_highlights),
        };
        out.push(c);
        i += 1;
    }
    assert(out@.map_values(|l: PreviewLine| l@) =~= lines@.map_values(|l: PreviewLine| l@));
    out
}

impl Default for PreviewService {
    fn default() -> (r: Self)
        ensures
            r.spec_config().max_file_size == default_preview_size(),
            r.cached() is None,
    {
        PreviewService::with_default_config()
    }
}

} // verus!
