//! Search match highlighting for file previews.
//!
//! Finds occurrences of a search query within preview text and merges
//! them with syntax highlighting spans.
use vstd::prelude::*;

use crate::preview::syntax::Style;
use vstd::string::StringSliceAdditionalSpecFns;
use vstd::utf8::*;

verus! {

/// A highlighted match in the preview text.
#[derive(Debug, Clone)]
pub struct HighlightedMatch {
    /// The start byte offset of the match.
    pub start: usize,
    /// The end byte offset of the match.
    pub end: usize,
    /// The matched text.
    pub text: String,
}

/// A styled segment: start byte, end byte and style.
pub type Span = (usize, usize, Style);

/// End of the syntax span at `i`, or `usize::MAX` once all spans are used up.
pub open spec fn span_end_at(spans: Seq<Span>, i: int) -> int {
    if 0 <= i < spans.len() {
        spans[i].1 as int
    } else {
        usize::MAX as int
    }
}

/// Start of the match at `i`, or `usize::MAX` once all matches are used up.
pub open spec fn match_start_at(ms: Seq<HighlightedMatch>, i: int) -> int {
    if 0 <= i < ms.len() {
        ms[i].start as int
    } else {
        usize::MAX as int
    }
}

/// End of the match at `i`, or `usize::MAX` once all matches are used up.
pub open spec fn match_end_at(ms: Seq<HighlightedMatch>, i: int) -> int {
    if 0 <= i < ms.len() {
        ms[i].end as int
    } else {
        usize::MAX as int
    }
}

/// The segments produced by merging syntax spans and matches, starting in the
/// state where the span cursor is `si`, the match cursor is `mi` and the text
/// before byte `pos` has been handled.
///
/// In each step: a span that ends at or before `pos` is passed; then a match
/// that ends at or before `pos` is passed; a match that has started covers the
/// text up to the end of the match or of the span, whichever comes first;
/// otherwise the span's style covers the text up to the next match start or
/// the span end.
pub open spec fn sweep(
    spans: Seq<Span>,
    ms: Seq<HighlightedMatch>,
    style: Style,
    si: int,
    mi: int,
    pos: int,
) -> Seq<Span>
    decreases spans.len() + ms.len() - si - mi, usize::MAX - pos,
{
    if !(0 <= si <= spans.len() && 0 <= mi <= ms.len() && 0 <= pos <= usize::MAX) {
        seq![]
    } else if si == spans.len() && mi == ms.len() {
        seq![]
    } else {
        let send = span_end_at(spans, si);
        let mstart = match_start_at(ms, mi);
        let mend = match_end_at(ms, mi);
        if pos >= send {
            sweep(spans, ms, style, si + 1, mi, pos)
        } else if pos >= mend {
            sweep(spans, ms, style, si, mi + 1, pos)
        } else if mstart <= pos && mstart < send {
            let end = if mend < send { mend } else { send };
            seq![(pos as usize, end as usize, style)] + sweep(
                spans,
                ms,
                style,
                si,
                if end >= mend { mi + 1 } else { mi },
                end,
            )
        } else {
            let end = if send < mstart { send } else { mstart };
            (if si < spans.len() { seq![(pos as usize, end as usize, spans[si].2)] } else { seq![] })
                + sweep(spans, ms, style, si, mi, end)
        }
    }
}


/// Every segment is non-empty, starts at or after `from`, and each segment
/// ends at or before the start of the next one.
pub open spec fn segments_ordered(out: Seq<Span>, from: int) -> bool {
    &&& forall|k: int| 0 <= k < out.len() ==> from <= (#[trigger] out[k]).0 < out[k].1
    &&& forall|k: int| 0 <= k < out.len() - 1 ==> (#[trigger] out[k]).1 <= out[k + 1].0
}

proof fn lemma_sweep_ordered(
    spans: Seq<Span>,
    ms: Seq<HighlightedMatch>,
    style: Style,
    si: int,
    mi: int,
    pos: int,
)
    ensures
        segments_ordered(sweep(spans, ms, style, si, mi, pos), pos),
    decreases spans.len() + ms.len() - si - mi, usize::MAX - pos,
{
    if !(0 <= si <= spans.len() && 0 <= mi <= ms.len() && 0 <= pos <= usize::MAX) {
    } else if si == spans.len() && mi == ms.len() {
    } else {
        let send = span_end_at(spans, si);
        let mstart = match_start_at(ms, mi);
        let mend = match_end_at(ms, mi);
        if pos >= send {
            lemma_sweep_ordered(spans, ms, style, si + 1, mi, pos);
        } else if pos >= mend {
            lemma_sweep_ordered(spans, ms, style, si, mi + 1, pos);
        } else if mstart <= pos && mstart < send {
            let end = if mend < send { mend } else { send };
            let nmi = if end >= mend { mi + 1 } else { mi };
            lemma_sweep_ordered(spans, ms, style, si, nmi, end);
            let rest = sweep(spans, ms, style, si, nmi, end);
            let out = seq![(pos as usize, end as usize, style)] + rest;
            assert(out == sweep(spans, ms, style, si, mi, pos));
            assert forall|k: int| 0 <= k < out.len() - 1 implies (#[trigger] out[k]).1 <= out[k + 1].0 by {
                if k > 0 {
                    assert(out[k] == rest[k - 1]);
                }
            }
        } else {
            let end = if send < mstart { send } else { mstart };
            lemma_sweep_ordered(spans, ms, style, si, mi, end);
            let rest = sweep(spans, ms, style, si, mi, end);
            if si < spans.len() {
                let out = seq![(pos as usize, end as usize, spans[si].2)] + rest;
                assert(out == sweep(spans, ms, style, si, mi, pos));
                assert forall|k: int| 0 <= k < out.len() - 1 implies (#[trigger] out[k]).1 <= out[k + 1].0 by {
                    if k > 0 {
                        assert(out[k] == rest[k - 1]);
                    }
                }
            } else {
                assert(rest == sweep(spans, ms, style, si, mi, pos));
            }
        }
    }
}

/// Law: the merged segments never overlap and appear in text order; every
/// segment covers at least one byte.
pub proof fn law_combined_segments_ordered(
    syntax_spans: Seq<Span>,
    matches: Seq<HighlightedMatch>,
    match_style: Style,
)
    ensures
        segments_ordered(sweep(syntax_spans, matches, match_style, 0, 0, 0), 0),
{
    lemma_sweep_ordered(syntax_spans, matches, match_style, 0, 0, 0);
}


/// Names the result of `str::to_lowercase`: the lowercase equivalent of a
/// text as Unicode defines it.
pub uninterp spec fn lowercase(s: Seq<char>) -> Seq<char>;

/// Every character of the text is ASCII.
pub open spec fn is_ascii_text(s: Seq<char>) -> bool {
    forall|i: int| 0 <= i < s.len() ==> (#[trigger] s[i] as u32) < 128
}

/// ASCII case folding: `'A'` to `'Z'` become `'a'` to `'z'`, every other
/// character stays.
pub open spec fn ascii_lowercase(s: Seq<char>) -> Seq<char> {
    Seq::new(
        s.len(),
        |i: int|
            if 65 <= (s[i] as u32) <= 90 {
                ((s[i] as u32) + 32) as char
            } else {
                s[i]
            },
    )
}

/// Calls `str::to_lowercase`, which returns the lowercase equivalent of
/// the text as a new `String`, by the Unicode lowercase mapping. The
/// contract ties the result to [`lowercase`] of the argument and states the
/// mapping for ASCII text only (there it is ASCII case folding); the rest of
/// the Unicode case tables is not stated.
#[verifier::external_body]
fn to_lowercase(s: &str) -> (r: String)
    ensures
        r@ == lowercase(s@),
        is_ascii_text(s@) ==> r@ == ascii_lowercase(s@),
{
    s.to_lowercase()
}

/// `needle` occurs in `hay` at byte offset `i`.
pub open spec fn occurs_at(hay: Seq<u8>, needle: Seq<u8>, i: int) -> bool {
    0 <= i && i + needle.len() <= hay.len() && hay.subrange(i, i + needle.len()) == needle
}

/// The offsets, from `from` on and in increasing order, at which `needle`
/// occurs in `hay` (overlapping occurrences included).
pub open spec fn occurrences_from(hay: Seq<u8>, needle: Seq<u8>, from: int) -> Seq<int>
    decreases hay.len() + 1 - from,
{
    if from < 0 || from + needle.len() > hay.len() {
        seq![]
    } else if occurs_at(hay, needle, from) {
        seq![from] + occurrences_from(hay, needle, from + 1)
    } else {
        occurrences_from(hay, needle, from + 1)
    }
}

/// The byte offsets at which `query` occurs in `line`, ignoring case: every
/// offset of the lowercased query in the lowercased line. An empty query
/// matches nowhere.
pub open spec fn match_offsets(line: Seq<char>, query: Seq<char>) -> Seq<int> {
    if query.len() == 0 {
        seq![]
    } else {
        occurrences_from(encode_utf8(lowercase(line)), encode_utf8(lowercase(query)), 0)
    }
}

/// Matching ignores case: lines that lowercase alike, searched for queries
/// that lowercase alike (both empty or both not), have their matches at the
/// same byte offsets.
pub proof fn law_matching_ignores_case(line1: Seq<char>, line2: Seq<char>, q1: Seq<char>, q2: Seq<char>)
    requires
        lowercase(line1) == lowercase(line2),
        lowercase(q1) == lowercase(q2),
        (q1.len() == 0) == (q2.len() == 0),
    ensures
        match_offsets(line1, q1) == match_offsets(line2, q2),
{
}

proof fn lemma_occurrences_increase(hay: Seq<u8>, needle: Seq<u8>, from: int)
    ensures
        forall|k: int|
            0 <= k < occurrences_from(hay, needle, from).len() ==> from <= #[trigger] occurrences_from(
                hay,
                needle,
                from,
            )[k] && occurs_at(hay, needle, occurrences_from(hay, needle, from)[k]),
        forall|i: int, j: int|
            0 <= i < j < occurrences_from(hay, needle, from).len() ==> occurrences_from(hay, needle, from)[i]
                < occurrences_from(hay, needle, from)[j],
    decreases hay.len() + 1 - from,
{
    if from < 0 || from + needle.len() > hay.len() {
    } else {
        lemma_occurrences_increase(hay, needle, from + 1);
        let rest = occurrences_from(hay, needle, from + 1);
        if occurs_at(hay, needle, from) {
            let all = seq![from] + rest;
            assert(all == occurrences_from(hay, needle, from));
            assert forall|k: int| 0 <= k < all.len() implies from <= #[trigger] all[k] && occurs_at(hay, needle, all[k]) by {
                if k > 0 {
                    assert(all[k] == rest[k - 1]);
                }
            }
            assert forall|i: int, j: int| 0 <= i < j < all.len() implies all[i] < all[j] by {
                assert(all[j] == rest[j - 1]);
                if i > 0 {
                    assert(all[i] == rest[i - 1]);
                }
            }
        }
    }
}

/// The matches of a query lie at increasing offsets, each one an occurrence
/// of the lowercased query in the lowercased line.
pub proof fn law_match_offsets_increase(line: Seq<char>, query: Seq<char>)
    ensures
        forall|i: int, j: int|
            0 <= i < j < match_offsets(line, query).len() ==> match_offsets(line, query)[i]
                < match_offsets(line, query)[j],
        forall|k: int|
            0 <= k < match_offsets(line, query).len() ==> occurs_at(
                encode_utf8(lowercase(line)),
                encode_utf8(lowercase(query)),
                #[trigger] match_offsets(line, query)[k],
            ),
{
    if query.len() > 0 {
        lemma_occurrences_increase(encode_utf8(lowercase(line)), encode_utf8(lowercase(query)), 0);
    }
}

/// Reporting the match at byte offset `i` slices the line only at character
/// boundaries: from `i` over the byte length of the query.
pub open spec fn match_sliceable(line: Seq<char>, query: Seq<char>, i: int) -> bool {
    let bytes = encode_utf8(line);
    let qlen = encode_utf8(query).len() as int;
    &&& i + qlen <= bytes.len()
    &&& is_char_boundary(bytes, i)
    &&& is_char_boundary(bytes, i + qlen)
}

proof fn lemma_ascii_bytes(s: Seq<char>)
    requires
        is_ascii_text(s),
    ensures
        encode_utf8(s).len() == s.len(),
        forall|i: int| 0 <= i < s.len() ==> (#[trigger] encode_utf8(s)[i]) < 128,
    decreases s.len(),
{
    if s.len() > 0 {
        let c = s[0] as u32;
        assert(c < 128);
        assert(has_width_1_encoding(c));
        assert((c & 0x7F) as u8 == c) by (bit_vector)
            requires
                c < 128,
        ;
        assert(is_ascii_text(s.drop_first())) by {
            assert forall|i: int| 0 <= i < s.drop_first().len() implies (#[trigger] s.drop_first()[i] as u32)
                < 128 by {
                assert(s.drop_first()[i] == s[i + 1]);
            }
        }
        lemma_ascii_bytes(s.drop_first());
        let rest = encode_utf8(s.drop_first());
        assert(encode_utf8(s) == seq![leading_byte_width_1(c)] + rest);
        assert forall|i: int| 0 <= i < s.len() implies (#[trigger] encode_utf8(s)[i]) < 128 by {
            if i > 0 {
                assert(encode_utf8(s)[i] == rest[i - 1]);
            }
        }
    }
}

proof fn lemma_ascii_boundaries(s: Seq<char>)
    requires
        is_ascii_text(s),
    ensures
        forall|i: int| 0 <= i <= s.len() ==> #[trigger] is_char_boundary(encode_utf8(s), i),
{
    broadcast use encode_utf8_valid_utf8;

    lemma_ascii_bytes(s);
    let b = encode_utf8(s);
    is_char_boundary_start_end_of_seq(b);
    assert forall|i: int| 0 <= i <= s.len() implies #[trigger] is_char_boundary(encode_utf8(s), i) by {
        if i < s.len() {
            is_char_boundary_iff_not_is_continuation_byte(b, i);
            assert(b[i] < 128);
        }
    }
}

proof fn lemma_ascii_lowercase_is_ascii(s: Seq<char>)
    requires
        is_ascii_text(s),
    ensures
        is_ascii_text(ascii_lowercase(s)),
        ascii_lowercase(s).len() == s.len(),
{
    assert forall|i: int| 0 <= i < ascii_lowercase(s).len() implies (#[trigger] ascii_lowercase(s)[i]
        as u32) < 128 by {
        let c = s[i] as u32;
        if 65 <= c <= 90 {
            assert(((c + 32) as char) as u32 == c + 32);
        }
    }
}

/// On ASCII text, whose lowercase is its ASCII case folding, every match
/// can be reported: every byte offset is a character boundary.
proof fn lemma_ascii_matches_sliceable(line: Seq<char>, query: Seq<char>)
    requires
        is_ascii_text(line),
        is_ascii_text(query),
        lowercase(line) == ascii_lowercase(line),
        lowercase(query) == ascii_lowercase(query),
    ensures
        matches_sliceable(line, query),
{
    lemma_ascii_lowercase_is_ascii(line);
    lemma_ascii_lowercase_is_ascii(query);
    lemma_ascii_bytes(line);
    lemma_ascii_bytes(query);
    lemma_ascii_bytes(lowercase(line));
    lemma_ascii_bytes(lowercase(query));
    lemma_ascii_boundaries(line);
    let hay = encode_utf8(lowercase(line));
    let needle = encode_utf8(lowercase(query));
    let offs = match_offsets(line, query);
    if query.len() > 0 {
        lemma_occurrences_increase(hay, needle, 0);
        assert forall|k: int| 0 <= k < offs.len() implies match_sliceable(line, query, #[trigger] offs[k]) by {
            let i = offs[k];
            assert(occurs_at(hay, needle, i));
            assert(is_char_boundary(encode_utf8(line), i));
            assert(is_char_boundary(encode_utf8(line), i + query.len()));
        }
    }
}

/// Every match can be reported without slicing inside a character.
pub open spec fn matches_sliceable(line: Seq<char>, query: Seq<char>) -> bool {
    forall|k: int|
        0 <= k < match_offsets(line, query).len() ==> match_sliceable(
            line,
            query,
            #[trigger] match_offsets(line, query)[k],
        )
}

/// `ms` reports, in order, one match per offset in `match_offsets`: it starts
/// there, spans the byte length of the query, and holds that part of the line.
pub open spec fn reports_matches(ms: Seq<HighlightedMatch>, line: Seq<char>, query: Seq<char>) -> bool {
    let offs = match_offsets(line, query);
    let qlen = encode_utf8(query).len() as int;
    &&& ms.len() == offs.len()
    &&& forall|k: int|
        0 <= k < ms.len() ==> {
            &&& (#[trigger] ms[k]).start == offs[k]
            &&& ms[k].end == offs[k] + qlen
            &&& encode_utf8(ms[k].text@) == encode_utf8(line).subrange(offs[k], offs[k] + qlen)
        }
}

fn occurs_at_exec(hay: &[u8], needle: &[u8], i: usize) -> (r: bool)
    requires
        i + needle@.len() <= hay@.len(),
    ensures
        r == occurs_at(hay@, needle@, i as int),
{
    let hay_len = hay.len();
    let mut j: usize = 0;
    while j < needle.len()
        invariant
            j <= needle@.len(),
            hay_len == hay@.len(),
            i + needle@.len() <= hay_len,
            forall|t: int| 0 <= t < j ==> hay@[i + t] == needle@[t],
        decreases needle.len() - j,
    {
        if hay[i + j] != needle[j] {
            assert(hay@.subrange(i as int, i + needle@.len())[j as int] != needle@[j as int]);
            return false;
        }
        j += 1;
    }
    assert(hay@.subrange(i as int, i + needle@.len()) =~= needle@);
    true
}

proof fn lemma_boundary_in_suffix(bytes: Seq<u8>, i: int, j: int)
    requires
        valid_utf8(bytes),
        0 <= i <= j <= bytes.len(),
        is_char_boundary(bytes, i),
        is_char_boundary(bytes, j),
    ensures
        valid_utf8(bytes.subrange(i, bytes.len() as int)),
        is_char_boundary(bytes.subrange(i, bytes.len() as int), j - i),
{
    broadcast use is_char_boundary_start_end_of_seq, is_char_boundary_iff_not_is_continuation_byte;

    valid_utf8_split(bytes, i);
    let rest = bytes.subrange(i, bytes.len() as int);
    if j < bytes.len() && j > i {
        assert(rest[j - i] == bytes[j]);
        assert(is_char_boundary(bytes, j) <==> !is_continuation_byte(bytes[j]));
        assert(is_char_boundary(rest, j - i) <==> !is_continuation_byte(rest[j - i]));
    } else if j == bytes.len() {
        assert(is_char_boundary(rest, rest.len() as int));
    } else {
        assert(is_char_boundary(rest, 0));
    }
}

/// The part of `s` between two byte offsets that lie on character boundaries.
pub(crate) fn byte_slice(s: &str, from: usize, to: usize) -> (r: &str)
    requires
        from <= to <= s.spec_bytes().len(),
        is_char_boundary(s.spec_bytes(), from as int),
        is_char_boundary(s.spec_bytes(), to as int),
    ensures
        r.spec_bytes() == s.spec_bytes().subrange(from as int, to as int),
{
    broadcast use encode_utf8_valid_utf8;

    proof {
        lemma_boundary_in_suffix(s.spec_bytes(), from as int, to as int);
    }
    let (_head, rest) = s.split_at(from);
    let (mid, _tail) = rest.split_at(to - from);
    assert(mid.spec_bytes() =~= s.spec_bytes().subrange(from as int, to as int));
    mid
}

/// Finds the case-insensitive matches of `query` in `line`, or `None` when
/// reporting one of them would slice a text inside a character.
pub fn find_matches_checked(line: &str, query: &str) -> (r: Option<Vec<HighlightedMatch>>)
    ensures
        r is Some <==> matches_sliceable(line@, query@),
        r matches Some(ms) ==> reports_matches(ms@, line@, query@),
        is_ascii_text(line@) && is_ascii_text(query@) ==> r is Some,
{
    broadcast use encode_utf8_valid_utf8;

    if query.is_empty() {
        return Some(Vec::new());
    }
    let query_lower = to_lowercase(query);
    let line_lower = to_lowercase(line);
    proof {
        if is_ascii_text(line@) && is_ascii_text(query@) {
            lemma_ascii_matches_sliceable(line@, query@);
        }
    }
    let lower_str = line_lower.as_str();
    let qb = query_lower.as_str().as_bytes();
    let lb = lower_str.as_bytes();
    let qlen = query.as_bytes().len();
    let llen = line.as_bytes().len();
    let ghost offs = match_offsets(line@, query@);
    let ghost hay = lb@;
    let ghost needle = qb@;
    assert(offs == occurrences_from(hay, needle, 0));

    let mut matches: Vec<HighlightedMatch> = Vec::new();
    if qb.len() > lb.len() {
        return Some(matches);
    }
    let lb_len = lb.len();
    let last = lb_len - qb.len();
    let mut i: usize = 0;
    while i <= last
        invariant
            last == hay.len() - needle.len(),
            lb_len == hay.len(),
            hay == lb@,
            needle == qb@,
            offs == occurrences_from(hay, needle, 0),
            offs == match_offsets(line@, query@),
            qlen == encode_utf8(query@).len(),
            llen == encode_utf8(line@).len(),
            lower_str.spec_bytes() == hay,
            hay == encode_utf8(lowercase(line@)),
            query@.len() > 0,
            is_ascii_text(line@) && is_ascii_text(query@) ==> matches_sliceable(line@, query@),
            i <= last + 1,
            matches@.len() <= offs.len(),
            offs == offs.subrange(0, matches@.len() as int) + occurrences_from(hay, needle, i as int),
            forall|k: int| 0 <= k < matches@.len() ==> match_sliceable(line@, query@, #[trigger] offs[k]),
            forall|k: int|
                0 <= k < matches@.len() ==> {
                    &&& (#[trigger] matches@[k]).start == offs[k]
                    &&& matches@[k].end == offs[k] + qlen
                    &&& encode_utf8(matches@[k].text@) == encode_utf8(line@).subrange(offs[k], offs[k] + qlen)
                },
        decreases last + 1 - i,
    {
        let ghost done = matches@.len() as int;
        if occurs_at_exec(lb, qb, i) {
            assert(occurrences_from(hay, needle, i as int) == seq![i as int] + occurrences_from(hay, needle, i + 1));
            assert(offs.subrange(0, done).len() == done);
            assert(offs.len() == done + occurrences_from(hay, needle, i as int).len());
            assert(offs[done] == i);
            assert(done < match_offsets(line@, query@).len());
            if qlen > llen || i > llen - qlen {
                assert(!match_sliceable(line@, query@, match_offsets(line@, query@)[done]));
                return None;
            }
            let end = i + qlen;
            if !line.is_char_boundary(i) || !line.is_char_boundary(end) {
                assert(!match_sliceable(line@, query@, match_offsets(line@, query@)[done]));
                return None;
            }
            let part = byte_slice(line, i, end);
            let text = part.to_owned();
            matches.push(HighlightedMatch { start: i, end, text });
            assert(offs == offs.subrange(0, matches@.len() as int) + occurrences_from(hay, needle, i + 1));
        } else {
            assert(occurrences_from(hay, needle, i as int) == occurrences_from(hay, needle, i + 1));
            assert(i < usize::MAX) by {
                if i == usize::MAX {
                    assert(hay.subrange(i as int, i as int) =~= needle);
                }
            }
        }
        i += 1;
    }
    assert(occurrences_from(hay, needle, i as int) == Seq::<int>::empty());
    assert(offs.subrange(0, matches@.len() as int) + Seq::<int>::empty() == offs.subrange(0, matches@.len() as int));
    Some(matches)
}

/// Highlights search matches in a line of text.
///
/// Returns a list of match positions. The matches are case-insensitive.
pub fn find_matches(line: &str, query: &str) -> (r: Vec<HighlightedMatch>)
    requires
        matches_sliceable(line@, query@),
    ensures
        reports_matches(r@, line@, query@),
{
    match find_matches_checked(line, query) {
        Some(ms) => ms,
        None => Vec::new(),
    }
}

/// Syntax spans that tile the text `[0, n)` from left to right, each covering
/// at least one byte.
pub open spec fn spans_tile(spans: Seq<Span>, n: int) -> bool {
    &&& spans.len() == 0 ==> n == 0
    &&& spans.len() > 0 ==> spans[0].0 == 0 && spans.last().1 == n
    &&& forall|i: int| 0 <= i < spans.len() ==> (#[trigger] spans[i]).0 < spans[i].1
    &&& forall|i: int| 0 <= i < spans.len() - 1 ==> (#[trigger] spans[i]).1 == spans[i + 1].0
}

/// Non-empty matches inside `[0, n)`, ordered by their start offsets.
pub open spec fn matches_sorted_within(ms: Seq<HighlightedMatch>, n: int) -> bool {
    &&& forall|j: int| 0 <= j < ms.len() ==> (#[trigger] ms[j]).start < ms[j].end <= n
    &&& forall|j: int, k: int| 0 <= j <= k < ms.len() ==> (#[trigger] ms[j]).start <= (#[trigger] ms[k]).start
}

/// Byte `p` lies inside some match.
pub open spec fn in_some_match(ms: Seq<HighlightedMatch>, p: int) -> bool {
    exists|j: int| 0 <= j < ms.len() && (#[trigger] ms[j]).start <= p < ms[j].end
}

/// The index of the syntax span that contains byte `p`.
pub open spec fn span_index_at(spans: Seq<Span>, p: int) -> int {
    choose|i: int| 0 <= i < spans.len() && (#[trigger] spans[i]).0 <= p < spans[i].1
}

/// The style byte `p` should be shown in: the match style inside a match,
/// the style of its syntax span elsewhere.
pub open spec fn style_at(spans: Seq<Span>, ms: Seq<HighlightedMatch>, style: Style, p: int) -> Style {
    if in_some_match(ms, p) {
        style
    } else {
        spans[span_index_at(spans, p)].2
    }
}

/// `out` tiles `[from, n)` and gives every byte the style it should be shown in.
#[verifier::opaque]
pub open spec fn tiles_with_styles(
    out: Seq<Span>,
    spans: Seq<Span>,
    ms: Seq<HighlightedMatch>,
    style: Style,
    from: int,
    n: int,
) -> bool {
    &&& (out.len() == 0 <==> from == n)
    &&& out.len() > 0 ==> out[0].0 == from && out.last().1 == n
    &&& forall|k: int| 0 <= k < out.len() ==> (#[trigger] out[k]).0 < out[k].1
    &&& forall|k: int| 0 <= k < out.len() - 1 ==> (#[trigger] out[k]).1 == out[k + 1].0
    &&& forall|k: int, p: int|
        #![trigger out[k], style_at(spans, ms, style, p)]
        0 <= k < out.len() && out[k].0 <= p < out[k].1 ==> out[k].2 == style_at(spans, ms, style, p)
}

proof fn lemma_tile_sorted(spans: Seq<Span>, n: int, i: int, k: int)
    requires
        spans_tile(spans, n),
        0 <= i < k < spans.len(),
    ensures
        spans[i].1 <= spans[k].0,
    decreases k - i,
{
    if k > i + 1 {
        lemma_tile_sorted(spans, n, i, k - 1);
        assert(spans[k - 1].1 == spans[k].0);
    }
}

proof fn lemma_span_index_at(spans: Seq<Span>, n: int, i: int, p: int)
    requires
        spans_tile(spans, n),
        0 <= i < spans.len(),
        spans[i].0 <= p < spans[i].1,
    ensures
        span_index_at(spans, p) == i,
{
    let c = span_index_at(spans, p);
    assert(0 <= c < spans.len() && spans[c].0 <= p < spans[c].1);
    if c < i {
        lemma_tile_sorted(spans, n, c, i);
    } else if i < c {
        lemma_tile_sorted(spans, n, i, c);
    }
}

/// Where the merge stands while sweeping well-formed input.
spec fn sweep_state_ok(
    spans: Seq<Span>,
    ms: Seq<HighlightedMatch>,
    si: int,
    mi: int,
    pos: int,
    n: int,
) -> bool {
    &&& 0 <= si <= spans.len()
    &&& 0 <= mi <= ms.len()
    &&& 0 <= pos <= n
    &&& si < spans.len() ==> spans[si].0 <= pos <= spans[si].1
    &&& si == spans.len() ==> pos == n
    &&& forall|j: int| 0 <= j < mi ==> (#[trigger] ms[j]).end <= pos
}

proof fn lemma_span_end_bound(spans: Seq<Span>, n: int, i: int)
    requires
        spans_tile(spans, n),
        0 <= i < spans.len(),
    ensures
        spans[i].1 <= n,
{
    if i < spans.len() - 1 {
        lemma_tile_sorted(spans, n, i, spans.len() - 1);
    }
}

proof fn lemma_match_segment_style(
    spans: Seq<Span>,
    ms: Seq<HighlightedMatch>,
    style: Style,
    mi: int,
    pos: int,
    end: int,
)
    requires
        0 <= mi < ms.len(),
        ms[mi].start <= pos,
        end <= ms[mi].end,
    ensures
        forall|p: int| pos <= p < end ==> style == #[trigger] style_at(spans, ms, style, p),
{
    assert forall|p: int| pos <= p < end implies style == #[trigger] style_at(spans, ms, style, p) by {
        assert(ms[mi].start <= p < ms[mi].end);
    }
}

proof fn lemma_plain_segment_style(
    spans: Seq<Span>,
    ms: Seq<HighlightedMatch>,
    style: Style,
    si: int,
    mi: int,
    pos: int,
    end: int,
    n: int,
)
    requires
        spans_tile(spans, n),
        matches_sorted_within(ms, n),
        0 <= si < spans.len(),
        0 <= mi <= ms.len(),
        spans[si].0 <= pos,
        end <= spans[si].1,
        forall|j: int| 0 <= j < mi ==> (#[trigger] ms[j]).end <= pos,
        mi < ms.len() ==> end <= ms[mi].start,
    ensures
        forall|p: int| pos <= p < end ==> spans[si].2 == #[trigger] style_at(spans, ms, style, p),
{
    assert forall|p: int| pos <= p < end implies spans[si].2 == #[trigger] style_at(
        spans,
        ms,
        style,
        p,
    ) by {
        assert(!in_some_match(ms, p)) by {
            if in_some_match(ms, p) {
                let j = choose|j: int| 0 <= j < ms.len() && (#[trigger] ms[j]).start <= p < ms[j].end;
                if j >= mi {
                    assert(ms[mi].start <= ms[j].start);
                }
            }
        }
        lemma_span_index_at(spans, n, si, p);
    }
}

proof fn lemma_prepend_segment(
    seg: Span,
    rest: Seq<Span>,
    spans: Seq<Span>,
    ms: Seq<HighlightedMatch>,
    style: Style,
    n: int,
)
    requires
        seg.0 < seg.1 <= n,
        tiles_with_styles(rest, spans, ms, style, seg.1 as int, n),
        forall|p: int| seg.0 <= p < seg.1 ==> seg.2 == #[trigger] style_at(spans, ms, style, p),
    ensures
        tiles_with_styles(seq![seg] + rest, spans, ms, style, seg.0 as int, n),
{
    reveal(tiles_with_styles);
    let out = seq![seg] + rest;
    if rest.len() == 0 {
        assert(out.last() == seg);
    } else {
        assert(out.last() == rest.last());
    }
    assert forall|k: int, p: int|
        #![trigger out[k], style_at(spans, ms, style, p)]
        0 <= k < out.len() && out[k].0 <= p < out[k].1 implies out[k].2 == style_at(
        spans,
        ms,
        style,
        p,
    ) by {
        if k > 0 {
            assert(out[k] == rest[k - 1]);
        }
    }
    assert forall|k: int| 0 <= k < out.len() implies (#[trigger] out[k]).0 < out[k].1 by {
        if k > 0 {
            assert(out[k] == rest[k - 1]);
        }
    }
    assert forall|k: int| 0 <= k < out.len() - 1 implies (#[trigger] out[k]).1 == out[k + 1].0 by {
        if k > 0 {
            assert(out[k] == rest[k - 1]);
        }
    }
}

proof fn lemma_sweep_tiles(
    spans: Seq<Span>,
    ms: Seq<HighlightedMatch>,
    style: Style,
    si: int,
    mi: int,
    pos: int,
    n: int,
)
    requires
        offsets_in_range(spans, ms),
        spans_tile(spans, n),
        matches_sorted_within(ms, n),
        sweep_state_ok(spans, ms, si, mi, pos, n),
    ensures
        tiles_with_styles(sweep(spans, ms, style, si, mi, pos), spans, ms, style, pos, n),
    decreases spans.len() + ms.len() - si - mi, usize::MAX - pos,
{
    assert(n < usize::MAX) by {
        if spans.len() > 0 {
            assert(spans[spans.len() - 1].1 < usize::MAX);
        }
    }
    if si == spans.len() && mi == ms.len() {
        reveal(tiles_with_styles);
    } else {
        let send = span_end_at(spans, si);
        let mstart = match_start_at(ms, mi);
        let mend = match_end_at(ms, mi);
        if pos >= send {
            assert(si < spans.len());
            if si + 1 < spans.len() {
                assert(spans[si].1 == spans[si + 1].0);
            }
            lemma_sweep_tiles(spans, ms, style, si + 1, mi, pos, n);
        } else if pos >= mend {
            lemma_sweep_tiles(spans, ms, style, si, mi + 1, pos, n);
        } else {
            assert(si < spans.len()) by {
                if si == spans.len() {
                    assert(ms[mi].end <= n);
                }
            }
            if mstart <= pos && mstart < send {
                let end = if mend < send { mend } else { send };
                let nmi = if end >= mend { mi + 1 } else { mi };
                lemma_span_end_bound(spans, n, si);
                lemma_sweep_tiles(spans, ms, style, si, nmi, end, n);
                let seg = (pos as usize, end as usize, style);
                lemma_match_segment_style(spans, ms, style, mi, pos, end);
                lemma_prepend_segment(seg, sweep(spans, ms, style, si, nmi, end), spans, ms, style, n);
            } else {
                let end = if send < mstart { send } else { mstart };
                lemma_span_end_bound(spans, n, si);
                lemma_sweep_tiles(spans, ms, style, si, mi, end, n);
                let seg = (pos as usize, end as usize, spans[si].2);
                lemma_plain_segment_style(spans, ms, style, si, mi, pos, end, n);
                lemma_prepend_segment(seg, sweep(spans, ms, style, si, mi, end), spans, ms, style, n);
            }
        }
    }
}

/// Law: when the syntax spans tile a line of `n` bytes and the matches are
/// ordered by start and lie inside the line, the merged segments tile the
/// whole line, and every byte is shown in the match style exactly when it
/// lies inside a match, and in the style of its syntax span otherwise.
pub proof fn law_combined_segments_tile_line(
    syntax_spans: Seq<Span>,
    matches: Seq<HighlightedMatch>,
    match_style: Style,
    n: int,
)
    requires
        offsets_in_range(syntax_spans, matches),
        spans_tile(syntax_spans, n),
        matches_sorted_within(matches, n),
    ensures
        tiles_with_styles(
            sweep(syntax_spans, matches, match_style, 0, 0, 0),
            syntax_spans,
            matches,
            match_style,
            0,
            n,
        ),
{
    lemma_sweep_tiles(syntax_spans, matches, match_style, 0, 0, 0, n);
}

proof fn lemma_sweep_without_matches(spans: Seq<Span>, style: Style, si: int, n: int)
    requires
        0 <= si <= spans.len(),
        spans_tile(spans, n),
    ensures
        sweep(spans, Seq::empty(), style, si, 0, if si < spans.len() { spans[si].0 as int } else { n })
            == spans.subrange(si, spans.len() as int),
    decreases spans.len() - si,
{
    let ms = Seq::<HighlightedMatch>::empty();
    if si < spans.len() {
        let pos = spans[si].0 as int;
        let send = spans[si].1 as int;
        lemma_sweep_without_matches(spans, style, si + 1, n);
        if si + 1 < spans.len() {
            assert(spans[si].1 == spans[si + 1].0);
        } else {
            assert(send == n);
        }
        assert(sweep(spans, ms, style, si, 0, send) == sweep(spans, ms, style, si + 1, 0, send));
        assert(sweep(spans, ms, style, si, 0, pos) == seq![(pos as usize, send as usize, spans[si].2)]
            + sweep(spans, ms, style, si, 0, send));
        assert(spans.subrange(si, spans.len() as int) =~= seq![spans[si]] + spans.subrange(
            si + 1,
            spans.len() as int,
        ));
    } else {
        assert(spans.subrange(si, spans.len() as int) =~= Seq::<Span>::empty());
    }
}

/// Law: with no matches, merging gives back syntax spans that tile a line
/// unchanged, whatever the match style.
pub proof fn law_no_matches_keep_spans(syntax_spans: Seq<Span>, match_style: Style, n: int)
    requires
        spans_tile(syntax_spans, n),
    ensures
        sweep(syntax_spans, Seq::empty(), match_style, 0, 0, 0) == syntax_spans,
{
    lemma_sweep_without_matches(syntax_spans, match_style, 0, n);
    assert(syntax_spans.subrange(0, syntax_spans.len() as int) =~= syntax_spans);
}

/// All offsets are below `usize::MAX`, as offsets into any text are.
pub open spec fn offsets_in_range(spans: Seq<Span>, ms: Seq<HighlightedMatch>) -> bool {
    &&& forall|i: int| 0 <= i < spans.len() ==> (#[trigger] spans[i]).1 < usize::MAX
    &&& forall|j: int|
        0 <= j < ms.len() ==> (#[trigger] ms[j]).start < usize::MAX && ms[j].end < usize::MAX
}

/// Combines syntax highlighting with search match highlighting.
///
/// For each line, produces styled segments that account for both
/// syntax highlighting and search match highlighting. `usize::MAX` marks
/// the end of the spans and of the matches, so when there are matches every
/// offset lies below it, as offsets into any text do.
pub fn combine_highlights(
    syntax_spans: &[Span],
    matches: &[HighlightedMatch],
    match_style: Style,
) -> (result: Vec<Span>)
    requires
        matches@.len() > 0 ==> offsets_in_range(syntax_spans@, matches@),
    ensures
        result@ == sweep(syntax_spans@, matches@, match_style, 0, 0, 0),
{
    let mut result: Vec<Span> = Vec::new();
    let mut syntax_idx: usize = 0;
    let mut match_idx: usize = 0;
    let mut pos: usize = 0;

    while syntax_idx < syntax_spans.len() || match_idx < matches.len()
        invariant
            syntax_idx <= syntax_spans.len(),
            match_idx <= matches.len(),
            matches@.len() > 0 ==> offsets_in_range(syntax_spans@, matches@) && pos < usize::MAX,
            result@ + sweep(
                syntax_spans@,
                matches@,
                match_style,
                syntax_idx as int,
                match_idx as int,
                pos as int,
            ) == sweep(syntax_spans@, matches@, match_style, 0, 0, 0),
        decreases syntax_spans.len() + matches.len() - syntax_idx - match_idx, usize::MAX - pos,
    {
        let ghost prev = result@;
        let syntax_end = if syntax_idx < syntax_spans.len() {
            syntax_spans[syntax_idx].1
        } else {
            usize::MAX
        };
        let match_start = if match_idx < matches.len() {
            matches[match_idx].start
        } else {
            usize::MAX
        };
        let match_end = if match_idx < matches.len() {
            matches[match_idx].end
        } else {
            usize::MAX
        };

        if pos >= syntax_end {
            syntax_idx += 1;
        } else if pos >= match_end {
            match_idx += 1;
        } else if match_start <= pos && match_start < syntax_end {
            // Inside a match region.
            let end = if match_end < syntax_end { match_end } else { syntax_end };
            result.push((pos, end, match_style));
            assert(result@ == prev + seq![(pos, end, match_style)]);
            pos = end;
            if pos >= match_end {
                match_idx += 1;
            }
        } else {
            // Inside a syntax region.
            let end = if syntax_end < match_start { syntax_end } else { match_start };
            if syntax_idx < syntax_spans.len() {
                result.push((pos, end, syntax_spans[syntax_idx].2));
                assert(result@ == prev + seq![(pos, end, syntax_spans@[syntax_idx as int].2)]);
            }
            pos = end;
        }
    }
    assert(result@ + seq![] == result@);
    result
}

} // verus!
