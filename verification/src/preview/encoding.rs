//! Encoding detection for file previews.
//!
//! Detects UTF-8, UTF-8 with BOM and UTF-16 LE/BE text, recognizes
//! binary content (a zero byte early on, unless a byte order mark comes
//! first), and falls back to lossy UTF-8 decoding.
use vstd::prelude::*;
use vstd::utf8::*;

verus! {

/// Supported text encodings.
#[derive(Debug, Clone, Copy, PartialEq, Eq)]
pub enum Encoding {
    /// UTF-8 encoding (most common).
    Utf8,
    /// UTF-8 with Byte Order Mark.
    Utf8Bom,
    /// UTF-16 Little Endian.
    Utf16Le,
    /// UTF-16 Big Endian.
    Utf16Be,
}

/// Result of encoding detection.
#[derive(Debug, Clone)]
pub struct EncodingResult {
    /// The detected encoding.
    pub encoding: Encoding,
    /// The decoded text content.
    pub text: String,
    /// Whether binary content was detected.
    pub is_binary: bool,
}

/// Names the result of `String::from_utf8_lossy`: the bytes decoded as
/// UTF-8, with each invalid sequence replaced by U+FFFD.
pub uninterp spec fn utf8_lossy(bytes: Seq<u8>) -> Seq<char>;

/// A code unit that is half of a UTF-16 surrogate pair.
pub open spec fn is_surrogate(u: u16) -> bool {
    0xD800 <= u <= 0xDFFF
}

/// A code unit that opens a surrogate pair.
pub open spec fn is_high_surrogate(u: u16) -> bool {
    0xD800 <= u <= 0xDBFF
}

/// A code unit that closes a surrogate pair.
pub open spec fn is_low_surrogate(u: u16) -> bool {
    0xDC00 <= u <= 0xDFFF
}

/// The character a surrogate pair encodes.
pub open spec fn pair_char(high: u16, low: u16) -> char {
    (0x10000 + (high - 0xD800) * 0x400 + (low - 0xDC00)) as char
}

/// The code units decoded as UTF-16, as `String::from_utf16_lossy` does: a
/// high surrogate followed by a low one gives the character of the pair,
/// any other surrogate gives U+FFFD, and every other unit the character
/// with its value.
pub open spec fn utf16_lossy(units: Seq<u16>) -> Seq<char>
    decreases units.len(),
{
    if units.len() == 0 {
        seq![]
    } else if units.len() >= 2 && is_high_surrogate(units[0]) && is_low_surrogate(units[1]) {
        seq![pair_char(units[0], units[1])] + utf16_lossy(units.subrange(2, units.len() as int))
    } else if is_surrogate(units[0]) {
        seq!['\u{FFFD}'] + utf16_lossy(units.drop_first())
    } else {
        seq![units[0] as char] + utf16_lossy(units.drop_first())
    }
}

/// Calls `String::from_utf8_lossy`. Its documentation gives the result for
/// valid UTF-8 input: the text the bytes encode. For other input the result
/// is only named.
#[verifier::external_body]
pub(crate) fn lossy_utf8(bytes: &[u8]) -> (r: String)
    ensures
        r@ == utf8_lossy(bytes@),
        valid_utf8(bytes@) ==> r@ == decode_utf8(bytes@),
{
    String::from_utf8_lossy(bytes).into_owned()
}

/// No code unit is half of a surrogate pair.
pub open spec fn no_surrogates(units: Seq<u16>) -> bool {
    forall|i: int| 0 <= i < units.len() ==> !is_surrogate(#[trigger] units[i])
}

/// The characters whose values are the code units, one for one.
pub open spec fn units_text(units: Seq<u16>) -> Seq<char> {
    Seq::new(units.len(), |i: int| units[i] as char)
}

/// Without surrogates, each unit decodes to the character with its value.
proof fn lemma_utf16_without_surrogates(units: Seq<u16>)
    requires
        no_surrogates(units),
    ensures
        utf16_lossy(units) == units_text(units),
    decreases units.len(),
{
    if units.len() > 0 {
        let rest = units.drop_first();
        assert(!is_surrogate(units[0]));
        assert(no_surrogates(rest)) by {
            assert forall|i: int| 0 <= i < rest.len() implies !is_surrogate(#[trigger] rest[i]) by {
                assert(rest[i] == units[i + 1]);
            }
        }
        lemma_utf16_without_surrogates(rest);
        assert(units_text(units) =~= seq![units[0] as char] + units_text(rest));
    } else {
        assert(units_text(units) =~= Seq::<char>::empty());
    }
}

/// Calls `String::from_utf16_lossy`, which decodes the units as UTF-16 and
/// replaces each unpaired surrogate with U+FFFD (see [`utf16_lossy`]).
#[verifier::external_body]
fn lossy_utf16(units: &[u16]) -> (r: String)
    ensures
        r@ == utf16_lossy(units@),
{
    String::from_utf16_lossy(units)
}

/// Calls `std::str::from_utf8`, which succeeds exactly on valid UTF-8 and
/// then returns the text the bytes encode.
#[verifier::external_body]
fn utf8_text(bytes: &[u8]) -> (r: Option<&str>)
    ensures
        r is Some <==> valid_utf8(bytes@),
        r matches Some(s) ==> s@ == decode_utf8(bytes@),
{
    std::str::from_utf8(bytes).ok()
}

/// The 16-bit units of `bytes` read in pairs, little-endian; a trailing odd
/// byte is dropped.
pub open spec fn le_units(bytes: Seq<u8>) -> Seq<u16> {
    Seq::new(
        (bytes.len() / 2) as nat,
        |i: int| (bytes[2 * i] as int + 256 * bytes[2 * i + 1] as int) as u16,
    )
}

/// The 16-bit units of `bytes` read in pairs, big-endian; a trailing odd
/// byte is dropped.
pub open spec fn be_units(bytes: Seq<u8>) -> Seq<u16> {
    Seq::new(
        (bytes.len() / 2) as nat,
        |i: int| (256 * bytes[2 * i] as int + bytes[2 * i + 1] as int) as u16,
    )
}

fn utf16_units(bytes: &[u8], little_endian: bool) -> (r: Vec<u16>)
    ensures
        r@ == (if little_endian { le_units(bytes@) } else { be_units(bytes@) }),
{
    let mut units: Vec<u16> = Vec::new();
    let blen = bytes.len();
    let n = blen / 2;
    let mut i: usize = 0;
    while i < n
        invariant
            blen == bytes@.len(),
            n == bytes@.len() / 2,
            i <= n,
            units@ == (if little_endian { le_units(bytes@) } else { be_units(bytes@) }).subrange(0, i as int),
        decreases n - i,
    {
        let a = bytes[2 * i] as u16;
        let b = bytes[2 * i + 1] as u16;
        let unit: u16 = if little_endian { a + 256 * b } else { 256 * a + b };
        units.push(unit);
        i += 1;
    }
    assert(units@ =~= (if little_endian { le_units(bytes@) } else { be_units(bytes@) }));
    units
}

/// Decodes UTF-16 Little Endian bytes to a String.
fn decode_utf16_le(bytes: &[u8]) -> (r: String)
    ensures
        r@ == utf16_lossy(le_units(bytes@)),
        no_surrogates(le_units(bytes@)) ==> r@ == units_text(le_units(bytes@)),
{
    let units = utf16_units(bytes, true);
    proof {
        if no_surrogates(units@) {
            lemma_utf16_without_surrogates(units@);
        }
    }
    lossy_utf16(units.as_slice())
}

/// Decodes UTF-16 Big Endian bytes to a String.
fn decode_utf16_be(bytes: &[u8]) -> (r: String)
    ensures
        r@ == utf16_lossy(be_units(bytes@)),
        no_surrogates(be_units(bytes@)) ==> r@ == units_text(be_units(bytes@)),
{
    let units = utf16_units(bytes, false);
    proof {
        if no_surrogates(units@) {
            lemma_utf16_without_surrogates(units@);
        }
    }
    lossy_utf16(units.as_slice())
}

/// The smaller of `n` and `cap`.
pub open spec fn capped(n: int, cap: int) -> int {
    if n < cap {
        n
    } else {
        cap
    }
}

/// Among the first `k` byte pairs, the number whose second byte is zero and
/// first byte is not (`little_endian`), or the other way round.
pub open spec fn zero_half_pairs(bytes: Seq<u8>, k: int, little_endian: bool) -> nat
    decreases k,
{
    if k <= 0 {
        0
    } else {
        let lo = bytes[2 * (k - 1)];
        let hi = bytes[2 * (k - 1) + 1];
        let hit = if little_endian { hi == 0 && lo != 0 } else { lo == 0 && hi != 0 };
        zero_half_pairs(bytes, k - 1, little_endian) + (if hit { 1nat } else { 0nat })
    }
}

/// More than an eighth of the first 1024 bytes (counted in whole pairs) are
/// pairs with exactly one zero byte on the side `little_endian` selects.
pub open spec fn likely_utf16(bytes: Seq<u8>, little_endian: bool) -> bool {
    let sample = capped(bytes.len() as int, 1024);
    zero_half_pairs(bytes, sample / 2, little_endian) > sample / 8
}

fn count_zero_half_pairs(bytes: &[u8], little_endian: bool) -> (r: bool)
    ensures
        r == likely_utf16(bytes@, little_endian),
{
    let sample_len = if bytes.len() < 1024 { bytes.len() } else { 1024 };
    let pairs = sample_len / 2;
    let mut null_count: usize = 0;
    let mut k: usize = 0;
    while k < pairs
        invariant
            sample_len == capped(bytes@.len() as int, 1024),
            pairs == sample_len / 2,
            k <= pairs,
            null_count == zero_half_pairs(bytes@, k as int, little_endian),
            null_count <= k,
        decreases pairs - k,
    {
        let lo = bytes[2 * k];
        let hi = bytes[2 * k + 1];
        let hit = if little_endian { hi == 0 && lo != 0 } else { lo == 0 && hi != 0 };
        if hit {
            null_count += 1;
        }
        k += 1;
    }
    null_count > sample_len / 8
}

/// Heuristic check for UTF-16 LE content without BOM.
pub fn is_likely_utf16_le(bytes: &[u8]) -> (r: bool)
    ensures
        r == likely_utf16(bytes@, true),
{
    count_zero_half_pairs(bytes, true)
}

/// Heuristic check for UTF-16 BE content without BOM.
pub fn is_likely_utf16_be(bytes: &[u8]) -> (r: bool)
    ensures
        r == likely_utf16(bytes@, false),
{
    count_zero_half_pairs(bytes, false)
}

/// A zero byte occurs among the first `cap` bytes.
pub open spec fn zero_in_prefix(bytes: Seq<u8>, cap: int) -> bool {
    exists|i: int| 0 <= i < capped(bytes.len() as int, cap) && bytes[i] == 0
}

/// What [`detect_and_decode`] reports for `bytes`: the encoding, the decoded
/// text and whether the content is binary.
///
/// Byte order marks are checked first, then zero bytes in the first 8 KiB
/// (binary), then valid UTF-8, then UTF-16 without a byte order mark, and
/// lossy UTF-8 last.
pub open spec fn decoding_of(bytes: Seq<u8>) -> (Encoding, Seq<char>, bool) {
    let n = bytes.len() as int;
    if n == 0 {
        (Encoding::Utf8, seq![], false)
    } else if n >= 2 && bytes[0] == 0xFF && bytes[1] == 0xFE {
        (Encoding::Utf16Le, utf16_lossy(le_units(bytes.subrange(2, n))), false)
    } else if n >= 2 && bytes[0] == 0xFE && bytes[1] == 0xFF {
        (Encoding::Utf16Be, utf16_lossy(be_units(bytes.subrange(2, n))), false)
    } else if n >= 3 && bytes[0] == 0xEF && bytes[1] == 0xBB && bytes[2] == 0xBF {
        (Encoding::Utf8Bom, utf8_lossy(bytes.subrange(3, n)), false)
    } else if zero_in_prefix(bytes, 8192) {
        (Encoding::Utf8, seq![], true)
    } else if valid_utf8(bytes) {
        (Encoding::Utf8, decode_utf8(bytes), false)
    } else if n >= 2 && bytes[1] == 0 && likely_utf16(bytes, true) {
        (Encoding::Utf16Le, utf16_lossy(le_units(bytes)), false)
    } else if n >= 2 && bytes[0] == 0 && likely_utf16(bytes, false) {
        (Encoding::Utf16Be, utf16_lossy(be_units(bytes)), false)
    } else {
        (Encoding::Utf8, utf8_lossy(bytes), false)
    }
}

/// Content without a byte order mark that has a zero byte among its first
/// 8 KiB is binary: no text is decoded from it, whether or not it would
/// also pass for UTF-8 or UTF-16.
pub proof fn law_zero_bytes_without_mark_are_binary(bytes: Seq<u8>)
    requires
        !starts_with_utf16_le_bom(bytes),
        !starts_with_utf16_be_bom(bytes),
        !starts_with_utf8_bom(bytes),
        zero_in_prefix(bytes, 8192),
    ensures
        decoding_of(bytes) == (Encoding::Utf8, Seq::<char>::empty(), true),
{
}

/// The bytes start with the UTF-16 little-endian byte order mark.
pub open spec fn starts_with_utf16_le_bom(bytes: Seq<u8>) -> bool {
    bytes.len() >= 2 && bytes[0] == 0xFF && bytes[1] == 0xFE
}

/// The bytes start with the UTF-16 big-endian byte order mark.
pub open spec fn starts_with_utf16_be_bom(bytes: Seq<u8>) -> bool {
    bytes.len() >= 2 && bytes[0] == 0xFE && bytes[1] == 0xFF
}

/// The bytes after a byte order mark of `mark_len` bytes.
pub open spec fn after_mark(bytes: Seq<u8>, mark_len: int) -> Seq<u8> {
    bytes.subrange(mark_len, bytes.len() as int)
}

/// The bytes start with the UTF-8 byte order mark.
pub open spec fn starts_with_utf8_bom(bytes: Seq<u8>) -> bool {
    bytes.len() >= 3 && bytes[0] == 0xEF && bytes[1] == 0xBB && bytes[2] == 0xBF
}

/// Text read back from its UTF-8 encoding is the text itself, reported as
/// UTF-8, as long as the encoding does not start with a byte order mark and
/// holds no zero byte in its first 8 KiB (which would mark it binary).
pub proof fn law_utf8_text_reads_back(text: Seq<char>)
    requires
        !starts_with_utf8_bom(encode_utf8(text)),
        !zero_in_prefix(encode_utf8(text), 8192),
    ensures
        decoding_of(encode_utf8(text)) == (Encoding::Utf8, text, false),
{
    broadcast use encode_utf8_valid_utf8, encode_utf8_decode_utf8;

    let bytes = encode_utf8(text);
    if bytes.len() > 0 {
        assert(valid_utf8(bytes));
        assert(valid_first_scalar(bytes));
        assert(bytes[0] != 0xFF && bytes[0] != 0xFE);
    } else {
        assert(text.len() == 0) by {
            if text.len() > 0 {
                assert(encode_scalar(text[0] as u32).len() > 0);
            }
        }
        assert(text =~= seq![]);
    }
}

fn has_zero_in_prefix(bytes: &[u8], cap: usize) -> (r: bool)
    ensures
        r == zero_in_prefix(bytes@, cap as int),
{
    let check_len = if bytes.len() < cap { bytes.len() } else { cap };
    let mut i: usize = 0;
    while i < check_len
        invariant
            check_len == capped(bytes@.len() as int, cap as int),
            i <= check_len,
            forall|j: int| 0 <= j < i ==> bytes@[j] != 0,
        decreases check_len - i,
    {
        if bytes[i] == 0 {
            return true;
        }
        i += 1;
    }
    false
}

fn make_result(encoding: Encoding, text: String, is_binary: bool) -> (r: EncodingResult)
    ensures
        r.encoding == encoding,
        r.text@ == text@,
        r.is_binary == is_binary,
{
    EncodingResult { encoding, text, is_binary }
}

/// Detects the encoding of raw bytes and decodes them to text.
///
/// Checks for BOM markers first, then attempts UTF-8 validation,
/// and falls back to UTF-16 detection. Returns a result indicating
/// whether the content is text or binary.
pub fn detect_and_decode(bytes: &[u8]) -> (r: EncodingResult)
    ensures
        (r.encoding, r.text@, r.is_binary) == decoding_of(bytes@),
        starts_with_utf16_le_bom(bytes@) && no_surrogates(le_units(after_mark(bytes@, 2))) ==> r.text@
            == units_text(le_units(after_mark(bytes@, 2))),
        starts_with_utf16_be_bom(bytes@) && no_surrogates(be_units(after_mark(bytes@, 2))) ==> r.text@
            == units_text(be_units(after_mark(bytes@, 2))),
        starts_with_utf8_bom(bytes@) && valid_utf8(after_mark(bytes@, 3)) ==> r.text@ == decode_utf8(
            after_mark(bytes@, 3),
        ),
{
    let n = bytes.len();
    if n == 0 {
        return make_result(Encoding::Utf8, String::new(), false);
    }
    // Byte order marks are checked before binary detection.
    if n >= 2 && bytes[0] == 0xFF && bytes[1] == 0xFE {
        let rest = slice_from(bytes, 2);
        return make_result(Encoding::Utf16Le, decode_utf16_le(rest), false);
    }
    if n >= 2 && bytes[0] == 0xFE && bytes[1] == 0xFF {
        let rest = slice_from(bytes, 2);
        return make_result(Encoding::Utf16Be, decode_utf16_be(rest), false);
    }
    if n >= 3 && bytes[0] == 0xEF && bytes[1] == 0xBB && bytes[2] == 0xBF {
        let rest = slice_from(bytes, 3);
        return make_result(Encoding::Utf8Bom, lossy_utf8(rest), false);
    }
    // Zero bytes in the first 8 KiB mean binary content.
    if has_zero_in_prefix(bytes, 8192) {
        return make_result(Encoding::Utf8, String::new(), true);
    }
    if let Some(text) = utf8_text(bytes) {
        return make_result(Encoding::Utf8, text.to_owned(), false);
    }
    // UTF-16 LE without BOM (common in Windows).
    if n >= 2 && bytes[1] == 0 && is_likely_utf16_le(bytes) {
        return make_result(Encoding::Utf16Le, decode_utf16_le(bytes), false);
    }
    // UTF-16 BE without BOM.
    if n >= 2 && bytes[0] == 0 && is_likely_utf16_be(bytes) {
        return make_result(Encoding::Utf16Be, decode_utf16_be(bytes), false);
    }
    make_result(Encoding::Utf8, lossy_utf8(bytes), false)
}

/// The bytes of `bytes` from offset `from` on.
fn slice_from(bytes: &[u8], from: usize) -> (r: &[u8])
    requires
        from <= bytes@.len(),
    ensures
        r@ == bytes@.subrange(from as int, bytes@.len() as int),
{
    let (_head, tail) = bytes.split_at(from);
    tail
}

} // verus!
