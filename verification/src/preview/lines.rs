//! Splitting preview text into lines.
//!
//! A line ends at a line feed, which is not part of it, nor is a carriage
//! return right before that line feed; a final line feed does not start
//! another, empty line. The lines are described on the UTF-8 bytes of the
//! text: a line feed byte is always a whole character there.
use vstd::prelude::*;

use crate::preview::highlight::byte_slice;
use crate::text::owned;
use vstd::string::StringSliceAdditionalSpecFns;
use vstd::utf8::*;

verus! {

/// `l` without a carriage return at its end.
pub open spec fn strip_cr(l: Seq<u8>) -> Seq<u8> {
    if l.len() > 0 && l.last() == 13u8 {
        l.drop_last()
    } else {
        l
    }
}

/// The lines of `b` from offset `start` on, where the bytes from `start` up
/// to `i` hold no line feed.
pub open spec fn lines_from(b: Seq<u8>, start: int, i: int) -> Seq<Seq<u8>>
    decreases b.len() - i,
{
    if !(0 <= start <= i < b.len()) {
        if 0 <= start < b.len() {
            seq![b.subrange(start, b.len() as int)]
        } else {
            seq![]
        }
    } else if b[i] == 10u8 {
        seq![strip_cr(b.subrange(start, i))] + lines_from(b, i + 1, i + 1)
    } else {
        lines_from(b, start, i + 1)
    }
}

/// The UTF-8 bytes of each line of a text whose UTF-8 bytes are `b`.
pub open spec fn line_bytes(b: Seq<u8>) -> Seq<Seq<u8>> {
    lines_from(b, 0, 0)
}

/// The UTF-8 bytes of each text in `v`.
pub open spec fn encoded_all(v: Seq<String>) -> Seq<Seq<u8>> {
    v.map_values(|s: String| encode_utf8(s@))
}

/// In valid UTF-8, the offset right after a one-byte character is a
/// character boundary.
proof fn lemma_boundary_after_ascii(b: Seq<u8>, i: int)
    requires
        valid_utf8(b),
        0 <= i < b.len(),
        b[i] < 0x80,
    ensures
        is_char_boundary(b, i + 1),
    decreases b.len(),
{
    broadcast use is_char_boundary_iff_not_is_continuation_byte;

    assert(!is_continuation_byte(b[i]));
    assert(is_char_boundary(b, i));
    let l = length_of_first_scalar(b);
    let rest = pop_first_scalar(b);
    if i == 0 {
        assert(l == 1);
        assert(is_char_boundary(rest, 0));
    } else {
        assert(valid_utf8(rest));
        assert(i - l >= 0);
        assert(rest[i - l] == b[i]);
        lemma_boundary_after_ascii(rest, i - l);
    }
}

/// An offset holding a one-byte character is a character boundary.
proof fn lemma_boundary_at_ascii(b: Seq<u8>, i: int)
    requires
        valid_utf8(b),
        0 <= i < b.len(),
        b[i] < 0x80,
    ensures
        is_char_boundary(b, i),
{
    broadcast use is_char_boundary_iff_not_is_continuation_byte;

    assert(!is_continuation_byte(b[i]));
}

/// Splits `text` into its lines.
pub fn split_lines(text: &str) -> (r: Vec<String>)
    ensures
        encoded_all(r@) == line_bytes(text.spec_bytes()),
{
    broadcast use encode_utf8_valid_utf8, is_char_boundary_start_end_of_seq;

    let bytes = text.as_bytes();
    let n = bytes.len();
    let ghost b = text.spec_bytes();
    let mut out: Vec<String> = Vec::new();
    let mut start: usize = 0;
    let mut i: usize = 0;
    while i < n
        invariant
            bytes@ == b,
            b == text.spec_bytes(),
            valid_utf8(b),
            n == b.len(),
            start <= i <= n,
            is_char_boundary(b, start as int),
            encoded_all(out@) + lines_from(b, start as int, i as int) == line_bytes(b),
        decreases n - i,
    {
        if bytes[i] == 10 {
            let mut e = i;
            if e > start && bytes[e - 1] == 13 {
                e = e - 1;
            }
            proof {
                lemma_boundary_at_ascii(b, e as int);
                lemma_boundary_after_ascii(b, i as int);
                assert(strip_cr(b.subrange(start as int, i as int)) =~= b.subrange(
                    start as int,
                    e as int,
                ));
            }
            let piece = byte_slice(text, start, e);
            let line = owned(piece);
            let ghost before = out@;
            out.push(line);
            proof {
                assert(encoded_all(out@) =~= encoded_all(before) + seq![
                    b.subrange(start as int, e as int),
                ]);
                assert(lines_from(b, start as int, i as int) == seq![
                    strip_cr(b.subrange(start as int, i as int)),
                ] + lines_from(b, i + 1, i + 1));
                assert(encoded_all(out@) + lines_from(b, i + 1, i + 1) =~= encoded_all(before)
                    + lines_from(b, start as int, i as int));
            }
            start = i + 1;
        }
        i += 1;
    }
    if start < n {
        let piece = byte_slice(text, start, n);
        let line = owned(piece);
        let ghost before = out@;
        out.push(line);
        proof {
            assert(encoded_all(out@) =~= encoded_all(before) + seq![
                b.subrange(start as int, n as int),
            ]);
        }
    } else {
        assert(encoded_all(out@) =~= encoded_all(out@) + lines_from(b, start as int, i as int));
    }
    out
}

} // verus!
