//! Binary-content heuristic used before plain-text parsing.
use vstd::prelude::*;

verus! {

/// A control byte other than tab, newline and carriage return, or DEL.
pub open spec fn is_control_byte(b: u8) -> bool {
    (b < 0x20 && b != 0x09 && b != 0x0A && b != 0x0D) || b == 0x7F
}

/// The number of control bytes among the first `k` bytes.
pub open spec fn control_bytes(bytes: Seq<u8>, k: int) -> nat
    decreases k,
{
    if k <= 0 {
        0
    } else {
        control_bytes(bytes, k - 1) + (if is_control_byte(bytes[k - 1]) { 1nat } else { 0nat })
    }
}

/// The size of the sample the heuristic looks at: the first 512 bytes.
pub open spec fn binary_sample_len(bytes: Seq<u8>) -> int {
    if bytes.len() < 512 {
        bytes.len() as int
    } else {
        512
    }
}

/// The sample holds a zero byte, or more than a tenth of it are control bytes.
pub open spec fn looks_binary(bytes: Seq<u8>) -> bool {
    let n = binary_sample_len(bytes);
    (exists|i: int| 0 <= i < n && bytes[i] == 0) || control_bytes(bytes, n) > n / 10
}

/// Returns `true` if the first few bytes of the buffer look like binary data.
///
/// Heuristic: scans the first 512 bytes for null bytes or a high
/// density of non-printable, non-whitespace bytes. This is fast and
/// avoids reading the entire file.
pub fn is_likely_binary(content: &[u8]) -> (r: bool)
    ensures
        r == looks_binary(content@),
{
    let sample_len = if content.len() < 512 { content.len() } else { 512 };

    let mut i: usize = 0;
    while i < sample_len
        invariant
            sample_len == binary_sample_len(content@),
            i <= sample_len,
            forall|j: int| 0 <= j < i ==> content@[j] != 0,
        decreases sample_len - i,
    {
        if content[i] == 0 {
            return true;
        }
        i += 1;
    }

    let mut non_text: usize = 0;
    let mut k: usize = 0;
    while k < sample_len
        invariant
            sample_len == binary_sample_len(content@),
            k <= sample_len,
            non_text == control_bytes(content@, k as int),
            non_text <= k,
        decreases sample_len - k,
    {
        let b = content[k];
        if (b < 0x20 && b != 0x09 && b != 0x0A && b != 0x0D) || b == 0x7F {
            non_text += 1;
        }
        k += 1;
    }

    // More than 10% control characters means binary.
    let threshold = sample_len / 10;
    non_text > threshold
}

} // verus!
