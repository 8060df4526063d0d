use glintindex_core::preview::encoding::{detect_and_decode, is_likely_utf16_be, is_likely_utf16_le};
use glintindex_core::preview::Encoding;

#[test]
fn detect_utf8() {
    let text = "Hello, world!";
    let result = detect_and_decode(text.as_bytes());
    assert_eq!(result.encoding, Encoding::Utf8);
    assert_eq!(result.text, text);
    assert!(!result.is_binary);
}

#[test]
fn detect_utf8_bom() {
    let mut bytes = vec![0xEF, 0xBB, 0xBF];
    bytes.extend_from_slice("Hello".as_bytes());
    let result = detect_and_decode(&bytes);
    assert_eq!(result.encoding, Encoding::Utf8Bom);
    assert_eq!(result.text, "Hello");
}

#[test]
fn detect_utf16_le_bom() {
    let text = "Hello";
    let mut bytes = vec![0xFF, 0xFE];
    for c in text.encode_utf16() {
        bytes.extend_from_slice(&c.to_le_bytes());
    }
    let result = detect_and_decode(&bytes);
    assert_eq!(result.encoding, Encoding::Utf16Le);
    assert_eq!(result.text, text);
}

#[test]
fn detect_utf16_be_bom() {
    let text = "Hello";
    let mut bytes = vec![0xFE, 0xFF];
    for c in text.encode_utf16() {
        bytes.extend_from_slice(&c.to_be_bytes());
    }
    let result = detect_and_decode(&bytes);
    assert_eq!(result.encoding, Encoding::Utf16Be);
    assert_eq!(result.text, text);
}

#[test]
fn detect_binary() {
    let bytes = vec![0x00, 0x01, 0x02, 0x03];
    let result = detect_and_decode(&bytes);
    assert!(result.is_binary);
}

#[test]
fn detect_empty() {
    let result = detect_and_decode(&[]);
    assert_eq!(result.encoding, Encoding::Utf8);
    assert!(result.text.is_empty());
    assert!(!result.is_binary);
}

#[test]
fn utf16_le_heuristic() {
    let bytes = vec![0x48, 0x00, 0x69, 0x00];
    assert!(is_likely_utf16_le(&bytes));
}

#[test]
fn utf16_be_heuristic() {
    let bytes = vec![0x00, 0x48, 0x00, 0x69];
    assert!(is_likely_utf16_be(&bytes));
}

#[test]
fn bom_text_after_utf16_le_bom_with_odd_length_keeps_whole_units() {
    // The trailing odd byte of a UTF-16 body is dropped.
    let bytes = vec![0xFF, 0xFE, b'A', 0x00, b'B'];
    let result = detect_and_decode(&bytes);
    assert_eq!(result.encoding, Encoding::Utf16Le);
    assert_eq!(result.text, "A");
    assert!(!result.is_binary);
}

#[test]
fn bomless_utf16_counts_as_binary() {
    // Text without a byte order mark that has zero bytes in its first
    // 8 KiB is binary, even when it looks like UTF-16.
    let bytes = vec![0x48, 0x00, 0x69, 0x00];
    let result = detect_and_decode(&bytes);
    assert!(result.is_binary);
    assert_eq!(result.encoding, Encoding::Utf8);
    assert!(result.text.is_empty());
}

#[test]
fn invalid_utf8_is_decoded_lossily() {
    let bytes = vec![b'h', 0xFF, b'i'];
    let result = detect_and_decode(&bytes);
    assert_eq!(result.encoding, Encoding::Utf8);
    assert_eq!(result.text, "h\u{FFFD}i");
    assert!(!result.is_binary);
}

#[test]
fn utf8_bom_with_invalid_bytes_is_decoded_lossily() {
    let bytes = vec![0xEF, 0xBB, 0xBF, b'o', 0xC3, b'k'];
    let result = detect_and_decode(&bytes);
    assert_eq!(result.encoding, Encoding::Utf8Bom);
    assert_eq!(result.text, "o\u{FFFD}k");
}

#[test]
fn zero_byte_after_the_sample_is_not_binary() {
    let mut bytes = vec![b'a'; 8192];
    bytes.push(0);
    let result = detect_and_decode(&bytes);
    assert!(!result.is_binary);
    assert_eq!(result.text.len(), 8193);
}

#[test]
fn utf16_heuristics_reject_plain_text() {
    let bytes = b"plain text".to_vec();
    assert!(!is_likely_utf16_le(&bytes));
    assert!(!is_likely_utf16_be(&bytes));
    assert!(!is_likely_utf16_le(&[]));
}

#[test]
fn utf16_surrogate_pairs_combine_and_lone_surrogates_are_replaced() {
    let le = vec![0xFF, 0xFE, 0x3D, 0xD8, 0x00, 0xDE, 0x61, 0x00, 0x00, 0xDC, 0x3D, 0xD8, 0x62, 0x00];
    let result = detect_and_decode(&le);
    assert_eq!(result.encoding, Encoding::Utf16Le);
    assert_eq!(result.text, "\u{1F600}a\u{FFFD}\u{FFFD}b");
    let be = vec![0xFE, 0xFF, 0xD8, 0x3D, 0xDE, 0x00, 0x00, 0x61];
    let result = detect_and_decode(&be);
    assert_eq!(result.encoding, Encoding::Utf16Be);
    assert_eq!(result.text, "\u{1F600}a");
}
