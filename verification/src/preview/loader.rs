//! Turning the bytes of a file into preview content, with large-file
//! truncation and binary detection.
//!
//! Reading the file is left to the caller: it reads the whole file, or only
//! its first `max_size` bytes when the file is larger, and hands the bytes
//! and the file size to [`load_bytes`].
use vstd::prelude::*;

use crate::preview::encoding::{decoding_of, detect_and_decode, Encoding};
use crate::text::{concat, owned};

verus! {

/// The default maximum file size for a preview: 1 MiB.
pub open spec fn default_max_size() -> u64 {
    1048576
}

/// Configuration for file loading.
#[derive(Debug, Clone)]
pub struct LoadConfig {
    /// Maximum file size in bytes. Files larger than this are truncated.
    pub max_size: u64,
}

impl Default for LoadConfig {
    fn default() -> (r: Self)
        ensures
            r.max_size == default_max_size(),
    {
        LoadConfig { max_size: 1024 * 1024 }
    }
}

/// Result of loading a file for preview.
#[derive(Debug, Clone)]
pub struct LoadResult {
    /// The decoded text content.
    pub content: String,
    /// The detected encoding.
    pub encoding: Encoding,
    /// Whether the file was truncated due to size.
    pub truncated: bool,
    /// The original file size in bytes.
    pub original_size: u64,
    /// Whether the file is binary.
    pub is_binary: bool,
    /// Error message if loading failed.
    pub error: Option<String>,
}

/// A [`LoadResult`] with its texts taken as character sequences.
pub struct LoadModel {
    pub content: Seq<char>,
    pub encoding: Encoding,
    pub truncated: bool,
    pub original_size: u64,
    pub is_binary: bool,
    pub error: Option<Seq<char>>,
}

/// The text of an optional message.
pub open spec fn message_view(m: Option<String>) -> Option<Seq<char>> {
    match m {
        Some(s) => Some(s@),
        None => None,
    }
}

impl View for LoadResult {
    type V = LoadModel;

    open spec fn view(&self) -> LoadModel {
        LoadModel {
            content: self.content@,
            encoding: self.encoding,
            truncated: self.truncated,
            original_size: self.original_size,
            is_binary: self.is_binary,
            error: message_view(self.error),
        }
    }
}

/// The message shown in place of a binary file.
pub open spec fn binary_message() -> Seq<char> {
    "Binary file preview is not available."@
}

/// The notice appended to the content of a truncated file.
pub open spec fn truncation_notice() -> Seq<char> {
    "\n\nPreview truncated.\nOnly the first 1 MB is displayed."@
}

/// The result for a binary file of `size` bytes.
pub open spec fn binary_model(size: u64) -> LoadModel {
    LoadModel {
        content: Seq::empty(),
        encoding: Encoding::Utf8,
        truncated: false,
        original_size: size,
        is_binary: true,
        error: Some(binary_message()),
    }
}

/// The result for a file whose loading failed with `message`.
pub open spec fn error_model(message: Seq<char>, size: u64) -> LoadModel {
    LoadModel {
        content: Seq::empty(),
        encoding: Encoding::Utf8,
        truncated: false,
        original_size: size,
        is_binary: false,
        error: Some(message),
    }
}

/// The result for text that was decoded, whole or truncated.
pub open spec fn text_model(content: Seq<char>, encoding: Encoding, truncated: bool, size: u64) -> LoadModel {
    LoadModel { content, encoding, truncated, original_size: size, is_binary: false, error: None }
}

impl LoadResult {
    /// Creates a successful load result.
    pub fn success(content: String, encoding: Encoding, original_size: u64) -> (r: Self)
        ensures
            r@ == text_model(content@, encoding, false, original_size),
    {
        LoadResult { content, encoding, truncated: false, original_size, is_binary: false, error: None }
    }

    /// Creates a truncated load result.
    pub fn truncated(content: String, encoding: Encoding, original_size: u64) -> (r: Self)
        ensures
            r@ == text_model(content@, encoding, true, original_size),
    {
        LoadResult { content, encoding, truncated: true, original_size, is_binary: false, error: None }
    }

    /// Creates a binary file result.
    pub fn binary(original_size: u64) -> (r: Self)
        ensures
            r@ == binary_model(original_size),
    {
        LoadResult {
            content: String::new(),
            encoding: Encoding::Utf8,
            truncated: false,
            original_size,
            is_binary: true,
            error: Some(owned("Binary file preview is not available.")),
        }
    }

    /// Creates an error result.
    pub fn error(message: String, original_size: u64) -> (r: Self)
        ensures
            r@ == error_model(message@, original_size),
    {
        LoadResult {
            content: String::new(),
            encoding: Encoding::Utf8,
            truncated: false,
            original_size,
            is_binary: false,
            error: Some(message),
        }
    }
}

/// What loading gives for a file of `file_size` bytes whose content read
/// is `bytes` (its first `max_size` bytes when it is larger than that).
pub open spec fn loaded(bytes: Seq<u8>, file_size: u64, max_size: u64) -> LoadModel {
    let (encoding, text, is_binary) = decoding_of(bytes);
    if is_binary {
        binary_model(file_size)
    } else if file_size > max_size {
        text_model(text + truncation_notice(), encoding, true, file_size)
    } else {
        text_model(text, encoding, false, file_size)
    }
}

/// Whether a file of `file_size` bytes is read only up to the limit.
pub fn needs_truncation(file_size: u64, config: &LoadConfig) -> (r: bool)
    ensures
        r == (file_size > config.max_size),
{
    file_size > config.max_size
}

/// Builds the preview content of a file of `file_size` bytes from what was
/// read of it: binary files give the binary result, larger files than
/// `config.max_size` the truncated text followed by the truncation notice,
/// other files their whole decoded text.
pub fn load_bytes(bytes: &[u8], file_size: u64, config: &LoadConfig) -> (r: LoadResult)
    ensures
        r@ == loaded(bytes@, file_size, config.max_size),
{
    let result = detect_and_decode(bytes);
    if result.is_binary {
        LoadResult::binary(file_size)
    } else if needs_truncation(file_size, config) {
        let content = concat(
            result.text.as_str(),
            "\n\nPreview truncated.\nOnly the first 1 MB is displayed.",
        );
        LoadResult::truncated(content, result.encoding, file_size)
    } else {
        LoadResult::success(result.text, result.encoding, file_size)
    }
}

/// The result when the file's metadata cannot be read.
pub fn cannot_read(detail: &str) -> (r: LoadResult)
    ensures
        r@ == error_model("Cannot read file: "@ + detail@, 0),
{
    LoadResult::error(concat("Cannot read file: ", detail), 0)
}

/// The result when reading the content of a file of `file_size` bytes fails.
pub fn failed_to_load(detail: &str, file_size: u64) -> (r: LoadResult)
    ensures
        r@ == error_model("Failed to load file: "@ + detail@, file_size),
{
    LoadResult::error(concat("Failed to load file: ", detail), file_size)
}

} // verus!
