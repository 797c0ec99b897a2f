//! Byte-capped text-file reading: decoding and truncation accounting.

use vstd::prelude::*;

verus! {

/// Contents of a text file as returned to the user interface.
#[derive(Debug)]
pub struct TextFileContent {
    pub content: String,
    pub truncated: bool,
    pub encoding: String,
    /// Full size of the file on disk, in bytes, even when `content` was cut.
    pub size: u64,
}

/// Byte cap applied when the caller gives none: 4 MiB.
pub const DEFAULT_MAX_BYTES: u64 = 4194304;

/// What decoding the given bytes as UTF-8 with byte-order-mark sniffing
/// yields: the decoded characters, the name of the encoding actually used,
/// and whether malformed sequences were replaced. A function of the bytes
/// alone.
pub uninterp spec fn utf8_sniff_decode(bytes: Seq<u8>) -> (Seq<char>, Seq<char>, bool);

/// Relies on `encoding_rs::Encoding::decode` on `encoding_rs::UTF_8`
/// (and on `Encoding::name` for the name of the encoding it chose):
/// the result depends on the bytes alone, and empty input decodes to
/// the empty string.
#[verifier::external_body]
fn decode_utf8(bytes: &Vec<u8>) -> (r: (String, String, bool))
    ensures
        (r.0@, r.1@, r.2) == utf8_sniff_decode(bytes@),
        bytes@.len() == 0 ==> r.0@.len() == 0,
{
    let (content, encoding, had_errors) = encoding_rs::UTF_8.decode(bytes);
    (content.into_owned(), encoding.name().to_string(), had_errors)
}

/// How many bytes of a file of size `file_size` a read capped at
/// `max_bytes` takes: the whole file, or the cap where the file is larger.
pub fn read_budget(file_size: u64, max_bytes: u64) -> (r: u64)
    ensures
        r == if file_size <= max_bytes {
            file_size
        } else {
            max_bytes
        },
{
    if file_size <= max_bytes {
        file_size
    } else {
        max_bytes
    }
}

/// The byte cap a caller asked for, or the default where it gave none.
pub fn effective_cap(max_bytes: Option<u64>) -> (r: u64)
    ensures
        r == match max_bytes {
            Some(m) => m,
            None => DEFAULT_MAX_BYTES,
        },
{
    match max_bytes {
        Some(m) => m,
        None => DEFAULT_MAX_BYTES,
    }
}

/// Assembles what a capped text read returns: the decoded bytes, the
/// encoding used, whether the file is larger than the cap, and the file's
/// full size.
pub fn assemble_text(bytes: Vec<u8>, file_size: u64, max_bytes: u64) -> (r: TextFileContent)
    ensures
        r.content@ == utf8_sniff_decode(bytes@).0,
        r.encoding@ == utf8_sniff_decode(bytes@).1,
        r.truncated == (file_size > max_bytes),
        r.size == file_size,
        bytes@.len() == 0 ==> r.content@.len() == 0,
{
    let (content, encoding, _had_errors) = decode_utf8(&bytes);
    TextFileContent { content, truncated: file_size > max_bytes, encoding, size: file_size }
}

} // verus!
