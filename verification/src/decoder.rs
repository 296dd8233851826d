//! Decoding of captured interpreter output under uncertain encodings.
//!
//! A stream that opens with the little-endian byte-order mark `0xFF 0xFE` is
//! authoritative UTF-16LE and is decoded directly — the mark cannot appear by
//! coincidence in the legacy encodings the interpreter might otherwise use.
//! Anything else goes through statistical encoding detection.  The decoded
//! text is then cleaned: embedded NULs deleted, CRLF collapsed to LF, and
//! surrounding whitespace trimmed.

use crate::text::{
    chars_of_str, collapse_crlf_chars, crlf_collapsed, string_from_chars, strip_nul_chars,
    trim_chars, trimmed, without_nuls,
};
use crate::utf16::{decode_utf16le_chars, utf16le_decoded};
use vstd::prelude::*;

verus! {

/// The bytes open with the little-endian byte-order mark `0xFF 0xFE`.
pub open spec fn has_utf16le_bom(b: Seq<u8>) -> bool {
    b.len() >= 2 && b[0] == 0xFF && b[1] == 0xFE
}

/// The text that statistical detection settles on for a byte stream without a
/// byte-order mark.  The detector is fed the whole stream at once and its best
/// guess decodes the stream with malformed sequences replaced, so the result
/// is a function of the bytes alone.
pub uninterp spec fn detected_decode_of(b: Seq<u8>) -> Seq<char>;

/// The text a raw byte stream decodes to, before cleaning: the byte-order
/// mark, when present, is authoritative and detection plays no part.
pub open spec fn raw_decoded(b: Seq<u8>) -> Seq<char> {
    if has_utf16le_bom(b) {
        utf16le_decoded(b.skip(2))
    } else {
        detected_decode_of(b)
    }
}

/// Decoded text after cleaning: embedded NULs deleted, CRLF collapsed to LF,
/// surrounding whitespace trimmed.
pub open spec fn cleaned(s: Seq<char>) -> Seq<char> {
    trimmed(crlf_collapsed(without_nuls(s)))
}

/// What `decode` returns for a raw byte stream.
pub open spec fn decoded_text(b: Seq<u8>) -> Seq<char> {
    cleaned(raw_decoded(b))
}

/// Relies on chardetng's `EncodingDetector` (`feed` of the whole stream, then
/// `guess` with no top-level domain and UTF-8 allowed) and on encoding_rs's
/// `Encoding::decode`: both are deterministic in the bytes alone, every byte
/// stream decodes to some text with malformed sequences replaced, and an
/// empty stream decodes to empty text.  The length bound keeps the decoder's
/// internal buffer-size arithmetic, at most three output bytes per input byte,
/// from overflowing `usize`.
#[verifier::external_body]
fn detect_and_decode(bytes: &[u8]) -> (r: String)
    requires
        4 * bytes@.len() <= usize::MAX as int,
    ensures
        r@ == detected_decode_of(bytes@),
        bytes@.len() == 0 ==> r@.len() == 0,
{
    let mut detector = chardetng::EncodingDetector::new();
    detector.feed(bytes, true);
    let encoding = detector.guess(None, true);
    encoding.decode(bytes).0.into_owned()
}

/// Cleans decoded text: deletes embedded NULs, collapses CRLF to LF, trims
/// surrounding whitespace.
fn clean_chars(s: &Vec<char>) -> (r: Vec<char>)
    ensures
        r@ == cleaned(s@),
{
    let stripped = strip_nul_chars(s);
    let collapsed = collapse_crlf_chars(&stripped);
    trim_chars(&collapsed)
}

/// Cleans one decoded stream: deletes embedded NULs, collapses CRLF to LF and
/// trims surrounding whitespace.
pub fn clean_output(s: String) -> (r: String)
    ensures
        r@ == cleaned(s@),
{
    let chars = chars_of_str(s.as_str());
    let cleaned_chars = clean_chars(&chars);
    string_from_chars(&cleaned_chars)
}

/// Decodes one captured byte stream to cleaned text, as a character vector.
pub(crate) fn decode_to_chars(bytes: &[u8]) -> (r: Vec<char>)
    requires
        4 * bytes@.len() <= usize::MAX as int,
    ensures
        r@ == decoded_text(bytes@),
{
    let n = bytes.len();
    let raw: Vec<char> = if n >= 2 && bytes[0] == 0xFF && bytes[1] == 0xFE {
        let rest = bytes.split_at(2).1;
        proof {
            assert(rest@ =~= bytes@.skip(2));
        }
        decode_utf16le_chars(rest)
    } else {
        let detected = detect_and_decode(bytes);
        chars_of_str(detected.as_str())
    };
    clean_chars(&raw)
}

/// Decodes one captured byte stream to text.  The byte-order mark, when
/// present, selects UTF-16LE outright; otherwise statistical detection picks
/// the encoding.  The result is cleaned of NULs, CRLF and surrounding
/// whitespace.  Total: every byte stream that fits the machine decodes to
/// some text.
pub fn decode(bytes: &[u8]) -> (r: String)
    requires
        4 * bytes@.len() <= usize::MAX as int,
    ensures
        r@ == decoded_text(bytes@),
{
    let cleaned_chars = decode_to_chars(bytes);
    string_from_chars(&cleaned_chars)
}

/// Byte-order-mark precedence: when the stream opens with `0xFF 0xFE`, the
/// decoded text is fixed by the UTF-16LE reading of the remainder alone —
/// whatever statistical detection would say of the stream plays no part.
pub proof fn lemma_bom_precedence(b: Seq<u8>)
    requires
        has_utf16le_bom(b),
    ensures
        decoded_text(b) == cleaned(utf16le_decoded(b.skip(2))),
{
}

/// Determinism: decoding is a pure function of the bytes — equal streams
/// decode to equal text.
pub proof fn lemma_decode_deterministic(b1: Seq<u8>, b2: Seq<u8>)
    requires
        b1 == b2,
    ensures
        decoded_text(b1) == decoded_text(b2),
{
}

} // verus!
