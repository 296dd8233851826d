//! Encoding of a script for the external interpreter: every line break is
//! normalized to CRLF, the text is converted to UTF-16LE code units, and the
//! little-endian byte-order mark `0xFF 0xFE` is prefixed.  Any valid text
//! yields a valid payload — there is no error path.

use crate::decoder::{has_utf16le_bom, raw_decoded};
use crate::text::{chars_of_str, crlf_normalized, normalize_crlf_chars};
use crate::utf16::{
    encode_utf16le, lemma_utf16le_bytes_even, lemma_utf16le_round_trip, utf16le_bytes,
};
use vstd::prelude::*;

verus! {

/// The exact byte payload handed to the interpreter for a script: the
/// little-endian byte-order mark, then the UTF-16LE code units of the script
/// with every line break normalized to CRLF.
pub open spec fn encoded_script(s: Seq<char>) -> Seq<u8> {
    seq![0xFFu8, 0xFEu8] + utf16le_bytes(crlf_normalized(s))
}

/// Serializes a script into the byte layout the interpreter requires.  The
/// payload always opens with `0xFF 0xFE` and holds an even number of bytes.
pub fn encode(script: &str) -> (r: Vec<u8>)
    ensures
        r@ == encoded_script(script@),
        r@.len() >= 2 && r@[0] == 0xFF && r@[1] == 0xFE,
        r@.len() % 2 == 0,
{
    let chars = chars_of_str(script);
    let normalized = normalize_crlf_chars(&chars);
    let mut body = encode_utf16le(&normalized);
    let mut r: Vec<u8> = Vec::new();
    r.push(0xFF);
    r.push(0xFE);
    r.append(&mut body);
    proof {
        assert(r@ =~= encoded_script(script@));
        lemma_utf16le_bytes_even(crlf_normalized(script@));
    }
    r
}

/// Encoding round trip: for every script text, the encoded payload opens with
/// the byte-order mark, and the output decoder's raw reading of the payload is
/// exactly the script with every line break normalized to CRLF.
pub proof fn lemma_encode_decode_round_trip(s: Seq<char>)
    ensures
        has_utf16le_bom(encoded_script(s)),
        raw_decoded(encoded_script(s)) == crlf_normalized(s),
{
    lemma_utf16le_round_trip(crlf_normalized(s));
    assert(encoded_script(s).skip(2) =~= utf16le_bytes(crlf_normalized(s)));
}

} // verus!
