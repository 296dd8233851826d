//! UTF-16 little-endian encoding and decoding of character sequences.
//!
//! The encoder turns characters into little-endian code-unit bytes, with a
//! surrogate pair for every character beyond the basic multilingual plane.
//! The decoder inverts this and substitutes the replacement character for
//! malformed input: a trailing lone byte, an unpaired surrogate.

use vstd::arithmetic::div_mod::lemma_fundamental_div_mod;
use vstd::prelude::*;
use vstd::utf8::{char_is_scalar, char_u32_cast};

verus! {

/// The Unicode replacement character, substituted for malformed input.
pub open spec fn replacement() -> char {
    '\u{FFFD}'
}

/// A UTF-16 code unit in the high-surrogate range.
pub open spec fn is_high_surrogate(u: u16) -> bool {
    0xD800 <= u && u < 0xDC00
}

/// A UTF-16 code unit in the low-surrogate range.
pub open spec fn is_low_surrogate(u: u16) -> bool {
    0xDC00 <= u && u < 0xE000
}

/// The code unit read from two little-endian bytes.
pub open spec fn unit_of(lo: u8, hi: u8) -> u16 {
    (lo + 256 * hi) as u16
}

/// The scalar value denoted by a surrogate pair.
pub open spec fn combined_scalar(hi: u16, lo: u16) -> u32 {
    (0x10000 + 0x400 * (hi - 0xD800) + (lo - 0xDC00)) as u32
}

/// The little-endian bytes of one code unit.
pub open spec fn le_bytes_of(u: u16) -> Seq<u8> {
    seq![(u % 256) as u8, (u / 256) as u8]
}

/// The little-endian UTF-16 bytes of one character.
pub open spec fn char_utf16le_bytes(c: char) -> Seq<u8> {
    let u = c as u32;
    if u < 0x10000 {
        le_bytes_of(u as u16)
    } else {
        le_bytes_of((0xD800 + (u - 0x10000) / 0x400) as u16) + le_bytes_of(
            (0xDC00 + (u - 0x10000) % 0x400) as u16,
        )
    }
}

/// The little-endian UTF-16 bytes of a character sequence.
pub open spec fn utf16le_bytes(s: Seq<char>) -> Seq<u8>
    decreases s.len(),
{
    if s.len() == 0 {
        Seq::empty()
    } else {
        char_utf16le_bytes(s[0]) + utf16le_bytes(s.drop_first())
    }
}

/// The characters decoded from little-endian UTF-16 bytes.  A lone trailing
/// byte and an unpaired surrogate each decode to the replacement character.
pub open spec fn utf16le_decoded(b: Seq<u8>) -> Seq<char>
    decreases b.len(),
{
    if b.len() == 0 {
        Seq::empty()
    } else if b.len() == 1 {
        seq![replacement()]
    } else {
        let u = unit_of(b[0], b[1]);
        if is_high_surrogate(u) {
            if b.len() >= 4 && is_low_surrogate(unit_of(b[2], b[3])) {
                seq![combined_scalar(u, unit_of(b[2], b[3])) as char] + utf16le_decoded(b.skip(4))
            } else {
                seq![replacement()] + utf16le_decoded(b.skip(2))
            }
        } else if is_low_surrogate(u) {
            seq![replacement()] + utf16le_decoded(b.skip(2))
        } else {
            seq![(u as u32) as char] + utf16le_decoded(b.skip(2))
        }
    }
}

/// Decoding inverts encoding for a single character at the head of a stream.
proof fn lemma_decode_one(c: char, rest: Seq<u8>)
    ensures
        utf16le_decoded(char_utf16le_bytes(c) + rest) == seq![c] + utf16le_decoded(rest),
{
    char_is_scalar(c);
    char_u32_cast(c, c as u32);
    let u = c as u32;
    let b = char_utf16le_bytes(c) + rest;
    if u < 0x10000 {
        let unit = u as u16;
        assert(b[0] == (unit % 256) as u8 && b[1] == (unit / 256) as u8);
        lemma_fundamental_div_mod(unit as int, 256);
        assert(unit_of(b[0], b[1]) == unit);
        assert(!is_high_surrogate(unit) && !is_low_surrogate(unit));
        assert(b.skip(2) =~= rest);
        assert(utf16le_decoded(b) == seq![(unit as u32) as char] + utf16le_decoded(rest));
        assert((unit as u32) as char == c);
    } else {
        let v = u - 0x10000;
        lemma_fundamental_div_mod(v, 0x400);
        let hi = (0xD800 + v / 0x400) as u16;
        let lo = (0xDC00 + v % 0x400) as u16;
        assert(0x400 * (v / 0x400) <= v);
        assert(is_high_surrogate(hi) && is_low_surrogate(lo));
        assert(b[0] == (hi % 256) as u8 && b[1] == (hi / 256) as u8);
        assert(b[2] == (lo % 256) as u8 && b[3] == (lo / 256) as u8);
        lemma_fundamental_div_mod(hi as int, 256);
        lemma_fundamental_div_mod(lo as int, 256);
        assert(unit_of(b[0], b[1]) == hi);
        assert(unit_of(b[2], b[3]) == lo);
        assert(combined_scalar(hi, lo) == u);
        assert(b.skip(4) =~= rest);
        assert(utf16le_decoded(b) == seq![(combined_scalar(hi, lo)) as char] + utf16le_decoded(
            rest,
        ));
        assert(u as char == c);
    }
}

/// Decoding inverts encoding: every character sequence comes back intact from
/// its little-endian UTF-16 bytes.
pub proof fn lemma_utf16le_round_trip(s: Seq<char>)
    ensures
        utf16le_decoded(utf16le_bytes(s)) == s,
    decreases s.len(),
{
    if s.len() == 0 {
        assert(utf16le_decoded(utf16le_bytes(s)) =~= s);
    } else {
        lemma_utf16le_round_trip(s.drop_first());
        lemma_decode_one(s[0], utf16le_bytes(s.drop_first()));
        assert(seq![s[0]] + s.drop_first() =~= s);
    }
}

/// Encoded streams hold two bytes per code unit, so their length is even.
pub proof fn lemma_utf16le_bytes_even(s: Seq<char>)
    ensures
        utf16le_bytes(s).len() % 2 == 0,
    decreases s.len(),
{
    if s.len() > 0 {
        lemma_utf16le_bytes_even(s.drop_first());
    }
}

/// Relies on `char::from_u32`: every value below 0x110000 and outside the
/// surrogate range denotes the character with that scalar value.
#[verifier::external_body]
fn char_from_scalar(u: u32) -> (c: char)
    requires
        u < 0xD800 || (0xE000 <= u && u < 0x110000),
    ensures
        c as u32 == u,
{
    char::from_u32(u).unwrap()
}

pub fn encode_utf16le(chars: &Vec<char>) -> (r: Vec<u8>)
    ensures
        r@ == utf16le_bytes(chars@),
{
    let n = chars.len();
    let mut r: Vec<u8> = Vec::new();
    let mut i: usize = 0;
    proof {
        assert(chars@.skip(0) =~= chars@);
    }
    while i < n
        invariant
            i <= n,
            n == chars@.len(),
            utf16le_bytes(chars@) == r@ + utf16le_bytes(chars@.skip(i as int)),
        decreases n - i,
    {
        let c = chars[i];
        let ghost prev = r@;
        let ghost tail = chars@.skip(i as int);
        proof {
            assert(tail[0] == chars@[i as int]);
            assert(tail.drop_first() =~= chars@.skip(i + 1));
            char_is_scalar(c);
        }
        let u = c as u32;
        if u < 0x10000 {
            r.push((u % 256) as u8);
            r.push((u / 256) as u8);
            proof {
                let unit = u as u16;
                assert((u % 256) as u8 == (unit % 256) as u8);
                assert((u / 256) as u8 == (unit / 256) as u8);
                assert(prev + (char_utf16le_bytes(c) + utf16le_bytes(chars@.skip(i + 1))) =~= r@
                    + utf16le_bytes(chars@.skip(i + 1)));
            }
        } else {
            let v = u - 0x10000;
            let hi = 0xD800 + v / 0x400;
            let lo = 0xDC00 + v % 0x400;
            proof {
                lemma_fundamental_div_mod(v as int, 0x400);
                assert(0x400 * ((v as int) / 0x400) <= v);
            }
            r.push((hi % 256) as u8);
            r.push((hi / 256) as u8);
            r.push((lo % 256) as u8);
            r.push((lo / 256) as u8);
            proof {
                let hi16 = (0xD800 + (u - 0x10000) / 0x400) as u16;
                let lo16 = (0xDC00 + (u - 0x10000) % 0x400) as u16;
                assert(hi == hi16 && lo == lo16);
                assert((hi % 256) as u8 == (hi16 % 256) as u8);
                assert((hi / 256) as u8 == (hi16 / 256) as u8);
                assert((lo % 256) as u8 == (lo16 % 256) as u8);
                assert((lo / 256) as u8 == (lo16 / 256) as u8);
                assert(prev + (char_utf16le_bytes(c) + utf16le_bytes(chars@.skip(i + 1))) =~= r@
                    + utf16le_bytes(chars@.skip(i + 1)));
            }
        }
        i += 1;
    }
    proof {
        assert(utf16le_bytes(chars@.skip(n as int)) =~= Seq::<u8>::empty());
        assert(r@ + Seq::<u8>::empty() =~= r@);
    }
    r
}

pub fn decode_utf16le_chars(b: &[u8]) -> (r: Vec<char>)
    ensures
        r@ == utf16le_decoded(b@),
{
    let n = b.len();
    let mut r: Vec<char> = Vec::new();
    let mut i: usize = 0;
    proof {
        assert(b@.skip(0) =~= b@);
    }
    while i < n
        invariant
            i <= n,
            n == b@.len(),
            utf16le_decoded(b@) == r@ + utf16le_decoded(b@.skip(i as int)),
        decreases n - i,
    {
        let ghost prev = r@;
        let ghost tail = b@.skip(i as int);
        proof {
            assert(tail[0] == b@[i as int]);
            if n - i >= 2 {
                assert(tail[1] == b@[i + 1]);
                assert(tail.skip(2) =~= b@.skip(i + 2));
            }
            if n - i >= 4 {
                assert(tail[2] == b@[i + 2]);
                assert(tail[3] == b@[i + 3]);
                assert(tail.skip(4) =~= b@.skip(i + 4));
            }
        }
        if n - i == 1 {
            r.push('\u{FFFD}');
            i = n;
            proof {
                assert(tail.len() == 1);
                assert(prev + seq![replacement()] =~= r@);
                assert(utf16le_decoded(b@.skip(n as int)) =~= Seq::<char>::empty());
                assert(r@ + Seq::<char>::empty() =~= r@);
            }
        } else {
            let u = b[i] as u16 + 256 * (b[i + 1] as u16);
            proof {
                assert(u == unit_of(tail[0], tail[1]));
            }
            if 0xD800 <= u && u < 0xDC00 {
                let mut paired = false;
                if n - i >= 4 {
                    let u2 = b[i + 2] as u16 + 256 * (b[i + 3] as u16);
                    proof {
                        assert(u2 == unit_of(tail[2], tail[3]));
                    }
                    if 0xDC00 <= u2 && u2 < 0xE000 {
                        paired = true;
                        let scalar = 0x10000 + 0x400 * (u as u32 - 0xD800) + (u2 as u32 - 0xDC00);
                        let c = char_from_scalar(scalar);
                        r.push(c);
                        i += 4;
                        proof {
                            assert(scalar == combined_scalar(u, u2));
                            char_u32_cast(c, scalar);
                            assert(c == combined_scalar(u, u2) as char);
                            assert(prev + (seq![c] + utf16le_decoded(b@.skip(i as int))) =~= r@
                                + utf16le_decoded(b@.skip(i as int)));
                        }
                    }
                }
                if !paired {
                    r.push('\u{FFFD}');
                    i += 2;
                    proof {
                        assert(prev + (seq![replacement()] + utf16le_decoded(b@.skip(i as int)))
                            =~= r@ + utf16le_decoded(b@.skip(i as int)));
                    }
                }
            } else if 0xDC00 <= u && u < 0xE000 {
                r.push('\u{FFFD}');
                i += 2;
                proof {
                    assert(prev + (seq![replacement()] + utf16le_decoded(b@.skip(i as int))) =~= r@
                        + utf16le_decoded(b@.skip(i as int)));
                }
            } else {
                let c = char_from_scalar(u as u32);
                r.push(c);
                i += 2;
                proof {
                    char_u32_cast(c, u as u32);
                    assert(c == (u as u32) as char);
                    assert(prev + (seq![c] + utf16le_decoded(b@.skip(i as int))) =~= r@
                        + utf16le_decoded(b@.skip(i as int)));
                }
            }
        }
    }
    proof {
        assert(utf16le_decoded(b@.skip(n as int)) =~= Seq::<char>::empty());
        assert(r@ + Seq::<char>::empty() =~= r@);
    }
    r
}

} // verus!
