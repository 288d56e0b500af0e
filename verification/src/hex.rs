//! Lowercase hexadecimal rendering of raw bytes.

use crate::text::{
    ascii_text, is_ascii_bytes, lemma_ascii_is_utf8, string_from_utf8, DIGIT_NINE, DIGIT_ZERO,
    LOWER_A, LOWER_F,
};
use vstd::pervasive::unreached;
use vstd::prelude::*;
use vstd::string::is_ascii;
use vstd::string::is_ascii_spec_bytes;
use vstd::string::StringSliceAdditionalSpecFns;

verus! {

/// The ASCII byte of the lowercase hexadecimal digit for `nibble`, which is below 16.
pub open spec fn hex_digit(nibble: int) -> u8 {
    if nibble < 10 {
        (DIGIT_ZERO + nibble) as u8
    } else {
        (LOWER_A + nibble - 10) as u8
    }
}

/// Whether `b` is one of the ASCII bytes `0`-`9`, `a`-`f`.
pub open spec fn is_hex_digit(b: u8) -> bool {
    (DIGIT_ZERO <= b && b <= DIGIT_NINE) || (LOWER_A <= b && b <= LOWER_F)
}

/// Two lowercase hexadecimal digits per byte, high nibble first.
pub open spec fn hex_encoding(bytes: Seq<u8>) -> Seq<u8> {
    Seq::new(
        2 * bytes.len(),
        |i: int|
            if i % 2 == 0 {
                hex_digit(bytes[i / 2] as int / 16)
            } else {
                hex_digit(bytes[i / 2] as int % 16)
            },
    )
}

fn hex_digit_of(nibble: u8) -> (d: u8)
    requires
        nibble < 16,
    ensures
        d == hex_digit(nibble as int),
        is_hex_digit(d),
{
    if nibble < 10 {
        DIGIT_ZERO + nibble
    } else {
        LOWER_A + (nibble - 10)
    }
}

/// Renders `bytes` as lowercase hexadecimal text.
pub fn to_hex(bytes: &[u8]) -> (out: Vec<u8>)
    ensures
        out@ == hex_encoding(bytes@),
{
    let mut out: Vec<u8> = Vec::new();
    let mut i: usize = 0;
    while i < bytes.len()
        invariant
            i <= bytes@.len(),
            out@.len() == 2 * i,
            forall|k: int| 0 <= k < out@.len() ==> out@[k] == hex_encoding(bytes@)[k],
        decreases bytes@.len() - i,
    {
        let b: u8 = bytes[i];
        out.push(hex_digit_of(b / 16));
        out.push(hex_digit_of(b % 16));
        i += 1;
    }
    assert(out@ =~= hex_encoding(bytes@));
    out
}

/// The number of characters of a digest in text form.
pub const DIGEST_TEXT_LEN: usize = 40;

/// Whether `c` is one of the characters `0`-`9`, `a`-`f`.
pub open spec fn is_hex_char(c: char) -> bool {
    ('0' <= c && c <= '9') || ('a' <= c && c <= 'f')
}

/// Whether `text` is a digest in text form: 40 lowercase hexadecimal characters.
pub open spec fn is_digest_text(text: Seq<char>) -> bool {
    text.len() == DIGEST_TEXT_LEN && forall|i: int|
        0 <= i < text.len() ==> is_hex_char(#[trigger] text[i])
}

/// The hexadecimal rendering of bytes consists of hexadecimal digits, and that of
/// 20 bytes is a digest in text form.
pub proof fn lemma_hex_encoding(bytes: Seq<u8>)
    ensures
        hex_encoding(bytes).len() == 2 * bytes.len(),
        forall|i: int|
            0 <= i < hex_encoding(bytes).len() ==> is_hex_digit(#[trigger] hex_encoding(bytes)[i]),
        is_ascii_bytes(hex_encoding(bytes)),
        bytes.len() == 20 ==> is_digest_text(ascii_text(hex_encoding(bytes))),
{
    let h = hex_encoding(bytes);
    assert forall|i: int| 0 <= i < h.len() implies is_hex_digit(#[trigger] h[i]) by {
        let b = bytes[i / 2] as int;
        assert(0 <= b / 16 < 16 && 0 <= b % 16 < 16);
    }
    assert forall|i: int| 0 <= i < ascii_text(h).len() implies is_hex_char(
        #[trigger] ascii_text(h)[i],
    ) by {
        assert(is_hex_digit(h[i]));
    }
}

/// Renders `bytes` as a string of lowercase hexadecimal characters.
pub fn hex_string(bytes: &[u8]) -> (r: String)
    ensures
        r@ == ascii_text(hex_encoding(bytes@)),
{
    let digits: Vec<u8> = to_hex(bytes);
    proof {
        lemma_hex_encoding(bytes@);
        lemma_ascii_is_utf8(digits@);
    }
    match string_from_utf8(digits) {
        Some(s) => s,
        None => unreached(),
    }
}

/// Whether `text` is a digest: 40 lowercase hexadecimal characters.
pub fn is_digest(text: &str) -> (r: bool)
    ensures
        r == is_digest_text(text@),
{
    broadcast use is_ascii_spec_bytes;

    if !text.is_ascii() {
        assert(!is_digest_text(text@)) by {
            if is_digest_text(text@) {
                assert forall|i: int| 0 <= i < text@.len() implies '\0' <= #[trigger] text@[i]
                    <= '\u{7f}' by {
                    assert(is_hex_char(text@[i]));
                }
            }
        }
        return false;
    }
    let bytes: &[u8] = text.as_bytes();
    if bytes.len() != DIGEST_TEXT_LEN {
        return false;
    }
    let mut i: usize = 0;
    while i < DIGEST_TEXT_LEN
        invariant
            i <= DIGEST_TEXT_LEN,
            bytes@.len() == DIGEST_TEXT_LEN,
            text@.len() == DIGEST_TEXT_LEN,
            is_ascii(text),
            bytes@ == text.spec_bytes(),
            forall|k: int| 0 <= k < i ==> is_hex_char(#[trigger] text@[k]),
        decreases DIGEST_TEXT_LEN - i,
    {
        let b: u8 = bytes[i];
        assert(b == text@[i as int] as u8);
        if !((DIGIT_ZERO <= b && b <= DIGIT_NINE) || (LOWER_A <= b && b <= LOWER_F)) {
            assert(!is_hex_char(text@[i as int]));
            return false;
        }
        assert(is_hex_char(text@[i as int]));
        i += 1;
    }
    true
}

} // verus!
