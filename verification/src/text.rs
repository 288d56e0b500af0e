//! Byte-level text: the bytes up to a NUL terminator and whitespace-delimited tokens.

use vstd::prelude::*;
use vstd::utf8::{
    decode_utf8, encode_utf8, encode_utf8_decode_utf8, encode_utf8_valid_utf8, is_ascii_chars,
    is_ascii_chars_encode_utf8, valid_utf8,
};

verus! {

/// The NUL byte, which ends a header.
pub const NUL: u8 = 0x00;

/// ASCII space.
pub const SPACE: u8 = 0x20;

/// ASCII line feed.
pub const LINE_FEED: u8 = 0x0a;

/// ASCII `+`.
pub const PLUS: u8 = 0x2b;

/// ASCII `-`.
pub const MINUS: u8 = 0x2d;

/// ASCII `0`.
pub const DIGIT_ZERO: u8 = 0x30;

/// ASCII `9`.
pub const DIGIT_NINE: u8 = 0x39;

/// ASCII `a`.
pub const LOWER_A: u8 = 0x61;

/// ASCII `f`.
pub const LOWER_F: u8 = 0x66;

/// The number of bytes of `s` before its first NUL byte: all of them, if it holds none.
pub open spec fn until_nul(s: Seq<u8>) -> nat
    decreases s.len(),
{
    if s.len() == 0 || s[0] == NUL {
        0
    } else {
        1 + until_nul(s.drop_first())
    }
}

/// `until_nul(s)` is the least index that is the end of `s` or holds a NUL byte.
pub proof fn lemma_until_nul(s: Seq<u8>, n: int)
    requires
        0 <= n <= s.len(),
        forall|k: int| 0 <= k < n ==> s[k] != NUL,
        n == s.len() || s[n] == NUL,
    ensures
        until_nul(s) == n,
    decreases n,
{
    if n > 0 {
        let t = s.drop_first();
        assert forall|k: int| 0 <= k < n - 1 implies t[k] != NUL by {
            assert(t[k] == s[k + 1]);
        }
        lemma_until_nul(t, n - 1);
    }
}

/// The bytes before the first NUL hold no NUL, and `until_nul` stays within the sequence.
pub proof fn lemma_until_nul_bounds(s: Seq<u8>)
    ensures
        until_nul(s) <= s.len(),
        forall|k: int| 0 <= k < until_nul(s) ==> s[k] != NUL,
        until_nul(s) < s.len() ==> s[until_nul(s) as int] == NUL,
    decreases s.len(),
{
    if s.len() == 0 || s[0] == NUL {
    } else {
        let t = s.drop_first();
        lemma_until_nul_bounds(t);
        assert forall|k: int| 0 <= k < until_nul(s) implies s[k] != NUL by {
            if k > 0 {
                assert(s[k] == t[k - 1]);
            }
        }
        if until_nul(s) < s.len() {
            assert(s[until_nul(s) as int] == t[until_nul(t) as int]);
        }
    }
}

/// Finds the first NUL byte of `s` at or after `from`.
///
/// Returns the index of that byte, or `None` when no NUL byte follows.
pub fn find_nul(s: &[u8], from: usize) -> (r: Option<usize>)
    requires
        from <= s@.len(),
    ensures
        match r {
            Some(at) => from <= at < s@.len() && at - from == until_nul(s@.skip(from as int)),
            None => until_nul(s@.skip(from as int)) == s@.len() - from,
        },
{
    let ghost rest = s@.skip(from as int);
    let mut i: usize = from;
    while i < s.len()
        invariant
            from <= i <= s@.len(),
            rest == s@.skip(from as int),
            forall|k: int| 0 <= k < i - from ==> rest[k] != NUL,
        decreases s@.len() - i,
    {
        if s[i] == NUL {
            proof {
                lemma_until_nul(rest, i - from);
            }
            return Some(i);
        }
        i += 1;
    }
    proof {
        lemma_until_nul(rest, i - from);
    }
    None
}

/// Whether `b` is an ASCII whitespace character: tab, line feed, vertical tab,
/// form feed, carriage return or space.
pub open spec fn is_ascii_space(b: u8) -> bool {
    (0x09 <= b && b <= 0x0d) || b == SPACE
}

/// Whether `a b` is the UTF-8 encoding of U+0085 (next line) or U+00A0 (no-break space).
pub open spec fn is_two_byte_space(a: u8, b: u8) -> bool {
    a == 0xc2 && (b == 0x85 || b == 0xa0)
}

/// Whether `a b c` is the UTF-8 encoding of a three-byte whitespace character:
/// U+1680, U+2000 to U+200A, U+2028, U+2029, U+202F, U+205F or U+3000.
pub open spec fn is_three_byte_space(a: u8, b: u8, c: u8) -> bool {
    ||| a == 0xe1 && b == 0x9a && c == 0x80
    ||| a == 0xe2 && b == 0x80 && ((0x80 <= c && c <= 0x8a) || c == 0xa8 || c == 0xa9 || c == 0xaf)
    ||| a == 0xe2 && b == 0x81 && c == 0x9f
    ||| a == 0xe3 && b == 0x80 && c == 0x80
}

/// The length in bytes of the whitespace character (Unicode property `White_Space`)
/// whose UTF-8 encoding starts at index `i` of `s`; 0 when none starts there.
pub open spec fn space_width(s: Seq<u8>, i: int) -> int {
    if !(0 <= i < s.len()) {
        0
    } else if is_ascii_space(s[i]) {
        1
    } else if i + 1 < s.len() && is_two_byte_space(s[i], s[i + 1]) {
        2
    } else if i + 2 < s.len() && is_three_byte_space(s[i], s[i + 1], s[i + 2]) {
        3
    } else {
        0
    }
}

/// The first index at or after `i` where no whitespace character starts.
pub open spec fn skip_spaces(s: Seq<u8>, i: int) -> int
    decreases s.len() - i,
{
    if space_width(s, i) > 0 {
        skip_spaces(s, i + space_width(s, i))
    } else {
        i
    }
}

/// The first index at or after `i` that is the end of `s` or the start of a
/// whitespace character.
pub open spec fn skip_token(s: Seq<u8>, i: int) -> int
    decreases s.len() - i,
{
    if 0 <= i < s.len() && space_width(s, i) == 0 {
        skip_token(s, i + 1)
    } else {
        i
    }
}

/// The bounds `(start, end)` of the first token at or after `i`: the longest run
/// of bytes free of whitespace that follows the whitespace at `i`. Where `s`
/// holds no further token, `start == end`.
pub open spec fn next_token(s: Seq<u8>, i: int) -> (int, int) {
    let start = skip_spaces(s, i);
    (start, skip_token(s, start))
}

/// The two tokens of `s`, if it consists of exactly two whitespace-delimited tokens.
pub open spec fn two_tokens(s: Seq<u8>) -> Option<(Seq<u8>, Seq<u8>)> {
    let (a, b) = next_token(s, 0);
    let (c, d) = next_token(s, b);
    if a < b && c < d && skip_spaces(s, d) == s.len() {
        Some((s.subrange(a, b), s.subrange(c, d)))
    } else {
        None
    }
}

/// The first token of `s` and, verbatim, all that follows the whitespace after
/// it; `None` unless both are non-empty.
pub open spec fn token_and_rest(s: Seq<u8>) -> Option<(Seq<u8>, Seq<u8>)> {
    let (a, b) = next_token(s, 0);
    let c = skip_spaces(s, b);
    if a < b && c < s.len() {
        Some((s.subrange(a, b), s.subrange(c, s.len() as int)))
    } else {
        None
    }
}

/// Whether `b` is an ASCII byte other than whitespace. No whitespace character
/// starts with such a byte.
pub open spec fn is_plain_byte(b: u8) -> bool {
    b < 0x80 && !is_ascii_space(b)
}

/// Where no whitespace character starts, `skip_spaces` stays.
pub proof fn lemma_skip_spaces_stays(s: Seq<u8>, i: int)
    requires
        space_width(s, i) == 0,
    ensures
        skip_spaces(s, i) == i,
{
}

/// One ASCII whitespace byte before a byte where no whitespace starts is
/// skipped, and no more.
pub proof fn lemma_skip_one_space(s: Seq<u8>, i: int)
    requires
        0 <= i < s.len(),
        is_ascii_space(s[i]),
        space_width(s, i + 1) == 0,
    ensures
        skip_spaces(s, i) == i + 1,
{
    assert(space_width(s, i) == 1);
    assert(skip_spaces(s, i) == skip_spaces(s, i + 1));
}

/// A run of bytes at none of which whitespace starts is one token, up to the
/// end of the sequence or to the whitespace that follows it.
pub proof fn lemma_skip_token_run(s: Seq<u8>, i: int, j: int)
    requires
        0 <= i <= j <= s.len(),
        forall|k: int| i <= k < j ==> space_width(s, k) == 0,
        j == s.len() || space_width(s, j) > 0,
    ensures
        skip_token(s, i) == j,
    decreases j - i,
{
    if i < j {
        lemma_skip_token_run(s, i + 1, j);
    }
}

/// Whether whitespace starts at an index depends on the bytes from there on alone.
pub proof fn lemma_space_width_of_suffix(s: Seq<u8>, i: int, k: int)
    requires
        0 <= i <= s.len(),
        0 <= k,
    ensures
        space_width(s, i + k) == space_width(s.skip(i), k),
{
    let t = s.skip(i);
    if k < t.len() {
        assert(t[k] == s[i + k]);
        if k + 1 < t.len() {
            assert(t[k + 1] == s[i + k + 1]);
        }
        if k + 2 < t.len() {
            assert(t[k + 2] == s[i + k + 2]);
        }
    }
}

/// The width of the whitespace character that starts at index `i`, 0 if none does.
pub fn whitespace_width(s: &[u8], i: usize) -> (w: usize)
    ensures
        w == space_width(s@, i as int),
        i < s@.len() ==> i + w <= s@.len(),
{
    let n: usize = s.len();
    if i >= n {
        return 0;
    }
    let a: u8 = s[i];
    if (0x09 <= a && a <= 0x0d) || a == SPACE {
        return 1;
    }
    if n - i >= 2 {
        let b: u8 = s[i + 1];
        if a == 0xc2 && (b == 0x85 || b == 0xa0) {
            return 2;
        }
        if n - i >= 3 {
            let c: u8 = s[i + 2];
            if (a == 0xe1 && b == 0x9a && c == 0x80) || (a == 0xe2 && b == 0x80 && ((0x80 <= c
                && c <= 0x8a) || c == 0xa8 || c == 0xa9 || c == 0xaf)) || (a == 0xe2 && b == 0x81
                && c == 0x9f) || (a == 0xe3 && b == 0x80 && c == 0x80) {
                return 3;
            }
        }
    }
    0
}

/// Skips the whitespace that starts at index `i`.
pub fn skip_whitespace(s: &[u8], i: usize) -> (r: usize)
    requires
        i <= s@.len(),
    ensures
        r == skip_spaces(s@, i as int),
        i <= r <= s@.len(),
{
    let n: usize = s.len();
    let mut at: usize = i;
    loop
        invariant
            n == s@.len(),
            i <= at <= s@.len(),
            skip_spaces(s@, at as int) == skip_spaces(s@, i as int),
        ensures
            i <= at <= s@.len(),
            at == skip_spaces(s@, i as int),
        decreases s@.len() - at,
    {
        let w: usize = whitespace_width(s, at);
        if w == 0 {
            break;
        }
        at += w;
    }
    at
}

/// Finds the end of the token that starts at index `i`.
pub fn token_end(s: &[u8], i: usize) -> (r: usize)
    requires
        i <= s@.len(),
    ensures
        r == skip_token(s@, i as int),
        i <= r <= s@.len(),
{
    let mut at: usize = i;
    while at < s.len() && whitespace_width(s, at) == 0
        invariant
            i <= at <= s@.len(),
            skip_token(s@, at as int) == skip_token(s@, i as int),
        decreases s@.len() - at,
    {
        at += 1;
    }
    at
}

/// Whether every byte of `bytes` is an ASCII character.
pub open spec fn is_ascii_bytes(bytes: Seq<u8>) -> bool {
    forall|i: int| 0 <= i < bytes.len() ==> #[trigger] bytes[i] < 0x80
}

/// The characters of ASCII bytes, one for each byte.
pub open spec fn ascii_text(bytes: Seq<u8>) -> Seq<char> {
    Seq::new(bytes.len(), |i: int| bytes[i] as char)
}

/// ASCII bytes are valid UTF-8 and decode to one character for each byte.
pub proof fn lemma_ascii_is_utf8(bytes: Seq<u8>)
    requires
        is_ascii_bytes(bytes),
    ensures
        valid_utf8(bytes),
        decode_utf8(bytes) == ascii_text(bytes),
        encode_utf8(ascii_text(bytes)) == bytes,
{
    let chars = ascii_text(bytes);
    assert(is_ascii_chars(chars)) by {
        assert forall|i: int| 0 <= i < chars.len() implies '\0' <= #[trigger] chars[i] <= '\u{7f}' by {
            assert(bytes[i] < 0x80);
        }
    }
    is_ascii_chars_encode_utf8(chars);
    assert(encode_utf8(chars) =~= bytes) by {
        assert forall|i: int| 0 <= i < bytes.len() implies encode_utf8(chars)[i] == bytes[i] by {
            assert(chars[i] as u8 == encode_utf8(chars)[i]);
            assert(bytes[i] < 0x80);
        }
    }
    encode_utf8_valid_utf8(chars);
    encode_utf8_decode_utf8(chars);
}

/// Calls `String::from_utf8`.
///
/// Trusted: the conversion succeeds exactly on valid UTF-8, and the string
/// then holds the characters that the bytes encode.
#[verifier::external_body]
pub(crate) fn string_from_utf8(bytes: Vec<u8>) -> (r: Option<String>)
    ensures
        r is Some <==> valid_utf8(bytes@),
        r matches Some(s) ==> s@ == decode_utf8(bytes@),
{
    match String::from_utf8(bytes) {
        Ok(s) => Some(s),
        Err(_) => None,
    }
}

} // verus!
