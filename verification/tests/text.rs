use objstore::decimal::{parse_unsigned, to_decimal, to_decimal_padded};
use objstore::hex::{hex_string, is_digest, to_hex};
use objstore::text::{find_nul, skip_whitespace, token_end, whitespace_width};

#[test]
fn find_nul_gives_the_first_one() {
    assert_eq!(find_nul(b"ab\0cd\0", 0), Some(2));
    assert_eq!(find_nul(b"ab\0cd\0", 2), Some(2));
    assert_eq!(find_nul(b"ab\0cd\0", 3), Some(5));
    assert_eq!(find_nul(b"ab\0cd\0", 6), None);
    assert_eq!(find_nul(b"abcd", 0), None);
    assert_eq!(find_nul(b"", 0), None);
    assert_eq!(find_nul(b"\0", 0), Some(0));
}

#[test]
fn whitespace_of_one_byte() {
    for byte in [0x09u8, 0x0a, 0x0b, 0x0c, 0x0d, 0x20] {
        assert_eq!(whitespace_width(&[byte], 0), 1);
    }
    for byte in [0x00u8, 0x08, 0x0e, 0x1f, 0x21, 0x30, 0x61, 0x7f, 0x80, 0x85, 0xa0, 0xc2, 0xff] {
        assert_eq!(whitespace_width(&[byte], 0), 0);
    }
}

#[test]
fn whitespace_of_more_bytes() {
    let spaces: Vec<char> = vec![
        '\u{85}', '\u{a0}', '\u{1680}', '\u{2000}', '\u{2001}', '\u{2002}', '\u{2003}', '\u{2004}',
        '\u{2005}', '\u{2006}', '\u{2007}', '\u{2008}', '\u{2009}', '\u{200a}', '\u{2028}',
        '\u{2029}', '\u{202f}', '\u{205f}', '\u{3000}',
    ];
    for space in spaces {
        assert!(space.is_whitespace());
        let text = format!("a{}b", space);
        assert_eq!(whitespace_width(text.as_bytes(), 0), 0);
        assert_eq!(whitespace_width(text.as_bytes(), 1), space.len_utf8());
        assert_eq!(whitespace_width(text.as_bytes(), 1 + space.len_utf8()), 0);
        assert_eq!(skip_whitespace(text.as_bytes(), 1), 1 + space.len_utf8());
        assert_eq!(token_end(text.as_bytes(), 0), 1);
    }
}

#[test]
fn whitespace_width_agrees_with_the_characters() {
    for code in 0u32..0x3100 {
        if let Some(c) = char::from_u32(code) {
            let text = format!("{}", c);
            let expected = if c.is_whitespace() { c.len_utf8() } else { 0 };
            assert_eq!(whitespace_width(text.as_bytes(), 0), expected);
        }
    }
}

#[test]
fn characters_that_are_no_whitespace() {
    let others: Vec<char> = vec!['\u{200b}', '\u{2060}', '\u{feff}', '\u{180e}', '\u{e9}', '\u{20ac}'];
    for other in others {
        let text = format!("{}", other);
        assert_eq!(whitespace_width(text.as_bytes(), 0), 0);
    }
    assert_eq!(whitespace_width(&[0xc2], 0), 0);
    assert_eq!(whitespace_width(&[0xe2, 0x80], 0), 0);
    assert_eq!(whitespace_width(b"abc", 3), 0);
    assert_eq!(whitespace_width(b"abc", 7), 0);
}

#[test]
fn skipping_whitespace_and_tokens() {
    let text = b"  \tone two\n";
    assert_eq!(skip_whitespace(text, 0), 3);
    assert_eq!(skip_whitespace(text, 3), 3);
    assert_eq!(token_end(text, 3), 6);
    assert_eq!(skip_whitespace(text, 6), 7);
    assert_eq!(token_end(text, 7), 10);
    assert_eq!(skip_whitespace(text, 10), 11);
    assert_eq!(token_end(text, 11), 11);
    assert_eq!(skip_whitespace(text, 11), 11);
    assert_eq!(token_end(text, 0), 0);
}

#[test]
fn parse_unsigned_reads_decimal_numbers() {
    assert_eq!(parse_unsigned(b"0"), Some(0));
    assert_eq!(parse_unsigned(b"7"), Some(7));
    assert_eq!(parse_unsigned(b"12"), Some(12));
    assert_eq!(parse_unsigned(b"100644"), Some(100644));
    assert_eq!(parse_unsigned(b"040000"), Some(40000));
    assert_eq!(parse_unsigned(b"+15"), Some(15));
    assert_eq!(parse_unsigned(b"-0"), Some(0));
    assert_eq!(parse_unsigned(b"-000"), Some(0));
    assert_eq!(parse_unsigned(b"18446744073709551615"), Some(u64::MAX));
    assert_eq!(parse_unsigned(b"000018446744073709551615"), Some(u64::MAX));
}

#[test]
fn parse_unsigned_refuses_the_rest() {
    assert_eq!(parse_unsigned(b""), None);
    assert_eq!(parse_unsigned(b"+"), None);
    assert_eq!(parse_unsigned(b"-"), None);
    assert_eq!(parse_unsigned(b"-1"), None);
    assert_eq!(parse_unsigned(b"--1"), None);
    assert_eq!(parse_unsigned(b"+-1"), None);
    assert_eq!(parse_unsigned(b"1+"), None);
    assert_eq!(parse_unsigned(b"1a"), None);
    assert_eq!(parse_unsigned(b"a1"), None);
    assert_eq!(parse_unsigned(b" 1"), None);
    assert_eq!(parse_unsigned(b"1 "), None);
    assert_eq!(parse_unsigned(b"1.5"), None);
    assert_eq!(parse_unsigned(b"18446744073709551616"), None);
    assert_eq!(parse_unsigned(b"184467440737095516150"), None);
    assert_eq!(parse_unsigned(b"99999999999999999999x"), None);
    assert_eq!(parse_unsigned(b"-18446744073709551616"), None);
    assert_eq!(parse_unsigned("\u{661}".as_bytes()), None);
}

#[test]
fn to_decimal_writes_without_leading_zeros() {
    assert_eq!(to_decimal(0), b"0");
    assert_eq!(to_decimal(9), b"9");
    assert_eq!(to_decimal(10), b"10");
    assert_eq!(to_decimal(12), b"12");
    assert_eq!(to_decimal(100644), b"100644");
    assert_eq!(to_decimal(u64::MAX), b"18446744073709551615");
}

#[test]
fn to_decimal_padded_fills_with_zeros() {
    assert_eq!(to_decimal_padded(100644, 6), b"100644");
    assert_eq!(to_decimal_padded(40000, 6), b"040000");
    assert_eq!(to_decimal_padded(644, 6), b"000644");
    assert_eq!(to_decimal_padded(0, 6), b"000000");
    assert_eq!(to_decimal_padded(1234567, 6), b"1234567");
    assert_eq!(to_decimal_padded(5, 0), b"5");
    assert_eq!(to_decimal_padded(5, 1), b"5");
    assert_eq!(to_decimal_padded(5, 2), b"05");
}

#[test]
fn decimal_reads_back_what_it_wrote() {
    for n in [0u64, 1, 9, 10, 99, 100, 40000, 100644, 4294967295, u64::MAX] {
        assert_eq!(parse_unsigned(&to_decimal(n)), Some(n));
        assert_eq!(parse_unsigned(&to_decimal_padded(n, 6)), Some(n));
        assert_eq!(to_decimal(n), format!("{}", n).as_bytes());
        assert_eq!(to_decimal_padded(n, 6), format!("{:06}", n).as_bytes());
    }
}

#[test]
fn hex_is_lowercase_and_high_nibble_first() {
    assert_eq!(to_hex(&[]), b"");
    assert_eq!(to_hex(&[0x00]), b"00");
    assert_eq!(to_hex(&[0x0a]), b"0a");
    assert_eq!(to_hex(&[0xa0]), b"a0");
    assert_eq!(to_hex(&[0xab, 0xcd, 0xef]), b"abcdef");
    assert_eq!(to_hex(&[0x01, 0x23, 0x45, 0x67, 0x89]), b"0123456789");
    assert_eq!(hex_string(&[0xde, 0xad, 0xbe, 0xef]), "deadbeef");
    assert_eq!(hex_string(&[0xff, 0x00, 0x9f]), "ff009f");
}

#[test]
fn hex_of_every_byte() {
    for byte in 0u8..=255 {
        assert_eq!(hex_string(&[byte]), format!("{:02x}", byte));
    }
}

#[test]
fn digest_is_forty_lowercase_hexadecimal_characters() {
    assert!(is_digest("bd9dbf5aae1a3862dd1526723246b20206e5fc37"));
    assert!(is_digest("0000000000000000000000000000000000000000"));
    assert!(is_digest("0123456789abcdef0123456789abcdef01234567"));
    assert!(!is_digest(""));
    assert!(!is_digest("bd9dbf5aae1a3862dd1526723246b20206e5fc3"));
    assert!(!is_digest("bd9dbf5aae1a3862dd1526723246b20206e5fc370"));
    assert!(!is_digest("BD9DBF5AAE1A3862DD1526723246B20206E5FC37"));
    assert!(!is_digest("bd9dbf5aae1a3862dd1526723246b20206e5fcg7"));
    assert!(!is_digest("bd9dbf5aae1a3862dd15 6723246b20206e5fc37"));
    assert!(!is_digest("bd9dbf5aae1a3862dd1526723246b20206e5fc/7"));
    assert!(!is_digest("bd9dbf5aae1a3862dd1526723246b20206e5f\u{e9}7"));
    assert!(!is_digest("\u{ff10}123456789abcdef0123456789abcdef01234567"));
}
