use std::io::{Read, Write};

use flate2::read::ZlibDecoder;
use flate2::write::ZlibEncoder;
use flate2::Compression;
use objstore::error::StoreError;
use objstore::kind::ObjectType;
use objstore::object::{encode_object, parse_header, Object};

const DIGEST: &str = "bd9dbf5aae1a3862dd1526723246b20206e5fc37";

fn digest() -> String {
    String::from(DIGEST)
}

fn zlib(plain: &[u8]) -> Vec<u8> {
    let mut encoder = ZlibEncoder::new(Vec::new(), Compression::default());
    encoder.write_all(plain).unwrap();
    encoder.finish().unwrap()
}

fn unzlib(stored: &[u8]) -> Vec<u8> {
    let mut plain = Vec::new();
    ZlibDecoder::new(stored).read_to_end(&mut plain).unwrap();
    plain
}

fn decode_error(plain: &[u8]) -> StoreError {
    Object::decode(digest(), Some(plain.to_vec())).unwrap_err()
}

#[test]
fn blob_digest_of_hello_world() {
    let object = Object::from_path(b"hello world\n".to_vec()).unwrap();
    assert_eq!(object.hash(), "3b18e512dba79e4c8300dd08aeb37f8e728b8dad");
    assert_eq!(object.kind(), ObjectType::Blob);
    assert_eq!(object.size(), 12);
    assert_eq!(object.payload(), b"hello world\n");
}

#[test]
fn blob_digest_of_empty_content() {
    let object = Object::from_path(Vec::new()).unwrap();
    assert_eq!(object.hash(), "e69de29bb2d1d6434b8b29ae775ad8c2e48c5391");
    assert_eq!(object.size(), 0);
    assert_eq!(object.content(None).unwrap(), "");
}

#[test]
fn blob_digest_of_test_content() {
    let object = Object::from_raw(ObjectType::Blob, b"test content\n".to_vec()).unwrap();
    assert_eq!(object.hash(), "d670460b4b4aece5915caf5c68d12f560a9fe3e4");
}

#[test]
fn blob_digest_of_text_beyond_ascii() {
    let object = Object::from_path("h\u{e9}llo".as_bytes().to_vec()).unwrap();
    assert_eq!(object.hash(), "e507eb59f765207ed66c258795260c8bedbee89c");
    assert_eq!(object.size(), 6);
    assert_eq!(object.content(None).unwrap(), "h\u{e9}llo");
}

#[test]
fn tree_digest_of_empty_payload() {
    let object = Object::from_raw(ObjectType::Tree, Vec::new()).unwrap();
    assert_eq!(object.hash(), "4b825dc642cb6eb9a060e54bf8d69288fbee4904");
    assert_eq!(object.kind(), ObjectType::Tree);
    assert_eq!(object.content(Some(false)).unwrap(), "");
}

#[test]
fn digest_is_the_same_for_the_same_content() {
    let first = Object::from_path(b"some text".to_vec()).unwrap();
    let second = Object::from_path(b"some text".to_vec()).unwrap();
    assert_eq!(first.hash(), second.hash());
}

#[test]
fn digest_differs_for_other_content_and_other_kind() {
    let first = Object::from_path(b"some text".to_vec()).unwrap();
    let second = Object::from_path(b"some text.".to_vec()).unwrap();
    let third = Object::from_raw(ObjectType::Tree, b"some text".to_vec()).unwrap();
    assert_ne!(first.hash(), second.hash());
    assert_ne!(first.hash(), third.hash());
}

#[test]
fn invalid_utf8_is_invalid_input() {
    let error = Object::from_path(vec![0x66, 0xff, 0x6f]).unwrap_err();
    assert_eq!(error, StoreError::InvalidInput);
    let error = Object::from_raw(ObjectType::Tree, vec![0xc3]).unwrap_err();
    assert_eq!(error, StoreError::InvalidInput);
}

#[test]
fn canonical_encoding_is_header_nul_payload() {
    assert_eq!(encode_object(ObjectType::Blob, b"hello world\n"), b"blob 12\0hello world\n");
    assert_eq!(encode_object(ObjectType::Tree, b""), b"tree 0\0");
    let object = Object::from_path(b"abc".to_vec()).unwrap();
    assert_eq!(object.encode(), b"blob 3\0abc");
}

#[test]
fn kind_names() {
    assert_eq!(ObjectType::Blob.name(), "blob");
    assert_eq!(ObjectType::Tree.name(), "tree");
    assert_eq!(ObjectType::from_name(b"blob"), Some(ObjectType::Blob));
    assert_eq!(ObjectType::from_name(b"tree"), Some(ObjectType::Tree));
    assert_eq!(ObjectType::from_name(b"commit"), None);
    assert_eq!(ObjectType::from_name(b"Blob"), None);
    assert_eq!(ObjectType::from_name(b"blo"), None);
    assert_eq!(ObjectType::from_name(b""), None);
}

#[test]
fn blob_round_trip_through_compression() {
    let object = Object::from_path(b"what is up, doc?".to_vec()).unwrap();
    assert_eq!(object.hash(), DIGEST);
    let loose = object.write().unwrap();
    let loaded = Object::from_hash(object.hash(), Some(loose.compressed)).unwrap();
    assert_eq!(loaded.hash(), DIGEST);
    assert_eq!(loaded.kind(), ObjectType::Blob);
    assert_eq!(loaded.size(), 16);
    assert_eq!(loaded.payload(), b"what is up, doc?");
    assert_eq!(loaded.content(None).unwrap(), "what is up, doc?");
}

#[test]
fn round_trip_of_many_payloads() {
    let payloads: Vec<&str> = vec!["", "a", "line\n", "two\nlines\n", "tab\tand space ", "\u{20ac}\u{1f600}"];
    for text in payloads {
        let object = Object::from_path(text.as_bytes().to_vec()).unwrap();
        let loose = object.write().unwrap();
        let loaded = Object::from_hash(object.hash(), Some(loose.compressed)).unwrap();
        assert_eq!(loaded.content(None).unwrap(), text);
        assert_eq!(loaded.hash(), object.hash());
    }
}

#[test]
fn written_file_is_the_compressed_encoding() {
    let object = Object::from_path(b"hello world\n".to_vec()).unwrap();
    let loose = object.write().unwrap();
    assert_ne!(loose.compressed, b"blob 12\0hello world\n");
    assert_eq!(unzlib(&loose.compressed), b"blob 12\0hello world\n");
    assert_eq!(loose.path.folder_name(), "3b");
    assert_eq!(loose.path.file_name(), "18e512dba79e4c8300dd08aeb37f8e728b8dad");
}

#[test]
fn empty_blob_is_written_under_its_digest() {
    let object = Object::from_path(Vec::new()).unwrap();
    let loose = object.write().unwrap();
    assert_eq!(loose.path.folder_name(), "e6");
    assert_eq!(loose.path.file_name(), "9de29bb2d1d6434b8b29ae775ad8c2e48c5391");
    assert_eq!(loose.path.directory(), "objects/e6");
    assert_eq!(loose.path.file(), "objects/e6/9de29bb2d1d6434b8b29ae775ad8c2e48c5391");
    assert_eq!(unzlib(&loose.compressed), b"blob 0\0");
}

#[test]
fn written_file_is_what_the_compressor_makes() {
    let payloads: Vec<&str> = vec!["", "abc", "hello world\n", "\u{20ac} and more text, more text"];
    for text in payloads {
        let object = Object::from_path(text.as_bytes().to_vec()).unwrap();
        let loose = object.write().unwrap();
        assert_eq!(loose.compressed, zlib(&object.encode()));
    }
}

#[test]
fn writing_twice_gives_the_same_file() {
    let object = Object::from_path(b"hello world\n".to_vec()).unwrap();
    let first = object.write().unwrap();
    let second = object.write().unwrap();
    assert_eq!(first.compressed, second.compressed);
    assert_eq!(first.path.file(), second.path.file());
}

#[test]
fn loose_object_of_a_failed_compression_is_an_io_error() {
    let object = Object::from_path(b"abc".to_vec()).unwrap();
    assert_eq!(object.loose_object(None).unwrap_err(), StoreError::IoError);
    let loose = object.loose_object(Some(vec![1, 2, 3])).unwrap();
    assert_eq!(loose.compressed, vec![1, 2, 3]);
    assert_eq!(loose.path.file(), "objects/f2/ba8f84ab5c1bce84a7b441cb1959cfc7093b7f");
}

#[test]
fn loads_a_file_that_another_writer_compressed() {
    let stored = zlib(b"blob 3\0abc");
    let loaded = Object::from_hash(digest(), Some(stored)).unwrap();
    assert_eq!(loaded.kind(), ObjectType::Blob);
    assert_eq!(loaded.size(), 3);
    assert_eq!(loaded.content(None).unwrap(), "abc");
}

#[test]
fn loaded_digest_is_the_one_given() {
    let stored = zlib(b"blob 3\0abc");
    let given = String::from("0123456789abcdef0123456789abcdef01234567");
    let loaded = Object::from_hash(given, Some(stored)).unwrap();
    assert_eq!(loaded.hash(), "0123456789abcdef0123456789abcdef01234567");
}

#[test]
fn missing_object_is_not_found() {
    assert_eq!(Object::from_hash(digest(), None).unwrap_err(), StoreError::NotFound);
}

#[test]
fn text_that_is_no_digest_is_not_found() {
    let stored = zlib(b"blob 3\0abc");
    let texts: Vec<&str> = vec![
        "",
        "bd",
        "bd9dbf5aae1a3862dd1526723246b20206e5fc3",
        "bd9dbf5aae1a3862dd1526723246b20206e5fc370",
        "BD9DBF5AAE1A3862DD1526723246B20206E5FC37",
        "bd9dbf5aae1a3862dd1526723246b20206e5fcg7",
        "../../../../../../../../../../etc/passwd",
        "bd9dbf5aae1a3862dd1526723246b20206e5f\u{e9}7",
    ];
    for text in texts {
        let error = Object::from_hash(String::from(text), Some(stored.clone())).unwrap_err();
        assert_eq!(error, StoreError::NotFound);
        let error = Object::decode(String::from(text), Some(b"blob 3\0abc".to_vec())).unwrap_err();
        assert_eq!(error, StoreError::NotFound);
    }
}

#[test]
fn file_that_does_not_decompress_is_a_corrupt_store() {
    let error = Object::from_hash(digest(), Some(b"blob 3\0abc".to_vec())).unwrap_err();
    assert_eq!(error, StoreError::CorruptStore);
    let error = Object::from_hash(digest(), Some(Vec::new())).unwrap_err();
    assert_eq!(error, StoreError::CorruptStore);
    let error = Object::decode(digest(), None).unwrap_err();
    assert_eq!(error, StoreError::CorruptStore);
}

#[test]
fn truncated_file_is_a_corrupt_store() {
    let mut stored = zlib(b"blob 16\0what is up, doc?");
    stored.truncate(stored.len() - 6);
    let error = Object::from_hash(digest(), Some(stored)).unwrap_err();
    assert_eq!(error, StoreError::CorruptStore);
}

#[test]
fn compressed_garbage_is_a_malformed_object() {
    let error = Object::from_hash(digest(), Some(zlib(b"no header here"))).unwrap_err();
    assert_eq!(error, StoreError::MalformedObject);
}

#[test]
fn bytes_without_nul_are_malformed() {
    assert_eq!(decode_error(b"blob 3 abc"), StoreError::MalformedObject);
    assert_eq!(decode_error(b""), StoreError::MalformedObject);
}

#[test]
fn header_without_tokens_is_malformed() {
    assert_eq!(decode_error(b"\0abc"), StoreError::MalformedObject);
    assert_eq!(decode_error(b"   \0abc"), StoreError::MalformedObject);
}

#[test]
fn header_with_one_token_is_malformed() {
    assert_eq!(decode_error(b"blob\0abc"), StoreError::MalformedObject);
    assert_eq!(decode_error(b"blob \0abc"), StoreError::MalformedObject);
    assert_eq!(decode_error(b"3\0abc"), StoreError::MalformedObject);
}

#[test]
fn header_with_three_tokens_is_malformed() {
    assert_eq!(decode_error(b"blob 3 x\0abc"), StoreError::MalformedObject);
}

#[test]
fn unknown_kind_is_malformed() {
    assert_eq!(decode_error(b"commit 3\0abc"), StoreError::MalformedObject);
    assert_eq!(decode_error(b"BLOB 3\0abc"), StoreError::MalformedObject);
}

#[test]
fn size_that_is_no_number_is_malformed() {
    assert_eq!(decode_error(b"blob x\0abc"), StoreError::MalformedObject);
    assert_eq!(decode_error(b"blob 3x\0abc"), StoreError::MalformedObject);
    assert_eq!(decode_error(b"blob 0x3\0abc"), StoreError::MalformedObject);
    assert_eq!(decode_error(b"blob +\0abc"), StoreError::MalformedObject);
    assert_eq!(decode_error(b"blob -1\0abc"), StoreError::MalformedObject);
    assert_eq!(decode_error(b"blob 3.0\0abc"), StoreError::MalformedObject);
}

#[test]
fn size_beyond_the_bytes_is_malformed() {
    assert_eq!(decode_error(b"blob 4\0abc"), StoreError::MalformedObject);
    assert_eq!(decode_error(b"blob 1\0"), StoreError::MalformedObject);
    assert_eq!(decode_error(b"blob 18446744073709551615\0abc"), StoreError::MalformedObject);
    assert_eq!(decode_error(b"blob 18446744073709551616\0abc"), StoreError::MalformedObject);
    assert_eq!(
        decode_error(b"blob 99999999999999999999999999999999\0abc"),
        StoreError::MalformedObject
    );
}

#[test]
fn payload_is_exactly_the_declared_size() {
    let object = Object::decode(digest(), Some(b"blob 2\0abc".to_vec())).unwrap();
    assert_eq!(object.size(), 2);
    assert_eq!(object.payload(), b"ab");
    assert_eq!(object.content(None).unwrap(), "ab");
    let object = Object::decode(digest(), Some(b"blob 0\0abc".to_vec())).unwrap();
    assert_eq!(object.size(), 0);
    assert_eq!(object.content(None).unwrap(), "");
}

#[test]
fn payload_may_hold_nul_bytes() {
    let object = Object::decode(digest(), Some(b"blob 3\0a\0c".to_vec())).unwrap();
    assert_eq!(object.payload(), b"a\0c");
}

#[test]
fn header_tokens_are_split_on_any_whitespace() {
    let object = Object::decode(digest(), Some(b" blob \t 3 \0abc".to_vec())).unwrap();
    assert_eq!(object.kind(), ObjectType::Blob);
    assert_eq!(object.payload(), b"abc");
    let object = Object::decode(digest(), Some("tree\u{a0}0\u{2003}\0".as_bytes().to_vec())).unwrap();
    assert_eq!(object.kind(), ObjectType::Tree);
    assert_eq!(object.size(), 0);
}

#[test]
fn size_may_carry_a_sign_and_zeros() {
    let object = Object::decode(digest(), Some(b"blob +3\0abc".to_vec())).unwrap();
    assert_eq!(object.size(), 3);
    let object = Object::decode(digest(), Some(b"blob 003\0abc".to_vec())).unwrap();
    assert_eq!(object.size(), 3);
    let object = Object::decode(digest(), Some(b"blob -0\0abc".to_vec())).unwrap();
    assert_eq!(object.size(), 0);
}

#[test]
fn parse_header_reads_kind_and_size() {
    assert_eq!(parse_header(b"blob 12"), Some((ObjectType::Blob, 12)));
    assert_eq!(parse_header(b"tree 0"), Some((ObjectType::Tree, 0)));
    assert_eq!(
        parse_header(b"blob 18446744073709551615"),
        Some((ObjectType::Blob, 18446744073709551615))
    );
    assert_eq!(parse_header(b"blob 18446744073709551616"), None);
    assert_eq!(parse_header(b"blob"), None);
    assert_eq!(parse_header(b""), None);
    assert_eq!(parse_header(b"blob 1 2"), None);
    assert_eq!(parse_header(b"blub 1"), None);
}

#[test]
fn blob_that_is_no_text_does_not_render() {
    let object = Object::decode(digest(), Some(vec![0x62, 0x6c, 0x6f, 0x62, 0x20, 0x32, 0x00, 0xff, 0xfe])).unwrap();
    assert_eq!(object.payload(), vec![0xff, 0xfe]);
    assert_eq!(object.content(None).unwrap_err(), StoreError::MalformedObject);
}

#[test]
fn name_only_is_ignored_for_a_blob() {
    let object = Object::from_path(b"abc".to_vec()).unwrap();
    assert_eq!(object.content(Some(true)).unwrap(), "abc");
    assert_eq!(object.content(Some(false)).unwrap(), "abc");
    assert_eq!(object.content(None).unwrap(), "abc");
}
