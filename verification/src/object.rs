//! Objects: their canonical encoding, their digest, and how they are read back.

use crate::decimal::{decimal_digits, integer_value, parse_unsigned, to_decimal};
use crate::digest::{sha1, sha1_hash};
use crate::error::StoreError;
use crate::hex::{hex_encoding, hex_string, is_digest, is_digest_text, lemma_hex_encoding};
use crate::kind::{kind_name, kind_named, ObjectType};
use crate::path::{path_of, ObjectPath};
use crate::text::{
    ascii_text, find_nul, skip_whitespace, string_from_utf8, token_end, two_tokens, until_nul,
    NUL, SPACE,
};
use crate::tree::{format_tree_content_to_print, tree_listing};
use crate::zlib::{deflate, inflate, zlib_deflated, zlib_inflated};
use vstd::pervasive::unreached;
use vstd::prelude::*;
use vstd::slice::{slice_subrange, slice_to_vec};
use vstd::utf8::{decode_utf8, valid_utf8};

verus! {

/// The header of an object of `kind` with a payload of `size` bytes: the name of
/// the kind, a space, the size in decimal, and a NUL byte.
pub open spec fn object_header(kind: ObjectType, size: nat) -> Seq<u8> {
    kind_name(kind) + seq![SPACE] + decimal_digits(size) + seq![NUL]
}

/// The canonical encoding of an object: its header, then its payload.
pub open spec fn canonical_encoding(kind: ObjectType, payload: Seq<u8>) -> Seq<u8> {
    object_header(kind, payload.len()) + payload
}

/// The digest of an object in text form: the SHA-1 hash of its canonical
/// encoding, as 40 lowercase hexadecimal characters.
pub open spec fn object_digest(kind: ObjectType, payload: Seq<u8>) -> Seq<char> {
    ascii_text(hex_encoding(sha1_hash(canonical_encoding(kind, payload))))
}

/// The kind and the size that `header`, the bytes before the NUL, declares:
/// exactly two whitespace-delimited tokens, the name of a kind and a
/// non-negative integer.
pub open spec fn header_fields(header: Seq<u8>) -> Option<(ObjectType, nat)> {
    match two_tokens(header) {
        Some((name, size)) => match (kind_named(name), integer_value(size)) {
            (Some(kind), Some(n)) => if n >= 0 {
                Some((kind, n as nat))
            } else {
                None
            },
            _ => None,
        },
        None => None,
    }
}

/// The kind and payload that the decompressed bytes `plain` hold: the header
/// ends at the first NUL byte, and the payload is the declared number of bytes
/// after it. `None` where `plain` breaks this format.
pub open spec fn parsed_object(plain: Seq<u8>) -> Option<(ObjectType, Seq<u8>)> {
    let nul = until_nul(plain) as int;
    if nul >= plain.len() {
        None
    } else {
        match header_fields(plain.take(nul)) {
            Some((kind, size)) => if nul + 1 + size <= plain.len() {
                Some((kind, plain.subrange(nul + 1, nul + 1 + size)))
            } else {
                None
            },
            None => None,
        }
    }
}

/// What an object is, as mathematical values.
pub struct ObjectView {
    /// The digest in text form.
    pub digest: Seq<char>,
    /// The kind.
    pub kind: ObjectType,
    /// The size that the header declares.
    pub size: nat,
    /// The payload.
    pub payload: Seq<u8>,
}

/// What decoding `inflated`, the outcome of decompressing an object file,
/// gives under `digest`.
pub open spec fn decode_result(digest: Seq<char>, inflated: Option<Seq<u8>>) -> Result<
    ObjectView,
    StoreError,
> {
    if !is_digest_text(digest) {
        Err(StoreError::NotFound)
    } else {
        match inflated {
            None => Err(StoreError::CorruptStore),
            Some(plain) => match parsed_object(plain) {
                None => Err(StoreError::MalformedObject),
                Some((kind, payload)) => Ok(
                    ObjectView { digest, kind, size: payload.len(), payload },
                ),
            },
        }
    }
}

/// What loading the object of `digest` gives, where `stored` is the content of
/// its file in the store, or `None` where the store holds no such file.
pub open spec fn load_result(digest: Seq<char>, stored: Option<Seq<u8>>) -> Result<
    ObjectView,
    StoreError,
> {
    match stored {
        None => Err(StoreError::NotFound),
        Some(bytes) => decode_result(digest, zlib_inflated(bytes)),
    }
}

/// Whether `r` is the outcome `expected`, object by view.
pub open spec fn is_outcome(
    r: Result<Object, StoreError>,
    expected: Result<ObjectView, StoreError>,
) -> bool {
    match expected {
        Ok(view) => r matches Ok(object) && object@ == view,
        Err(error) => r matches Err(e) && e == error,
    }
}

/// The text that renders an object of `kind` that holds `payload`: for a blob
/// the characters that the payload encodes, for a tree its listing. `None`
/// where a blob is not valid UTF-8 or a tree is malformed.
pub open spec fn rendered_text(kind: ObjectType, payload: Seq<u8>, name_only: bool) -> Option<
    Seq<char>,
> {
    match kind {
        ObjectType::Blob => if valid_utf8(payload) {
            Some(decode_utf8(payload))
        } else {
            None
        },
        ObjectType::Tree => match tree_listing(payload, name_only) {
            Some(listing) => Some(decode_utf8(listing)),
            None => None,
        },
    }
}

/// The file of an object as the store keeps it.
#[derive(Debug)]
pub struct LooseObject {
    /// The place of the file below the root of the store.
    pub path: ObjectPath,
    /// The content of the file: a zlib stream.
    pub compressed: Vec<u8>,
}

/// An object of the store: a blob or a tree, with the digest that identifies it.
#[derive(Debug)]
pub struct Object {
    hash: String,
    content: Vec<u8>,
    size: usize,
    file_type: ObjectType,
}

impl View for Object {
    type V = ObjectView;

    closed spec fn view(&self) -> ObjectView {
        ObjectView {
            digest: self.hash@,
            kind: self.file_type,
            size: self.size as nat,
            payload: self.content@,
        }
    }
}

/// Reads the kind and the size that `header` declares.
///
/// Returns `None` where the header declares none, and where the size is above
/// `u64::MAX`.
pub fn parse_header(header: &[u8]) -> (r: Option<(ObjectType, u64)>)
    ensures
        r == match header_fields(header@) {
            Some((kind, size)) => if size <= u64::MAX {
                Some((kind, size as u64))
            } else {
                None
            },
            None => None,
        },
{
    let n: usize = header.len();
    let a: usize = skip_whitespace(header, 0);
    let b: usize = token_end(header, a);
    let c: usize = skip_whitespace(header, b);
    let d: usize = token_end(header, c);
    let e: usize = skip_whitespace(header, d);
    if a == b || c == d || e != n {
        return None;
    }
    let kind: ObjectType = match ObjectType::from_name(slice_subrange(header, a, b)) {
        Some(kind) => kind,
        None => {
            return None;
        },
    };
    match parse_unsigned(slice_subrange(header, c, d)) {
        Some(size) => Some((kind, size)),
        None => None,
    }
}

impl Object {
    /// Every object has a digest of 40 lowercase hexadecimal characters, and
    /// the size that its header declares is the length of its payload.
    #[verifier::type_invariant]
    spec fn well_formed(&self) -> bool {
        &&& is_digest_text(self.hash@)
        &&& self.size == self.content@.len()
    }

    /// The canonical encoding of this object.
    pub fn encode(&self) -> (out: Vec<u8>)
        ensures
            out@ == canonical_encoding(self@.kind, self@.payload),
    {
        encode_object(self.file_type, self.content.as_slice())
    }

    /// The digest of this object, as 40 lowercase hexadecimal characters.
    pub fn hash(&self) -> (r: String)
        ensures
            r@ == self@.digest,
            is_digest_text(r@),
    {
        proof {
            use_type_invariant(self);
        }
        self.hash.clone()
    }

    /// Builds the object of `kind` that holds `payload`, without touching the store.
    ///
    /// Fails with `InvalidInput` where `payload` is not valid UTF-8 text.
    pub fn from_raw(kind: ObjectType, payload: Vec<u8>) -> (r: Result<Object, StoreError>)
        ensures
            is_outcome(
                r,
                if valid_utf8(payload@) {
                    Ok(
                        ObjectView {
                            digest: object_digest(kind, payload@),
                            kind,
                            size: payload@.len(),
                            payload: payload@,
                        },
                    )
                } else {
                    Err(StoreError::InvalidInput)
                },
            ),
    {
        let copy: Vec<u8> = slice_to_vec(payload.as_slice());
        if string_from_utf8(copy).is_none() {
            return Err(StoreError::InvalidInput);
        }
        let encoding: Vec<u8> = encode_object(kind, payload.as_slice());
        let raw_digest: Vec<u8> = sha1(encoding.as_slice());
        let hash: String = hex_string(raw_digest.as_slice());
        proof {
            lemma_hex_encoding(raw_digest@);
        }
        let size: usize = payload.len();
        Ok(Object { hash, content: payload, size, file_type: kind })
    }

    /// Builds the blob for the content of a file, without touching the store.
    ///
    /// Fails with `InvalidInput` where `file_content` is not valid UTF-8 text.
    pub fn from_path(file_content: Vec<u8>) -> (r: Result<Object, StoreError>)
        ensures
            is_outcome(
                r,
                if valid_utf8(file_content@) {
                    Ok(
                        ObjectView {
                            digest: object_digest(ObjectType::Blob, file_content@),
                            kind: ObjectType::Blob,
                            size: file_content@.len(),
                            payload: file_content@,
                        },
                    )
                } else {
                    Err(StoreError::InvalidInput)
                },
            ),
    {
        Object::from_raw(ObjectType::Blob, file_content)
    }

    /// Decodes the object of digest `hash` from `inflated`, the outcome of
    /// decompressing its file: `None` where the file did not decompress.
    ///
    /// Fails with `NotFound` where `hash` is no digest, with `CorruptStore`
    /// where the file did not decompress, and with `MalformedObject` where the
    /// decompressed bytes break the format. The digest is taken as given: it is
    /// not held against the content.
    pub fn decode(hash: String, inflated: Option<Vec<u8>>) -> (r: Result<Object, StoreError>)
        ensures
            is_outcome(
                r,
                decode_result(
                    hash@,
                    match inflated {
                        Some(plain) => Some(plain@),
                        None => None,
                    },
                ),
            ),
    {
        if !is_digest(hash.as_str()) {
            return Err(StoreError::NotFound);
        }
        let plain: Vec<u8> = match inflated {
            Some(plain) => plain,
            None => {
                return Err(StoreError::CorruptStore);
            },
        };
        let bytes: &[u8] = plain.as_slice();
        assert(bytes@.skip(0) =~= bytes@);
        let nul: usize = match find_nul(bytes, 0) {
            Some(nul) => nul,
            None => {
                return Err(StoreError::MalformedObject);
            },
        };
        assert(bytes@.take(nul as int) =~= bytes@.subrange(0, nul as int));
        let (kind, size) = match parse_header(slice_subrange(bytes, 0, nul)) {
            Some(fields) => fields,
            None => {
                return Err(StoreError::MalformedObject);
            },
        };
        let start: usize = nul + 1;
        if size > (bytes.len() - start) as u64 {
            return Err(StoreError::MalformedObject);
        }
        let length: usize = size as usize;
        let content: Vec<u8> = slice_to_vec(slice_subrange(bytes, start, start + length));
        Ok(Object { hash, content, size: length, file_type: kind })
    }

    /// Loads the object of digest `hash`, where `stored` is the content of its
    /// file in the store, or `None` where the store holds no such file.
    ///
    /// Fails with `NotFound` where there is no file or `hash` is no digest,
    /// with `CorruptStore` where the file does not decompress, and with
    /// `MalformedObject` where the decompressed bytes break the format.
    pub fn from_hash(hash: String, stored: Option<Vec<u8>>) -> (r: Result<Object, StoreError>)
        ensures
            is_outcome(
                r,
                load_result(
                    hash@,
                    match stored {
                        Some(bytes) => Some(bytes@),
                        None => None,
                    },
                ),
            ),
    {
        match stored {
            None => Err(StoreError::NotFound),
            Some(bytes) => {
                let inflated: Option<Vec<u8>> = inflate(bytes.as_slice());
                Object::decode(hash, inflated)
            },
        }
    }

    /// Renders the content: the text of a blob, the listing of a tree.
    ///
    /// For a tree `tree_name_only` must say whether the listing holds names
    /// alone; for a blob it is ignored. Fails with `MalformedObject` where a
    /// blob is not valid UTF-8 text or an entry of a tree is malformed.
    pub fn content(&self, tree_name_only: Option<bool>) -> (r: Result<String, StoreError>)
        requires
            self@.kind == ObjectType::Tree ==> tree_name_only is Some,
        ensures
            match rendered_text(self@.kind, self@.payload, tree_name_only == Some(true)) {
                Some(text) => r matches Ok(s) && s@ == text,
                None => r matches Err(error) && error == StoreError::MalformedObject,
            },
    {
        match self.file_type {
            ObjectType::Blob => {
                let copy: Vec<u8> = slice_to_vec(self.content.as_slice());
                match string_from_utf8(copy) {
                    Some(text) => Ok(text),
                    None => Err(StoreError::MalformedObject),
                }
            },
            ObjectType::Tree => {
                let name_only: bool = match tree_name_only {
                    Some(name_only) => name_only,
                    None => false,
                };
                format_tree_content_to_print(self.content.as_slice(), name_only)
            },
        }
    }

    /// The place of this object's file in the store.
    pub fn path(&self) -> (r: ObjectPath)
        ensures
            r@ == path_of(self@.digest),
    {
        proof {
            use_type_invariant(self);
        }
        match ObjectPath::of_digest(self.hash.as_str()) {
            Some(path) => path,
            None => unreached(),
        }
    }

    /// The file of this object, given `deflated`, the outcome of compressing
    /// its canonical encoding: `None` where the compressor failed, which is
    /// reported as `IoError`.
    pub fn loose_object(&self, deflated: Option<Vec<u8>>) -> (r: Result<LooseObject, StoreError>)
        ensures
            match deflated {
                Some(bytes) => r matches Ok(loose) && loose.path@ == path_of(self@.digest)
                    && loose.compressed@ == bytes@,
                None => r matches Err(error) && error == StoreError::IoError,
            },
    {
        match deflated {
            Some(compressed) => Ok(LooseObject { path: self.path(), compressed }),
            None => Err(StoreError::IoError),
        }
    }

    /// The file that persisting this object writes: its place in the store, and
    /// its canonical encoding, compressed. Nothing is written here.
    ///
    /// Succeeds wherever the compressor does, with the bytes that it made,
    /// which decompress to the canonical encoding; fails with `IoError` where
    /// the compressor reports an error.
    pub fn write(&self) -> (r: Result<LooseObject, StoreError>)
        ensures
            match zlib_deflated(canonical_encoding(self@.kind, self@.payload)) {
                Some(bytes) => r matches Ok(loose) && loose.path@ == path_of(self@.digest)
                    && loose.compressed@ == bytes && zlib_inflated(loose.compressed@) == Some(
                    canonical_encoding(self@.kind, self@.payload),
                ),
                None => r matches Err(error) && error == StoreError::IoError,
            },
    {
        let plain: Vec<u8> = self.encode();
        let deflated: Option<Vec<u8>> = deflate(plain.as_slice());
        self.loose_object(deflated)
    }

    /// The kind of this object.
    pub fn kind(&self) -> (r: ObjectType)
        ensures
            r == self@.kind,
    {
        self.file_type
    }

    /// The size that the header of this object declares: the length of its payload.
    pub fn size(&self) -> (r: usize)
        ensures
            r == self@.size,
            r == self@.payload.len(),
    {
        proof {
            use_type_invariant(self);
        }
        self.size
    }

    /// The payload of this object.
    pub fn payload(&self) -> (r: &[u8])
        ensures
            r@ == self@.payload,
    {
        self.content.as_slice()
    }
}

/// Writes the canonical encoding of an object of `kind` that holds `payload`.
pub fn encode_object(kind: ObjectType, payload: &[u8]) -> (out: Vec<u8>)
    ensures
        out@ == canonical_encoding(kind, payload@),
{
    let mut out: Vec<u8> = slice_to_vec(kind.name().as_bytes());
    out.push(SPACE);
    let mut digits: Vec<u8> = to_decimal(payload.len() as u64);
    out.append(&mut digits);
    out.push(NUL);
    let mut content: Vec<u8> = slice_to_vec(payload);
    out.append(&mut content);
    assert(out@ =~= canonical_encoding(kind, payload@));
    out
}

} // verus!
