//! Tree payloads: entry records and the listing that renders them.

use crate::decimal::{
    integer_value, is_digit, lemma_zero_padded, parse_unsigned, to_decimal_padded, zero_padded,
};
use crate::error::StoreError;
use crate::hex::{hex_encoding, lemma_hex_encoding, to_hex};
use crate::kind::{kind_name, ObjectType};
use crate::text::{
    find_nul, is_ascii_bytes, lemma_ascii_is_utf8, skip_whitespace, string_from_utf8,
    token_and_rest, token_end, until_nul, LINE_FEED, SPACE,
};
use vstd::prelude::*;
use vstd::slice::{slice_subrange, slice_to_vec};
use vstd::string::StringSliceAdditionalSpecFns;
use vstd::utf8::{
    decode_utf8, decode_utf8_encode_utf8, encode_utf8, encode_utf8_valid_utf8, valid_utf8,
    valid_utf8_concat,
};

verus! {

/// The mode of a regular file.
pub const MODE_FILE: u32 = 100644;

/// The mode of an executable file.
pub const MODE_EXECUTABLE: u32 = 100755;

/// The mode of a symbolic link.
pub const MODE_SYMLINK: u32 = 120000;

/// The mode of a subdirectory.
pub const MODE_DIRECTORY: u32 = 40000;

/// The number of digits to which a mode is padded.
pub const MODE_WIDTH: usize = 6;

/// The number of bytes of the raw digest that ends an entry.
pub const RAW_DIGEST_LEN: usize = 20;

/// The kind of object that an entry of `mode` refers to: files and links are
/// blobs, a subdirectory is a tree. `None` for an unsupported mode.
pub open spec fn mode_kind(mode: nat) -> Option<ObjectType> {
    if mode == MODE_FILE || mode == MODE_EXECUTABLE || mode == MODE_SYMLINK {
        Some(ObjectType::Blob)
    } else if mode == MODE_DIRECTORY {
        Some(ObjectType::Tree)
    } else {
        None
    }
}

/// One member of a directory, as mathematical values.
pub struct EntryView {
    /// The mode, which tells the member's kind.
    pub mode: nat,
    /// The UTF-8 bytes of the file name.
    pub name: Seq<u8>,
    /// The raw digest of the object that the entry refers to.
    pub child_digest: Seq<u8>,
}

/// The mode and the name that `header`, the bytes of an entry before its NUL,
/// declares: the first token is the mode, an integer of a supported mode, and
/// the name is all that follows the whitespace after it, taken as it stands; it
/// must be valid UTF-8.
pub open spec fn entry_fields(header: Seq<u8>) -> Option<(nat, Seq<u8>)> {
    match token_and_rest(header) {
        Some((mode, name)) => match integer_value(mode) {
            Some(m) => if m >= 0 && mode_kind(m as nat) is Some && valid_utf8(name) {
                Some((m as nat, name))
            } else {
                None
            },
            None => None,
        },
        None => None,
    }
}

/// The entry at the start of `bytes` and the number of bytes that it takes: a
/// header, a NUL byte and 20 bytes of raw digest. `None` where `bytes` starts
/// with no well-formed entry.
pub open spec fn first_entry(bytes: Seq<u8>) -> Option<(EntryView, nat)> {
    let nul = until_nul(bytes) as int;
    if nul + 1 + RAW_DIGEST_LEN > bytes.len() {
        None
    } else {
        match entry_fields(bytes.take(nul)) {
            Some((mode, name)) => Some(
                (
                    EntryView {
                        mode,
                        name,
                        child_digest: bytes.subrange(nul + 1, nul + 1 + RAW_DIGEST_LEN),
                    },
                    (nul + 1 + RAW_DIGEST_LEN) as nat,
                ),
            ),
            None => None,
        }
    }
}

/// The line of the listing for `entry`: its name alone where `name_only`,
/// else the mode padded to six digits, the kind, the digest in hexadecimal,
/// four spaces and the name. A line feed ends the line.
pub open spec fn entry_line(entry: EntryView, name_only: bool) -> Seq<u8> {
    if name_only {
        entry.name + seq![LINE_FEED]
    } else {
        zero_padded(entry.mode, MODE_WIDTH as nat) + seq![SPACE] + kind_name(
            mode_kind(entry.mode).unwrap(),
        ) + seq![SPACE] + hex_encoding(entry.child_digest) + seq![SPACE, SPACE, SPACE, SPACE]
            + entry.name + seq![LINE_FEED]
    }
}

/// The listing of a tree payload: one line for each entry, in the order in
/// which the payload holds them. `None` where any entry is malformed.
pub open spec fn tree_listing(payload: Seq<u8>, name_only: bool) -> Option<Seq<u8>>
    decreases payload.len(),
{
    if payload.len() == 0 {
        Some(Seq::empty())
    } else {
        match first_entry(payload) {
            None => None,
            Some((entry, taken)) => match tree_listing(payload.skip(taken as int), name_only) {
                None => None,
                Some(rest) => Some(entry_line(entry, name_only) + rest),
            },
        }
    }
}

/// `lines`, followed by `rest` where there is one.
pub open spec fn followed_by(lines: Seq<u8>, rest: Option<Seq<u8>>) -> Option<Seq<u8>> {
    match rest {
        Some(more) => Some(lines + more),
        None => None,
    }
}

/// One member of a directory: a record of a tree's payload.
#[derive(Debug)]
pub struct TreeEntry {
    mode: u32,
    name: String,
    child_digest: Vec<u8>,
}

impl View for TreeEntry {
    type V = EntryView;

    closed spec fn view(&self) -> EntryView {
        EntryView {
            mode: self.mode as nat,
            name: encode_utf8(self.name@),
            child_digest: self.child_digest@,
        }
    }
}

/// The line of a well-formed entry is valid UTF-8.
pub proof fn lemma_entry_line_is_utf8(entry: EntryView, name_only: bool)
    requires
        valid_utf8(entry.name),
        mode_kind(entry.mode) is Some,
    ensures
        valid_utf8(entry_line(entry, name_only)),
{
    let end = seq![LINE_FEED];
    assert(is_ascii_bytes(end));
    lemma_ascii_is_utf8(end);
    if name_only {
        valid_utf8_concat(entry.name, end);
    } else {
        let front = zero_padded(entry.mode, MODE_WIDTH as nat) + seq![SPACE] + kind_name(
            mode_kind(entry.mode).unwrap(),
        ) + seq![SPACE] + hex_encoding(entry.child_digest) + seq![SPACE, SPACE, SPACE, SPACE];
        assert(is_ascii_bytes(front)) by {
            lemma_zero_padded(entry.mode, MODE_WIDTH as nat);
            lemma_hex_encoding(entry.child_digest);
            let mode = zero_padded(entry.mode, MODE_WIDTH as nat);
            assert forall|i: int| 0 <= i < mode.len() implies #[trigger] mode[i] < 0x80 by {
                assert(is_digit(mode[i]));
            }
        }
        lemma_ascii_is_utf8(front);
        valid_utf8_concat(front, entry.name);
        valid_utf8_concat(front + entry.name, end);
        assert(entry_line(entry, name_only) =~= front + entry.name + end);
    }
}

impl TreeEntry {
    /// Every entry has a supported mode and a raw digest of 20 bytes.
    #[verifier::type_invariant]
    spec fn well_formed(&self) -> bool {
        &&& mode_kind(self.mode as nat) is Some
        &&& self.child_digest@.len() == RAW_DIGEST_LEN
    }

    /// The kind of object that a mode refers to, `None` for an unsupported mode.
    pub fn kind_of_mode(mode: u64) -> (r: Option<ObjectType>)
        ensures
            r == mode_kind(mode as nat),
    {
        if mode == MODE_FILE as u64 || mode == MODE_EXECUTABLE as u64 || mode == MODE_SYMLINK as u64 {
            Some(ObjectType::Blob)
        } else if mode == MODE_DIRECTORY as u64 {
            Some(ObjectType::Tree)
        } else {
            None
        }
    }

    /// Reads the entry at the start of `bytes`.
    ///
    /// Returns the entry and the number of bytes that it takes. Fails with
    /// `MalformedObject` where the NUL byte or the 20 bytes after it are
    /// missing, the header has fewer than two tokens, the mode is no integer or
    /// an unsupported one, or the name is not valid UTF-8.
    pub fn parse(bytes: &[u8]) -> (r: Result<(TreeEntry, usize), StoreError>)
        ensures
            match first_entry(bytes@) {
                Some((entry, taken)) => r matches Ok((e, n)) && e@ == entry && n == taken,
                None => r matches Err(error) && error == StoreError::MalformedObject,
            },
    {
        assert(bytes@.skip(0) =~= bytes@);
        let nul: usize = match find_nul(bytes, 0) {
            Some(nul) => nul,
            None => {
                return Err(StoreError::MalformedObject);
            },
        };
        if bytes.len() - nul <= RAW_DIGEST_LEN {
            return Err(StoreError::MalformedObject);
        }
        let header: &[u8] = slice_subrange(bytes, 0, nul);
        assert(header@ =~= bytes@.take(nul as int));
        let a: usize = skip_whitespace(header, 0);
        let b: usize = token_end(header, a);
        let c: usize = skip_whitespace(header, b);
        if a == b || c == nul {
            return Err(StoreError::MalformedObject);
        }
        let mode: u64 = match parse_unsigned(slice_subrange(header, a, b)) {
            Some(mode) => mode,
            None => {
                return Err(StoreError::MalformedObject);
            },
        };
        if TreeEntry::kind_of_mode(mode).is_none() {
            return Err(StoreError::MalformedObject);
        }
        let name_bytes: Vec<u8> = slice_to_vec(slice_subrange(header, c, nul));
        let ghost name_view = name_bytes@;
        let name: String = match string_from_utf8(name_bytes) {
            Some(name) => name,
            None => {
                return Err(StoreError::MalformedObject);
            },
        };
        proof {
            decode_utf8_encode_utf8(name_view);
        }
        let child_digest: Vec<u8> = slice_to_vec(
            slice_subrange(bytes, nul + 1, nul + 1 + RAW_DIGEST_LEN),
        );
        Ok((TreeEntry { mode: mode as u32, name, child_digest }, nul + 1 + RAW_DIGEST_LEN))
    }

    /// The mode of the entry.
    pub fn mode(&self) -> (r: u32)
        ensures
            r == self@.mode,
            mode_kind(r as nat) is Some,
    {
        proof {
            use_type_invariant(self);
        }
        self.mode
    }

    /// The file name of the entry.
    pub fn name(&self) -> (r: &str)
        ensures
            r.spec_bytes() == self@.name,
    {
        self.name.as_str()
    }

    /// The raw digest of the object that the entry refers to: 20 bytes.
    pub fn child_digest(&self) -> (r: &[u8])
        ensures
            r@ == self@.child_digest,
            r@.len() == RAW_DIGEST_LEN,
    {
        proof {
            use_type_invariant(self);
        }
        self.child_digest.as_slice()
    }

    /// The kind of object that the entry refers to.
    pub fn kind(&self) -> (r: ObjectType)
        ensures
            mode_kind(self@.mode) == Some(r),
    {
        proof {
            use_type_invariant(self);
        }
        match TreeEntry::kind_of_mode(self.mode as u64) {
            Some(kind) => kind,
            None => ObjectType::Blob,
        }
    }

    /// The line of the listing for this entry.
    pub fn line(&self, name_only: bool) -> (out: Vec<u8>)
        ensures
            out@ == entry_line(self@, name_only),
    {
        proof {
            use_type_invariant(self);
        }
        let mut out: Vec<u8> = Vec::new();
        if !name_only {
            let mut mode: Vec<u8> = to_decimal_padded(self.mode as u64, MODE_WIDTH);
            out.append(&mut mode);
            out.push(SPACE);
            let mut kind: Vec<u8> = slice_to_vec(self.kind().name().as_bytes());
            out.append(&mut kind);
            out.push(SPACE);
            let mut digest: Vec<u8> = to_hex(self.child_digest.as_slice());
            out.append(&mut digest);
            out.push(SPACE);
            out.push(SPACE);
            out.push(SPACE);
            out.push(SPACE);
        }
        let mut name: Vec<u8> = slice_to_vec(self.name.as_str().as_bytes());
        out.append(&mut name);
        out.push(LINE_FEED);
        assert(out@ =~= entry_line(self@, name_only));
        out
    }
}

/// Renders the listing of a tree's payload, one line for each entry in the
/// order in which the payload holds them.
///
/// Fails with `MalformedObject` where any entry is malformed; no part of a
/// listing is returned then.
pub fn format_tree_content_to_print(content: &[u8], name_only: bool) -> (r: Result<
    String,
    StoreError,
>)
    ensures
        match tree_listing(content@, name_only) {
            Some(listing) => r matches Ok(text) && valid_utf8(listing) && text@ == decode_utf8(
                listing,
            ),
            None => r matches Err(error) && error == StoreError::MalformedObject,
        },
{
    let n: usize = content.len();
    let mut out: Vec<u8> = Vec::new();
    let mut at: usize = 0;
    proof {
        assert(content@.skip(0) =~= content@);
        assert(is_ascii_bytes(out@));
        lemma_ascii_is_utf8(out@);
        let whole = tree_listing(content@, name_only);
        assert(followed_by(out@, whole) =~= whole) by {
            if whole is Some {
                assert(out@ + whole.unwrap() =~= whole.unwrap());
            }
        }
    }
    while at < n
        invariant
            n == content@.len(),
            at <= n,
            valid_utf8(out@),
            tree_listing(content@, name_only) == followed_by(
                out@,
                tree_listing(content@.skip(at as int), name_only),
            ),
        decreases n - at,
    {
        let rest: &[u8] = slice_subrange(content, at, n);
        assert(rest@ =~= content@.skip(at as int));
        let (entry, taken) = match TreeEntry::parse(rest) {
            Ok(parsed) => parsed,
            Err(_) => {
                return Err(StoreError::MalformedObject);
            },
        };
        let mut line: Vec<u8> = entry.line(name_only);
        proof {
            let after = tree_listing(rest@.skip(taken as int), name_only);
            assert(rest@.skip(taken as int) =~= content@.skip(at + taken));
            assert(valid_utf8(entry@.name)) by {
                encode_utf8_valid_utf8(entry.name@);
            }
            use_type_invariant(&entry);
            lemma_entry_line_is_utf8(entry@, name_only);
            valid_utf8_concat(out@, line@);
            if after is Some {
                assert(out@ + (line@ + after.unwrap()) =~= (out@ + line@) + after.unwrap());
            }
        }
        out.append(&mut line);
        at += taken;
    }
    proof {
        assert(content@.skip(at as int) =~= Seq::<u8>::empty());
        assert(out@ + Seq::<u8>::empty() =~= out@);
    }
    match string_from_utf8(out) {
        Some(text) => Ok(text),
        None => Err(StoreError::MalformedObject),
    }
}

} // verus!
