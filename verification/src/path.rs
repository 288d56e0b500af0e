//! Where the store keeps the file of an object.

use crate::hex::{is_digest, is_digest_text, is_hex_char};
use vstd::prelude::*;
use vstd::string::{is_ascii, StrSliceExecFns, StringExecFns};

verus! {

/// The place of an object's file below the root of the store, as mathematical values.
pub struct PathView {
    /// The name of the directory: the first two characters of the digest.
    pub folder_name: Seq<char>,
    /// The name of the file: the other 38 characters of the digest.
    pub file_name: Seq<char>,
}

/// The place of the file of the object with `digest`.
pub open spec fn path_of(digest: Seq<char>) -> PathView {
    PathView { folder_name: digest.take(2), file_name: digest.skip(2) }
}

/// The path of the directory that holds all object files, relative to the root
/// of the store.
pub open spec fn objects_dir() -> Seq<char> {
    "objects"@
}

/// The path of the directory of `path`, relative to the root of the store.
pub open spec fn directory_of(path: PathView) -> Seq<char> {
    objects_dir() + "/"@ + path.folder_name
}

/// The path of the file of `path`, relative to the root of the store.
pub open spec fn file_of(path: PathView) -> Seq<char> {
    directory_of(path) + "/"@ + path.file_name
}

/// The place of an object's file below the root of the store: a directory named
/// by the first two characters of the digest, and in it a file named by the rest.
#[derive(Debug)]
pub struct ObjectPath {
    folder_name: String,
    file_name: String,
}

impl View for ObjectPath {
    type V = PathView;

    closed spec fn view(&self) -> PathView {
        PathView { folder_name: self.folder_name@, file_name: self.file_name@ }
    }
}

impl ObjectPath {
    /// The place of the file of the object with digest `hash`; `None` where
    /// `hash` is no digest of 40 lowercase hexadecimal characters.
    pub fn of_digest(hash: &str) -> (r: Option<ObjectPath>)
        ensures
            match r {
                Some(path) => is_digest_text(hash@) && path@ == path_of(hash@),
                None => !is_digest_text(hash@),
            },
    {
        if !is_digest(hash) {
            return None;
        }
        assert(is_ascii(hash)) by {
            assert forall|i: int| 0 <= i < hash@.len() implies '\0' <= #[trigger] hash@[i]
                <= '\u{7f}' by {
                assert(is_hex_char(hash@[i]));
            }
        }
        let folder: &str = hash.substring_ascii(0, 2);
        let file: &str = hash.substring_ascii(2, 40);
        assert(hash@.subrange(0, 2) =~= hash@.take(2));
        assert(hash@.subrange(2, 40) =~= hash@.skip(2));
        Some(ObjectPath { folder_name: String::from_str(folder), file_name: String::from_str(file) })
    }

    /// The name of the directory: the first two characters of the digest.
    pub fn folder_name(&self) -> (r: &str)
        ensures
            r@ == self@.folder_name,
    {
        self.folder_name.as_str()
    }

    /// The name of the file: the other 38 characters of the digest.
    pub fn file_name(&self) -> (r: &str)
        ensures
            r@ == self@.file_name,
    {
        self.file_name.as_str()
    }

    /// The path of the directory, relative to the root of the store.
    pub fn directory(&self) -> (r: String)
        ensures
            r@ == directory_of(self@),
    {
        String::from_str("objects").concat("/").concat(self.folder_name.as_str())
    }

    /// The path of the file, relative to the root of the store.
    pub fn file(&self) -> (r: String)
        ensures
            r@ == file_of(self@),
    {
        self.directory().concat("/").concat(self.file_name.as_str())
    }
}

} // verus!
