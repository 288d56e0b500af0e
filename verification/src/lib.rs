//! A content-addressable object store: blobs and trees are identified by the
//! SHA-1 digest of their canonical encoding, kept zlib-compressed, and found
//! again by that digest.

pub mod decimal;
pub mod digest;
pub mod error;
pub mod hex;
pub mod kind;
pub mod object;
pub mod path;
pub mod persist;
pub mod text;
pub mod theorems;
pub mod tree;
pub mod zlib;
