//! The kinds of object and their names in the canonical encoding.

use vstd::prelude::*;
use vstd::string::is_ascii;
use vstd::string::is_ascii_spec_bytes;
use vstd::string::StringSliceAdditionalSpecFns;

verus! {

/// What an object is: a blob holds content, a tree lists the members of a directory.
#[derive(Clone, Copy, Debug, PartialEq, Eq, Structural)]
pub enum ObjectType {
    Tree,
    Blob,
}

/// The name of a kind in an object's header: the ASCII bytes of `blob` or `tree`.
pub open spec fn kind_name(kind: ObjectType) -> Seq<u8> {
    match kind {
        ObjectType::Blob => seq![0x62u8, 0x6cu8, 0x6fu8, 0x62u8],
        ObjectType::Tree => seq![0x74u8, 0x72u8, 0x65u8, 0x65u8],
    }
}

/// The kind that `token` names, if it names one.
pub open spec fn kind_named(token: Seq<u8>) -> Option<ObjectType> {
    if token == kind_name(ObjectType::Blob) {
        Some(ObjectType::Blob)
    } else if token == kind_name(ObjectType::Tree) {
        Some(ObjectType::Tree)
    } else {
        None
    }
}

impl ObjectType {
    /// The lowercase name of the kind, as the canonical encoding writes it.
    pub fn name(&self) -> (r: &'static str)
        ensures
            r.spec_bytes() == kind_name(*self),
            r@.len() == 4,
    {
        broadcast use is_ascii_spec_bytes;

        match self {
            ObjectType::Blob => {
                let r = "blob";
                proof {
                    reveal_strlit("blob");
                    assert(is_ascii(r));
                    assert(r.spec_bytes() =~= kind_name(ObjectType::Blob));
                }
                r
            },
            ObjectType::Tree => {
                let r = "tree";
                proof {
                    reveal_strlit("tree");
                    assert(is_ascii(r));
                    assert(r.spec_bytes() =~= kind_name(ObjectType::Tree));
                }
                r
            },
        }
    }

    /// The kind whose name is `token`; `None` for any other token.
    pub fn from_name(token: &[u8]) -> (r: Option<ObjectType>)
        ensures
            r == kind_named(token@),
    {
        if token.len() != 4 {
            return None;
        }
        if token[0] == 0x62 && token[1] == 0x6c && token[2] == 0x6f && token[3] == 0x62 {
            assert(token@ =~= kind_name(ObjectType::Blob));
            Some(ObjectType::Blob)
        } else if token[0] == 0x74 && token[1] == 0x72 && token[2] == 0x65 && token[3] == 0x65 {
            assert(token@ =~= kind_name(ObjectType::Tree));
            Some(ObjectType::Tree)
        } else {
            None
        }
    }
}

} // verus!
