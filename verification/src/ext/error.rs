//! ext error type.

use vstd::prelude::*;

use crate::text::{decimal, push_decimal, push_str};

verus! {

/// Errors produced by the ext reader.
#[derive(Debug, Clone, Copy, PartialEq, Eq)]
pub enum ExtError {
    /// The superblock is not an ext superblock or is inconsistent; the text
    /// names the failed check.
    InvalidSuperblock(&'static str),
    /// A structure is malformed.
    Malformed {
        /// Which structure.
        structure: &'static str,
        /// What is wrong.
        detail: &'static str,
    },
    /// An inode number is out of range or unreadable.
    InodeOutOfRange(u32),
    /// A feature that is not supported.
    Unsupported(&'static str),
    /// The requested object does not exist.
    NotFound(&'static str),
    /// Arithmetic overflow while interpreting on-disk values.
    Overflow,
}

/// The message of an error.
pub open spec fn error_text(e: ExtError) -> Seq<char> {
    match e {
        ExtError::InvalidSuperblock(w) => "invalid superblock: "@ + w@,
        ExtError::Malformed { structure, detail } => "malformed "@ + structure@ + ": "@ + detail@,
        ExtError::InodeOutOfRange(n) => "inode "@ + decimal(n as nat) + " is out of range"@,
        ExtError::Unsupported(w) => "unsupported: "@ + w@,
        ExtError::NotFound(w) => "not found: "@ + w@,
        ExtError::Overflow => "integer overflow in filesystem structure"@,
    }
}

impl ExtError {
    /// The error's message.
    pub fn to_text(&self) -> (s: String)
        ensures
            s@ == error_text(*self),
    {
        let mut s = String::new();
        match *self {
            ExtError::InvalidSuperblock(w) => {
                push_str(&mut s, "invalid superblock: ");
                push_str(&mut s, w);
            },
            ExtError::Malformed { structure, detail } => {
                push_str(&mut s, "malformed ");
                push_str(&mut s, structure);
                push_str(&mut s, ": ");
                push_str(&mut s, detail);
            },
            ExtError::InodeOutOfRange(n) => {
                push_str(&mut s, "inode ");
                push_decimal(&mut s, n as u64);
                push_str(&mut s, " is out of range");
            },
            ExtError::Unsupported(w) => {
                push_str(&mut s, "unsupported: ");
                push_str(&mut s, w);
            },
            ExtError::NotFound(w) => {
                push_str(&mut s, "not found: ");
                push_str(&mut s, w);
            },
            ExtError::Overflow => push_str(&mut s, "integer overflow in filesystem structure"),
        }
        proof {
            assert(s@ =~= error_text(*self));
        }
        s
    }
}

} // verus!
