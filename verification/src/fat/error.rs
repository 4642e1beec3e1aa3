//! FAT error type.

use vstd::prelude::*;

use crate::text::push_str;

verus! {

/// Errors produced by the FAT reader.
#[derive(Debug, Clone, Copy, PartialEq, Eq)]
pub enum FatError {
    /// Arithmetic on on-disk values overflowed.
    Overflow,
    /// The boot sector failed validation; the text names the failed check.
    InvalidBootSector(&'static str),
    /// A cluster chain is malformed.
    InvalidChain(&'static str),
    /// The requested object does not exist.
    NotFound(&'static str),
    /// A feature that is not supported.
    Unsupported(&'static str),
}

/// The message of an error.
pub open spec fn error_text(e: FatError) -> Seq<char> {
    match e {
        FatError::Overflow => "integer overflow in FAT structure"@,
        FatError::InvalidBootSector(w) => "invalid FAT boot sector: "@ + w@,
        FatError::InvalidChain(w) => "invalid cluster chain: "@ + w@,
        FatError::NotFound(w) => "not found: "@ + w@,
        FatError::Unsupported(w) => "unsupported: "@ + w@,
    }
}

impl FatError {
    /// The error's message.
    pub fn to_text(&self) -> (s: String)
        ensures
            s@ == error_text(*self),
    {
        let mut s = String::new();
        match *self {
            FatError::Overflow => push_str(&mut s, "integer overflow in FAT structure"),
            FatError::InvalidBootSector(w) => {
                push_str(&mut s, "invalid FAT boot sector: ");
                push_str(&mut s, w);
            },
            FatError::InvalidChain(w) => {
                push_str(&mut s, "invalid cluster chain: ");
                push_str(&mut s, w);
            },
            FatError::NotFound(w) => {
                push_str(&mut s, "not found: ");
                push_str(&mut s, w);
            },
            FatError::Unsupported(w) => {
                push_str(&mut s, "unsupported: ");
                push_str(&mut s, w);
            },
        }
        proof {
            assert(s@ =~= error_text(*self));
        }
        s
    }
}

} // verus!
