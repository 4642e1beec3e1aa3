//! exFAT error type.

use vstd::prelude::*;

use crate::text::push_str;

verus! {

/// Errors produced by the exFAT reader.
#[derive(Debug, Clone, Copy, PartialEq, Eq)]
pub enum ExfatError {
    /// Arithmetic on on-disk values overflowed.
    Overflow,
    /// The boot sector failed validation; the text names the failed check.
    InvalidBootSector(&'static str),
    /// A structure is malformed.
    Malformed(&'static str),
    /// The requested object does not exist.
    NotFound(&'static str),
    /// A feature that is not supported.
    Unsupported(&'static str),
}

/// The message of an error.
pub open spec fn error_text(e: ExfatError) -> Seq<char> {
    match e {
        ExfatError::Overflow => "integer overflow in exFAT structure"@,
        ExfatError::InvalidBootSector(w) => "invalid exFAT boot sector: "@ + w@,
        ExfatError::Malformed(w) => "malformed exFAT structure: "@ + w@,
        ExfatError::NotFound(w) => "not found: "@ + w@,
        ExfatError::Unsupported(w) => "unsupported: "@ + w@,
    }
}

impl ExfatError {
    /// The error's message.
    pub fn to_text(&self) -> (s: String)
        ensures
            s@ == error_text(*self),
    {
        let mut s = String::new();
        match *self {
            ExfatError::Overflow => push_str(&mut s, "integer overflow in exFAT structure"),
            ExfatError::InvalidBootSector(w) => {
                push_str(&mut s, "invalid exFAT boot sector: ");
                push_str(&mut s, w);
            },
            ExfatError::Malformed(w) => {
                push_str(&mut s, "malformed exFAT structure: ");
                push_str(&mut s, w);
            },
            ExfatError::NotFound(w) => {
                push_str(&mut s, "not found: ");
                push_str(&mut s, w);
            },
            ExfatError::Unsupported(w) => {
                push_str(&mut s, "unsupported: ");
                push_str(&mut s, w);
            },
        }
        proof {
            assert(s@ =~= error_text(*self));
        }
        s
    }
}

} // verus!
