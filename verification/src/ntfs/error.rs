//! NTFS error type.

use vstd::prelude::*;

use crate::text::{decimal, push_decimal, push_str};

verus! {

/// Errors produced by the NTFS reader.
#[derive(Debug, Clone, Copy, PartialEq, Eq)]
pub enum NtfsError {
    /// Arithmetic on on-disk values overflowed.
    Overflow,
    /// The boot sector failed validation; the text names the failed check.
    InvalidBootSector(&'static str),
    /// A FILE record is not usable.
    InvalidRecord {
        /// MFT record number.
        record: u64,
        /// What is wrong.
        reason: &'static str,
    },
    /// The update sequence array check failed for one sector of a record.
    FixupMismatch {
        /// MFT record number.
        record: u64,
        /// Index of the sector whose tail did not match.
        sector_index: u32,
    },
    /// An attribute is malformed.
    InvalidAttribute {
        /// MFT record number.
        record: u64,
        /// Byte offset of the attribute inside the record.
        offset: usize,
        /// What is wrong.
        reason: &'static str,
    },
    /// A runlist (mapping pairs array) is malformed.
    InvalidRunlist(&'static str),
    /// The requested record does not exist.
    NoSuchRecord(u64),
    /// A data stream has no run covering the requested VCN.
    MissingExtent {
        /// Virtual cluster number without a run.
        vcn: u64,
    },
    /// The record or attribute requires a feature not implemented.
    Unsupported(&'static str),
    /// A required structure was not found.
    NotFound(&'static str),
}

/// The message of an error.
pub open spec fn error_text(e: NtfsError) -> Seq<char> {
    match e {
        NtfsError::Overflow => "integer overflow in NTFS structure"@,
        NtfsError::InvalidBootSector(w) => "invalid NTFS boot sector: "@ + w@,
        NtfsError::InvalidRecord { record, reason } => "invalid FILE record "@ + decimal(record as nat)
            + ": "@ + reason@,
        NtfsError::FixupMismatch { record, sector_index } => "fixup mismatch in record "@ + decimal(
            record as nat,
        ) + " at sector "@ + decimal(sector_index as nat),
        NtfsError::InvalidAttribute { record, offset, reason } => "invalid attribute at offset "@
            + decimal(offset as nat) + " in record "@ + decimal(record as nat) + ": "@ + reason@,
        NtfsError::InvalidRunlist(w) => "invalid runlist: "@ + w@,
        NtfsError::NoSuchRecord(n) => "MFT record "@ + decimal(n as nat) + " does not exist"@,
        NtfsError::MissingExtent { vcn } => "no extent covers VCN "@ + decimal(vcn as nat)
            + "; the runlist is incomplete"@,
        NtfsError::Unsupported(w) => "unsupported NTFS feature: "@ + w@,
        NtfsError::NotFound(w) => "not found: "@ + w@,
    }
}

impl NtfsError {
    /// The error's message.
    pub fn to_text(&self) -> (s: String)
        ensures
            s@ == error_text(*self),
    {
        let mut s = String::new();
        match *self {
            NtfsError::Overflow => push_str(&mut s, "integer overflow in NTFS structure"),
            NtfsError::InvalidBootSector(w) => {
                push_str(&mut s, "invalid NTFS boot sector: ");
                push_str(&mut s, w);
            },
            NtfsError::InvalidRecord { record, reason } => {
                push_str(&mut s, "invalid FILE record ");
                push_decimal(&mut s, record);
                push_str(&mut s, ": ");
                push_str(&mut s, reason);
            },
            NtfsError::FixupMismatch { record, sector_index } => {
                push_str(&mut s, "fixup mismatch in record ");
                push_decimal(&mut s, record);
                push_str(&mut s, " at sector ");
                push_decimal(&mut s, sector_index as u64);
            },
            NtfsError::InvalidAttribute { record, offset, reason } => {
                push_str(&mut s, "invalid attribute at offset ");
                push_decimal(&mut s, offset as u64);
                push_str(&mut s, " in record ");
                push_decimal(&mut s, record);
                push_str(&mut s, ": ");
                push_str(&mut s, reason);
            },
            NtfsError::InvalidRunlist(w) => {
                push_str(&mut s, "invalid runlist: ");
                push_str(&mut s, w);
            },
            NtfsError::NoSuchRecord(n) => {
                push_str(&mut s, "MFT record ");
                push_decimal(&mut s, n);
                push_str(&mut s, " does not exist");
            },
            NtfsError::MissingExtent { vcn } => {
                push_str(&mut s, "no extent covers VCN ");
                push_decimal(&mut s, vcn);
                push_str(&mut s, "; the runlist is incomplete");
            },
            NtfsError::Unsupported(w) => {
                push_str(&mut s, "unsupported NTFS feature: ");
                push_str(&mut s, w);
            },
            NtfsError::NotFound(w) => {
                push_str(&mut s, "not found: ");
                push_str(&mut s, w);
            },
        }
        proof {
            assert(s@ =~= error_text(*self));
        }
        s
    }
}

} // verus!
