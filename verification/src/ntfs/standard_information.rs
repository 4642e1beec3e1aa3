//! `$STANDARD_INFORMATION` attribute.

use vstd::prelude::*;

use crate::bytes::{le32, le64, read_u32, read_u64};
use crate::ntfs::error::NtfsError;
use crate::ntfs::timestamp::NtfsTimestamp;

verus! {

/// Parsed `$STANDARD_INFORMATION` value.
#[derive(Debug, Clone, Copy, PartialEq, Eq, Structural)]
pub struct StandardInformation {
    /// Creation time.
    pub created: NtfsTimestamp,
    /// Last data modification time.
    pub modified: NtfsTimestamp,
    /// Last MFT record modification time.
    pub mft_modified: NtfsTimestamp,
    /// Last access time.
    pub accessed: NtfsTimestamp,
    /// File attribute flags (`FILE_ATTRIBUTE_*`).
    pub file_attributes: u32,
    /// Owner identifier (NTFS 3.0+), if present.
    pub owner_id: Option<u32>,
    /// Security identifier (NTFS 3.0+), if present.
    pub security_id: Option<u32>,
    /// Quota charged (NTFS 3.0+), if present.
    pub quota_charged: Option<u64>,
    /// Update sequence number (NTFS 3.0+), if present.
    pub usn: Option<u64>,
}

/// The `u32` at `off` of `v`, if present.
pub open spec fn opt32(v: Seq<u8>, off: int) -> Option<u32> {
    if off + 4 <= v.len() {
        Some(le32(v, off) as u32)
    } else {
        None
    }
}

/// The `u64` at `off` of `v`, if present.
pub open spec fn opt64(v: Seq<u8>, off: int) -> Option<u64> {
    if off + 8 <= v.len() {
        Some(le64(v, off) as u64)
    } else {
        None
    }
}

/// The value decoded from `v` (at least 36 bytes).
pub open spec fn si_of(v: Seq<u8>) -> StandardInformation {
    StandardInformation {
        created: NtfsTimestamp { raw: le64(v, 0) as u64 },
        modified: NtfsTimestamp { raw: le64(v, 8) as u64 },
        mft_modified: NtfsTimestamp { raw: le64(v, 16) as u64 },
        accessed: NtfsTimestamp { raw: le64(v, 24) as u64 },
        file_attributes: le32(v, 32) as u32,
        owner_id: opt32(v, 48),
        security_id: opt32(v, 52),
        quota_charged: opt64(v, 56),
        usn: opt64(v, 64),
    }
}

impl StandardInformation {
    /// Parses a resident value of 48 (NTFS 1.x) or 72 (NTFS 3.x) bytes: the
    /// first 36 bytes are mandatory ([`NtfsError::InvalidAttribute`]
    /// otherwise); the NTFS 3.0 fields are taken when present.
    pub fn parse(record: u64, offset: usize, value: &[u8]) -> (r: Result<Self, NtfsError>)
        ensures
            ({
                let v = value@;
                match r {
                    Ok(si) => v.len() >= 36 && si == si_of(v) && si.created.raw == le64(v, 0) && si.modified.raw
                        == le64(v, 8) && si.mft_modified.raw == le64(v, 16) && si.accessed.raw
                        == le64(v, 24) && si.file_attributes == le32(v, 32) && si.owner_id
                        == opt32(v, 48) && si.security_id == opt32(v, 52) && si.quota_charged
                        == opt64(v, 56) && si.usn == opt64(v, 64),
                    Err(e) => v.len() < 36 && e == (NtfsError::InvalidAttribute {
                        record,
                        offset,
                        reason: "$STANDARD_INFORMATION truncated",
                    }),
                }
            }),
    {
        if value.len() < 36 {
            return Err(
                NtfsError::InvalidAttribute {
                    record,
                    offset,
                    reason: "$STANDARD_INFORMATION truncated",
                },
            );
        }
        Ok(
            StandardInformation {
                created: NtfsTimestamp::new(read_u64(value, 0).unwrap()),
                modified: NtfsTimestamp::new(read_u64(value, 8).unwrap()),
                mft_modified: NtfsTimestamp::new(read_u64(value, 16).unwrap()),
                accessed: NtfsTimestamp::new(read_u64(value, 24).unwrap()),
                file_attributes: read_u32(value, 32).unwrap(),
                owner_id: read_u32(value, 48),
                security_id: read_u32(value, 52),
                quota_charged: read_u64(value, 56),
                usn: read_u64(value, 64),
            },
        )
    }
}

} // verus!
