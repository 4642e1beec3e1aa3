//! Facts about an NTFS volume.

use vstd::prelude::*;

verus! {

/// Facts from the `$Volume` record.
#[derive(Debug, Clone, PartialEq, Eq)]
pub struct VolumeInformation {
    /// Volume label.
    pub name: Option<String>,
    /// NTFS version (major, minor).
    pub version: Option<(u8, u8)>,
    /// `$VOLUME_INFORMATION` flags (bit 0: dirty).
    pub flags: Option<u16>,
}

} // verus!
