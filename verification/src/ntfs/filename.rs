//! `$FILE_NAME` attribute.

use vstd::prelude::*;

use crate::bytes::{le32, le64, read_u32, read_u64};
use crate::ntfs::attribute::slice_to_vec_range;
use crate::ntfs::error::NtfsError;
use crate::ntfs::record::FileReference;
use crate::ntfs::timestamp::NtfsTimestamp;
use crate::text::{string_from_utf16, string_from_utf16_lossy, units_le, utf16_lossy, utf16_strict, utf16_units};

verus! {

/// Namespace of a filename.
#[derive(Debug, Clone, Copy, PartialEq, Eq, Hash, Structural)]
pub enum FileNameNamespace {
    /// POSIX: case sensitive, any character except `/` and NUL.
    Posix,
    /// Win32 long name.
    Win32,
    /// DOS 8.3 short name.
    Dos,
    /// A name that is both Win32 and DOS compatible.
    Win32AndDos,
    /// Unrecognised namespace byte.
    Unknown(u8),
}

/// The namespace of a namespace byte.
pub open spec fn namespace_of(b: u8) -> FileNameNamespace {
    if b == 0 {
        FileNameNamespace::Posix
    } else if b == 1 {
        FileNameNamespace::Win32
    } else if b == 2 {
        FileNameNamespace::Dos
    } else if b == 3 {
        FileNameNamespace::Win32AndDos
    } else {
        FileNameNamespace::Unknown(b)
    }
}

/// Display preference of a namespace (lower is preferred): Win32 names
/// first, DOS names last.
pub open spec fn rank_of(n: FileNameNamespace) -> u8 {
    match n {
        FileNameNamespace::Win32AndDos => 0,
        FileNameNamespace::Win32 => 1,
        FileNameNamespace::Posix => 2,
        FileNameNamespace::Unknown(_) => 3,
        FileNameNamespace::Dos => 4,
    }
}

impl FileNameNamespace {
    /// Decodes the namespace byte.
    pub fn from_byte(b: u8) -> (n: Self)
        ensures
            n == namespace_of(b),
    {
        match b {
            0 => FileNameNamespace::Posix,
            1 => FileNameNamespace::Win32,
            2 => FileNameNamespace::Dos,
            3 => FileNameNamespace::Win32AndDos,
            other => FileNameNamespace::Unknown(other),
        }
    }

    /// Ranking for display preference: Win32 names first, DOS names last.
    pub fn display_rank(&self) -> (r: u8)
        ensures
            r == rank_of(*self),
    {
        match self {
            FileNameNamespace::Win32AndDos => 0,
            FileNameNamespace::Win32 => 1,
            FileNameNamespace::Posix => 2,
            FileNameNamespace::Unknown(_) => 3,
            FileNameNamespace::Dos => 4,
        }
    }
}

/// File attribute flag: directory (in `$FILE_NAME.flags`, bit 28).
pub const FILE_ATTR_DIRECTORY_FN: u32 = 0x1000_0000;

/// File attribute flag: compressed.
pub const FILE_ATTR_COMPRESSED: u32 = 0x0800;

/// File attribute flag: encrypted.
pub const FILE_ATTR_ENCRYPTED: u32 = 0x4000;

/// File attribute flag: sparse.
pub const FILE_ATTR_SPARSE: u32 = 0x0200;

/// File attribute flag: reparse point.
pub const FILE_ATTR_REPARSE_POINT: u32 = 0x0400;

/// Parsed `$FILE_NAME` attribute value.
#[derive(Debug, Clone, PartialEq, Eq)]
pub struct FileNameAttribute {
    /// Parent directory reference (with sequence number).
    pub parent: FileReference,
    /// Name.
    pub name: String,
    /// Namespace.
    pub namespace: FileNameNamespace,
    /// Creation time.
    pub created: NtfsTimestamp,
    /// Last data modification time.
    pub modified: NtfsTimestamp,
    /// Last MFT record modification time.
    pub mft_modified: NtfsTimestamp,
    /// Last access time.
    pub accessed: NtfsTimestamp,
    /// Allocated size of the unnamed data stream (may be stale).
    pub allocated_size: u64,
    /// Real size of the unnamed data stream (may be stale).
    pub real_size: u64,
    /// File attribute flags.
    pub flags: u32,
    /// Reparse tag or extended-attribute size.
    pub reparse_value: u32,
    /// Whether the name failed strict UTF-16 decoding and was decoded lossily.
    pub name_invalid_utf16: bool,
}

/// Whether a `$FILE_NAME` value of `v` is complete: the 66 fixed bytes and
/// the name they announce.
pub open spec fn file_name_ok(v: Seq<u8>) -> bool {
    v.len() >= 66 && 66 + 2 * v[64] <= v.len()
}

/// Whether `f` is the attribute decoded from the value `v`.
pub open spec fn file_name_matches(f: FileNameAttribute, v: Seq<u8>) -> bool {
    let units = utf16_units(v.subrange(66, 66 + 2 * v[64]));
    &&& f.parent == FileReference {
        record: (le64(v, 0) % 0x1_0000_0000_0000) as u64,
        sequence: (le64(v, 0) / 0x1_0000_0000_0000) as u16,
    }
    &&& f.created.raw == le64(v, 8)
    &&& f.modified.raw == le64(v, 16)
    &&& f.mft_modified.raw == le64(v, 24)
    &&& f.accessed.raw == le64(v, 32)
    &&& f.allocated_size == le64(v, 40)
    &&& f.real_size == le64(v, 48)
    &&& f.flags == le32(v, 56)
    &&& f.reparse_value == le32(v, 60)
    &&& f.namespace == namespace_of(v[65])
    &&& match utf16_strict(units) {
        Some(n) => f.name@ == n && !f.name_invalid_utf16,
        None => f.name@ == utf16_lossy(units) && f.name_invalid_utf16,
    }
}

impl FileNameAttribute {
    /// Parses a resident `$FILE_NAME` value; fails with
    /// [`NtfsError::InvalidAttribute`] when it is truncated.
    pub fn parse(record: u64, offset: usize, value: &[u8]) -> (r: Result<Self, NtfsError>)
        ensures
            match r {
                Ok(f) => file_name_ok(value@) && file_name_matches(f, value@),
                Err(e) => !file_name_ok(value@) && (e matches NtfsError::InvalidAttribute {
                    record: r2,
                    offset: o2,
                    ..
                } && r2 == record && o2 == offset),
            },
    {
        if value.len() < 66 {
            return Err(NtfsError::InvalidAttribute { record, offset, reason: "$FILE_NAME truncated" });
        }
        let name_length = value[64] as usize;
        if 2 * name_length > value.len() - 66 {
            return Err(
                NtfsError::InvalidAttribute {
                    record,
                    offset,
                    reason: "$FILE_NAME name length exceeds the attribute",
                },
            );
        }
        let raw = slice_to_vec_range(value, 66, 66 + 2 * name_length);
        let units = units_le(raw.as_slice());
        let (name, name_invalid_utf16) = match string_from_utf16(units.as_slice()) {
            Some(n) => (n, false),
            None => (string_from_utf16_lossy(units.as_slice()), true),
        };
        Ok(
            FileNameAttribute {
                parent: FileReference::from_raw(read_u64(value, 0).unwrap()),
                name,
                namespace: FileNameNamespace::from_byte(value[65]),
                created: NtfsTimestamp::new(read_u64(value, 8).unwrap()),
                modified: NtfsTimestamp::new(read_u64(value, 16).unwrap()),
                mft_modified: NtfsTimestamp::new(read_u64(value, 24).unwrap()),
                accessed: NtfsTimestamp::new(read_u64(value, 32).unwrap()),
                allocated_size: read_u64(value, 40).unwrap(),
                real_size: read_u64(value, 48).unwrap(),
                flags: read_u32(value, 56).unwrap(),
                reparse_value: read_u32(value, 60).unwrap(),
                name_invalid_utf16,
            },
        )
    }

    /// Whether the directory flag (bit 28) is set.
    pub fn is_directory(&self) -> (r: bool)
        ensures
            r == (self.flags & 0x1000_0000 != 0),
    {
        self.flags & FILE_ATTR_DIRECTORY_FN != 0
    }
}

/// Whether `k` is the index of the preferred name among `names`: the first
/// of the lowest display rank.
pub open spec fn is_preferred(names: Seq<FileNameAttribute>, k: int) -> bool {
    &&& 0 <= k < names.len()
    &&& forall|j: int|
        0 <= j < names.len() ==> rank_of(#[trigger] names[j].namespace) >= rank_of(names[k].namespace)
    &&& forall|j: int| 0 <= j < k ==> rank_of(#[trigger] names[j].namespace) > rank_of(names[k].namespace)
}

/// Picks the best name for display: the first one of lowest
/// [`rank_of`] namespace rank, `None` for no names.
pub fn preferred_name(names: &[FileNameAttribute]) -> (r: Option<&FileNameAttribute>)
    ensures
        names@.len() == 0 ==> r is None,
        names@.len() > 0 ==> exists|k: int| is_preferred(names@, k) && r == Some(&names@[k]),
{
    let n = names.len();
    if n == 0 {
        return None;
    }
    let mut best: usize = 0;
    let mut i: usize = 1;
    while i < n
        invariant
            n == names@.len(),
            1 <= i <= n,
            best < i,
            forall|j: int| 0 <= j < i ==> rank_of(#[trigger] names@[j].namespace) >= rank_of(
                names@[best as int].namespace,
            ),
            forall|j: int| 0 <= j < best ==> rank_of(#[trigger] names@[j].namespace) > rank_of(
                names@[best as int].namespace,
            ),
        decreases n - i,
    {
        if names[i].namespace.display_rank() < names[best].namespace.display_rank() {
            best = i;
        }
        i = i + 1;
    }
    assert(is_preferred(names@, best as int));
    Some(&names[best])
}

} // verus!
