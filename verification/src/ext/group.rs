//! Block group descriptors.

use vstd::prelude::*;

use crate::bytes::{le16, le32, read_u16, read_u32};

verus! {

/// Group flag: the inode bitmap is not initialised (all free).
pub const INODE_UNINIT: u16 = 0x1;

/// Group flag: the block bitmap is not initialised (all free).
pub const BLOCK_UNINIT: u16 = 0x2;

/// Group flag: the inode table is zeroed.
pub const INODE_ZEROED: u16 = 0x4;

/// A block group descriptor.
#[derive(Debug, Clone, Copy, PartialEq, Eq, Structural)]
pub struct GroupDescriptor {
    /// Block bitmap block.
    pub block_bitmap: u64,
    /// Inode bitmap block.
    pub inode_bitmap: u64,
    /// First block of the inode table.
    pub inode_table: u64,
    /// Free blocks (as recorded).
    pub free_blocks: u32,
    /// Free inodes (as recorded).
    pub free_inodes: u32,
    /// Directories (as recorded).
    pub used_dirs: u32,
    /// Flags.
    pub flags: u16,
    /// Unused inodes at the end of the table.
    pub itable_unused: u32,
}

/// A 32-bit low word at `lo` plus, in a wide descriptor, a high word at
/// `hi`.
pub open spec fn wide32(b: Seq<u8>, wide: bool, lo: int, hi: int) -> int {
    le32(b, lo) + if wide {
        le32(b, hi) * 0x1_0000_0000
    } else {
        0
    }
}

/// A 16-bit low word at `lo` plus, in a wide descriptor, a high word at
/// `hi`.
pub open spec fn wide16(b: Seq<u8>, wide: bool, lo: int, hi: int) -> int {
    le16(b, lo) + if wide {
        le16(b, hi) * 0x1_0000
    } else {
        0
    }
}

/// The descriptor decoded from `b` (at least 30 bytes), wide when the
/// descriptor size is at least 64 and 64 bytes are present.
pub open spec fn descriptor_of(b: Seq<u8>, desc_size: u16) -> GroupDescriptor {
    let wide = desc_size >= 64 && b.len() >= 64;
    GroupDescriptor {
        block_bitmap: wide32(b, wide, 0, 32) as u64,
        inode_bitmap: wide32(b, wide, 4, 36) as u64,
        inode_table: wide32(b, wide, 8, 40) as u64,
        free_blocks: wide16(b, wide, 12, 44) as u32,
        free_inodes: wide16(b, wide, 14, 46) as u32,
        used_dirs: wide16(b, wide, 16, 48) as u32,
        flags: le16(b, 18) as u16,
        itable_unused: wide16(b, wide, 28, 50) as u32,
    }
}

fn hi32(bytes: &[u8], wide: bool, off: usize) -> (r: u64)
    requires
        wide ==> off + 4 <= bytes@.len(),
    ensures
        r == (if wide {
            le32(bytes@, off as int) * 0x1_0000_0000
        } else {
            0
        }),
{
    if wide {
        read_u32(bytes, off).unwrap() as u64 * 0x1_0000_0000
    } else {
        0
    }
}

fn hi16(bytes: &[u8], wide: bool, off: usize) -> (r: u32)
    requires
        wide ==> off + 2 <= bytes@.len(),
    ensures
        r == (if wide {
            le16(bytes@, off as int) * 0x1_0000
        } else {
            0
        }),
{
    if wide {
        read_u16(bytes, off).unwrap() as u32 * 0x1_0000
    } else {
        0
    }
}

impl GroupDescriptor {
    /// Parses a descriptor of `desc_size` bytes; `None` when fewer than 30
    /// bytes are given.
    pub fn parse(bytes: &[u8], desc_size: u16) -> (r: Option<Self>)
        ensures
            match r {
                Some(d) => bytes@.len() >= 30 && d == descriptor_of(bytes@, desc_size),
                None => bytes@.len() < 30,
            },
    {
        if bytes.len() < 30 {
            return None;
        }
        let wide = desc_size >= 64 && bytes.len() >= 64;
        Some(
            GroupDescriptor {
                block_bitmap: read_u32(bytes, 0).unwrap() as u64 + hi32(bytes, wide, 32),
                inode_bitmap: read_u32(bytes, 4).unwrap() as u64 + hi32(bytes, wide, 36),
                inode_table: read_u32(bytes, 8).unwrap() as u64 + hi32(bytes, wide, 40),
                free_blocks: read_u16(bytes, 12).unwrap() as u32 + hi16(bytes, wide, 44),
                free_inodes: read_u16(bytes, 14).unwrap() as u32 + hi16(bytes, wide, 46),
                used_dirs: read_u16(bytes, 16).unwrap() as u32 + hi16(bytes, wide, 48),
                flags: read_u16(bytes, 18).unwrap(),
                itable_unused: read_u16(bytes, 28).unwrap() as u32 + hi16(bytes, wide, 50),
            },
        )
    }

    /// Whether the block bitmap is uninitialised (every block free).
    pub fn block_uninit(&self) -> (r: bool)
        ensures
            r == (self.flags & 2u16 != 0),
    {
        self.flags & BLOCK_UNINIT != 0
    }

    /// Whether the inode bitmap is uninitialised (every inode free).
    pub fn inode_uninit(&self) -> (r: bool)
        ensures
            r == (self.flags & 1u16 != 0),
    {
        self.flags & INODE_UNINIT != 0
    }
}

} // verus!
