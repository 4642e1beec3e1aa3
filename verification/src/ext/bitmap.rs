//! Block and inode bitmaps of the block groups.
//!
//! Bitmap blocks are read on demand; which block holds the bit of a data
//! block, which bitmap block to read for a group, and what the bit says are
//! decided here.

use vstd::prelude::*;

use crate::ext::group::GroupDescriptor;
use crate::ext::superblock::Superblock;

verus! {

/// State of a block.
#[derive(Debug, Clone, Copy, PartialEq, Eq, Structural)]
pub enum BlockState {
    /// Free.
    Free,
    /// Allocated.
    Allocated,
    /// Outside the volume or unreadable.
    Unknown,
}

/// Whether bit `index` of the bitmap bytes `bits` is set (bit 0 is the
/// least significant bit of byte 0).
pub open spec fn bit_of(bits: Seq<u8>, index: int) -> bool {
    (bits[index / 8] / crate::bytes::pow2((index % 8) as nat) as u8) % 2 == 1
}

/// Bit `index` of a bitmap, `None` past its end.
pub fn bit(bits: &[u8], index: usize) -> (r: Option<bool>)
    ensures
        match r {
            Some(b) => index / 8 < bits@.len() && b == bit_of(bits@, index as int),
            None => index / 8 >= bits@.len(),
        },
{
    let byte = index / 8;
    if byte < bits.len() {
        Some(crate::exfat::bitmap::bit_set(bits[byte], (index % 8) as u32))
    } else {
        None
    }
}

/// The group and the index inside the group's bitmap of `block`: `None`
/// before the first data block or past the volume.
pub open spec fn block_position(sb: Superblock, block: u64) -> Option<(int, int)> {
    if block >= sb.blocks_count || block < sb.first_data_block {
        None
    } else {
        let rel = block - sb.first_data_block;
        Some((rel / (sb.blocks_per_group as int), rel % (sb.blocks_per_group as int)))
    }
}

/// State of the bit at `index` of the group described by `desc`, whose
/// bitmap block (when it could be read) holds `bits`.
pub open spec fn state_in_group(desc: GroupDescriptor, bits: Option<Seq<u8>>, index: int) -> BlockState {
    if desc.flags & 2u16 != 0 {
        BlockState::Free
    } else {
        match bits {
            None => BlockState::Unknown,
            Some(b) => if index / 8 >= b.len() {
                BlockState::Unknown
            } else if bit_of(b, index) {
                BlockState::Allocated
            } else {
                BlockState::Free
            },
        }
    }
}

/// The block group descriptors, to which the bitmaps belong.
#[derive(Debug, Clone)]
pub struct BlockBitmaps {
    groups: Vec<GroupDescriptor>,
}

impl BlockBitmaps {
    /// The descriptors.
    pub closed spec fn spec_groups(&self) -> Seq<GroupDescriptor> {
        self.groups@
    }

    /// Prepares the bitmaps for `groups`.
    pub fn new(groups: Vec<GroupDescriptor>) -> (b: Self)
        ensures
            b.spec_groups() == groups@,
    {
        BlockBitmaps { groups }
    }

    /// The group of `block` and its bit index there, `None` before the first
    /// data block, past the volume, or for a group without a descriptor.
    pub fn locate(&self, sb: &Superblock, block: u64) -> (r: Option<(u32, usize)>)
        requires
            sb.blocks_per_group > 0,
        ensures
            match r {
                Some((g, i)) => block_position(*sb, block) == Some((g as int, i as int)) && g
                    < self.spec_groups().len(),
                None => match block_position(*sb, block) {
                    None => true,
                    Some((g, _)) => g >= self.spec_groups().len() || g > u32::MAX,
                },
            },
    {
        if block >= sb.blocks_count || block < sb.first_data_block as u64 {
            return None;
        }
        let rel = block - sb.first_data_block as u64;
        let group = rel / sb.blocks_per_group as u64;
        let index = rel % sb.blocks_per_group as u64;
        if group >= self.groups.len() as u64 || group > u32::MAX as u64 {
            return None;
        }
        Some((group as u32, index as usize))
    }

    /// The block to read for the bitmap of `group`: `None` for a group
    /// without a descriptor or whose bitmap is uninitialised (all free).
    pub fn bitmap_block(&self, group: u32) -> (r: Option<u64>)
        ensures
            match r {
                Some(b) => group < self.spec_groups().len() && self.spec_groups()[group as int].flags
                    & 2u16 == 0 && b == self.spec_groups()[group as int].block_bitmap,
                None => group >= self.spec_groups().len() || self.spec_groups()[group as int].flags
                    & 2u16 != 0,
            },
    {
        if group as usize >= self.groups.len() {
            return None;
        }
        let desc = self.groups[group as usize];
        if desc.block_uninit() {
            None
        } else {
            Some(desc.block_bitmap)
        }
    }

    /// State of `block`, given the bytes of its group's bitmap block when
    /// they could be read.
    pub fn state_with(&self, sb: &Superblock, block: u64, bits: Option<&[u8]>) -> (s: BlockState)
        requires
            sb.blocks_per_group > 0,
        ensures
            s == match block_position(*sb, block) {
                None => BlockState::Unknown,
                Some((g, i)) => if g >= self.spec_groups().len() || g > u32::MAX {
                    BlockState::Unknown
                } else {
                    state_in_group(
                        self.spec_groups()[g],
                        match bits {
                            None => None::<Seq<u8>>,
                            Some(b) => Some(b@),
                        },
                        i,
                    )
                },
            },
    {
        match self.locate(sb, block) {
            None => BlockState::Unknown,
            Some((group, index)) => {
                let desc = self.groups[group as usize];
                if desc.block_uninit() {
                    return BlockState::Free;
                }
                match bits {
                    None => BlockState::Unknown,
                    Some(b) => match bit(b, index) {
                        Some(true) => BlockState::Allocated,
                        Some(false) => BlockState::Free,
                        None => BlockState::Unknown,
                    },
                }
            },
        }
    }
}

/// The block to read for the inode bitmap of a group: `None` when it is
/// uninitialised (every inode free).
pub fn inode_bitmap_block(desc: &GroupDescriptor) -> (r: Option<u64>)
    ensures
        r == (if desc.flags & 1u16 != 0 {
            None::<u64>
        } else {
            Some(desc.inode_bitmap)
        }),
{
    if desc.inode_uninit() {
        None
    } else {
        Some(desc.inode_bitmap)
    }
}

} // verus!
