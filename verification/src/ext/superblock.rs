//! The ext superblock (1024 bytes at byte offset 1024).

use vstd::prelude::*;

use crate::bytes::{is_pow2, is_power_of_two, le16, le32, pow2, pow2_u64, read_u16, read_u32};
use crate::ext::crc32c::{crc_update, update};
use crate::ext::error::ExtError;
use crate::ntfs::attribute::slice_to_vec_range;
use crate::text::{string_from_utf8_lossy, utf8_lossy};

verus! {

/// Superblock magic.
pub const MAGIC: u16 = 0xEF53;

/// Byte offset of the primary superblock.
pub const SUPERBLOCK_OFFSET: u64 = 1024;

/// Compatible feature: the filesystem has a journal.
pub const COMPAT_HAS_JOURNAL: u32 = 0x0004;

/// Compatible feature: directory indexing (htree).
pub const COMPAT_DIR_INDEX: u32 = 0x0020;

/// Incompatible feature: directory entries carry a file type.
pub const INCOMPAT_FILETYPE: u32 = 0x0002;

/// Incompatible feature: the journal needs recovery.
pub const INCOMPAT_RECOVER: u32 = 0x0004;

/// Incompatible feature: group descriptors spread in meta block groups.
pub const INCOMPAT_META_BG: u32 = 0x0010;

/// Incompatible feature: extents.
pub const INCOMPAT_EXTENTS: u32 = 0x0040;

/// Incompatible feature: 64-bit block numbers.
pub const INCOMPAT_64BIT: u32 = 0x0080;

/// Incompatible feature: flexible block groups.
pub const INCOMPAT_FLEX_BG: u32 = 0x0200;

/// Incompatible feature: checksum seed stored in the superblock.
pub const INCOMPAT_CSUM_SEED: u32 = 0x2000;

/// Incompatible feature: inline data.
pub const INCOMPAT_INLINE_DATA: u32 = 0x8000;

/// Read-only compatible feature: sparse superblock backups.
pub const RO_COMPAT_SPARSE_SUPER: u32 = 0x0001;

/// Read-only compatible feature: group descriptor checksums (crc16).
pub const RO_COMPAT_GDT_CSUM: u32 = 0x0010;

/// Read-only compatible feature: extra inode fields.
pub const RO_COMPAT_EXTRA_ISIZE: u32 = 0x0040;

/// Read-only compatible feature: metadata checksums (crc32c).
pub const RO_COMPAT_METADATA_CSUM: u32 = 0x0400;

/// A parsed superblock.
#[derive(Debug, Clone, PartialEq, Eq)]
pub struct Superblock {
    /// Total inodes.
    pub inodes_count: u32,
    /// Total blocks.
    pub blocks_count: u64,
    /// Free blocks (as recorded).
    pub free_blocks: u64,
    /// Free inodes (as recorded).
    pub free_inodes: u32,
    /// First data block (1 for 1 KiB blocks, else 0).
    pub first_data_block: u32,
    /// Block size in bytes.
    pub block_size: u32,
    /// Blocks per group.
    pub blocks_per_group: u32,
    /// Inodes per group.
    pub inodes_per_group: u32,
    /// Filesystem state.
    pub state: u16,
    /// Revision.
    pub rev_level: u32,
    /// First non-reserved inode.
    pub first_ino: u32,
    /// Inode size in bytes.
    pub inode_size: u16,
    /// Compatible features.
    pub feature_compat: u32,
    /// Incompatible features.
    pub feature_incompat: u32,
    /// Read-only compatible features.
    pub feature_ro_compat: u32,
    /// Filesystem UUID.
    pub uuid: [u8; 16],
    /// Volume label.
    pub volume_name: String,
    /// Last mount point.
    pub last_mounted: String,
    /// Journal inode number (0 = none).
    pub journal_inum: u32,
    /// Group descriptor size (32 or 64).
    pub desc_size: u16,
    /// First meta block group.
    pub first_meta_bg: u32,
    /// Checksum seed for metadata checksums.
    pub csum_seed: u32,
    /// Checksum type (1 = crc32c).
    pub checksum_type: u8,
    /// Stored superblock checksum.
    pub checksum: u32,
    /// Whether the stored checksum matches (None when not checksummed).
    pub checksum_ok: Option<bool>,
    /// Number of the block group this copy belongs to.
    pub block_group_nr: u16,
    /// Last mount time (Unix seconds).
    pub mtime: u32,
    /// Last write time (Unix seconds).
    pub wtime: u32,
}

/// Incompatible features of a superblock image.
pub open spec fn incompat_of(s: Seq<u8>) -> u32 {
    le32(s, 96) as u32
}

/// Read-only compatible features of a superblock image.
pub open spec fn ro_compat_of(s: Seq<u8>) -> u32 {
    le32(s, 100) as u32
}

/// Whether a superblock image has 64-bit block numbers.
pub open spec fn is_64bit(s: Seq<u8>) -> bool {
    incompat_of(s) & 0x80u32 != 0
}

/// Block size: 1024 shifted by the log field.
pub open spec fn block_size_of(s: Seq<u8>) -> int {
    1024 * pow2(le32(s, 24) as nat) as int
}

/// Inode size: 128 for revision 0, else the field at 88.
pub open spec fn inode_size_of(s: Seq<u8>) -> int {
    if le32(s, 76) == 0 {
        128
    } else {
        le16(s, 88)
    }
}

/// First non-reserved inode: 11 for revision 0, else the field at 84.
pub open spec fn first_ino_of(s: Seq<u8>) -> int {
    if le32(s, 76) == 0 {
        11
    } else {
        le32(s, 84)
    }
}

/// A 64-bit count split in a low word at `lo` and (with 64-bit block
/// numbers) a high word at `hi`.
pub open spec fn wide_count(s: Seq<u8>, lo: int, hi: int) -> int {
    le32(s, lo) + if is_64bit(s) {
        le32(s, hi) * 0x1_0000_0000
    } else {
        0
    }
}

/// Group descriptor size: the field at 254 with 64-bit block numbers, else
/// 32.
pub open spec fn desc_size_of(s: Seq<u8>) -> int {
    if is_64bit(s) {
        le16(s, 254)
    } else {
        32
    }
}

/// Whether `s` holds a usable superblock: every check of
/// [`Superblock::parse`].
pub open spec fn valid_superblock(s: Seq<u8>) -> bool {
    &&& s.len() >= 1024
    &&& le16(s, 56) == 0xEF53
    &&& le32(s, 24) <= 6
    &&& is_pow2(inode_size_of(s))
    &&& 128 <= inode_size_of(s) <= block_size_of(s)
    &&& le32(s, 0) != 0
    &&& wide_count(s, 4, 0x150) != 0
    &&& le32(s, 32) != 0
    &&& le32(s, 40) != 0
    &&& le32(s, 32) <= block_size_of(s) * 8
    &&& is_64bit(s) ==> desc_size_of(s) >= 32 && is_pow2(desc_size_of(s))
}

/// Length of `b` once trailing NUL bytes are removed.
pub open spec fn nul_trimmed_len(b: Seq<u8>) -> nat
    decreases b.len(),
{
    if b.len() > 0 && b.last() == 0 {
        nul_trimmed_len(b.drop_last())
    } else {
        b.len()
    }
}

/// Text of the `len` bytes at `start`: decoded lossily as UTF-8, trailing
/// NULs removed.
pub open spec fn text_of(s: Seq<u8>, start: int, len: int) -> Seq<char> {
    utf8_lossy(s.subrange(start, start + nul_trimmed_len(s.subrange(start, start + len))))
}

/// The fields that [`Superblock::parse`] decodes from a valid image.
pub open spec fn parsed_from(b: Superblock, s: Seq<u8>) -> bool {
    &&& b.inodes_count == le32(s, 0)
    &&& b.blocks_count == wide_count(s, 4, 0x150)
    &&& b.free_blocks == wide_count(s, 12, 0x158)
    &&& b.free_inodes == le32(s, 16)
    &&& b.first_data_block == le32(s, 20)
    &&& b.block_size == block_size_of(s)
    &&& b.blocks_per_group == le32(s, 32)
    &&& b.inodes_per_group == le32(s, 40)
    &&& b.state == le16(s, 58)
    &&& b.rev_level == le32(s, 76)
    &&& b.first_ino == first_ino_of(s)
    &&& b.inode_size == inode_size_of(s)
    &&& b.feature_compat == le32(s, 92)
    &&& b.feature_incompat == le32(s, 96)
    &&& b.feature_ro_compat == le32(s, 100)
    &&& b.uuid@ == s.subrange(104, 120)
    &&& b.volume_name@ == text_of(s, 120, 16)
    &&& b.last_mounted@ == text_of(s, 136, 64)
    &&& b.journal_inum == le32(s, 224)
    &&& b.desc_size == desc_size_of(s)
    &&& b.first_meta_bg == le32(s, 0x104)
    &&& b.csum_seed == (if incompat_of(s) & 0x2000u32 != 0 {
        le32(s, 0x270)
    } else {
        crc_update(!0u32, s.subrange(104, 120)) as int
    })
    &&& b.checksum_type == s[0x175]
    &&& b.checksum == le32(s, 0x3FC)
    &&& b.checksum_ok == (if ro_compat_of(s) & 0x400u32 != 0 {
        Some(crc_update(!0u32, s.subrange(0, 0x3FC)) == le32(s, 0x3FC))
    } else {
        None
    })
    &&& b.block_group_nr == le16(s, 90)
    &&& b.mtime == le32(s, 44)
    &&& b.wtime == le32(s, 48)
}

/// The value `n` reaches when multiplied by `base` (saturating at
/// `u32::MAX`) until it is at least `target`.
pub open spec fn climb(n: nat, base: nat, target: nat) -> nat
    decreases u32::MAX - n,
{
    if n >= target || base < 2 || n == 0 || n >= u32::MAX {
        n
    } else {
        let next = if n * base > u32::MAX {
            u32::MAX as nat
        } else {
            n * base
        };
        if next <= n {
            n
        } else {
            climb(next, base, target)
        }
    }
}

/// Whether a group carries a superblock backup: every group without the
/// sparse-superblock feature; groups 0, 1 and the powers of 3, 5 and 7 with
/// it.
pub open spec fn has_super_backup(ro_compat: u32, group: u32) -> bool {
    ro_compat & 1u32 == 0 || group <= 1 || (group % 2 == 1 && (climb(3, 3, group as nat) == group
        || climb(5, 5, group as nat) == group || climb(7, 7, group as nat) == group))
}

/// Text of `len` bytes at `start`, trailing NULs removed, decoded lossily.
fn text_field(bytes: &[u8], start: usize, len: usize) -> (s: String)
    requires
        start + len <= bytes@.len(),
    ensures
        s@ == text_of(bytes@, start as int, len as int),
{
    let ghost field = bytes@.subrange(start as int, start + len);
    let mut end = len;
    let blen = bytes.len();
    assert(field.subrange(0, len as int) =~= field);
    while end > 0 && bytes[start + end - 1] == 0
        invariant
            start + len <= bytes@.len(),
            end <= len,
            blen == bytes@.len(),
            field == bytes@.subrange(start as int, start + len),
            nul_trimmed_len(field) == nul_trimmed_len(field.subrange(0, end as int)),
        decreases end,
    {
        assert(field.subrange(0, end as int).drop_last() =~= field.subrange(0, end - 1));
        end = end - 1;
    }
    proof {
        assert(nul_trimmed_len(field.subrange(0, end as int)) == end);
        assert(bytes@.subrange(start as int, start + end) =~= field.subrange(0, end as int));
    }
    let raw = slice_to_vec_range(bytes, start, start + end);
    string_from_utf8_lossy(raw.as_slice())
}

/// Whether `group` is reached by repeatedly multiplying `base` by itself
/// (saturating).
fn reaches(base: u32, group: u32) -> (r: bool)
    requires
        base >= 2,
    ensures
        r == (climb(base as nat, base as nat, group as nat) == group),
{
    let mut n = base;
    while n < group
        invariant
            base >= 2,
            n >= 1,
            climb(n as nat, base as nat, group as nat) == climb(
                base as nat,
                base as nat,
                group as nat,
            ),
        decreases u32::MAX - n,
    {
        proof {
            assert(n * base >= 2 * n) by (nonlinear_arith)
                requires
                    base >= 2,
                    n >= 1,
            ;
        }
        n = match n.checked_mul(base) {
            Some(v) => v,
            None => u32::MAX,
        };
    }
    n == group
}

/// Number of block groups: the blocks from the first data block on,
/// divided by blocks per group (at least 1), rounded up.
pub open spec fn groups_of(sb: Superblock) -> int {
    let data = if sb.blocks_count >= sb.first_data_block {
        sb.blocks_count - sb.first_data_block
    } else {
        0
    };
    let per = if sb.blocks_per_group == 0 {
        1
    } else {
        sb.blocks_per_group as int
    };
    (data + per - 1) / per
}

impl Superblock {
    /// Parses a 1024-byte superblock; fails with
    /// [`ExtError::InvalidSuperblock`] when the magic or the geometry is
    /// invalid.
    pub fn parse(bytes: &[u8]) -> (r: Result<Self, ExtError>)
        ensures
            match r {
                Ok(b) => valid_superblock(bytes@) && parsed_from(b, bytes@),
                Err(e) => !valid_superblock(bytes@) && e is InvalidSuperblock,
            },
    {
        let ghost s = bytes@;
        if bytes.len() < 1024 {
            return Err(ExtError::InvalidSuperblock("shorter than 1024 bytes"));
        }
        if read_u16(bytes, 56).unwrap() != MAGIC {
            return Err(ExtError::InvalidSuperblock("magic 0xEF53 absent"));
        }
        let log_block = read_u32(bytes, 24).unwrap();
        if log_block > 6 {
            return Err(ExtError::InvalidSuperblock("block size larger than 64 KiB"));
        }
        proof {
            crate::bytes::lemma_pow2_mono(log_block as nat, 6);
            reveal_with_fuel(pow2, 7);
        }
        let block_size: u32 = 1024 * pow2_u64(log_block) as u32;
        let feature_incompat = read_u32(bytes, 96).unwrap();
        let feature_ro_compat = read_u32(bytes, 100).unwrap();
        let feature_compat = read_u32(bytes, 92).unwrap();
        let wide = feature_incompat & INCOMPAT_64BIT != 0;
        let mut blocks_count = read_u32(bytes, 4).unwrap() as u64;
        let mut free_blocks = read_u32(bytes, 12).unwrap() as u64;
        if wide {
            blocks_count = blocks_count + read_u32(bytes, 0x150).unwrap() as u64 * 0x1_0000_0000;
            free_blocks = free_blocks + read_u32(bytes, 0x158).unwrap() as u64 * 0x1_0000_0000;
        }
        let rev_level = read_u32(bytes, 76).unwrap();
        let (first_ino, inode_size) = if rev_level == 0 {
            (11u32, 128u16)
        } else {
            (read_u32(bytes, 84).unwrap(), read_u16(bytes, 88).unwrap())
        };
        if !is_power_of_two(inode_size as u64) || inode_size < 128 || inode_size as u32
            > block_size {
            return Err(
                ExtError::InvalidSuperblock(
                    "inode size is not a power of two between 128 and the block size",
                ),
            );
        }
        let inodes_count = read_u32(bytes, 0).unwrap();
        let blocks_per_group = read_u32(bytes, 32).unwrap();
        let inodes_per_group = read_u32(bytes, 40).unwrap();
        if inodes_count == 0 || blocks_count == 0 || blocks_per_group == 0 || inodes_per_group
            == 0 {
            return Err(ExtError::InvalidSuperblock("zero inode or block counts"));
        }
        if blocks_per_group > block_size * 8 {
            return Err(
                ExtError::InvalidSuperblock(
                    "more blocks per group than the block bitmap can describe",
                ),
            );
        }
        let desc_size: u16 = if wide {
            let d = read_u16(bytes, 254).unwrap();
            if d < 32 || !is_power_of_two(d as u64) {
                return Err(ExtError::InvalidSuperblock("group descriptor size is invalid"));
            }
            d
        } else {
            32
        };
        let uuid: [u8; 16] = [
            bytes[104],
            bytes[105],
            bytes[106],
            bytes[107],
            bytes[108],
            bytes[109],
            bytes[110],
            bytes[111],
            bytes[112],
            bytes[113],
            bytes[114],
            bytes[115],
            bytes[116],
            bytes[117],
            bytes[118],
            bytes[119],
        ];
        assert(uuid@ =~= s.subrange(104, 120));
        let checksum_type = bytes[0x175];
        let checksum = read_u32(bytes, 0x3FC).unwrap();
        let checksum_ok = if feature_ro_compat & RO_COMPAT_METADATA_CSUM != 0 {
            let head = slice_to_vec_range(bytes, 0, 0x3FC);
            Some(update(!0u32, head.as_slice()) == checksum)
        } else {
            None
        };
        let csum_seed = if feature_incompat & INCOMPAT_CSUM_SEED != 0 {
            read_u32(bytes, 0x270).unwrap()
        } else {
            let id = slice_to_vec_range(bytes, 104, 120);
            update(!0u32, id.as_slice())
        };
        let volume_name = text_field(bytes, 120, 16);
        let last_mounted = text_field(bytes, 136, 64);
        Ok(
            Superblock {
                inodes_count,
                blocks_count,
                free_blocks,
                free_inodes: read_u32(bytes, 16).unwrap(),
                first_data_block: read_u32(bytes, 20).unwrap(),
                block_size,
                blocks_per_group,
                inodes_per_group,
                state: read_u16(bytes, 58).unwrap(),
                rev_level,
                first_ino,
                inode_size,
                feature_compat,
                feature_incompat,
                feature_ro_compat,
                uuid,
                volume_name,
                last_mounted,
                journal_inum: read_u32(bytes, 224).unwrap(),
                desc_size,
                first_meta_bg: read_u32(bytes, 0x104).unwrap(),
                csum_seed,
                checksum_type,
                checksum,
                checksum_ok,
                block_group_nr: read_u16(bytes, 90).unwrap(),
                mtime: read_u32(bytes, 44).unwrap(),
                wtime: read_u32(bytes, 48).unwrap(),
            },
        )
    }

    /// Whether an incompatible `feature` bit is set.
    pub fn has_incompat(&self, feature: u32) -> (r: bool)
        ensures
            r == (self.feature_incompat & feature != 0),
    {
        self.feature_incompat & feature != 0
    }

    /// Whether a read-only compatible `feature` bit is set.
    pub fn has_ro_compat(&self, feature: u32) -> (r: bool)
        ensures
            r == (self.feature_ro_compat & feature != 0),
    {
        self.feature_ro_compat & feature != 0
    }

    /// Whether a compatible `feature` bit is set.
    pub fn has_compat(&self, feature: u32) -> (r: bool)
        ensures
            r == (self.feature_compat & feature != 0),
    {
        self.feature_compat & feature != 0
    }

    /// Whether metadata checksums are in use.
    pub fn metadata_csum(&self) -> (r: bool)
        ensures
            r == (self.feature_ro_compat & 0x400u32 != 0),
    {
        self.has_ro_compat(RO_COMPAT_METADATA_CSUM)
    }

    /// Number of block groups: the blocks from the first data block on,
    /// divided by blocks per group (at least 1) and rounded up, saturating
    /// at `u32::MAX`.
    pub fn group_count(&self) -> (r: u32)
        ensures
            r == (if groups_of(*self) > u32::MAX {
                u32::MAX as int
            } else {
                groups_of(*self)
            }),
    {
        let data_blocks = self.blocks_count.saturating_sub(self.first_data_block as u64);
        let per: u64 = if self.blocks_per_group == 0 {
            1
        } else {
            self.blocks_per_group as u64
        };
        proof {
            assert(data_blocks % per != 0 ==> data_blocks / per < u64::MAX) by (nonlinear_arith)
                requires
                    per >= 1,
            ;
        }
        let groups = data_blocks / per + if data_blocks % per != 0 {
            1
        } else {
            0
        };
        proof {
            assert(groups == (data_blocks + per - 1) / (per as int)) by (nonlinear_arith)
                requires
                    per >= 1,
                    groups == data_blocks / per + if data_blocks % per != 0 {
                        1int
                    } else {
                        0int
                    },
            ;
        }
        if groups > u32::MAX as u64 {
            u32::MAX
        } else {
            groups as u32
        }
    }

    /// The flavour name: `ext4` with extents, 64-bit block numbers or
    /// flexible groups; else `ext3` with a journal; else `ext2`.
    pub fn flavour(&self) -> (r: &'static str)
        ensures
            r@ == (if self.feature_incompat & 0x40u32 != 0 || self.feature_incompat & 0x80u32
                != 0 || self.feature_incompat & 0x200u32 != 0 {
                "ext4"@
            } else if self.feature_compat & 0x4u32 != 0 {
                "ext3"@
            } else {
                "ext2"@
            }),
    {
        if self.has_incompat(INCOMPAT_EXTENTS) || self.has_incompat(INCOMPAT_64BIT)
            || self.has_incompat(INCOMPAT_FLEX_BG) {
            "ext4"
        } else if self.has_compat(COMPAT_HAS_JOURNAL) {
            "ext3"
        } else {
            "ext2"
        }
    }

    /// Byte offset of a block; [`ExtError::Overflow`] when it does not fit.
    pub fn block_offset(&self, block: u64) -> (r: Result<u64, ExtError>)
        ensures
            match r {
                Ok(v) => v == block * self.block_size,
                Err(e) => block * self.block_size > u64::MAX && e == ExtError::Overflow,
            },
    {
        match block.checked_mul(self.block_size as u64) {
            Some(v) => Ok(v),
            None => Err(ExtError::Overflow),
        }
    }

    /// Whether `group` carries a superblock backup.
    pub fn group_has_super(&self, group: u32) -> (r: bool)
        ensures
            r == has_super_backup(self.feature_ro_compat, group),
    {
        if !self.has_ro_compat(RO_COMPAT_SPARSE_SUPER) || group <= 1 {
            return true;
        }
        if group % 2 == 0 {
            return false;
        }
        reaches(3, group) || reaches(5, group) || reaches(7, group)
    }

    /// Block number where the group descriptor of `group` lives, and the
    /// byte offset of the descriptor inside that block.
    pub fn descriptor_location(&self, group: u32) -> (r: (u64, u64))
        ensures
            ({
                let d = if self.desc_size < 32 {
                    32
                } else {
                    self.desc_size as int
                };
                let pb0 = self.block_size as int / d;
                let pb = if pb0 < 1 {
                    1
                } else {
                    pb0
                };
                let g = group as int;
                let within = (g % pb) * self.desc_size;
                let meta = self.feature_incompat & 0x10u32 != 0 && g >= self.first_meta_bg * pb;
                let first_group = g - g % pb;
                r == if meta {
                    (
                        (self.first_data_block + first_group * self.blocks_per_group + if has_super_backup(
                            self.feature_ro_compat,
                            first_group as u32,
                        ) {
                            1int
                        } else {
                            0int
                        }) as u64,
                        within as u64,
                    )
                } else {
                    ((self.first_data_block + 1 + g / pb) as u64, within as u64)
                }
            }),
    {
        let d: u64 = if self.desc_size < 32 {
            32
        } else {
            self.desc_size as u64
        };
        let pb0 = self.block_size as u64 / d;
        let pb: u64 = if pb0 < 1 {
            1
        } else {
            pb0
        };
        let g = group as u64;
        proof {
            assert(pb <= 0xFFFF_FFFF);
            assert(g % pb < pb);
            assert((g % pb) * self.desc_size <= 0xFFFF_FFFF * 0xFFFF) by (nonlinear_arith)
                requires
                    g % pb < pb,
                    pb <= 0xFFFF_FFFF,
                    self.desc_size <= 0xFFFF,
            ;
            assert(self.first_meta_bg * pb <= 0xFFFF_FFFF * 0xFFFF_FFFF) by (nonlinear_arith)
                requires
                    pb <= 0xFFFF_FFFF,
                    self.first_meta_bg <= 0xFFFF_FFFF,
            ;
        }
        let within = (g % pb) * self.desc_size as u64;
        let meta_bg = self.has_incompat(INCOMPAT_META_BG) && g >= self.first_meta_bg as u64 * pb;
        if meta_bg {
            proof {
                assert(g % pb <= g) by (nonlinear_arith)
                    requires
                        pb >= 1,
                ;
            }
            let first_group = g - g % pb;
            proof {
                assert(first_group <= g);
                assert(first_group * self.blocks_per_group <= 0xFFFF_FFFF * 0xFFFF_FFFF)
                    by (nonlinear_arith)
                    requires
                        first_group <= 0xFFFF_FFFF,
                        self.blocks_per_group <= 0xFFFF_FFFF,
                ;
            }
            let first_block = self.first_data_block as u64 + first_group
                * self.blocks_per_group as u64;
            let has_super = self.group_has_super(first_group as u32);
            (first_block + if has_super {
                1
            } else {
                0
            }, within)
        } else {
            (self.first_data_block as u64 + 1 + g / pb, within)
        }
    }
}

} // verus!
