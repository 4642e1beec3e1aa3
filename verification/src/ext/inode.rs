//! Inodes: the 128-byte base, the extra fields, checksums and the layout
//! description held in `i_block`.

use vstd::prelude::*;

use crate::bytes::{le16, le32, read_u16, read_u32};
use crate::ext::crc32c::{crc_update, update};
use crate::ext::superblock::Superblock;
use crate::ntfs::attribute::slice_to_vec_range;

verus! {

/// Inode flag: directory uses an htree index.
pub const FLAG_INDEX: u32 = 0x0000_1000;

/// Inode flag: block counts are in filesystem blocks.
pub const FLAG_HUGE_FILE: u32 = 0x0004_0000;

/// Inode flag: the inode uses extents.
pub const FLAG_EXTENTS: u32 = 0x0008_0000;

/// Inode flag: the data lives inside the inode.
pub const FLAG_INLINE_DATA: u32 = 0x1000_0000;

/// Magic of an extent tree node header.
pub const EXTENT_MAGIC: u16 = 0xF30A;

/// File type bits of `i_mode`.
#[derive(Debug, Clone, Copy, PartialEq, Eq, Structural)]
pub enum InodeKind {
    /// Regular file.
    Regular,
    /// Directory.
    Directory,
    /// Symbolic link.
    Symlink,
    /// Something else (device, socket, fifo).
    Other,
    /// Mode is zero: never used or wiped.
    Unused,
}

/// A parsed inode.
#[derive(Debug, Clone, PartialEq, Eq)]
pub struct Inode {
    /// Inode number.
    pub number: u32,
    /// Mode bits.
    pub mode: u16,
    /// Owner.
    pub uid: u32,
    /// Group.
    pub gid: u32,
    /// Size in bytes.
    pub size: u64,
    /// Access time.
    pub atime: u32,
    /// Change time.
    pub ctime: u32,
    /// Modification time.
    pub mtime: u32,
    /// Deletion time (0 = not deleted).
    pub dtime: u32,
    /// Creation time (ext4 extra field), if present.
    pub crtime: Option<u32>,
    /// Hard links.
    pub links: u16,
    /// Blocks allocated, in 512-byte units unless `HUGE_FILE`.
    pub blocks: u64,
    /// Flags.
    pub flags: u32,
    /// Generation.
    pub generation: u32,
    /// The 60 bytes of `i_block`.
    pub i_block: Vec<u8>,
    /// Extra inode size, when the inode is larger than 128 bytes.
    pub extra_isize: u16,
    /// Whether the checksum matched (None when not checksummed).
    pub checksum_ok: Option<bool>,
}

/// The four little-endian bytes of `n`.
pub open spec fn u32_le_bytes(n: u32) -> Seq<u8> {
    seq![
        (n % 256) as u8,
        ((n / 256) % 256) as u8,
        ((n / 65536) % 256) as u8,
        (n / 16777216) as u8,
    ]
}

/// The inode bytes with the checksum fields (124..126, and 130..132 when
/// the high half is present) zeroed.
pub open spec fn checksum_zeroed(b: Seq<u8>, has_hi: bool) -> Seq<u8> {
    Seq::new(
        b.len(),
        |i: int|
            if 124 <= i < 126 || (has_hi && b.len() >= 132 && 130 <= i < 132) {
                0u8
            } else {
                b[i]
            },
    )
}

/// Whether the crc32c checksum stored in inode `number`'s bytes `b`
/// matches: the CRC of the number, the generation and the bytes with the
/// checksum zeroed, seeded with `seed`; compared in full when the high half
/// is present (more than 128 bytes and an extra size of at least 4), else
/// on its low 16 bits.
pub open spec fn inode_checksum_ok(number: u32, b: Seq<u8>, seed: u32, extra_isize: u16) -> bool {
    let lo = le16(b, 124);
    let has_hi = b.len() > 128 && extra_isize >= 4;
    let hi = if has_hi && b.len() >= 132 {
        le16(b, 130)
    } else {
        0
    };
    let c1 = crc_update(seed, u32_le_bytes(number));
    let c2 = crc_update(c1, u32_le_bytes(le32(b, 100) as u32));
    let crc = crc_update(c2, checksum_zeroed(b, has_hi));
    if has_hi {
        crc == hi * 0x10000 + lo
    } else {
        crc % 0x10000 == lo
    }
}

/// Extra inode size recorded in `b`.
pub open spec fn extra_isize_of(b: Seq<u8>) -> int {
    if b.len() >= 130 {
        le16(b, 128)
    } else {
        0
    }
}

/// Whether the fields of `i` are those decoded from the bytes `b` of inode
/// `number` under `sb`.
pub open spec fn inode_matches(i: Inode, number: u32, b: Seq<u8>, sb: Superblock) -> bool {
    let mode = le16(b, 0);
    let dir = (mode as u16) & 0xF000u16 == 0x4000u16;
    let extra = extra_isize_of(b);
    &&& i.number == number
    &&& i.mode == mode
    &&& i.uid == le16(b, 2) + le16(b, 120) * 0x10000
    &&& i.gid == le16(b, 24) + le16(b, 122) * 0x10000
    &&& i.size == le32(b, 4) + if !dir || sb.feature_ro_compat & 0x40u32 != 0 || sb.rev_level > 0 {
        le32(b, 108) * 0x1_0000_0000
    } else {
        0
    }
    &&& i.atime == le32(b, 8)
    &&& i.ctime == le32(b, 12)
    &&& i.mtime == le32(b, 16)
    &&& i.dtime == le32(b, 20)
    &&& i.crtime == (if extra >= 24 && b.len() >= 148 {
        Some(le32(b, 144) as u32)
    } else {
        None
    })
    &&& i.links == le16(b, 26)
    &&& i.blocks == le32(b, 28) + if sb.feature_ro_compat & 0x8u32 != 0 {
        le16(b, 116) * 0x1_0000_0000
    } else {
        0
    }
    &&& i.flags == le32(b, 32)
    &&& i.generation == le32(b, 100)
    &&& i.i_block@ == b.subrange(40, 100)
    &&& i.extra_isize == extra
    &&& i.checksum_ok == (if sb.feature_ro_compat & 0x400u32 != 0 {
        Some(inode_checksum_ok(number, b, sb.csum_seed, extra as u16))
    } else {
        None
    })
}

/// Whether an inode describes any data: inline data; with extents a tree
/// header with at least one entry; else a non-zero block pointer.
pub open spec fn layout_present(i: Inode) -> bool {
    if i.flags & 0x1000_0000u32 != 0 {
        true
    } else if i.flags & 0x0008_0000u32 != 0 {
        i.i_block@.len() >= 2 && le16(i.i_block@, 0) == 0xF30A && i.i_block@.len() >= 4 && le16(
            i.i_block@,
            2,
        ) > 0
    } else {
        any_block_pointer(i.i_block@)
    }
}

/// The size an inode of mode `mode` records in its bytes `b`: the low 32
/// bits at byte 4 and the high 32 bits at byte 108, the high half left out
/// only for a directory on a revision 0 volume without large directories.
pub open spec fn full_size_of(mode: u16, b: Seq<u8>, sb: Superblock) -> int {
    let low = b[4] + 256 * b[5] + 65536 * b[6] + 16777216 * b[7];
    let high = b[108] + 256 * b[109] + 65536 * b[110] + 16777216 * b[111];
    if kind_of(mode) == InodeKind::Directory && sb.rev_level == 0 && sb.feature_ro_compat & 0x40u32 == 0 {
        low
    } else {
        low + high * 4294967296
    }
}

proof fn lemma_size_fields(m: u16, b: Seq<u8>, sb: Superblock)
    requires
        b.len() >= 128,
    ensures
        full_size_of(m, b, sb) == le32(b, 4) + (if (kind_of(m) == InodeKind::Directory) && sb.rev_level
            == 0 && sb.feature_ro_compat & 0x40u32 == 0 {
            0
        } else {
            le32(b, 108) * 4294967296
        }),
        (kind_of(m) == InodeKind::Directory) == (m & 0xF000u16 == 0x4000u16),
{
}

/// The size of a parsed inode is the 64-bit little-endian value split
/// between bytes 4..8 (low half) and 108..112 (high half); only a
/// directory on a revision 0 volume without large directories keeps just
/// the low half. So a regular file of 4 GiB or more keeps its full size.
pub proof fn lemma_inode_size(i: Inode, number: u32, b: Seq<u8>, sb: Superblock)
    requires
        b.len() >= 128,
        inode_matches(i, number, b, sb),
    ensures
        i.size == full_size_of(i.mode, b, sb),
        kind_of(i.mode) == InodeKind::Regular ==> i.size == (b[4] + 256 * b[5] + 65536 * b[6]
            + 16777216 * b[7]) + (b[108] + 256 * b[109] + 65536 * b[110] + 16777216 * b[111])
            * 4294967296,
{
    lemma_size_fields(i.mode, b, sb);
}

/// The fields the deleted-file decisions read sit at their on-disk
/// offsets: mode at 0, deletion time at 20, link count at 26, flags at 32,
/// generation at 100, and `i_block` the 60 bytes from 40.
pub proof fn lemma_inode_fields(i: Inode, number: u32, b: Seq<u8>, sb: Superblock)
    requires
        b.len() >= 128,
        inode_matches(i, number, b, sb),
    ensures
        i.number == number,
        i.mode == b[0] + 256 * b[1],
        i.dtime == b[20] + 256 * b[21] + 65536 * b[22] + 16777216 * b[23],
        i.links == b[26] + 256 * b[27],
        i.flags == b[32] + 256 * b[33] + 65536 * b[34] + 16777216 * b[35],
        i.mtime == b[16] + 256 * b[17] + 65536 * b[18] + 16777216 * b[19],
        i.generation == b[100] + 256 * b[101] + 65536 * b[102] + 16777216 * b[103],
        forall|k: int| 0 <= k < 60 ==> #[trigger] i.i_block@[k] == b[40 + k],
{
}

/// The kind of an inode of mode `mode`.
pub open spec fn kind_of(mode: u16) -> InodeKind {
    let t = mode & 0xF000u16;
    if t == 0 {
        InodeKind::Unused
    } else if t == 0x8000 {
        InodeKind::Regular
    } else if t == 0x4000 {
        InodeKind::Directory
    } else if t == 0xA000 {
        InodeKind::Symlink
    } else {
        InodeKind::Other
    }
}

/// Whether any of the first `min(15, len / 4)` four-byte block pointers of
/// `i_block` is non-zero.
pub open spec fn any_block_pointer(ib: Seq<u8>) -> bool {
    exists|k: int| 0 <= k < 15 && 4 * k + 4 <= ib.len() && #[trigger] pointer_nonzero(ib, k)
}

/// Whether the `k`-th four-byte block pointer of `ib` is non-zero.
pub open spec fn pointer_nonzero(ib: Seq<u8>, k: int) -> bool {
    ib[4 * k] != 0 || ib[4 * k + 1] != 0 || ib[4 * k + 2] != 0 || ib[4 * k + 3] != 0
}

fn le_bytes_of(n: u32) -> (v: Vec<u8>)
    ensures
        v@ == u32_le_bytes(n),
{
    let v = vec![
        (n % 256) as u8,
        ((n / 256) % 256) as u8,
        ((n / 65536) % 256) as u8,
        (n / 16777216) as u8,
    ];
    assert(v@ =~= u32_le_bytes(n));
    v
}

/// Verifies the crc32c inode checksum.
fn verify_checksum(number: u32, bytes: &[u8], seed: u32, extra_isize: u16) -> (r: bool)
    requires
        bytes@.len() >= 128,
    ensures
        r == inode_checksum_ok(number, bytes@, seed, extra_isize),
{
    let blen = bytes.len();
    let lo = read_u16(bytes, 124).unwrap();
    let has_hi = blen > 128 && extra_isize >= 4;
    let hi: u16 = if has_hi && blen >= 132 {
        read_u16(bytes, 130).unwrap()
    } else {
        0
    };
    let generation = read_u32(bytes, 100).unwrap();
    let nb = le_bytes_of(number);
    let gb = le_bytes_of(generation);
    let mut crc = update(seed, nb.as_slice());
    crc = update(crc, gb.as_slice());
    let mut copy: Vec<u8> = Vec::new();
    let mut i: usize = 0;
    while i < blen
        invariant
            blen == bytes@.len(),
            i <= blen,
            has_hi == (blen > 128 && extra_isize >= 4),
            copy@ =~= checksum_zeroed(bytes@, has_hi).subrange(0, i as int),
        decreases blen - i,
    {
        if (124 <= i && i < 126) || (has_hi && blen >= 132 && 130 <= i && i < 132) {
            copy.push(0);
        } else {
            copy.push(bytes[i]);
        }
        i = i + 1;
    }
    assert(copy@ =~= checksum_zeroed(bytes@, has_hi));
    crc = update(crc, copy.as_slice());
    if has_hi {
        crc == hi as u32 * 0x10000 + lo as u32
    } else {
        crc % 0x10000 == lo as u32
    }
}

impl Inode {
    /// Parses inode `number` from its on-disk bytes; `None` when fewer than
    /// 128 bytes are given.
    pub fn parse(number: u32, bytes: &[u8], sb: &Superblock) -> (r: Option<Self>)
        ensures
            match r {
                Some(i) => bytes@.len() >= 128 && inode_matches(i, number, bytes@, *sb),
                None => bytes@.len() < 128,
            },
            r matches Some(i) ==> i.size == full_size_of(i.mode, bytes@, *sb),
    {
        proof {
            if bytes@.len() >= 128 {
                let m = le16(bytes@, 0) as u16;
                lemma_size_fields(m, bytes@, *sb);
            }
        }
        let blen = bytes.len();
        if blen < 128 {
            return None;
        }
        let mode = read_u16(bytes, 0).unwrap();
        let kind_dir = mode & 0xF000 == 0x4000;
        let mut size = read_u32(bytes, 4).unwrap() as u64;
        if !kind_dir || sb.feature_ro_compat & 0x40 != 0 || sb.rev_level > 0 {
            size = size + read_u32(bytes, 108).unwrap() as u64 * 0x1_0000_0000;
        }
        let flags = read_u32(bytes, 32).unwrap();
        let mut blocks = read_u32(bytes, 28).unwrap() as u64;
        if sb.feature_ro_compat & 0x8 != 0 {
            blocks = blocks + read_u16(bytes, 116).unwrap() as u64 * 0x1_0000_0000;
        }
        let i_block = slice_to_vec_range(bytes, 40, 100);
        let extra_isize: u16 = if blen >= 130 {
            read_u16(bytes, 128).unwrap()
        } else {
            0
        };
        let crtime = if extra_isize >= 24 && blen >= 148 {
            Some(read_u32(bytes, 144).unwrap())
        } else {
            None
        };
        let checksum_ok = if sb.feature_ro_compat & 0x400 != 0 {
            Some(verify_checksum(number, bytes, sb.csum_seed, extra_isize))
        } else {
            None
        };
        Some(
            Inode {
                number,
                mode,
                uid: read_u16(bytes, 2).unwrap() as u32 + read_u16(bytes, 120).unwrap() as u32
                    * 0x10000,
                gid: read_u16(bytes, 24).unwrap() as u32 + read_u16(bytes, 122).unwrap() as u32
                    * 0x10000,
                size,
                atime: read_u32(bytes, 8).unwrap(),
                ctime: read_u32(bytes, 12).unwrap(),
                mtime: read_u32(bytes, 16).unwrap(),
                dtime: read_u32(bytes, 20).unwrap(),
                crtime,
                links: read_u16(bytes, 26).unwrap(),
                blocks,
                flags,
                generation: read_u32(bytes, 100).unwrap(),
                i_block,
                extra_isize,
                checksum_ok,
            },
        )
    }

    /// The kind of object.
    pub fn kind(&self) -> (k: InodeKind)
        ensures
            k == kind_of(self.mode),
    {
        let t = self.mode & 0xF000;
        if t == 0 {
            InodeKind::Unused
        } else if t == 0x8000 {
            InodeKind::Regular
        } else if t == 0x4000 {
            InodeKind::Directory
        } else if t == 0xA000 {
            InodeKind::Symlink
        } else {
            InodeKind::Other
        }
    }

    /// Whether the inode uses extents.
    pub fn uses_extents(&self) -> (r: bool)
        ensures
            r == (self.flags & 0x0008_0000u32 != 0),
    {
        self.flags & FLAG_EXTENTS != 0
    }

    /// Whether the data lives inline.
    pub fn inline_data(&self) -> (r: bool)
        ensures
            r == (self.flags & 0x1000_0000u32 != 0),
    {
        self.flags & FLAG_INLINE_DATA != 0
    }

    /// Whether the inode is deleted (a deletion time, or no links on a used
    /// inode).
    pub fn is_deleted(&self) -> (r: bool)
        ensures
            r == (self.dtime != 0 || (self.links == 0 && self.mode != 0)),
    {
        self.dtime != 0 || (self.links == 0 && self.mode != 0)
    }

    /// Whether the inode describes any data: inline data; with extents a
    /// tree header with at least one entry; else a non-zero block pointer.
    pub fn has_layout(&self) -> (r: bool)
        ensures
            r == layout_present(*self),
    {
        if self.inline_data() {
            return true;
        }
        let ib = self.i_block.as_slice();
        if self.uses_extents() {
            match read_u16(ib, 0) {
                Some(m) => m == EXTENT_MAGIC && match read_u16(ib, 2) {
                    Some(e) => e > 0,
                    None => false,
                },
                None => false,
            }
        } else {
            let n = ib.len();
            let mut k: usize = 0;
            while k < 15 && 4 * k + 4 <= n
                invariant
                    n == ib@.len(),
                    ib@ == self.i_block@,
                    self.flags & 0x1000_0000u32 == 0,
                    self.flags & 0x0008_0000u32 == 0,
                    k <= 15,
                    forall|j: int| 0 <= j < k ==> !#[trigger] pointer_nonzero(ib@, j),
                decreases 15 - k,
            {
                if ib[4 * k] != 0 || ib[4 * k + 1] != 0 || ib[4 * k + 2] != 0 || ib[4 * k + 3]
                    != 0 {
                    assert(pointer_nonzero(ib@, k as int));
                    assert(any_block_pointer(self.i_block@));
                    return true;
                }
                k = k + 1;
            }
            proof {
                assert forall|j: int|
                    0 <= j < 15 && 4 * j + 4 <= ib@.len() implies !#[trigger] pointer_nonzero(
                        ib@,
                        j,
                    ) by {
                    assert(j < k);
                }
            }
            false
        }
    }
}

} // verus!
