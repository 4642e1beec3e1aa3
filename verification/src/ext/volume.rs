//! Types shared by the walk of an ext volume and its undelete engine.

use vstd::prelude::*;

use crate::ext::dir::{block_entries, entry_matches, parse_block, DirEntry};
use crate::ext::error::ExtError;
use crate::ext::extent::Run;
use crate::ext::group::GroupDescriptor;
use crate::ext::inode::{inode_matches, kind_of, layout_present, Inode, InodeKind, FLAG_INDEX};
use crate::ext::group::descriptor_of;
use crate::ext::superblock::{groups_of, Superblock, INCOMPAT_FILETYPE};
use crate::extent::Extent;

verus! {

/// A directory entry found while walking the tree.
#[derive(Debug, Clone, PartialEq, Eq)]
pub struct WalkedEntry {
    /// POSIX path (`/docs/photo.jpg`).
    pub path: String,
    /// The directory entry.
    pub entry: DirEntry,
    /// Inode of the directory holding the entry.
    pub parent: u32,
    /// The entry lies in a directory that is itself deleted.
    pub via_deleted_directory: bool,
}

/// Where a layout came from.
#[derive(Debug, Clone, Copy, PartialEq, Eq, Structural)]
pub enum LayoutSource {
    /// The inode on disk.
    Inode,
    /// The data lives in the inode.
    Inline,
    /// An older copy of the inode from the journal.
    Journal {
        /// Transaction sequence.
        sequence: u32,
        /// Checksum of the logged block verified (None when untagged).
        checksum_ok: Option<bool>,
    },
}

/// The layout of a file.
#[derive(Debug, Clone, PartialEq, Eq)]
pub struct Layout {
    /// Runs in logical order (holes included).
    pub runs: Vec<Run>,
    /// Size in bytes.
    pub size: u64,
    /// Where it came from.
    pub source: LayoutSource,
    /// Inline bytes, for inline data.
    pub inline: Option<Vec<u8>>,
    /// The inode version the layout was read from.
    pub inode: Inode,
}

/// `a * b`, or `u64::MAX` when it does not fit.
pub open spec fn sat_mul(a: u64, b: u64) -> u64 {
    if a * b > u64::MAX {
        u64::MAX
    } else {
        (a * b) as u64
    }
}

fn saturating_mul(a: u64, b: u64) -> (r: u64)
    ensures
        r == sat_mul(a, b),
{
    match a.checked_mul(b) {
        Some(v) => v,
        None => u64::MAX,
    }
}

/// The byte extents of `runs` (blocks of `bs` bytes) for a file of `size`
/// bytes: each run with blocks on disk, in order, trimmed to the size,
/// stopping at the first run that starts at or past it.
pub open spec fn extents_from(runs: Seq<Run>, bs: u64, size: u64) -> Seq<Extent>
    decreases runs.len(),
{
    if runs.len() == 0 {
        Seq::empty()
    } else {
        let r = runs[0];
        match r.physical {
            None => extents_from(runs.skip(1), bs, size),
            Some(p) => {
                let start = sat_mul(r.logical, bs);
                if start >= size {
                    Seq::empty()
                } else {
                    let length = vstd::math::min(sat_mul(r.count, bs) as int, size - start);
                    seq![Extent { offset: sat_mul(p, bs), length: length as u64 }] + extents_from(
                        runs.skip(1),
                        bs,
                        size,
                    )
                }
            },
        }
    }
}

/// A hole of `count` blocks from logical block `logical`.
pub open spec fn hole(logical: u64, count: u64) -> Run {
    Run { logical, physical: None, count, uninitialized: false }
}

/// `runs` with every logical gap from block `next` made an explicit hole,
/// and a final hole up to `needed` blocks.
pub open spec fn dense_from(runs: Seq<Run>, next: u64, needed: u64) -> Seq<Run>
    decreases runs.len(),
{
    if runs.len() == 0 {
        if next < needed {
            seq![hole(next, (needed - next) as u64)]
        } else {
            Seq::empty()
        }
    } else {
        let r = runs[0];
        let gap = if r.logical > next {
            seq![hole(next, (r.logical - next) as u64)]
        } else {
            Seq::empty()
        };
        let end = if r.logical + r.count > u64::MAX {
            u64::MAX
        } else {
            (r.logical + r.count) as u64
        };
        gap + seq![r] + dense_from(runs.skip(1), if end > next {
            end
        } else {
            next
        }, needed)
    }
}

/// Whether the runs of a block map cover `needed` blocks from `next`
/// without a gap.
pub open spec fn covers_from(runs: Seq<Run>, next: u64, needed: u64) -> bool
    decreases runs.len(),
{
    if runs.len() == 0 {
        next >= needed
    } else if runs[0].logical != next {
        false
    } else {
        let n = if next + runs[0].count > u64::MAX {
            u64::MAX
        } else {
            (next + runs[0].count) as u64
        };
        n >= needed || covers_from(runs.skip(1), n, needed)
    }
}

/// Most bytes of one directory read.
pub const MAX_DIRECTORY_BYTES: u64 = 256 * 1024 * 1024;

/// `a + b`, or `u64::MAX` when it does not fit.
pub open spec fn sat_add(a: u64, b: u64) -> u64 {
    if a + b > u64::MAX {
        u64::MAX
    } else {
        (a + b) as u64
    }
}

/// The blocks of a directory's runs to read, at most `budget` of them, as
/// (block, whether it is the directory's first block): the blocks of each
/// run with blocks on disk in order; only a block that no hole and no
/// other block precedes is the first.
pub open spec fn dir_blocks_from(runs: Seq<Run>, first: bool, budget: nat) -> Seq<(u64, bool)>
    decreases runs.len(),
{
    if runs.len() == 0 || budget == 0 {
        Seq::empty()
    } else {
        let r = runs[0];
        match r.physical {
            None => dir_blocks_from(runs.skip(1), false, budget),
            Some(p) => {
                let k: nat = if r.count < budget {
                    r.count as nat
                } else {
                    budget
                };
                Seq::new(k, |i: int| (sat_add(p, i as u64), first && i == 0)) + dir_blocks_from(
                    runs.skip(1),
                    first && r.count == 0,
                    (budget - k) as nat,
                )
            },
        }
    }
}

/// The directory block to read for the planned block `x`.
pub open spec fn block_at(x: (u64, bool), bs: u64, indexed: bool) -> DirBlock {
    DirBlock { block: x.0, offset: (x.0 * bs) as u64, indexed_root: indexed && x.1 }
}

/// A directory block to read.
#[derive(Debug, Clone, Copy, PartialEq, Eq, Structural)]
pub struct DirBlock {
    /// Block number.
    pub block: u64,
    /// Byte offset in the volume.
    pub offset: u64,
    /// Whether the block is the root of an indexed (htree) directory.
    pub indexed_root: bool,
}

/// Whether an older copy of an inode still describes data: not deleted,
/// linked, with a mode and a layout, and with a size unless it is a
/// directory.
pub fn journal_copy_usable(old: &Inode) -> (b: bool)
    ensures
        b == (old.dtime == 0 && old.links != 0 && old.mode != 0 && layout_present(*old) && (old.size
            != 0 || kind_of(old.mode) == InodeKind::Directory)),
{
    if old.dtime != 0 || old.links == 0 || old.mode == 0 || !old.has_layout() {
        return false;
    }
    if old.size == 0 && old.kind() != InodeKind::Directory {
        return false;
    }
    true
}

/// Most block groups a volume may declare.
pub const MAX_GROUPS: u32 = 16777216;

/// The number of group descriptors to read: every block group, when there
/// are at most [`MAX_GROUPS`]; more is [`ExtError::InvalidSuperblock`].
pub fn groups_to_read(sb: &Superblock) -> (r: Result<u32, ExtError>)
    ensures
        match r {
            Ok(n) => n == groups_of(*sb) && n <= MAX_GROUPS,
            Err(e) => groups_of(*sb) > MAX_GROUPS && e is InvalidSuperblock,
        },
{
    let n = sb.group_count();
    if n > MAX_GROUPS {
        return Err(ExtError::InvalidSuperblock("too many block groups"));
    }
    Ok(n)
}

/// The group descriptor in `raw` (the `desc_size` bytes read for it):
/// [`ExtError::Malformed`] when too short or when its inode table lies
/// past the volume.
pub fn checked_descriptor(sb: &Superblock, raw: &[u8]) -> (r: Result<GroupDescriptor, ExtError>)
    ensures
        match r {
            Ok(d) => raw@.len() >= 30 && d == descriptor_of(raw@, sb.desc_size) && d.inode_table
                < sb.blocks_count,
            Err(e) => e is Malformed && (raw@.len() < 30 || descriptor_of(raw@, sb.desc_size).inode_table
                >= sb.blocks_count),
        },
{
    match GroupDescriptor::parse(raw, sb.desc_size) {
        None => Err(ExtError::Malformed { structure: "group descriptor", detail: "group unreadable" }),
        Some(d) => {
            if d.inode_table >= sb.blocks_count {
                Err(
                    ExtError::Malformed {
                        structure: "group descriptor",
                        detail: "inode table beyond the volume",
                    },
                )
            } else {
                Ok(d)
            }
        },
    }
}

/// The layout of an inode whose data lives in the inode itself: its first
/// `min(size, 60)` bytes of `i_block`; `None` for any other inode.
pub fn inline_layout(inode: Inode) -> (l: Option<Layout>)
    ensures
        match l {
            Some(l) => {
                &&& inode.flags & 0x1000_0000u32 != 0
                &&& l.runs@.len() == 0
                &&& l.size == inode.size
                &&& l.source == LayoutSource::Inline
                &&& l.inode == inode
                &&& l.inline matches Some(b) && b@ == inode.i_block@.take(
                    vstd::math::min(vstd::math::min(inode.size as int, 60), inode.i_block@.len() as int),
                )
            },
            None => inode.flags & 0x1000_0000u32 == 0,
        },
{
    if !inode.inline_data() {
        return None;
    }
    let n: usize = if inode.size < 60 {
        inode.size as usize
    } else {
        60
    };
    let m: usize = if n < inode.i_block.len() {
        n
    } else {
        inode.i_block.len()
    };
    let bytes = crate::ntfs::attribute::slice_to_vec_range(inode.i_block.as_slice(), 0, m);
    let size = inode.size;
    Some(Layout { runs: Vec::new(), size, source: LayoutSource::Inline, inline: Some(bytes), inode })
}

/// The layout of an inode from the runs its extent tree or block map gave.
pub fn mapped_layout(inode: Inode, runs: Vec<Run>) -> (l: Layout)
    ensures
        l.runs@ == runs@,
        l.size == inode.size,
        l.source == LayoutSource::Inode,
        l.inline is None,
        l.inode == inode,
{
    let size = inode.size;
    Layout { runs, size, source: LayoutSource::Inode, inline: None, inode }
}

/// The superblock and group descriptors of an ext volume.
#[derive(Debug, Clone)]
pub struct ExtVolume {
    sb: Superblock,
    groups: Vec<GroupDescriptor>,
}

impl ExtVolume {
    /// The superblock.
    pub closed spec fn spec_sb(&self) -> Superblock {
        self.sb
    }

    /// The group descriptors.
    pub closed spec fn spec_groups(&self) -> Seq<GroupDescriptor> {
        self.groups@
    }

    /// Whether the geometry is usable: groups hold inodes, blocks and
    /// inodes have a size.
    pub open spec fn wf(&self) -> bool {
        &&& self.spec_sb().inodes_per_group > 0
        &&& self.spec_sb().block_size > 0
        &&& self.spec_sb().inode_size > 0
    }

    /// A volume from its superblock and group descriptors.
    pub fn from_parts(sb: Superblock, groups: Vec<GroupDescriptor>) -> (v: Self)
        requires
            sb.inodes_per_group > 0,
            sb.block_size > 0,
            sb.inode_size > 0,
        ensures
            v.wf(),
            v.spec_sb() == sb,
            v.spec_groups() == groups@,
    {
        ExtVolume { sb, groups }
    }

    /// The superblock.
    pub fn superblock(&self) -> (s: &Superblock)
        ensures
            *s == self.spec_sb(),
    {
        &self.sb
    }

    /// The group descriptors.
    pub fn groups(&self) -> (g: &[GroupDescriptor])
        ensures
            g@ == self.spec_groups(),
    {
        self.groups.as_slice()
    }

    /// Block size in bytes.
    pub fn block_size(&self) -> (b: u32)
        ensures
            b == self.spec_sb().block_size,
    {
        self.sb.block_size
    }

    /// Byte offset of `inode` inside the volume, and the block holding it:
    /// out of range for inode 0, past the inode count or past the groups;
    /// an overflow when the offset or block does not fit in 64 bits.
    pub fn inode_location(&self, inode: u32) -> (r: Result<(u64, u64), ExtError>)
        requires
            self.wf(),
        ensures
            ({
                let sb = self.spec_sb();
                let index = inode - 1;
                let group = index / (sb.inodes_per_group as int);
                let byte = (index % (sb.inodes_per_group as int)) * sb.inode_size;
                if inode == 0 || inode > sb.inodes_count || group >= self.spec_groups().len() {
                    r == Err::<(u64, u64), ExtError>(ExtError::InodeOutOfRange(inode))
                } else {
                    let table = self.spec_groups()[group].inode_table;
                    let block = table + byte / (sb.block_size as int);
                    let offset = table * sb.block_size + byte;
                    if block > u64::MAX || offset > u64::MAX {
                        r == Err::<(u64, u64), ExtError>(ExtError::Overflow)
                    } else {
                        r == Ok::<(u64, u64), ExtError>((offset as u64, block as u64))
                    }
                }
            }),
    {
        if inode == 0 || inode > self.sb.inodes_count {
            return Err(ExtError::InodeOutOfRange(inode));
        }
        let index = (inode - 1) as u64;
        let ipg = self.sb.inodes_per_group as u64;
        let group = index / ipg;
        let within = index % ipg;
        if group >= self.groups.len() as u64 {
            return Err(ExtError::InodeOutOfRange(inode));
        }
        let desc = self.groups[group as usize];
        assert(within * (self.sb.inode_size as u64) <= u64::MAX) by (nonlinear_arith)
            requires
                within < ipg,
                ipg <= u32::MAX,
                self.sb.inode_size <= u16::MAX,
        ;
        let byte = within * (self.sb.inode_size as u64);
        let block = match desc.inode_table.checked_add(byte / (self.sb.block_size as u64)) {
            Some(b) => b,
            None => {
                return Err(ExtError::Overflow);
            },
        };
        let start = match self.sb.block_offset(desc.inode_table) {
            Ok(s) => s,
            Err(e) => {
                return Err(e);
            },
        };
        match start.checked_add(byte) {
            Some(offset) => Ok((offset, block)),
            None => Err(ExtError::Overflow),
        }
    }

    /// Parses inode `number` out of a copy of the inode-table block holding
    /// it: none for inode 0, or when the inode's bytes do not lie in the
    /// copy or are too few.
    pub fn inode_from_block(&self, number: u32, block_copy: &[u8]) -> (r: Option<Inode>)
        requires
            self.wf(),
        ensures
            ({
                let sb = self.spec_sb();
                let byte = ((number - 1) % (sb.inodes_per_group as int)) * sb.inode_size;
                let within = byte % (sb.block_size as int);
                let end = within + sb.inode_size;
                if number == 0 || end > block_copy@.len() || sb.inode_size < 128 {
                    r is None
                } else {
                    r matches Some(i) && inode_matches(i, number, block_copy@.subrange(within, end), sb)
                }
            }),
    {
        if number == 0 {
            return None;
        }
        let index = ((number - 1) as u64) % (self.sb.inodes_per_group as u64);
        assert(index * (self.sb.inode_size as u64) <= u64::MAX) by (nonlinear_arith)
            requires
                index < self.sb.inodes_per_group,
                self.sb.inodes_per_group <= u32::MAX,
                self.sb.inode_size <= u16::MAX,
        ;
        let byte = index * (self.sb.inode_size as u64);
        let within = byte % (self.sb.block_size as u64);
        let len = block_copy.len() as u64;
        let size = self.sb.inode_size as u64;
        if within > len || len - within < size {
            return None;
        }
        let raw = crate::ntfs::attribute::slice_to_vec_range(
            block_copy,
            within as usize,
            (within + size) as usize,
        );
        Inode::parse(number, raw.as_slice(), &self.sb)
    }

    /// Whether inode `n` can exist: it is numbered within the inode count
    /// and its group's inode table is initialized.
    pub fn inode_listed(&self, n: u32) -> (b: bool)
        requires
            self.wf(),
        ensures
            b == (1 <= n <= self.spec_sb().inodes_count && ((n - 1) / (self.spec_sb().inodes_per_group as int))
                < self.spec_groups().len() && !(self.spec_groups()[(n - 1) / (
            self.spec_sb().inodes_per_group as int)].flags & 1u16 != 0)),
    {
        if n == 0 || n > self.sb.inodes_count {
            return false;
        }
        let group = (n - 1) / self.sb.inodes_per_group;
        if group as usize >= self.groups.len() {
            return false;
        }
        !self.groups[group as usize].inode_uninit()
    }

    /// The entries of an inline directory (its bytes after the 4-byte
    /// parent), or none when the layout is not inline.
    pub fn inline_directory(&self, layout: &Layout) -> (r: Option<Vec<DirEntry>>)
        ensures
            match layout.inline {
                None => r is None,
                Some(bytes) => r matches Some(v) && ({
                    let body = if bytes@.len() >= 4 {
                        bytes@.skip(4)
                    } else {
                        Seq::empty()
                    };
                    let filetype = self.spec_sb().feature_incompat & 0x0002u32 != 0;
                    let fs = block_entries(body, filetype, false, self.spec_sb().inodes_count);
                    &&& v@.len() == fs.len()
                    &&& forall|i: int|
                        0 <= i < fs.len() ==> entry_matches(#[trigger] v@[i], fs[i], body, 0, filetype)
                }),
            },
    {
        match &layout.inline {
            None => None,
            Some(bytes) => {
                let filetype = self.sb.has_incompat(INCOMPAT_FILETYPE);
                let body = if bytes.len() >= 4 {
                    crate::ntfs::attribute::slice_to_vec_range(bytes.as_slice(), 4, bytes.len())
                } else {
                    Vec::new()
                };
                proof {
                    if bytes@.len() >= 4 {
                        assert(body@ =~= bytes@.skip(4));
                    } else {
                        assert(body@ =~= Seq::<u8>::empty());
                    }
                }
                Some(parse_block(body.as_slice(), 0, filetype, false, self.sb.inodes_count))
            },
        }
    }

    /// The blocks to read for a directory whose layout is not inline: the
    /// blocks of its runs (see [`dir_blocks_from`]) up to its size, at most
    /// [`MAX_DIRECTORY_BYTES`]; an overflow when a block's offset does not
    /// fit in 64 bits.
    pub fn directory_blocks(&self, layout: &Layout) -> (r: Result<Vec<DirBlock>, ExtError>)
        requires
            self.wf(),
        ensures
            ({
                let bs = self.spec_sb().block_size as int;
                let limit = vstd::math::min(layout.size as int, MAX_DIRECTORY_BYTES as int);
                let budget = ((limit + bs - 1) / bs) as nat;
                let plan = dir_blocks_from(layout.runs@, true, budget);
                let indexed = layout.inode.flags & 0x0000_1000u32 != 0;
                if exists|i: int| #![trigger plan[i]] 0 <= i < plan.len() && plan[i].0 * bs > u64::MAX {
                    r == Err::<Vec<DirBlock>, ExtError>(ExtError::Overflow)
                } else {
                    r matches Ok(v) && v@.len() == plan.len() && forall|i: int|
                        0 <= i < plan.len() ==> #[trigger] v@[i] == (DirBlock {
                            block: plan[i].0,
                            offset: (plan[i].0 * bs) as u64,
                            indexed_root: indexed && plan[i].1,
                        })
                }
            }),
    {
        let bs = self.sb.block_size as u64;
        let limit = if layout.size < MAX_DIRECTORY_BYTES {
            layout.size
        } else {
            MAX_DIRECTORY_BYTES
        };
        let budget0: u64 = limit / bs + if limit % bs != 0 {
            1
        } else {
            0
        };
        proof {
            assert(budget0 == (limit + bs - 1) / (bs as int)) by (nonlinear_arith)
                requires
                    bs >= 1,
                    budget0 == limit / bs + if limit % bs != 0 {
                        1int
                    } else {
                        0int
                    },
            ;
        }
        let indexed = layout.inode.flags & FLAG_INDEX != 0;
        let runs = &layout.runs;
        let ghost whole = dir_blocks_from(runs@, true, budget0 as nat);
        proof {
            let sbs = self.spec_sb().block_size as int;
            let slimit = vstd::math::min(layout.size as int, MAX_DIRECTORY_BYTES as int);
            assert(slimit == limit);
            assert(budget0 as nat == ((slimit + sbs - 1) / sbs) as nat);
            assert(whole == dir_blocks_from(layout.runs@, true, ((slimit + sbs - 1) / sbs) as nat));
        }
        let mut out: Vec<DirBlock> = Vec::new();
        let mut first = true;
        let mut budget = budget0;
        let n = runs.len();
        let mut i: usize = 0;
        assert(runs@.skip(0) =~= runs@);
        assert(whole.skip(0) =~= whole);
        while i < n
            invariant
                n == runs@.len(),
                i <= n,
                bs == self.spec_sb().block_size,
                bs >= 1,
                whole == dir_blocks_from(layout.runs@, true, ((vstd::math::min(layout.size as int, MAX_DIRECTORY_BYTES as int) + self.spec_sb().block_size - 1) / (self.spec_sb().block_size as int)) as nat),
                out@.len() <= whole.len(),
                whole.skip(out@.len() as int) == dir_blocks_from(runs@.skip(i as int), first, budget as nat),
                forall|k: int| 0 <= k < out@.len() ==> #[trigger] out@[k] == block_at(whole[k], bs, indexed),
                forall|k: int| 0 <= k < out@.len() ==> #[trigger] whole[k].0 * bs <= u64::MAX,
            ensures
                i == n || budget == 0,
            decreases n - i,
        {
            if budget == 0 {
                break;
            }
            let r = runs[i];
            assert(runs@.skip(i as int)[0] == r);
            assert(runs@.skip(i as int).skip(1) =~= runs@.skip(i + 1));
            match r.physical {
                None => {
                    first = false;
                },
                Some(p) => {
                    let k: u64 = if r.count < budget {
                        r.count
                    } else {
                        budget
                    };
                    let ghost start = out@.len() as int;
                    let ghost seg = Seq::new(k as nat, |q: int| (sat_add(p, q as u64), first && q == 0));
                    let ghost rest = dir_blocks_from(runs@.skip(i + 1), first && r.count == 0, (budget - k) as nat);
                    assert(whole.skip(start) == seg + rest);
                    let mut j: u64 = 0;
                    while j < k
                        invariant
                            j <= k,
                            seg.len() == k,
                            seg == Seq::new(k as nat, |q: int| (sat_add(p, q as u64), first && q == 0)),
                            0 <= start <= whole.len(),
                            whole.skip(start) == seg + rest,
                            start + j == out@.len(),
                            out@.len() <= whole.len(),
                            whole == dir_blocks_from(layout.runs@, true, ((vstd::math::min(layout.size as int, MAX_DIRECTORY_BYTES as int) + self.spec_sb().block_size - 1) / (self.spec_sb().block_size as int)) as nat),

                            bs == self.spec_sb().block_size,
                            bs >= 1,
                            forall|q: int| 0 <= q < out@.len() ==> #[trigger] out@[q] == block_at(whole[q], bs, indexed),
                            forall|q: int| 0 <= q < out@.len() ==> #[trigger] whole[q].0 * bs <= u64::MAX,
                        decreases k - j,
                    {
                        let block = match p.checked_add(j) {
                            Some(b) => b,
                            None => u64::MAX,
                        };
                        assert(whole.skip(start).len() == seg.len() + rest.len());
                        assert(whole.skip(start)[j as int] == seg[j as int]);
                        assert(whole[start + j] == whole.skip(start)[j as int]);
                        assert(seg[j as int] == (block, first && j == 0));
                        let offset = match block.checked_mul(bs) {
                            Some(o) => o,
                            None => {
                                proof {
                                    assert(whole[start + j].0 * bs > u64::MAX);
                                }
                                return Err(ExtError::Overflow);
                            },
                        };
                        let ghost old_out = out@;
                        out.push(DirBlock { block, offset, indexed_root: indexed && first && j == 0 });
                        proof {
                            assert forall|q: int| 0 <= q < out@.len() implies #[trigger] out@[q] == block_at(
                                whole[q],
                                bs,
                                indexed,
                            ) by {
                                if q < old_out.len() {
                                    assert(out@[q] == old_out[q]);
                                }
                            }
                        }
                        j = j + 1;
                    }
                    proof {
                        assert(whole.skip(out@.len() as int) =~= rest) by {
                            assert(whole.skip(start).skip(k as int) =~= whole.skip(start + k));
                            assert((seg + rest).skip(k as int) =~= rest);
                        }
                    }
                    budget = budget - k;
                    first = first && r.count == 0;
                },
            }
            i = i + 1;
        }
        proof {
            if i == n {
                assert(runs@.skip(n as int).len() == 0);
            }
            assert(whole.skip(out@.len() as int).len() == 0);
            assert forall|q: int| 0 <= q < whole.len() implies !(#[trigger] whole[q].0 * bs > u64::MAX) by {
                assert(whole[q].0 * bs <= u64::MAX);
            }
        }
        Ok(out)
    }

    /// The byte extents of a layout (see [`extents_from`]).
    pub fn extents_of(&self, layout: &Layout) -> (v: Vec<Extent>)
        ensures
            v@ == extents_from(layout.runs@, self.spec_sb().block_size as u64, layout.size),
    {
        let bs = self.sb.block_size as u64;
        let runs = &layout.runs;
        let mut out: Vec<Extent> = Vec::new();
        let n = runs.len();
        let mut i: usize = 0;
        assert(runs@.skip(0) =~= runs@);
        while i < n
            invariant_except_break
                extents_from(runs@, bs, layout.size) == out@ + extents_from(runs@.skip(i as int), bs, layout.size),
            invariant
                n == runs@.len(),
                i <= n,
                bs == self.spec_sb().block_size,
            ensures
                extents_from(runs@, bs, layout.size) == out@,
            decreases n - i,
        {
            let r = runs[i];
            assert(runs@.skip(i as int)[0] == r);
            assert(runs@.skip(i as int).skip(1) =~= runs@.skip(i + 1));
            match r.physical {
                None => {},
                Some(p) => {
                    let start = saturating_mul(r.logical, bs);
                    if start >= layout.size {
                        assert(out@ + Seq::<Extent>::empty() =~= out@);
                        break;
                    }
                    let full = saturating_mul(r.count, bs);
                    let left = layout.size - start;
                    let length = if full < left {
                        full
                    } else {
                        left
                    };
                    let ghost before = out@;
                    out.push(Extent { offset: saturating_mul(p, bs), length });
                    assert(before + (seq![Extent { offset: sat_mul(p, bs), length }] + extents_from(
                        runs@.skip(i + 1),
                        bs,
                        layout.size,
                    )) =~= out@ + extents_from(runs@.skip(i + 1), bs, layout.size));
                },
            }
            i = i + 1;
        }
        proof {
            if i == n {
                assert(runs@.skip(n as int).len() == 0);
                assert(out@ + Seq::<Extent>::empty() =~= out@);
            }
        }
        out
    }

    /// The runs of a layout with every logical gap made an explicit hole,
    /// up to the blocks the size needs (see [`dense_from`]).
    pub fn dense_runs(&self, layout: &Layout) -> (v: Vec<Run>)
        requires
            self.wf(),
        ensures
            v@ == dense_from(layout.runs@, 0, ((layout.size + self.spec_sb().block_size - 1) / (
            self.spec_sb().block_size as int)) as u64),
    {
        let bs = self.sb.block_size as u64;
        proof {
            assert(layout.size % bs != 0 ==> layout.size / bs < u64::MAX) by (nonlinear_arith)
                requires
                    bs >= 1,
            ;
        }
        let needed = layout.size / bs + if layout.size % bs != 0 {
            1
        } else {
            0
        };
        proof {
            assert(needed == (layout.size + bs - 1) / (bs as int)) by (nonlinear_arith)
                requires
                    bs >= 1,
                    needed == layout.size / bs + if layout.size % bs != 0 {
                        1int
                    } else {
                        0int
                    },
            ;
        }
        let runs = &layout.runs;
        let mut out: Vec<Run> = Vec::new();
        let mut next: u64 = 0;
        let n = runs.len();
        let mut i: usize = 0;
        assert(runs@.skip(0) =~= runs@);
        while i < n
            invariant
                n == runs@.len(),
                i <= n,
                dense_from(runs@, 0, needed) == out@ + dense_from(runs@.skip(i as int), next, needed),
            decreases n - i,
        {
            let r = runs[i];
            assert(runs@.skip(i as int)[0] == r);
            assert(runs@.skip(i as int).skip(1) =~= runs@.skip(i + 1));
            let ghost before = out@;
            let ghost next0 = next;
            if r.logical > next {
                out.push(Run { logical: next, physical: None, count: r.logical - next, uninitialized: false });
            }
            out.push(r);
            let end = match r.logical.checked_add(r.count) {
                Some(e) => e,
                None => u64::MAX,
            };
            if end > next {
                next = end;
            }
            proof {
                let gap = if r.logical > next0 {
                    seq![hole(next0, (r.logical - next0) as u64)]
                } else {
                    Seq::empty()
                };
                assert(out@ =~= before + gap + seq![r]);
                assert(before + (gap + seq![r] + dense_from(runs@.skip(i + 1), next, needed)) =~= out@
                    + dense_from(runs@.skip(i + 1), next, needed));
            }
            i = i + 1;
        }
        assert(runs@.skip(n as int).len() == 0);
        let ghost before = out@;
        if next < needed {
            out.push(Run { logical: next, physical: None, count: needed - next, uninitialized: false });
        }
        assert(out@ =~= before + dense_from(runs@.skip(n as int), next, needed));
        out
    }

    /// Whether the layout covers its whole size: inline data and extent
    /// trees always do (a gap in a tree is a hole); a block map must cover
    /// every block the size needs (see [`covers_from`]).
    pub fn layout_complete(&self, layout: &Layout) -> (b: bool)
        requires
            self.wf(),
        ensures
            b == (layout.inline is Some || layout.inode.flags & 0x0008_0000u32 != 0 || covers_from(
                layout.runs@,
                0,
                ((layout.size + self.spec_sb().block_size - 1) / (self.spec_sb().block_size as int)) as u64,
            )),
    {
        if layout.inline.is_some() || layout.inode.uses_extents() {
            return true;
        }
        let bs = self.sb.block_size as u64;
        proof {
            assert(layout.size % bs != 0 ==> layout.size / bs < u64::MAX) by (nonlinear_arith)
                requires
                    bs >= 1,
            ;
        }
        let needed = layout.size / bs + if layout.size % bs != 0 {
            1
        } else {
            0
        };
        proof {
            assert(needed == (layout.size + bs - 1) / (bs as int)) by (nonlinear_arith)
                requires
                    bs >= 1,
                    needed == layout.size / bs + if layout.size % bs != 0 {
                        1int
                    } else {
                        0int
                    },
            ;
        }
        let runs = &layout.runs;
        let mut next: u64 = 0;
        let n = runs.len();
        let mut i: usize = 0;
        let mut done: Option<bool> = None;
        assert(runs@.skip(0) =~= runs@);
        while i < n
            invariant_except_break
                done is None,
            invariant
                n == runs@.len(),
                i <= n,
                done is None ==> covers_from(runs@, 0, needed) == covers_from(runs@.skip(i as int), next, needed),
                done matches Some(v) ==> v == covers_from(runs@, 0, needed),
            ensures
                done is None ==> i == n,
            decreases n - i,
        {
            let r = runs[i];
            assert(runs@.skip(i as int)[0] == r);
            assert(runs@.skip(i as int).skip(1) =~= runs@.skip(i + 1));
            if r.logical != next {
                done = Some(false);
                break;
            }
            next = match next.checked_add(r.count) {
                Some(v) => v,
                None => u64::MAX,
            };
            if next >= needed {
                done = Some(true);
                break;
            }
            i = i + 1;
        }
        match done {
            Some(v) => v,
            None => {
                assert(runs@.skip(n as int).len() == 0);
                next >= needed
            },
        }
    }
}

} // verus!
