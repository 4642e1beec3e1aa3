//! Finding the deleted objects of an ext volume. Three sources are joined
//! per inode number: the inode tables (deleted regular or cleared inodes),
//! directory entries naming deleted objects (slack entries, and entries
//! inside deleted directories), and the journal's older copies of the
//! inode. The steps here decide; the caller reads what they ask for.

use vstd::prelude::*;

use crate::bytes::{le16, le32};
use crate::ext::error::ExtError;
use crate::ext::group::GroupDescriptor;
use crate::ext::inode::{inode_matches, kind_of, layout_present, Inode, InodeKind};
use crate::ext::journal::LoggedBlock;
use crate::ext::superblock::Superblock;
use crate::ext::undelete::{version_of, DeletedInode};
use crate::ext::volume::{Layout, WalkedEntry};

verus! {

/// Whether an inode is deleted: a deletion time, or no links on a used
/// inode.
pub open spec fn deleted_inode(i: Inode) -> bool {
    i.dtime != 0 || (i.links == 0 && i.mode != 0)
}

/// The lowest inode number an ordinary file can have.
pub open spec fn first_file_inode(sb: Superblock) -> int {
    if sb.first_ino > 1 {
        sb.first_ino as int
    } else {
        1
    }
}

/// Whether a directory entry names a deleted object: a non-directory entry
/// with an inode, itself deleted or inside a deleted directory.
pub fn names_deleted_object(w: &WalkedEntry) -> (b: bool)
    ensures
        b == (w.entry.inode != 0 && w.entry.file_type != Some(2u8) && (w.entry.deleted
            || w.via_deleted_directory)),
{
    w.entry.inode != 0 && !w.entry.is_directory() && (w.entry.deleted || w.via_deleted_directory)
}

/// Whether a directory's layout is read from the inode itself (alive and
/// describing data) rather than from the journal.
pub fn directory_layout_in_place(i: &Inode) -> (b: bool)
    ensures
        b == (!deleted_inode(*i) && layout_present(*i)),
{
    !i.is_deleted() && i.has_layout()
}

/// Whether inode `number`, found in an inode table, is a deleted file: it
/// is deleted, a regular file or cleared, and not a reserved inode.
pub fn inode_is_candidate(i: &Inode, number: u32, sb: &Superblock) -> (b: bool)
    ensures
        b == (deleted_inode(*i) && (kind_of(i.mode) == InodeKind::Regular || kind_of(i.mode)
            == InodeKind::Unused) && number >= first_file_inode(*sb)),
{
    let k = i.kind();
    let lowest = if sb.first_ino > 1 {
        sb.first_ino
    } else {
        1
    };
    i.is_deleted() && (k == InodeKind::Regular || k == InodeKind::Unused) && number >= lowest
}

/// Where a group's inode table is scanned.
#[derive(Debug, Clone, Copy, PartialEq, Eq, Structural)]
pub struct ScanRange {
    /// Number of the first inode of the group.
    pub first: u32,
    /// How many slots are scanned: the table less its never-used tail.
    pub used: u32,
}

/// The inode slots of group `group` to scan: none when inodes are not
/// described (no inode size or no inodes per group) or the group's table
/// is uninitialised; otherwise from the group's first inode, the table
/// less its never-used tail. Fails with [`ExtError::Overflow`] when the
/// first inode number does not fit.
pub fn group_scan_range(group: u32, desc: &GroupDescriptor, sb: &Superblock) -> (r: Result<
    Option<ScanRange>,
    ExtError,
>)
    ensures
        match r {
            Ok(None) => sb.inode_size == 0 || sb.inodes_per_group == 0 || desc.flags & 1u16 != 0,
            Ok(Some(s)) => {
                &&& sb.inode_size != 0 && sb.inodes_per_group != 0 && desc.flags & 1u16 == 0
                &&& s.first == group * sb.inodes_per_group + 1
                &&& s.used == sb.inodes_per_group - (if desc.itable_unused < sb.inodes_per_group {
                    desc.itable_unused
                } else {
                    sb.inodes_per_group
                })
            },
            Err(e) => {
                &&& sb.inode_size != 0 && sb.inodes_per_group != 0 && desc.flags & 1u16 == 0
                &&& group * sb.inodes_per_group + 1 > u32::MAX
                &&& e is Overflow
            },
        },
{
    let per_group = sb.inodes_per_group;
    if sb.inode_size == 0 || per_group == 0 || desc.inode_uninit() {
        return Ok(None);
    }
    let first = match group.checked_mul(per_group) {
        Some(n) => match n.checked_add(1) {
            Some(f) => f,
            None => return Err(ExtError::Overflow),
        },
        None => return Err(ExtError::Overflow),
    };
    let unused = if desc.itable_unused < per_group {
        desc.itable_unused
    } else {
        per_group
    };
    Ok(Some(ScanRange { first, used: per_group - unused }))
}

/// Whether the slot bytes `b` hold a deleted file for inode `number` (see
/// [`inode_is_candidate`]): a full base inode whose mode, deletion time and
/// link count say so.
pub open spec fn slot_is_candidate(b: Seq<u8>, number: int, sb: Superblock) -> bool {
    let mode = le16(b, 0) as u16;
    let dtime = le32(b, 20);
    let links = le16(b, 26);
    &&& b.len() >= 128
    &&& dtime != 0 || (links == 0 && mode != 0)
    &&& kind_of(mode) == InodeKind::Regular || kind_of(mode) == InodeKind::Unused
    &&& number >= first_file_inode(sb)
}

/// Slot `k` of a chunk of inode-table bytes.
pub open spec fn slot(b: Seq<u8>, size: int, k: int) -> Seq<u8> {
    b.subrange(k * size, (k + 1) * size)
}

/// The numbers of the deleted files among the first `k` slots of a chunk
/// whose first slot is inode `first`, up to the volume's inode count.
pub open spec fn chunk_candidates(b: Seq<u8>, size: int, first: int, sb: Superblock, k: int) -> Seq<
    u32,
>
    decreases k,
{
    if k <= 0 {
        Seq::empty()
    } else {
        let prev = chunk_candidates(b, size, first, sb, k - 1);
        let n = first + k - 1;
        if n <= sb.inodes_count && slot_is_candidate(slot(b, size, k - 1), n, sb) {
            prev.push(n as u32)
        } else {
            prev
        }
    }
}

proof fn lemma_slot_len(b: Seq<u8>, size: int, k: int)
    requires
        size > 0,
        0 <= k,
        (k + 1) * size <= b.len(),
    ensures
        0 <= k * size,
        k * size + size <= b.len(),
        (k + 1) * size == k * size + size,
        slot(b, size, k) == b.subrange(k * size, k * size + size),
        slot(b, size, k).len() == size,
{
    assert(0 <= k * size) by (nonlinear_arith)
        requires
            size > 0,
            0 <= k,
    ;
    assert((k + 1) * size == k * size + size) by (nonlinear_arith);
}

/// The deleted files among the slots of `chunk`, a run of inode-table
/// bytes whose first slot is inode `first`: each whole slot is parsed and
/// kept when [`inode_is_candidate`] holds, stopping past the volume's
/// inode count. Fails with [`ExtError::Overflow`] when an inode number to
/// look at does not fit (only a volume declaring `u32::MAX` inodes gets
/// there).
pub fn candidates_in_chunk(chunk: &[u8], first: u32, sb: &Superblock) -> (r: Result<Vec<u32>, ExtError>)
    requires
        sb.inode_size > 0,
    ensures
        ({
            let count = (chunk@.len() as int) / (sb.inode_size as int);
            match r {
                Ok(v) => v@ == chunk_candidates(chunk@, sb.inode_size as int, first as int, *sb, count),
                Err(e) => e is Overflow && sb.inodes_count == u32::MAX && first + count
                    > 0x1_0000_0000,
            }
        }),
{
    let size = sb.inode_size as usize;
    let clen = chunk.len();
    let count = clen / size;
    let mut out: Vec<u32> = Vec::new();
    let mut k: usize = 0;
    while k < count
        invariant
            size == sb.inode_size as int,
            size > 0,
            clen == chunk@.len(),
            count == (chunk@.len() as int) / (size as int),
            k <= count,
            k > 0 ==> first + k - 1 <= sb.inodes_count,
            out@ == chunk_candidates(chunk@, size as int, first as int, *sb, k as int),
        decreases count - k,
    {
        let n = first as u64 + k as u64;
        if n > u32::MAX as u64 {
            assert(first + count > 0x1_0000_0000);
            return Err(ExtError::Overflow);
        }
        if n > sb.inodes_count as u64 {
            proof {
                assert forall|j: int| k <= j <= count implies chunk_candidates(
                    chunk@,
                    size as int,
                    first as int,
                    *sb,
                    j,
                ) == out@ by {
                    lemma_past_count(chunk@, size as int, first as int, *sb, k as int, j);
                }
            }
            return Ok(out);
        }
        proof {
            assert((k + 1) * size <= count * size) by (nonlinear_arith)
                requires
                    k < count,
                    size > 0,
            ;
            assert(count * size <= chunk@.len()) by (nonlinear_arith)
                requires
                    count == (chunk@.len() as int) / (size as int),
                    size > 0,
            ;
            lemma_slot_len(chunk@, size as int, k as int);
            assert((k as int) * (size as int) + (size as int) <= chunk@.len());
        }
        assert(k * size + size <= clen);
        let start = k * size;
        let bytes = slice_range(chunk, start, start + size);
        assert(bytes@ == slot(chunk@, size as int, k as int));
        match Inode::parse(n as u32, bytes.as_slice(), sb) {
            Some(inode) => {
                if inode_is_candidate(&inode, n as u32, sb) {
                    out.push(n as u32);
                }
                proof {
                    assert(inode_matches(inode, n as u32, bytes@, *sb));
                }
            },
            None => {},
        }
        k = k + 1;
    }
    Ok(out)
}

proof fn lemma_past_count(b: Seq<u8>, size: int, first: int, sb: Superblock, k: int, j: int)
    requires
        0 <= k <= j,
        first + k > sb.inodes_count,
    ensures
        chunk_candidates(b, size, first, sb, j) == chunk_candidates(b, size, first, sb, k),
    decreases j - k,
{
    if j > k {
        lemma_past_count(b, size, first, sb, k, j - 1);
    }
}

/// The bytes `b[start..end]`.
fn slice_range(b: &[u8], start: usize, end: usize) -> (v: Vec<u8>)
    requires
        start <= end <= b@.len(),
    ensures
        v@ == b@.subrange(start as int, end as int),
{
    let mut v: Vec<u8> = Vec::new();
    let mut i = start;
    while i < end
        invariant
            start <= i <= end <= b@.len(),
            v@ == b@.subrange(start as int, i as int),
        decreases end - i,
    {
        v.push(b[i]);
        assert(v@ =~= b@.subrange(start as int, i + 1));
        i = i + 1;
    }
    v
}

/// What to do to describe inode `number` as a deleted object.
#[derive(Debug, Clone, Copy, PartialEq, Eq, Structural)]
pub enum AssemblePlan {
    /// A deleted inode that still describes data: use its own layout.
    OwnLayout,
    /// A deleted inode whose layout was cleared: use the newest journal
    /// copy of the same generation.
    JournalSameGeneration(u32),
    /// A cleared inode named by a deleted entry: use the newest journal
    /// copy.
    AnyJournal,
    /// A live inode named by a deleted entry: the name belongs to an
    /// earlier file only if the journal holds a copy of another generation.
    JournalOtherGeneration(u32),
    /// Nothing deleted can be described.
    Skip,
}

/// The plan for an inode as it is now, `named` when a directory entry
/// naming a deleted object refers to it.
pub open spec fn plan_of(current: Inode, named: bool) -> AssemblePlan {
    if deleted_inode(current) {
        if layout_present(current) {
            AssemblePlan::OwnLayout
        } else {
            AssemblePlan::JournalSameGeneration(current.generation)
        }
    } else if !named {
        AssemblePlan::Skip
    } else if current.mode == 0 {
        AssemblePlan::AnyJournal
    } else {
        AssemblePlan::JournalOtherGeneration(current.generation)
    }
}

/// Decides how inode `current` is described (see [`plan_of`]).
pub fn assemble_plan(current: &Inode, named: bool) -> (p: AssemblePlan)
    ensures
        p == plan_of(*current, named),
{
    if current.is_deleted() {
        if current.has_layout() {
            AssemblePlan::OwnLayout
        } else {
            AssemblePlan::JournalSameGeneration(current.generation)
        }
    } else if !named {
        AssemblePlan::Skip
    } else if current.mode == 0 {
        AssemblePlan::AnyJournal
    } else {
        AssemblePlan::JournalOtherGeneration(current.generation)
    }
}

/// Whether a journal copy `old` is one the plan looks for.
pub fn journal_copy_accepted(plan: AssemblePlan, old: &Inode) -> (b: bool)
    ensures
        b == match plan {
            AssemblePlan::JournalSameGeneration(g) => old.generation == g,
            AssemblePlan::AnyJournal => true,
            AssemblePlan::JournalOtherGeneration(g) => old.generation != g,
            _ => false,
        },
{
    match plan {
        AssemblePlan::JournalSameGeneration(g) => old.generation == g,
        AssemblePlan::AnyJournal => true,
        AssemblePlan::JournalOtherGeneration(g) => old.generation != g,
        _ => false,
    }
}

/// Whether a journal copy shows the file of generation `generation` alive:
/// same generation, no deletion time, linked, a regular file.
pub open spec fn live_copy_of(old: Inode, generation: u32) -> bool {
    old.generation == generation && old.dtime == 0 && old.links > 0 && kind_of(old.mode)
        == InodeKind::Regular
}

/// Whether the first copy in `versions` (newest first) showing the file
/// alive shows it empty: no size and no layout. False when none does.
pub open spec fn known_empty_in(versions: Seq<(LoggedBlock, Inode)>, generation: u32) -> bool
    decreases versions.len(),
{
    if versions.len() == 0 {
        false
    } else if live_copy_of(versions[0].1, generation) {
        versions[0].1.size == 0 && !layout_present(versions[0].1)
    } else {
        known_empty_in(versions.drop_first(), generation)
    }
}

/// Whether the journal shows the file of generation `generation` was empty
/// when alive (see [`known_empty_in`]).
pub fn known_empty_of(versions: &[(LoggedBlock, Inode)], generation: u32) -> (b: bool)
    ensures
        b == known_empty_in(versions@, generation),
{
    let n = versions.len();
    let mut i: usize = 0;
    assert(versions@.subrange(0, n as int) =~= versions@);
    while i < n
        invariant
            n == versions@.len(),
            i <= n,
            known_empty_in(versions@, generation) == known_empty_in(
                versions@.subrange(i as int, n as int),
                generation,
            ),
        decreases n - i,
    {
        let old = &versions[i].1;
        let ghost rest = versions@.subrange(i as int, n as int);
        assert(rest[0] == versions@[i as int]);
        if old.generation == generation && old.dtime == 0 && old.links > 0 && old.kind()
            == InodeKind::Regular {
            return old.size == 0 && !old.has_layout();
        }
        assert(rest.drop_first() =~= versions@.subrange(i + 1, n as int));
        i = i + 1;
    }
    assert(versions@.subrange(n as int, n as int).len() == 0);
    false
}

/// Whether an assembled object is kept: the version it describes is a
/// regular file, or a cleared inode that a deleted entry names.
pub open spec fn kept(d: DeletedInode, named: bool) -> bool {
    match version_of(d) {
        Some(i) => kind_of(i.mode) == InodeKind::Regular || (kind_of(i.mode) == InodeKind::Unused
            && named),
        None => false,
    }
}

/// Whether `d` is kept as a deleted object (see [`kept`]).
pub fn keep_deleted(d: &DeletedInode, named: bool) -> (b: bool)
    ensures
        b == kept(*d, named),
{
    match d.version() {
        Some(i) => {
            let k = i.kind();
            k == InodeKind::Regular || (k == InodeKind::Unused && named)
        },
        None => false,
    }
}

/// The deleted object for inode `number` as it is now (`current`), from
/// the layout the plan found (`layout`: the inode's own, or a journal
/// copy's), the entries naming it, and whether the journal shows it empty
/// (looked at only when a cleared inode's journal copy is missing). `None`
/// when the plan skips it, when a live inode has no earlier copy, or when
/// it is not kept (see [`kept`]).
pub fn assemble_deleted(
    number: u32,
    current: Inode,
    plan: AssemblePlan,
    layout: Option<Layout>,
    names: Vec<WalkedEntry>,
    known_empty: bool,
) -> (r: Option<DeletedInode>)
    ensures
        ({
            let named = names@.len() > 0;
            let d = DeletedInode {
                number,
                current: Some(current),
                layout,
                names,
                reused: plan is JournalOtherGeneration,
                known_empty: plan is JournalSameGeneration && layout is None && known_empty,
            };
            if plan is Skip || (plan is JournalOtherGeneration && layout is None) || !kept(
                d,
                named,
            ) {
                r is None
            } else {
                r == Some(d)
            }
        }),
{
    let skip = match plan {
        AssemblePlan::Skip => true,
        AssemblePlan::JournalOtherGeneration(_) => layout.is_none(),
        _ => false,
    };
    let reused = match plan {
        AssemblePlan::JournalOtherGeneration(_) => true,
        _ => false,
    };
    let empty = match plan {
        AssemblePlan::JournalSameGeneration(_) => layout.is_none() && known_empty,
        _ => false,
    };
    let named = names.len() > 0;
    let d = DeletedInode { number, current: Some(current), layout, names, reused, known_empty: empty };
    if skip || !keep_deleted(&d, named) {
        None
    } else {
        Some(d)
    }
}

} // verus!
