//! Linear directory blocks, including the entries hidden in the slack of
//! live entries: `ext4_delete_entry` folds a removed entry into the
//! previous entry's record length without erasing its bytes.

use vstd::prelude::*;

use crate::bytes::{le16, le32, read_u16, read_u32};
use crate::ntfs::attribute::slice_to_vec_range;
use crate::text::{string_from_utf8_lossy, utf8_lossy};

verus! {

/// A directory entry.
#[derive(Debug, Clone, PartialEq, Eq)]
pub struct DirEntry {
    /// Inode number (0 = unused slot or a deleted first entry).
    pub inode: u32,
    /// Name.
    pub name: String,
    /// File type from the entry (1 regular, 2 directory, 7 symlink), if
    /// the filesystem stores it.
    pub file_type: Option<u8>,
    /// The entry was found in slack space: it was deleted.
    pub deleted: bool,
    /// Byte offset of the entry inside the volume.
    pub offset: u64,
    /// First and last journal transaction whose copy of the block holds
    /// the entry live, when the journal has copies of the block.
    pub alive_in: Option<(u32, u32)>,
}

impl DirEntry {
    /// Whether the name is `.` or `..`.
    pub fn is_dot(&self) -> (r: bool)
        ensures
            r == (self.name@ == seq!['.'] || self.name@ == seq!['.', '.']),
    {
        let dot = ".".to_owned();
        let dotdot = "..".to_owned();
        proof {
            reveal_strlit(".");
            reveal_strlit("..");
            assert("."@ =~= seq!['.']);
            assert(".."@ =~= seq!['.', '.']);
        }
        self.name == dot || self.name == dotdot
    }

    /// Whether the entry names a directory (file type 2).
    pub fn is_directory(&self) -> (r: bool)
        ensures
            r == (self.file_type == Some(2u8)),
    {
        match self.file_type {
            Some(t) => t == 2,
            None => false,
        }
    }
}

/// Whether `name` looks like a real file name: not empty, no NUL, no `/`,
/// no control character.
pub open spec fn plausible(name: Seq<u8>) -> bool {
    name.len() > 0 && forall|i: int|
        0 <= i < name.len() ==> #[trigger] name[i] != 0x2F && name[i] >= 0x20 && name[i] != 0x7F
}

/// Whether `bytes[start..start + len]` looks like a real file name.
fn plausible_name(bytes: &[u8], start: usize, len: usize) -> (r: bool)
    requires
        start + len <= bytes@.len(),
    ensures
        r == plausible(bytes@.subrange(start as int, start + len)),
{
    let blen = bytes.len();
    if len == 0 {
        return false;
    }
    let ghost name = bytes@.subrange(start as int, start + len);
    let mut i: usize = 0;
    while i < len
        invariant
            i <= len,
            blen == bytes@.len(),
            start + len <= bytes@.len(),
            name == bytes@.subrange(start as int, start + len),
            forall|j: int|
                0 <= j < i ==> #[trigger] name[j] != 0x2F && name[j] >= 0x20 && name[j] != 0x7F,
        decreases len - i,
    {
        let c = bytes[start + i];
        if c == 0x2F || c < 0x20 || c == 0x7F {
            assert(name[i as int] == c);
            return false;
        }
        i = i + 1;
    }
    true
}

/// An entry found in a block: where it starts, how long its name is, and
/// whether it was found deleted.
pub struct Found {
    /// Offset inside the block.
    pub pos: int,
    /// Name length in bytes.
    pub name_len: int,
    /// Found in slack space or as a deleted first entry.
    pub deleted: bool,
}

/// Name length recorded in the entry at `p`: one byte when entries carry a
/// file type, else two.
pub open spec fn name_len_at(b: Seq<u8>, p: int, filetype: bool) -> int {
    if filetype {
        b[p + 6] as int
    } else {
        le16(b, p + 6)
    }
}

/// Whether the first entry of `b` spans the whole block with inode 0: an
/// htree interior node.
pub open spec fn htree_node(b: Seq<u8>) -> bool {
    b.len() >= 6 && le32(b, 0) == 0 && le16(b, 4) == b.len()
}

/// Deleted entries hidden in slack from `s` to `end`, scanning at most
/// `4096 - inner` positions; a position that does not hold a sane entry is
/// skipped by 4 bytes.
pub open spec fn slack_scan(
    b: Seq<u8>,
    s: int,
    end: int,
    inner: int,
    filetype: bool,
    inodes_count: u32,
) -> Seq<Found>
    decreases 4096 - inner,
{
    if s + 8 > end || inner >= 4096 {
        Seq::empty()
    } else {
        let h_inode = le32(b, s);
        let h_rec = le16(b, s + 4);
        let h_nl = name_len_at(b, s, filetype);
        let type_ok = !filetype || b[s + 7] <= 7;
        let h_name = if s + 8 + h_nl <= b.len() {
            b.subrange(s + 8, s + 8 + h_nl)
        } else {
            Seq::empty()
        };
        let sane = h_rec >= 8 && h_rec % 4 == 0 && s + h_rec <= end && h_nl > 0 && h_nl <= 255 && 8
            + h_nl <= h_rec && type_ok && h_inode <= inodes_count && plausible(h_name);
        if !sane {
            slack_scan(b, s + 4, end, inner + 1, filetype, inodes_count)
        } else {
            seq![Found { pos: s, name_len: h_nl, deleted: true }] + slack_scan(
                b,
                s + h_rec,
                end,
                inner + 1,
                filetype,
                inodes_count,
            )
        }
    }
}

/// The live entry at `off` (or a deleted first-of-block entry that kept its
/// name), when there is one to report.
#[verifier::opaque]
pub open spec fn head_found(b: Seq<u8>, off: int, filetype: bool, inodes_count: u32) -> Seq<Found> {
    let inode = le32(b, off);
    let rec = le16(b, off + 4);
    let nl = name_len_at(b, off, filetype);
    let shown = vstd::math::min(nl, rec - 8);
    let name = b.subrange(off + 8, off + 8 + shown);
    if inode != 0 && inode <= inodes_count && plausible(name) {
        seq![Found { pos: off, name_len: shown, deleted: false }]
    } else if inode == 0 && plausible(name) && nl > 0 && off != 0 {
        seq![Found { pos: off, name_len: shown, deleted: true }]
    } else {
        Seq::empty()
    }
}

/// The slack of the entry at `off` to scan, when there is one: from the end
/// of its name (rounded up to 4 bytes) to its record end; never after the
/// `..` entry of an htree root, whose slack holds index data.
#[verifier::opaque]
pub open spec fn slack_of(
    b: Seq<u8>,
    off: int,
    filetype: bool,
    indexed_root: bool,
    inodes_count: u32,
) -> Seq<Found> {
    let rec = le16(b, off + 4);
    let nl = name_len_at(b, off, filetype);
    let shown = vstd::math::min(nl, rec - 8);
    let used = (8 + nl + 3) / 4 * 4;
    let skip = indexed_root && off == 12 && shown == 2 && b[off + 8] == 0x2E && b[off + 9] == 0x2E;
    if !skip && rec > used + 8 {
        slack_scan(b, off + used, off + rec, 0, filetype, inodes_count)
    } else {
        Seq::empty()
    }
}

/// Entries of the chain of records from `off` on (at most `100000 - guard`
/// records), each followed by those hidden in its slack.
pub open spec fn live_scan(
    b: Seq<u8>,
    off: int,
    guard: int,
    filetype: bool,
    indexed_root: bool,
    inodes_count: u32,
) -> Seq<Found>
    decreases 100000 - guard,
{
    if off < 0 || off + 8 > b.len() || guard >= 100000 {
        Seq::empty()
    } else {
        let rec = le16(b, off + 4);
        if rec < 8 || off + rec > b.len() {
            Seq::empty()
        } else {
            head_found(b, off, filetype, inodes_count) + slack_of(
                b,
                off,
                filetype,
                indexed_root,
                inodes_count,
            ) + live_scan(b, off + rec, guard + 1, filetype, indexed_root, inodes_count)
        }
    }
}

/// Everything [`parse_block`] reports for `b`, in order.
pub open spec fn block_entries(b: Seq<u8>, filetype: bool, indexed_root: bool, inodes_count: u32) -> Seq<
    Found,
> {
    if htree_node(b) {
        Seq::empty()
    } else {
        live_scan(b, 0, 0, filetype, indexed_root, inodes_count)
    }
}

/// Whether `e` is the entry `f` of block `b` at volume offset `base`.
pub open spec fn entry_matches(e: DirEntry, f: Found, b: Seq<u8>, base: u64, filetype: bool) -> bool {
    &&& e.inode == le32(b, f.pos)
    &&& e.name@ == utf8_lossy(b.subrange(f.pos + 8, f.pos + 8 + f.name_len))
    &&& e.file_type == (if filetype {
        Some(b[f.pos + 7])
    } else {
        None
    })
    &&& e.deleted == f.deleted
    &&& e.offset == base + f.pos
    &&& e.alive_in is None
}

fn make_entry(block: &[u8], pos: usize, name_len: usize, deleted: bool, base: u64, filetype: bool) -> (e:
    DirEntry)
    requires
        pos + 8 + name_len <= block@.len(),
        base + block@.len() <= u64::MAX,
    ensures
        entry_matches(e, Found { pos: pos as int, name_len: name_len as int, deleted }, block@, base, filetype),
{
    let _blen = block.len();
    let raw = slice_to_vec_range(block, pos + 8, pos + 8 + name_len);
    DirEntry {
        inode: read_u32(block, pos).unwrap(),
        name: string_from_utf8_lossy(raw.as_slice()),
        file_type: if filetype {
            Some(block[pos + 7])
        } else {
            None
        },
        deleted,
        offset: base + pos as u64,
        alive_in: None,
    }
}

fn name_len_of(block: &[u8], p: usize, filetype: bool) -> (n: usize)
    requires
        p + 8 <= block@.len(),
    ensures
        n == name_len_at(block@, p as int, filetype),
        n <= 65535,
{
    let _blen = block.len();
    if filetype {
        block[p + 6] as usize
    } else {
        read_u16(block, p + 6).unwrap() as usize
    }
}

/// Scans the slack from `s` to `end` for deleted entries, appending them.
fn scan_slack(
    block: &[u8],
    start: usize,
    end: usize,
    base: u64,
    filetype: bool,
    inodes_count: u32,
    out: &mut Vec<DirEntry>,
    Ghost(found): Ghost<Seq<Found>>,
) -> (r: Ghost<Seq<Found>>)
    requires
        end <= block@.len(),
        base + block@.len() <= u64::MAX,
        old(out)@.len() == found.len(),
        forall|i: int|
            0 <= i < found.len() ==> entry_matches(#[trigger] old(out)@[i], found[i], block@, base, filetype),
    ensures
        r@ == found + slack_scan(block@, start as int, end as int, 0, filetype, inodes_count),
        final(out)@.len() == r@.len(),
        forall|i: int|
            0 <= i < r@.len() ==> entry_matches(#[trigger] final(out)@[i], r@[i], block@, base, filetype),
{
    let ghost b = block@;
    let blen = block.len();
    let mut s = start;
    let mut inner: usize = 0;
    let ghost mut acc = found;
    while s <= end && end - s >= 8 && inner < 4096
        invariant_except_break
            b == block@,
            blen == b.len(),
            end <= blen,
            base + blen <= u64::MAX,
            inner <= 4096,
            out@.len() == acc.len(),
            forall|i: int| 0 <= i < acc.len() ==> entry_matches(#[trigger] out@[i], acc[i], b, base, filetype),
            found + slack_scan(b, start as int, end as int, 0, filetype, inodes_count) == acc
                + slack_scan(b, s as int, end as int, inner as int, filetype, inodes_count),
        ensures
            out@.len() == acc.len(),
            forall|i: int| 0 <= i < acc.len() ==> entry_matches(#[trigger] out@[i], acc[i], b, base, filetype),
            found + slack_scan(b, start as int, end as int, 0, filetype, inodes_count) == acc,
        decreases 4096 - inner,
    {
        let h_inode = read_u32(block, s).unwrap();
        let h_rec = read_u16(block, s + 4).unwrap() as usize;
        let h_nl = name_len_of(block, s, filetype);
        let type_ok = !filetype || block[s + 7] <= 7;
        let name_ok = if h_nl <= blen - (s + 8) {
            plausible_name(block, s + 8, h_nl)
        } else {
            proof {
                assert(!plausible(Seq::<u8>::empty()));
            }
            false
        };
        let sane = h_rec >= 8 && h_rec % 4 == 0 && h_rec <= end - s && h_nl > 0 && h_nl <= 255 && 8
            + h_nl <= h_rec && type_ok && h_inode <= inodes_count && name_ok;
        let ghost rest_before = slack_scan(b, s as int, end as int, inner as int, filetype, inodes_count);
        if !sane {
            s = s + 4;
            inner = inner + 1;
        } else {
            let e = make_entry(block, s, h_nl, true, base, filetype);
            let ghost f = Found { pos: s as int, name_len: h_nl as int, deleted: true };
            out.push(e);
            proof {
                let rest = slack_scan(b, s + h_rec, end as int, inner + 1, filetype, inodes_count);
                assert(rest_before == seq![f] + rest);
                assert(acc + (seq![f] + rest) =~= acc.push(f) + rest);
                acc = acc.push(f);
            }
            s = s + h_rec;
            inner = inner + 1;
        }
    }
    proof {
        if !(s <= end && end - s >= 8 && inner < 4096) {
            assert(acc + Seq::<Found>::empty() =~= acc);
        }
    }
    Ghost(acc)
}

/// Appends the entry reported for the record at `off` itself, if any.
fn push_head(
    block: &[u8],
    off: usize,
    base: u64,
    filetype: bool,
    inodes_count: u32,
    out: &mut Vec<DirEntry>,
    Ghost(found): Ghost<Seq<Found>>,
) -> (r: Ghost<Seq<Found>>)
    requires
        off + 8 <= block@.len(),
        8 <= le16(block@, off + 4),
        off + le16(block@, off + 4) <= block@.len(),
        base + block@.len() <= u64::MAX,
        old(out)@.len() == found.len(),
        forall|i: int|
            0 <= i < found.len() ==> entry_matches(#[trigger] old(out)@[i], found[i], block@, base, filetype),
    ensures
        r@ == found + head_found(block@, off as int, filetype, inodes_count),
        final(out)@.len() == r@.len(),
        forall|i: int|
            0 <= i < r@.len() ==> entry_matches(#[trigger] final(out)@[i], r@[i], block@, base, filetype),
{
    let ghost b = block@;
    let _blen = block.len();
    let inode = read_u32(block, off).unwrap();
    let rec_len = read_u16(block, off + 4).unwrap() as usize;
    let name_len = name_len_of(block, off, filetype);
    let shown = if name_len < rec_len - 8 {
        name_len
    } else {
        rec_len - 8
    };
    let name_ok = plausible_name(block, off + 8, shown);
    let ghost head = head_found(b, off as int, filetype, inodes_count);
    proof {
        reveal(head_found);
    }
    if inode != 0 && inode <= inodes_count && name_ok {
        let e = make_entry(block, off, shown, false, base, filetype);
        out.push(e);
    } else if inode == 0 && name_ok && name_len > 0 && off != 0 {
        let e = make_entry(block, off, shown, true, base, filetype);
        out.push(e);
    }
    proof {
        assert forall|i: int| 0 <= i < (found + head).len() implies entry_matches(
            #[trigger] out@[i],
            (found + head)[i],
            b,
            base,
            filetype,
        ) by {
            if i < found.len() {
                assert((found + head)[i] == found[i]);
            }
        }
    }
    Ghost(found + head)
}

/// Appends the deleted entries hidden in the slack of the record at `off`.
fn push_slack(
    block: &[u8],
    off: usize,
    base: u64,
    filetype: bool,
    indexed_root: bool,
    inodes_count: u32,
    out: &mut Vec<DirEntry>,
    Ghost(found): Ghost<Seq<Found>>,
) -> (r: Ghost<Seq<Found>>)
    requires
        off + 8 <= block@.len(),
        8 <= le16(block@, off + 4),
        off + le16(block@, off + 4) <= block@.len(),
        base + block@.len() <= u64::MAX,
        old(out)@.len() == found.len(),
        forall|i: int|
            0 <= i < found.len() ==> entry_matches(#[trigger] old(out)@[i], found[i], block@, base, filetype),
    ensures
        r@ == found + slack_of(block@, off as int, filetype, indexed_root, inodes_count),
        final(out)@.len() == r@.len(),
        forall|i: int|
            0 <= i < r@.len() ==> entry_matches(#[trigger] final(out)@[i], r@[i], block@, base, filetype),
{
    proof {
        reveal(slack_of);
    }
    let _blen = block.len();
    let rec_len = read_u16(block, off + 4).unwrap() as usize;
    let name_len = name_len_of(block, off, filetype);
    let shown = if name_len < rec_len - 8 {
        name_len
    } else {
        rec_len - 8
    };
    let used = (8 + name_len + 3) / 4 * 4;
    let skip_slack = indexed_root && off == 12 && shown == 2 && block[off + 8] == 0x2E && block[off
        + 9] == 0x2E;
    if !skip_slack && rec_len > used + 8 {
        scan_slack(block, off + used, off + rec_len, base, filetype, inodes_count, out, Ghost(found))
    } else {
        assert(found + Seq::<Found>::empty() =~= found);
        Ghost(found)
    }
}

/// Parses one directory block at volume offset `base`, yielding live
/// entries and the deleted ones hidden inside their slack (see
/// [`block_entries`]).
///
/// `filetype` says whether entries carry a file type byte; `indexed_root`
/// marks the first block of an htree directory (its `..` entry's slack is
/// index data, not entries); `inodes_count` bounds inode numbers.
pub fn parse_block(block: &[u8], base: u64, filetype: bool, indexed_root: bool, inodes_count: u32) -> (r:
    Vec<DirEntry>)
    requires
        base + block@.len() <= u64::MAX,
    ensures
        ({
            let fs = block_entries(block@, filetype, indexed_root, inodes_count);
            &&& r@.len() == fs.len()
            &&& forall|i: int| 0 <= i < fs.len() ==> entry_matches(#[trigger] r@[i], fs[i], block@, base, filetype)
        }),
{
    let ghost b = block@;
    let blen = block.len();
    let mut out: Vec<DirEntry> = Vec::new();
    if blen >= 6 && blen <= 65535 {
        let first_inode = read_u32(block, 0).unwrap();
        let first_rec = read_u16(block, 4).unwrap();
        if first_inode == 0 && first_rec as usize == blen {
            return out;
        }
    }
    let mut off: usize = 0;
    let mut guard: usize = 0;
    let ghost mut acc: Seq<Found> = Seq::empty();
    let ghost whole = live_scan(b, 0, 0, filetype, indexed_root, inodes_count);
    while off <= blen && blen - off >= 8 && guard < 100000
        invariant_except_break
            b == block@,
            blen == b.len(),
            base + blen <= u64::MAX,
            off <= blen,
            guard <= 100000,
            out@.len() == acc.len(),
            forall|i: int| 0 <= i < acc.len() ==> entry_matches(#[trigger] out@[i], acc[i], b, base, filetype),
            whole == acc + live_scan(b, off as int, guard as int, filetype, indexed_root, inodes_count),
        ensures
            out@.len() == acc.len(),
            forall|i: int| 0 <= i < acc.len() ==> entry_matches(#[trigger] out@[i], acc[i], b, base, filetype),
            whole == acc,
        decreases 100000 - guard,
    {
        let rec_len = read_u16(block, off + 4).unwrap() as usize;
        if rec_len < 8 || rec_len > blen - off {
            assert(acc + Seq::<Found>::empty() =~= acc);
            break;
        }
        let ghost rest_before = live_scan(b, off as int, guard as int, filetype, indexed_root, inodes_count);
        let ghost acc0 = acc;
        let Ghost(after_head) = push_head(block, off, base, filetype, inodes_count, &mut out, Ghost(acc));
        proof {
            acc = after_head;
        }
        let Ghost(after_slack) = push_slack(
            block,
            off,
            base,
            filetype,
            indexed_root,
            inodes_count,
            &mut out,
            Ghost(acc),
        );
        proof {
            acc = after_slack;
        }
        let ghost head = head_found(b, off as int, filetype, inodes_count);
        let ghost slack = slack_of(b, off as int, filetype, indexed_root, inodes_count);
        proof {
            let rest = live_scan(b, off + rec_len, guard + 1, filetype, indexed_root, inodes_count);
            assert(rest_before == head + slack + rest);
            assert(acc0 + (head + slack + rest) =~= acc0 + head + slack + rest);
            assert(whole == acc + rest);
        }
        off = off + rec_len;
        guard = guard + 1;
    }
    proof {
        if !(off <= blen && blen - off >= 8 && guard < 100000) {
            assert(acc + Seq::<Found>::empty() =~= acc);
        }
    }
    out
}

} // verus!
