//! The jbd2 journal: its superblock, descriptor blocks and the copies of
//! filesystem blocks they announce.
//!
//! Walking the log reads journal blocks one after another; the decisions
//! taken on each block (what kind it is, which copies a descriptor
//! announces, where the walk goes next, whether a copy's checksum matches)
//! are the functions here.

use vstd::prelude::*;

use crate::bytes::{be16, be32, is_pow2, is_power_of_two, read_u16_be, read_u32_be};
use crate::ext::crc32c::{crc_update, update};
use crate::ext::error::ExtError;
use crate::ext::extent::Run;
use crate::extent::Extent;
use crate::ntfs::attribute::slice_to_vec_range;

verus! {

/// Journal block magic.
pub const MAGIC: u32 = 0xC03B_3998;

/// Block type: descriptor.
pub const DESCRIPTOR: u32 = 1;

/// Block type: commit.
pub const COMMIT: u32 = 2;

/// Block type: journal superblock, version 1.
pub const SUPERBLOCK_V1: u32 = 3;

/// Block type: journal superblock, version 2.
pub const SUPERBLOCK_V2: u32 = 4;

/// Block type: revoke.
pub const REVOKE: u32 = 5;

/// Tag flag: the copy's first four bytes were escaped.
pub const FLAG_ESCAPE: u32 = 1;

/// Tag flag: the tag is not followed by a UUID.
pub const FLAG_SAME_UUID: u32 = 2;

/// Tag flag: last tag of the descriptor.
pub const FLAG_LAST_TAG: u32 = 8;

/// Journal feature: 64-bit block numbers.
pub const INCOMPAT_64BIT: u32 = 0x2;

/// Journal feature: checksums, version 2.
pub const INCOMPAT_CSUM_V2: u32 = 0x8;

/// Journal feature: checksums, version 3.
pub const INCOMPAT_CSUM_V3: u32 = 0x10;

/// Most journal blocks walked.
pub const MAX_JOURNAL_BLOCKS: u64 = 4194304;

/// One logged copy of a filesystem block.
#[derive(Debug, Clone, Copy, PartialEq, Eq, Structural)]
pub struct LoggedBlock {
    /// Transaction sequence number.
    pub sequence: u32,
    /// Journal block index holding the copy.
    pub journal_block: u64,
    /// The copy's checksum matched its tag (None when untagged).
    pub checksum_ok: Option<bool>,
    /// The first four bytes were escaped and must read as the magic.
    pub escaped: bool,
}

/// Journal superblock facts.
#[derive(Debug, Clone, Copy, PartialEq, Eq, Structural)]
pub struct JournalInfo {
    /// Journal block size.
    pub block_size: u32,
    /// Journal length in blocks.
    pub max_len: u32,
    /// First log block.
    pub first: u32,
    /// Expected sequence of the first transaction.
    pub sequence: u32,
    /// Start block of the log (0 = clean).
    pub start: u32,
    /// Incompatible features.
    pub incompat: u32,
    /// Descriptor blocks seen.
    pub descriptors: usize,
    /// Commit blocks seen.
    pub commits: usize,
    /// Distinct filesystem blocks with at least one logged copy.
    pub logged_blocks: usize,
}

/// What the journal superblock decides for the walk.
#[derive(Debug, Clone, Copy, PartialEq, Eq, Structural)]
pub struct JournalHeader {
    /// Superblock facts (counters at zero).
    pub info: JournalInfo,
    /// Seed of the tag checksums: the CRC-32C of the journal UUID.
    pub csum_seed: u32,
    /// Size of one descriptor tag: 16 with checksum v3, else 8 or (with
    /// 64-bit block numbers) 12.
    pub tag_size: usize,
}

/// The big-endian word at `off`, or `d` when it is not all present.
pub open spec fn be32_or(s: Seq<u8>, off: int, d: int) -> int {
    if off + 4 <= s.len() {
        be32(s, off)
    } else {
        d
    }
}

/// Whether `head` (the first bytes of the journal) holds a usable journal
/// superblock.
pub open spec fn valid_journal_header(head: Seq<u8>) -> bool {
    &&& head.len() >= 8
    &&& be32(head, 0) == 0xC03B_3998
    &&& (be32(head, 4) == 3 || be32(head, 4) == 4)
    &&& 1024 <= be32_or(head, 12, 0) <= 65536
    &&& is_pow2(be32_or(head, 12, 0))
    &&& be32_or(head, 16, 0) != 0
}

/// Tag size for the journal features `incompat`.
pub open spec fn tag_size_of(incompat: u32) -> int {
    if incompat & 0x10u32 != 0 {
        16
    } else if incompat & 0x2u32 != 0 {
        12
    } else {
        8
    }
}

/// The header decoded from a valid `head`, the filesystem UUID standing in
/// for a journal UUID that is not all present.
pub open spec fn header_of(head: Seq<u8>, fs_uuid: Seq<u8>) -> JournalHeader {
    let incompat = be32_or(head, 40, 0) as u32;
    let uuid = if head.len() >= 64 {
        head.subrange(48, 64)
    } else {
        fs_uuid
    };
    JournalHeader {
        info: JournalInfo {
            block_size: be32_or(head, 12, 0) as u32,
            max_len: be32_or(head, 16, 0) as u32,
            first: be32_or(head, 20, 1) as u32,
            sequence: be32_or(head, 24, 0) as u32,
            start: be32_or(head, 28, 0) as u32,
            incompat,
            descriptors: 0,
            commits: 0,
            logged_blocks: 0,
        },
        csum_seed: crc_update(!0u32, uuid),
        tag_size: tag_size_of(incompat) as usize,
    }
}

fn be32_or_default(head: &[u8], off: usize, d: u32) -> (r: u32)
    ensures
        r == be32_or(head@, off as int, d as int),
{
    match read_u32_be(head, off) {
        Some(v) => v,
        None => d,
    }
}

/// Parses the journal superblock from the first bytes of the journal (up
/// to 1024); fails with [`ExtError::Malformed`] when it is not recognised.
pub fn parse_header(head: &[u8], fs_uuid: &[u8; 16]) -> (r: Result<JournalHeader, ExtError>)
    ensures
        match r {
            Ok(h) => valid_journal_header(head@) && h == header_of(head@, fs_uuid@),
            Err(e) => !valid_journal_header(head@) && e is Malformed,
        },
{
    let magic = read_u32_be(head, 0);
    let kind = read_u32_be(head, 4);
    let kind_ok = match kind {
        Some(k) => k == SUPERBLOCK_V1 || k == SUPERBLOCK_V2,
        None => false,
    };
    if magic != Some(MAGIC) || !kind_ok {
        return Err(ExtError::Malformed { structure: "journal", detail: "superblock magic absent" });
    }
    let block_size = be32_or_default(head, 12, 0);
    let max_len = be32_or_default(head, 16, 0);
    if block_size < 1024 || block_size > 65536 || !is_power_of_two(block_size as u64) || max_len
        == 0 {
        return Err(
            ExtError::Malformed { structure: "journal", detail: "invalid block size or length" },
        );
    }
    let incompat = be32_or_default(head, 40, 0);
    let uuid = if head.len() >= 64 {
        slice_to_vec_range(head, 48, 64)
    } else {
        let mut v: Vec<u8> = Vec::new();
        let mut k: usize = 0;
        while k < 16
            invariant
                k <= 16,
                v@ =~= fs_uuid@.subrange(0, k as int),
            decreases 16 - k,
        {
            v.push(fs_uuid[k]);
            k = k + 1;
        }
        v
    };
    assert(uuid@ =~= (if head@.len() >= 64 {
        head@.subrange(48, 64)
    } else {
        fs_uuid@
    }));
    let csum_seed = update(!0u32, uuid.as_slice());
    let tag_size: usize = if incompat & INCOMPAT_CSUM_V3 != 0 {
        16
    } else if incompat & INCOMPAT_64BIT != 0 {
        12
    } else {
        8
    };
    Ok(
        JournalHeader {
            info: JournalInfo {
                block_size,
                max_len,
                first: be32_or_default(head, 20, 1),
                sequence: be32_or_default(head, 24, 0),
                start: be32_or_default(head, 28, 0),
                incompat,
                descriptors: 0,
                commits: 0,
                logged_blocks: 0,
            },
            csum_seed,
            tag_size,
        },
    )
}

/// Number of journal blocks the walk may visit: the journal length, at most
/// [`MAX_JOURNAL_BLOCKS`] and at most the whole blocks of the stream.
pub fn scan_limit(max_len: u32, stream_len: u64, block_size: u32) -> (r: u64)
    requires
        block_size > 0,
    ensures
        r == vstd::math::min(
            vstd::math::min(max_len as int, 4194304),
            stream_len as int / block_size as int,
        ),
{
    let a: u64 = if (max_len as u64) < MAX_JOURNAL_BLOCKS {
        max_len as u64
    } else {
        MAX_JOURNAL_BLOCKS
    };
    let b = stream_len / block_size as u64;
    if a < b {
        a
    } else {
        b
    }
}

/// First block the walk visits: the superblock's first log block, at least
/// 1.
pub fn scan_start(first: u32) -> (r: u64)
    ensures
        r == vstd::math::max(first as int, 1),
{
    if first < 1 {
        1
    } else {
        first as u64
    }
}

/// What a journal block is.
#[derive(Debug, Clone, Copy, PartialEq, Eq, Structural)]
pub enum JournalBlock {
    /// Not a journal metadata block (no magic): data or unused.
    Foreign,
    /// A descriptor of the transaction with this sequence.
    Descriptor {
        /// Transaction sequence.
        sequence: u32,
    },
    /// A commit block.
    Commit,
    /// Another metadata block (revoke, superblock, unknown type).
    Other,
}

/// The kind of the journal block `b`.
pub open spec fn block_kind(b: Seq<u8>) -> JournalBlock {
    if !(b.len() >= 4 && be32(b, 0) == 0xC03B_3998) {
        JournalBlock::Foreign
    } else if be32_or(b, 4, 0) == 1 {
        JournalBlock::Descriptor { sequence: be32_or(b, 8, 0) as u32 }
    } else if be32_or(b, 4, 0) == 2 {
        JournalBlock::Commit
    } else {
        JournalBlock::Other
    }
}

/// Classifies a journal block.
pub fn classify_block(block: &[u8]) -> (k: JournalBlock)
    ensures
        k == block_kind(block@),
{
    if read_u32_be(block, 0) != Some(MAGIC) {
        return JournalBlock::Foreign;
    }
    let kind = be32_or_default(block, 4, 0);
    if kind == DESCRIPTOR {
        JournalBlock::Descriptor { sequence: be32_or_default(block, 8, 0) }
    } else if kind == COMMIT {
        JournalBlock::Commit
    } else {
        JournalBlock::Other
    }
}

/// One copy announced by a descriptor block.
#[derive(Debug, Clone, Copy, PartialEq, Eq, Structural)]
pub struct DescriptorTag {
    /// Filesystem block the copy was logged for.
    pub fs_block: u64,
    /// Journal block holding the copy.
    pub journal_block: u64,
    /// Checksum recorded in the tag, when the journal has tag checksums.
    pub expected: Option<u32>,
    /// The copy's first four bytes were escaped.
    pub escaped: bool,
}

/// Filesystem block, flags and checksum of the tag at `off`.
pub open spec fn tag_at(b: Seq<u8>, off: int, tag_size: int, incompat: u32) -> (u64, u32, Option<u32>) {
    if tag_size == 16 {
        (
            (be32(b, off) + be32(b, off + 8) * 0x1_0000_0000) as u64,
            be32(b, off + 4) as u32,
            Some(be32(b, off + 12) as u32),
        )
    } else {
        (
            (be32(b, off) + if tag_size == 12 {
                be32(b, off + 8) * 0x1_0000_0000
            } else {
                0
            }) as u64,
            be16(b, off + 6) as u32,
            if incompat & 0x8u32 != 0 {
                Some(be16(b, off + 4) as u32)
            } else {
                None
            },
        )
    }
}

/// The tags from `off` on (the `count`-th tag of the block), the next copy
/// being journal block `data`, and the journal block after the last copy:
/// at most 4096 tags, none past `limit`, none once the copies would reach
/// `total`, and none after a tag flagged last.
pub open spec fn desc_tags(
    b: Seq<u8>,
    off: int,
    data: int,
    count: int,
    total: int,
    limit: int,
    tag_size: int,
    incompat: u32,
) -> (Seq<DescriptorTag>, int)
    decreases 4096 - count,
{
    if count >= 4096 || off + tag_size > limit {
        (Seq::empty(), data)
    } else {
        let t = tag_at(b, off, tag_size, incompat);
        let next_off = off + tag_size + if t.1 & 2u32 == 0 {
            16int
        } else {
            0int
        };
        if data >= total {
            (Seq::empty(), data)
        } else {
            let tag = DescriptorTag {
                fs_block: t.0,
                journal_block: data as u64,
                expected: t.2,
                escaped: t.1 & 1u32 != 0,
            };
            if t.1 & 8u32 != 0 {
                (seq![tag], data + 1)
            } else {
                let rest = desc_tags(b, next_off, data + 1, count + 1, total, limit, tag_size, incompat);
                (seq![tag] + rest.0, rest.1)
            }
        }
    }
}

/// End of the tag area of a descriptor block: the block minus its 4-byte
/// tail checksum when the journal has checksums.
pub open spec fn tag_limit(len: int, incompat: u32) -> int {
    let tail = if incompat & 0x18u32 != 0 {
        4int
    } else {
        0int
    };
    if len >= tail {
        len - tail
    } else {
        0
    }
}

fn tag_of(block: &[u8], off: usize, tag_size: usize, incompat: u32) -> (t: (u64, u32, Option<u32>))
    requires
        tag_size == 8 || tag_size == 12 || tag_size == 16,
        off + tag_size <= block@.len(),
    ensures
        t == tag_at(block@, off as int, tag_size as int, incompat),
{
    let _blen = block.len();
    if tag_size == 16 {
        (
            read_u32_be(block, off).unwrap() as u64 + read_u32_be(block, off + 8).unwrap() as u64
                * 0x1_0000_0000,
            read_u32_be(block, off + 4).unwrap(),
            Some(read_u32_be(block, off + 12).unwrap()),
        )
    } else {
        let hi: u64 = if tag_size == 12 {
            read_u32_be(block, off + 8).unwrap() as u64 * 0x1_0000_0000
        } else {
            0
        };
        (
            read_u32_be(block, off).unwrap() as u64 + hi,
            read_u16_be(block, off + 6).unwrap() as u32,
            if incompat & INCOMPAT_CSUM_V2 != 0 {
                Some(read_u16_be(block, off + 4).unwrap() as u32)
            } else {
                None
            },
        )
    }
}

/// Decodes the descriptor block `block` found at journal block `i`: the
/// copies it announces, in the journal blocks that follow it, and the
/// journal block the walk goes on from (past the copies, at least `i + 1`).
pub fn decode_descriptor(
    block: &[u8],
    i: u64,
    total: u64,
    incompat: u32,
    tag_size: usize,
) -> (r: (Vec<DescriptorTag>, u64))
    requires
        tag_size == 8 || tag_size == 12 || tag_size == 16,
        i < total,
        block@.len() <= u32::MAX,
    ensures
        ({
            let d = desc_tags(
                block@,
                12,
                i + 1,
                0,
                total as int,
                tag_limit(block@.len() as int, incompat),
                tag_size as int,
                incompat,
            );
            r.0@ == d.0 && r.1 == vstd::math::max(d.1, i + 1)
        }),
{
    let blen = block.len();
    let tail: usize = if incompat & (INCOMPAT_CSUM_V2 | INCOMPAT_CSUM_V3) != 0 {
        4
    } else {
        0
    };
    assert((incompat & (0x8u32 | 0x10u32)) == (incompat & 0x18u32)) by (bit_vector);
    let limit: usize = if blen >= tail {
        blen - tail
    } else {
        0
    };
    let ghost lim = limit as int;
    let ghost b = block@;
    let mut tags: Vec<DescriptorTag> = Vec::new();
    let mut off: u64 = 12;
    let mut data: u64 = i + 1;
    let mut count: usize = 0;
    let ghost whole = desc_tags(b, 12, i + 1, 0, total as int, lim, tag_size as int, incompat);
    while off <= limit as u64 && limit as u64 - off >= tag_size as u64 && count < 4096
        invariant_except_break
            b == block@,
            blen == b.len(),
            blen <= u32::MAX,
            limit <= blen,
            lim == limit,
            tag_size == 8 || tag_size == 12 || tag_size == 16,
            off <= limit + 16,
            count <= 4096,
            data <= total,
            ({
                let d = desc_tags(b, off as int, data as int, count as int, total as int, lim, tag_size as int, incompat);
                whole.0 == tags@ + d.0 && whole.1 == d.1
            }),
        ensures
            whole.0 == tags@,
            whole.1 == data,
        decreases 4096 - count,
    {
        let t = tag_of(block, off as usize, tag_size, incompat);
        let ghost d0 = desc_tags(b, off as int, data as int, count as int, total as int, lim, tag_size as int, incompat);
        off = off + tag_size as u64;
        if t.1 & FLAG_SAME_UUID == 0 {
            off = off + 16;
        }
        if data >= total {
            assert(tags@ + Seq::<DescriptorTag>::empty() =~= tags@);
            break;
        }
        let tag = DescriptorTag {
            fs_block: t.0,
            journal_block: data,
            expected: t.2,
            escaped: t.1 & FLAG_ESCAPE != 0,
        };
        let ghost old_tags = tags@;
        tags.push(tag);
        data = data + 1;
        count = count + 1;
        if t.1 & FLAG_LAST_TAG != 0 {
            assert(old_tags + seq![tag] =~= tags@);
            break;
        }
        proof {
            let rest = desc_tags(b, off as int, data as int, count as int, total as int, lim, tag_size as int, incompat);
            assert(d0.0 == seq![tag] + rest.0);
            assert(old_tags + (seq![tag] + rest.0) =~= tags@ + rest.0);
        }
    }
    let next = if data > i + 1 {
        data
    } else {
        i + 1
    };
    (tags, next)
}

/// The four big-endian bytes of `n`.
pub open spec fn u32_be_bytes(n: u32) -> Seq<u8> {
    seq![
        (n / 16777216) as u8,
        ((n / 65536) % 256) as u8,
        ((n / 256) % 256) as u8,
        (n % 256) as u8,
    ]
}

/// Whether a logged copy matches the checksum of its tag: the CRC-32C of
/// the transaction sequence (big-endian) and the copy, seeded with `seed`;
/// compared in full for 16-byte tags, else on the low 16 bits.
pub open spec fn copy_checksum_ok(seed: u32, sequence: u32, copy: Seq<u8>, expected: u32, full: bool) -> bool {
    let c = crc_update(crc_update(seed, u32_be_bytes(sequence)), copy);
    if full {
        c == expected
    } else {
        c % 0x10000 == expected
    }
}

/// Checks a logged copy against the checksum of its tag (`full` for
/// 16-byte tags).
pub fn tag_checksum_ok(seed: u32, sequence: u32, copy: &[u8], expected: u32, full: bool) -> (r:
    bool)
    ensures
        r == copy_checksum_ok(seed, sequence, copy@, expected, full),
{
    let sb = vec![
        (sequence / 16777216) as u8,
        ((sequence / 65536) % 256) as u8,
        ((sequence / 256) % 256) as u8,
        (sequence % 256) as u8,
    ];
    assert(sb@ =~= u32_be_bytes(sequence));
    let c = update(update(seed, sb.as_slice()), copy);
    if full {
        c == expected
    } else {
        c % 0x10000 == expected
    }
}

/// Inserts `copy` into `copies`, kept newest first: after every copy of a
/// sequence at least as high, before the first of a lower sequence.
pub fn insert_newest_first(copies: &mut Vec<LoggedBlock>, copy: LoggedBlock)
    ensures
        exists|k: int|
            0 <= k <= old(copies)@.len() && final(copies)@ == old(copies)@.subrange(0, k).push(copy)
                + old(copies)@.subrange(k, old(copies)@.len() as int) && (forall|j: int|
                0 <= j < k ==> #[trigger] old(copies)@[j].sequence >= copy.sequence) && (k
                < old(copies)@.len() ==> old(copies)@[k].sequence < copy.sequence),
{
    let n = copies.len();
    let mut k: usize = 0;
    while k < n && copies[k].sequence >= copy.sequence
        invariant
            n == copies@.len(),
            copies@ == old(copies)@,
            k <= n,
            forall|j: int| 0 <= j < k ==> #[trigger] copies@[j].sequence >= copy.sequence,
        decreases n - k,
    {
        k = k + 1;
    }
    let ghost before = copies@;
    copies.insert(k, copy);
    assert(copies@ =~= before.subrange(0, k as int).push(copy) + before.subrange(
        k as int,
        before.len() as int,
    ));
}

/// Whether copies are ordered newest first.
pub open spec fn newest_first(s: Seq<LoggedBlock>) -> bool {
    forall|a: int, b: int| 0 <= a < b < s.len() ==> s[a].sequence >= s[b].sequence
}

/// Inserting into copies ordered newest first keeps them so.
pub proof fn lemma_insert_keeps_order(
    old_copies: Seq<LoggedBlock>,
    copy: LoggedBlock,
    k: int,
)
    requires
        newest_first(old_copies),
        0 <= k <= old_copies.len(),
        forall|j: int| 0 <= j < k ==> #[trigger] old_copies[j].sequence >= copy.sequence,
        k < old_copies.len() ==> old_copies[k].sequence < copy.sequence,
    ensures
        newest_first(
            old_copies.subrange(0, k).push(copy) + old_copies.subrange(k, old_copies.len() as int),
        ),
{
    let s = old_copies.subrange(0, k).push(copy) + old_copies.subrange(k, old_copies.len() as int);
    assert forall|a: int, b: int| 0 <= a < b < s.len() implies s[a].sequence >= s[b].sequence by {
        if b < k {
            assert(s[a] == old_copies[a] && s[b] == old_copies[b]);
        } else if b == k {
            assert(s[a] == old_copies[a]);
        } else if a < k {
            assert(s[a] == old_copies[a] && s[b] == old_copies[b - 1]);
        } else if a == k {
            assert(s[b] == old_copies[b - 1]);
            assert(old_copies[k].sequence >= old_copies[b - 1].sequence || b - 1 == k);
        } else {
            assert(s[a] == old_copies[a - 1] && s[b] == old_copies[b - 1]);
        }
    }
}

/// Restores an escaped copy: its first four bytes read as the magic.
pub fn unescape(data: &mut Vec<u8>, escaped: bool)
    ensures
        final(data)@.len() == old(data)@.len(),
        escaped && old(data)@.len() >= 4 ==> final(data)@ == u32_be_bytes(0xC03B_3998) + old(
            data,
        )@.subrange(4, old(data)@.len() as int),
        !(escaped && old(data)@.len() >= 4) ==> final(data)@ == old(data)@,
{
    if escaped && data.len() >= 4 {
        data.set(0, 0xC0);
        data.set(1, 0x3B);
        data.set(2, 0x39);
        data.set(3, 0x98);
        assert(data@ =~= u32_be_bytes(0xC03B_3998) + old(data)@.subrange(
            4,
            old(data)@.len() as int,
        ));
    }
}

/// Position and counters of a walk over the log.
#[derive(Debug, Clone, Copy, PartialEq, Eq, Structural)]
pub struct JournalWalk {
    /// Next journal block to visit.
    pub next: u64,
    /// Blocks the walk may visit (see [`scan_limit`]).
    pub total: u64,
    /// Blocks visited so far.
    pub visited: u64,
    /// Descriptor blocks seen.
    pub descriptors: u64,
    /// Commit blocks seen.
    pub commits: u64,
}

impl JournalWalk {
    /// A walk from the first log block (at least 1) over `total` blocks.
    pub fn new(first: u32, total: u64) -> (w: Self)
        ensures
            w.next == vstd::math::max(first as int, 1),
            w.total == total,
            w.visited == 0 && w.descriptors == 0 && w.commits == 0,
    {
        JournalWalk { next: scan_start(first), total, visited: 0, descriptors: 0, commits: 0 }
    }

    /// The journal block to read next; `None` once the walk is past the
    /// end or has visited [`MAX_JOURNAL_BLOCKS`] blocks.
    pub fn block_to_read(&self) -> (r: Option<u64>)
        ensures
            r == (if self.next < self.total && self.visited < 4194304 {
                Some(self.next)
            } else {
                None::<u64>
            }),
    {
        if self.next < self.total && self.visited < MAX_JOURNAL_BLOCKS {
            Some(self.next)
        } else {
            None
        }
    }

    /// Accounts for the block just read, of kind `kind`; a descriptor moves
    /// the walk to `descriptor_next` (see [`decode_descriptor`]), any other
    /// block to the next one.
    pub fn after_block(&mut self, kind: JournalBlock, descriptor_next: u64)
        requires
            old(self).visited < 4194304,
            old(self).next < old(self).total,
            old(self).descriptors + old(self).commits <= old(self).visited,
        ensures
            final(self).visited == old(self).visited + 1,
            final(self).total == old(self).total,
            final(self).descriptors + final(self).commits <= final(self).visited,
            final(self).descriptors == old(self).descriptors + if kind is Descriptor {
                1int
            } else {
                0int
            },
            final(self).commits == old(self).commits + if kind is Commit {
                1int
            } else {
                0int
            },
            final(self).next == if kind is Descriptor {
                descriptor_next as int
            } else {
                old(self).next + 1
            },
    {
        self.visited = self.visited + 1;
        match kind {
            JournalBlock::Descriptor { .. } => {
                self.descriptors = self.descriptors + 1;
                self.next = descriptor_next;
            },
            JournalBlock::Commit => {
                self.commits = self.commits + 1;
                self.next = self.next + 1;
            },
            _ => {
                self.next = self.next + 1;
            },
        }
    }
}

/// `a * b`, saturated to `u64`.
pub open spec fn sat_mul64(a: u64, b: u64) -> u64 {
    if a * b > u64::MAX {
        u64::MAX
    } else {
        (a * b) as u64
    }
}

/// The byte extents of the mapped runs among `runs` (holes left out), for
/// blocks of `block_size` bytes, saturating.
pub open spec fn run_extents(runs: Seq<Run>, block_size: u64) -> Seq<Extent>
    decreases runs.len(),
{
    if runs.len() == 0 {
        Seq::empty()
    } else {
        let prev = run_extents(runs.drop_last(), block_size);
        let r = runs.last();
        match r.physical {
            Some(p) => prev.push(Extent { offset: sat_mul64(p, block_size), length: sat_mul64(r.count, block_size) }),
            None => prev,
        }
    }
}

/// The byte extents of the journal file's runs (see [`run_extents`]).
pub fn extents_from_runs(runs: &[Run], block_size: u64) -> (v: Vec<Extent>)
    ensures
        v@ == run_extents(runs@, block_size),
{
    let mut out: Vec<Extent> = Vec::new();
    let mut i: usize = 0;
    while i < runs.len()
        invariant
            i <= runs@.len(),
            out@ == run_extents(runs@.take(i as int), block_size),
        decreases runs@.len() - i,
    {
        let r = runs[i];
        proof {
            assert(runs@.take(i + 1).drop_last() =~= runs@.take(i as int));
        }
        match r.physical {
            Some(p) => {
                let offset = match p.checked_mul(block_size) {
                    Some(v) => v,
                    None => u64::MAX,
                };
                let length = match r.count.checked_mul(block_size) {
                    Some(v) => v,
                    None => u64::MAX,
                };
                out.push(Extent { offset, length });
            },
            None => {},
        }
        i = i + 1;
    }
    assert(runs@.take(runs@.len() as int) =~= runs@);
    out
}

} // verus!
