//! exFAT directory entry sets.

use vstd::prelude::*;

use crate::bytes::{le16, le32, le64, read_u16, read_u32, read_u64};
use crate::calendar::{dos_datetime_to_unix, dos_seconds, dos_valid};
use crate::text::{string_from_utf16_lossy, units_le, utf16_lossy, utf16_units};

verus! {

/// Size of one entry.
pub const ENTRY_SIZE: usize = 32;

/// Entry type of the allocation bitmap (in-use bit set).
pub const TYPE_BITMAP: u8 = 0x81;

/// Entry type of the up-case table.
pub const TYPE_UPCASE: u8 = 0x82;

/// Entry type of the volume label.
pub const TYPE_LABEL: u8 = 0x83;

/// Entry type of a file.
pub const TYPE_FILE: u8 = 0x85;

/// Entry type of a stream extension.
pub const TYPE_STREAM: u8 = 0xC0;

/// Entry type of a file name.
pub const TYPE_NAME: u8 = 0xC1;

/// exFAT file attributes.
#[derive(Debug, Clone, Copy, PartialEq, Eq, Structural)]
pub struct ExfatAttributes(pub u16);

impl ExfatAttributes {
    /// Whether the directory bit (0x10) is set.
    pub fn is_directory(&self) -> (r: bool)
        ensures
            r == (self.0 & 0x10 != 0),
    {
        self.0 & 0x10 != 0
    }
}

/// Stream extension flags.
#[derive(Debug, Clone, Copy, PartialEq, Eq, Structural)]
pub struct StreamFlags(pub u8);

impl StreamFlags {
    /// Whether allocation is possible (bit 0).
    pub fn allocation_possible(&self) -> (r: bool)
        ensures
            r == (self.0 & 0x01 != 0),
    {
        self.0 & 0x01 != 0
    }

    /// Whether the clusters are contiguous without a FAT chain (bit 1).
    pub fn no_fat_chain(&self) -> (r: bool)
        ensures
            r == (self.0 & 0x02 != 0),
    {
        self.0 & 0x02 != 0
    }
}

/// A file or directory entry set (File + Stream Extension + Name entries).
#[derive(Debug, Clone, PartialEq, Eq)]
pub struct EntrySet {
    /// Volume byte offset of the File entry.
    pub entry_offset: u64,
    /// Whether the set is deleted (in-use bit clear).
    pub deleted: bool,
    /// Number of secondary entries declared.
    pub secondary_count: u8,
    /// Whether the set checksum matched (computed with the in-use bits
    /// restored for deleted sets).
    pub checksum_ok: bool,
    /// Attributes.
    pub attributes: ExfatAttributes,
    /// Stream flags.
    pub flags: StreamFlags,
    /// Name.
    pub name: String,
    /// Declared name length in UTF-16 units.
    pub name_length: u8,
    /// Valid data length.
    pub valid_data_length: u64,
    /// First cluster (zero when no clusters are allocated).
    pub first_cluster: u32,
    /// Data length.
    pub data_length: u64,
    /// Creation time (Unix seconds).
    pub created: Option<i64>,
    /// Modification time.
    pub modified: Option<i64>,
    /// Access time.
    pub accessed: Option<i64>,
}

impl EntrySet {
    /// Whether the set is a directory.
    pub fn is_directory(&self) -> (r: bool)
        ensures
            r == (self.attributes.0 & 0x10 != 0),
    {
        self.attributes.is_directory()
    }
}

/// Non-file primary entries of interest.
#[derive(Debug, Clone, PartialEq, Eq)]
pub enum SpecialEntry {
    /// Allocation bitmap (first cluster, length).
    Bitmap {
        /// First cluster.
        first_cluster: u32,
        /// Length in bytes.
        length: u64,
    },
    /// Volume label.
    Label(String),
    /// Up-case table.
    UpCase {
        /// First cluster.
        first_cluster: u32,
        /// Length in bytes.
        length: u64,
    },
}

/// Everything found in one directory.
#[derive(Debug, Clone)]
pub struct Directory {
    /// File and directory entry sets, in order.
    pub entries: Vec<EntrySet>,
    /// Special entries (root directory only).
    pub specials: Vec<SpecialEntry>,
}

/// Seconds of an exFAT timestamp: the DOS date/time in `raw` plus
/// `ten_ms / 100` seconds, moved to UTC when the offset is valid (bit 7)
/// by its seven-bit signed count of 15-minute units.
pub open spec fn exfat_seconds(raw: u32, ten_ms: u8, utc_offset: u8) -> int {
    let local = dos_seconds((raw / 65536) as u16, (raw % 65536) as u16, 0) + ten_ms / 100;
    if utc_offset >= 128 {
        let v = utc_offset % 128;
        let units = if v >= 64 {
            v - 128
        } else {
            v as int
        };
        local - units * 900
    } else {
        local
    }
}

/// An exFAT timestamp as decoded: `None` when the date/time is invalid.
pub open spec fn exfat_time(raw: u32, ten_ms: u8, utc_offset: u8) -> Option<i64> {
    if dos_valid((raw / 65536) as u16, (raw % 65536) as u16) {
        Some(exfat_seconds(raw, ten_ms, utc_offset) as i64)
    } else {
        None
    }
}

/// The UTC offset an offset byte declares, in 15-minute units east of UTC:
/// its low seven bits as a two's-complement number; none when bit 7 (valid)
/// is clear.
pub open spec fn offset_quarter_hours(utc_offset: u8) -> int {
    if utc_offset < 128 {
        0
    } else if utc_offset < 192 {
        utc_offset - 128
    } else {
        utc_offset - 256
    }
}

/// exFAT timestamps are stored as local time: the decoded UTC time plus the
/// declared offset is the local DOS time (with its 10 ms units), so a clock
/// east of UTC gives an earlier UTC time; without a valid offset the local
/// time is taken as is.
pub proof fn lemma_utc_offset_moves_local_time(raw: u32, ten_ms: u8, utc_offset: u8)
    ensures
        exfat_seconds(raw, ten_ms, utc_offset) + offset_quarter_hours(utc_offset) * 900 == dos_seconds(
            (raw / 65536) as u16,
            (raw % 65536) as u16,
            0,
        ) + ten_ms / 100,
{
}

fn exfat_timestamp(raw: u32, ten_ms: u8, utc_offset: u8) -> (r: Option<i64>)
    ensures
        r == exfat_time(raw, ten_ms, utc_offset),
        r matches Some(t) ==> t + offset_quarter_hours(utc_offset) * 900 == dos_seconds(
            (raw / 65536) as u16,
            (raw % 65536) as u16,
            0,
        ) + ten_ms / 100,
{
    proof {
        lemma_utc_offset_moves_local_time(raw, ten_ms, utc_offset);
        crate::calendar::lemma_dos_seconds_bounds((raw / 65536) as u16, (raw % 65536) as u16, 0);
    }
    let time = (raw % 65536) as u16;
    let date = (raw / 65536) as u16;
    let mut secs = match dos_datetime_to_unix(date, time, 0) {
        Some(s) => s,
        None => return None,
    };
    proof {
        crate::calendar::lemma_dos_seconds_bounds(date, time, 0);
    }
    secs = secs + (ten_ms / 100) as i64;
    if utc_offset >= 128 {
        let v = (utc_offset % 128) as i64;
        let units = if v >= 64 {
            v - 128
        } else {
            v
        };
        secs = secs - units * 900;
    }
    Some(secs)
}

/// The byte at `i` of an entry set as the checksum reads it: the in-use
/// bit restored on primary bytes of a deleted set.
pub open spec fn checksum_byte(s: Seq<u8>, i: int, deleted: bool) -> u8 {
    if deleted && i % 32 == 0 && s[i] < 128 {
        (s[i] + 128) as u8
    } else {
        s[i]
    }
}

/// Rotate-right-and-add step of the entry-set checksum.
pub open spec fn rotate_add16(sum: u16, b: u8) -> u16 {
    ((sum / 2 + (sum % 2) * 0x8000 + b) % 0x1_0000) as u16
}

/// Entry-set checksum over `s`, skipping the checksum field (bytes 2 and 3).
pub open spec fn set_sum(s: Seq<u8>, n: int, deleted: bool) -> u16
    decreases n,
{
    if n <= 0 {
        0
    } else {
        let prev = set_sum(s, n - 1, deleted);
        if n - 1 == 2 || n - 1 == 3 {
            prev
        } else {
            rotate_add16(prev, checksum_byte(s, n - 1, deleted))
        }
    }
}

/// Entry-set checksum over `bytes` (all entries of the set), skipping the
/// checksum field of the primary entry. `deleted` restores the in-use bits.
pub fn entry_set_checksum(bytes: &[u8], deleted: bool) -> (c: u16)
    ensures
        c == set_sum(bytes@, bytes@.len() as int, deleted),
{
    assert(bytes@.subrange(0, bytes@.len() as int) =~= bytes@);
    checksum_at(bytes, 0, bytes.len(), deleted)
}

proof fn lemma_first_stream_bounds(bytes: Seq<u8>, p: int, i: int, n: int)
    requires
        i <= n + 1,
    ensures
        i <= first_stream(bytes, p, i, n) <= n + 1,
    decreases n + 1 - i,
{
    if i <= n && !secondary_is(bytes, p, i, 0x40) {
        lemma_first_stream_bounds(bytes, p, i + 1, n);
    }
}

fn checksum_at(bytes: &[u8], start: usize, n: usize, deleted: bool) -> (c: u16)
    requires
        start + n <= bytes@.len(),
    ensures
        c == set_sum(bytes@.subrange(start as int, start + n), n as int, deleted),
{
    let ghost s = bytes@.subrange(start as int, start + n);
    let blen = bytes.len();
    let mut sum: u16 = 0;
    let mut i: usize = 0;
    while i < n
        invariant
            start + n <= bytes@.len(),
            blen == bytes@.len(),
            s == bytes@.subrange(start as int, start + n),
            i <= n,
            sum == set_sum(s, i as int, deleted),
        decreases n - i,
    {
        if i != 2 && i != 3 {
            let mut v = bytes[start + i];
            if deleted && i % 32 == 0 && v < 128 {
                v = v + 128;
            }
            assert(v == checksum_byte(s, i as int, deleted));
            sum = (((sum / 2 + (sum % 2) * 0x8000) as u32 + v as u32) % 0x1_0000) as u16;
        }
        i = i + 1;
    }
    sum
}

/// Length in bytes of the entry set whose primary entry is at `p`.
pub open spec fn set_len(bytes: Seq<u8>, p: int) -> int {
    32 * (1 + bytes[p + 1])
}

/// Whether secondary entry `i` of the set at `p` has kind `kind`.
pub open spec fn secondary_is(bytes: Seq<u8>, p: int, i: int, kind: int) -> bool {
    bytes[p + 32 * i] % 128 == kind
}

/// Index of the first stream extension among secondaries `i..=n` of the
/// set at `p`, or `n + 1` when there is none.
pub open spec fn first_stream(bytes: Seq<u8>, p: int, i: int, n: int) -> int
    decreases n + 1 - i,
{
    if i > n {
        n + 1
    } else if secondary_is(bytes, p, i, 0x40) {
        i
    } else {
        first_stream(bytes, p, i + 1, n)
    }
}

/// Name bytes of the set at `p`: bytes 2..32 of each file name entry among
/// secondaries `1..=i`, in order.
pub open spec fn name_bytes(bytes: Seq<u8>, p: int, i: int) -> Seq<u8>
    decreases i,
{
    if i <= 0 {
        seq![]
    } else if secondary_is(bytes, p, i, 0x41) {
        name_bytes(bytes, p, i - 1) + bytes.subrange(p + 32 * i + 2, p + 32 * i + 32)
    } else {
        name_bytes(bytes, p, i - 1)
    }
}

/// Whether the entry set at `p` lies wholly inside `bytes`.
pub open spec fn set_complete(bytes: Seq<u8>, p: int) -> bool {
    p + set_len(bytes, p) <= bytes.len()
}

/// Whether the entry at `p` ends the directory (or the region ends).
pub open spec fn scan_ends(bytes: Seq<u8>, p: int) -> bool {
    p < 0 || p + 32 > bytes.len() || bytes[p] == 0
}

/// Position after the entry (or complete entry set) at `p`.
pub open spec fn scan_next(bytes: Seq<u8>, p: int) -> int {
    if bytes[p] % 128 == 5 && set_complete(bytes, p) {
        p + set_len(bytes, p)
    } else {
        p + 32
    }
}

/// Whether the entry at `p` is an in-use special entry.
pub open spec fn is_special(bytes: Seq<u8>, p: int) -> bool {
    bytes[p] == 0x81 || bytes[p] == 0x82 || bytes[p] == 0x83
}

/// Whether the entry at `p` starts a complete entry set with a stream
/// extension.
pub open spec fn is_file_set(bytes: Seq<u8>, p: int) -> bool {
    &&& bytes[p] % 128 == 5
    &&& set_complete(bytes, p)
    &&& first_stream(bytes, p, 1, bytes[p + 1] as int) <= bytes[p + 1]
}

/// Positions of the special entries from `p` on.
pub open spec fn special_positions(bytes: Seq<u8>, p: int) -> Seq<int>
    decreases bytes.len() - p,
{
    if scan_ends(bytes, p) {
        seq![]
    } else if is_special(bytes, p) {
        seq![p] + special_positions(bytes, scan_next(bytes, p))
    } else {
        special_positions(bytes, scan_next(bytes, p))
    }
}

/// Positions of the file entry sets from `p` on.
pub open spec fn set_positions(bytes: Seq<u8>, p: int) -> Seq<int>
    decreases bytes.len() - p,
{
    if scan_ends(bytes, p) {
        seq![]
    } else if is_file_set(bytes, p) {
        seq![p] + set_positions(bytes, scan_next(bytes, p))
    } else {
        set_positions(bytes, scan_next(bytes, p))
    }
}

/// The label text of the label entry at `p`.
pub open spec fn label_chars(bytes: Seq<u8>, p: int) -> Seq<char> {
    let n = if bytes[p + 1] < 11 {
        bytes[p + 1] as int
    } else {
        11
    };
    utf16_lossy(utf16_units(bytes.subrange(p + 2, p + 2 + 2 * n)))
}

/// Whether `sp` is the special entry decoded from the entry at `p`.
pub open spec fn special_matches(sp: SpecialEntry, bytes: Seq<u8>, p: int) -> bool {
    if bytes[p] == 0x81 {
        sp == SpecialEntry::Bitmap { first_cluster: le32(bytes, p + 20) as u32, length: le64(bytes, p + 24) as u64 }
    } else if bytes[p] == 0x82 {
        sp == SpecialEntry::UpCase { first_cluster: le32(bytes, p + 20) as u32, length: le64(bytes, p + 24) as u64 }
    } else {
        sp matches SpecialEntry::Label(l) && l@ == label_chars(bytes, p)
    }
}

/// Whether `e` is the entry set decoded from the set at `p` of a region
/// whose first byte lies at volume offset `base`.
pub open spec fn set_matches(e: EntrySet, bytes: Seq<u8>, base: u64, p: int) -> bool {
    let n = bytes[p + 1] as int;
    let k = first_stream(bytes, p, 1, n);
    let q = p + 32 * k;
    let deleted = bytes[p] < 128;
    let nb = name_bytes(bytes, p, n);
    let take = if 2 * bytes[q + 3] < nb.len() {
        2 * bytes[q + 3]
    } else {
        nb.len() as int
    };
    &&& e.entry_offset == (if base + p > u64::MAX {
        u64::MAX as int
    } else {
        base + p
    })
    &&& e.deleted == deleted
    &&& e.secondary_count == bytes[p + 1]
    &&& e.checksum_ok == (set_sum(bytes.subrange(p, p + set_len(bytes, p)), set_len(bytes, p), deleted)
        == le16(bytes, p + 2))
    &&& e.attributes == ExfatAttributes(le16(bytes, p + 4) as u16)
    &&& e.created == exfat_time(le32(bytes, p + 8) as u32, bytes[p + 20], bytes[p + 22])
    &&& e.modified == exfat_time(le32(bytes, p + 12) as u32, bytes[p + 21], bytes[p + 23])
    &&& e.accessed == exfat_time(le32(bytes, p + 16) as u32, 0, bytes[p + 24])
    &&& e.flags == StreamFlags(bytes[q + 1])
    &&& e.name_length == bytes[q + 3]
    &&& e.valid_data_length == le64(bytes, q + 8)
    &&& e.first_cluster == le32(bytes, q + 20)
    &&& e.data_length == le64(bytes, q + 24)
    &&& e.name@ == utf16_lossy(utf16_units(nb.subrange(0, take)))
}

proof fn lemma_time_halves(bytes: Seq<u8>, o: int)
    requires
        0 <= o,
        o + 4 <= bytes.len(),
    ensures
        (le32(bytes, o) as u32) / 65536 == bytes[o + 2] + 256 * bytes[o + 3],
        (le32(bytes, o) as u32) % 65536 == bytes[o] + 256 * bytes[o + 1],
{
    let lo = bytes[o] + 256 * bytes[o + 1];
    let hi = bytes[o + 2] + 256 * bytes[o + 3];
    assert(le32(bytes, o) == hi * 65536 + lo);
    vstd::arithmetic::div_mod::lemma_fundamental_div_mod_converse(le32(bytes, o), 65536, hi, lo);
}

/// An entry set's modification time is its local DOS date (bytes 14..16)
/// and time (bytes 12..14), plus its 10 ms units (byte 21), moved to UTC by
/// the offset at byte 23: the decoded time plus that offset is the local
/// time. Creation uses bytes 8..12, 20 and 22 the same way.
pub proof fn lemma_entry_times_are_local(e: EntrySet, bytes: Seq<u8>, base: u64, p: int)
    requires
        set_matches(e, bytes, base, p),
        0 <= p,
        p + 32 <= bytes.len(),
    ensures
        e.modified matches Some(t) ==> t + offset_quarter_hours(bytes[p + 23]) * 900 == dos_seconds(
            (bytes[p + 14] + 256 * bytes[p + 15]) as u16,
            (bytes[p + 12] + 256 * bytes[p + 13]) as u16,
            0,
        ) + bytes[p + 21] / 100,
        e.created matches Some(t) ==> t + offset_quarter_hours(bytes[p + 22]) * 900 == dos_seconds(
            (bytes[p + 10] + 256 * bytes[p + 11]) as u16,
            (bytes[p + 8] + 256 * bytes[p + 9]) as u16,
            0,
        ) + bytes[p + 20] / 100,
{
    lemma_time_halves(bytes, p + 12);
    lemma_time_halves(bytes, p + 8);
    lemma_utc_offset_moves_local_time(le32(bytes, p + 12) as u32, bytes[p + 21], bytes[p + 23]);
    lemma_utc_offset_moves_local_time(le32(bytes, p + 8) as u32, bytes[p + 20], bytes[p + 22]);
    crate::calendar::lemma_dos_seconds_bounds(
        (bytes[p + 14] + 256 * bytes[p + 15]) as u16,
        (bytes[p + 12] + 256 * bytes[p + 13]) as u16,
        0,
    );
    crate::calendar::lemma_dos_seconds_bounds(
        (bytes[p + 10] + 256 * bytes[p + 11]) as u16,
        (bytes[p + 8] + 256 * bytes[p + 9]) as u16,
        0,
    );
}

fn parse_label(bytes: &[u8], pos: usize) -> (s: String)
    requires
        pos + 32 <= bytes@.len(),
    ensures
        s@ == label_chars(bytes@, pos as int),
{
    let blen = bytes.len();
    let n: usize = if bytes[pos + 1] < 11 {
        bytes[pos + 1] as usize
    } else {
        11
    };
    let mut raw: Vec<u8> = Vec::new();
    let mut i: usize = 0;
    while i < 2 * n
        invariant
            pos + 32 <= bytes@.len(),
            blen == bytes@.len(),
            n <= 11,
            i <= 2 * n,
            raw@ =~= bytes@.subrange(pos + 2, pos + 2 + i),
        decreases 2 * n - i,
    {
        raw.push(bytes[pos + 2 + i]);
        i = i + 1;
    }
    let units = units_le(raw.as_slice());
    string_from_utf16_lossy(units.as_slice())
}

fn parse_set(bytes: &[u8], pos: usize, base_offset: u64) -> (r: Option<EntrySet>)
    requires
        pos + 32 <= bytes@.len(),
        bytes@[pos as int] % 128 == 5,
        set_complete(bytes@, pos as int),
    ensures
        match r {
            Some(e) => is_file_set(bytes@, pos as int) && set_matches(e, bytes@, base_offset, pos as int),
            None => !is_file_set(bytes@, pos as int),
        },
{
    let ghost bs = bytes@;
    let blen = bytes.len();
    let secondary_count = bytes[pos + 1];
    let n = secondary_count as usize;
    let slen = 32 * (1 + n);
    let deleted = bytes[pos] < 128;
    let stored_checksum = read_u16(bytes, pos + 2).unwrap();
    let attributes = ExfatAttributes(read_u16(bytes, pos + 4).unwrap());
    let created = exfat_timestamp(read_u32(bytes, pos + 8).unwrap(), bytes[pos + 20], bytes[pos + 22]);
    let modified = exfat_timestamp(read_u32(bytes, pos + 12).unwrap(), bytes[pos + 21], bytes[pos + 23]);
    let accessed = exfat_timestamp(read_u32(bytes, pos + 16).unwrap(), 0, bytes[pos + 24]);
    let checksum_ok = checksum_at(bytes, pos, slen, deleted) == stored_checksum;
    let mut stream: usize = n + 1;
    let mut name_raw: Vec<u8> = Vec::new();
    let mut i: usize = 1;
    while i <= n
        invariant
            bs == bytes@,
            blen == bs.len(),
            n == bs[pos + 1],
            slen == 32 * (1 + n),
            pos + slen <= blen,
            1 <= i <= n + 1,
            stream <= n ==> stream == first_stream(bs, pos as int, 1, n as int),
            stream > n ==> stream == n + 1 && first_stream(bs, pos as int, 1, n as int)
                == first_stream(bs, pos as int, i as int, n as int),
            name_raw@ == name_bytes(bs, pos as int, i - 1),
        decreases n + 1 - i,
    {
        let kind = bytes[pos + 32 * i] % 128;
        proof {
            lemma_first_stream_bounds(bs, pos as int, i + 1, n as int);
        }
        if kind == 0x40 && stream == n + 1 {
            stream = i;
        }
        if kind == 0x41 {
            let mut j: usize = 2;
            let ghost before = name_raw@;
            while j < 32
                invariant
                    bs == bytes@,
                    blen == bs.len(),
                    pos + 32 * i + 32 <= blen,
                    2 <= j <= 32,
                    name_raw@ =~= before + bs.subrange(pos + 32 * i + 2, pos + 32 * i + j),
                decreases 32 - j,
            {
                name_raw.push(bytes[pos + 32 * i + j]);
                j = j + 1;
            }
        }
        proof {
            assert(name_raw@ == name_bytes(bs, pos as int, i as int));
        }
        i = i + 1;
    }
    proof {
        lemma_first_stream_bounds(bs, pos as int, 1, n as int);
        lemma_first_stream_bounds(bs, pos as int, n as int + 1, n as int);
    }
    if stream > n {
        return None;
    }
    let q = pos + 32 * stream;
    let flags = StreamFlags(bytes[q + 1]);
    let name_length = bytes[q + 3];
    let valid_data_length = read_u64(bytes, q + 8).unwrap();
    let first_cluster = read_u32(bytes, q + 20).unwrap();
    let data_length = read_u64(bytes, q + 24).unwrap();
    let take: usize = if 2 * (name_length as usize) < name_raw.len() {
        2 * (name_length as usize)
    } else {
        name_raw.len()
    };
    let mut kept: Vec<u8> = Vec::new();
    let mut t: usize = 0;
    while t < take
        invariant
            take <= name_raw@.len(),
            t <= take,
            kept@ =~= name_raw@.subrange(0, t as int),
        decreases take - t,
    {
        kept.push(name_raw[t]);
        t = t + 1;
    }
    let units = units_le(kept.as_slice());
    let name = string_from_utf16_lossy(units.as_slice());
    let entry_offset = match base_offset.checked_add(pos as u64) {
        Some(v) => v,
        None => u64::MAX,
    };
    Some(
        EntrySet {
            entry_offset,
            deleted,
            secondary_count,
            checksum_ok,
            attributes,
            flags,
            name,
            name_length,
            valid_data_length,
            first_cluster,
            data_length,
            created,
            modified,
            accessed,
        },
    )
}

/// Parses a directory region. `base_offset` is the volume byte offset of
/// `bytes[0]`.
///
/// Entries are scanned up to the end marker: in-use bitmap, up-case and
/// label entries become [`SpecialEntry`] values; complete entry sets (live
/// or deleted) with a stream extension become [`EntrySet`] values; a set
/// cut off by the end of the region is skipped entry by entry.
pub fn parse_directory(bytes: &[u8], base_offset: u64) -> (dir: Directory)
    ensures
        dir.specials@.len() == special_positions(bytes@, 0).len(),
        forall|k: int|
            0 <= k < dir.specials@.len() ==> special_matches(
                #[trigger] dir.specials@[k],
                bytes@,
                special_positions(bytes@, 0)[k],
            ),
        dir.entries@.len() == set_positions(bytes@, 0).len(),
        forall|k: int|
            0 <= k < dir.entries@.len() ==> set_matches(
                #[trigger] dir.entries@[k],
                bytes@,
                base_offset,
                set_positions(bytes@, 0)[k],
            ),
{
    let ghost bs = bytes@;
    let mut entries: Vec<EntrySet> = Vec::new();
    let mut specials: Vec<SpecialEntry> = Vec::new();
    let ghost mut sp_done: Seq<int> = seq![];
    let ghost mut set_done: Seq<int> = seq![];
    let blen = bytes.len();
    let mut pos: usize = 0;
    while blen - pos >= ENTRY_SIZE
        invariant
            bs == bytes@,
            blen == bs.len(),
            pos <= blen,
            special_positions(bs, 0) == sp_done + special_positions(bs, pos as int),
            set_positions(bs, 0) == set_done + set_positions(bs, pos as int),
            specials@.len() == sp_done.len(),
            entries@.len() == set_done.len(),
            forall|k: int| 0 <= k < specials@.len() ==> special_matches(#[trigger] specials@[k], bs, sp_done[k]),
            forall|k: int| 0 <= k < entries@.len() ==> set_matches(#[trigger] entries@[k], bs, base_offset, set_done[k]),
        ensures
            special_positions(bs, 0) == sp_done,
            set_positions(bs, 0) == set_done,
            specials@.len() == sp_done.len(),
            entries@.len() == set_done.len(),
            forall|k: int| 0 <= k < specials@.len() ==> special_matches(#[trigger] specials@[k], bs, sp_done[k]),
            forall|k: int| 0 <= k < entries@.len() ==> set_matches(#[trigger] entries@[k], bs, base_offset, set_done[k]),
        decreases blen - pos,
    {
        let t = bytes[pos];
        if t == 0 {
            assert(special_positions(bs, pos as int) =~= Seq::<int>::empty());
            assert(set_positions(bs, pos as int) =~= Seq::<int>::empty());
            assert(sp_done + Seq::<int>::empty() =~= sp_done);
            assert(set_done + Seq::<int>::empty() =~= set_done);
            break;
        }
        let ghost p = pos as int;
        let kind = t % 128;
        let next: usize;
        if t == 0x81 || t == 0x82 {
            let first_cluster = read_u32(bytes, pos + 20).unwrap();
            let length = read_u64(bytes, pos + 24).unwrap();
            let sp = if t == 0x81 {
                SpecialEntry::Bitmap { first_cluster, length }
            } else {
                SpecialEntry::UpCase { first_cluster, length }
            };
            specials.push(sp);
            proof {
                assert(special_positions(bs, p) == seq![p] + special_positions(bs, p + 32));
                assert(sp_done.push(p) + special_positions(bs, p + 32) =~= sp_done + (seq![p] + special_positions(bs, p + 32)));
                sp_done = sp_done.push(p);
            }
            next = pos + ENTRY_SIZE;
        } else if t == 0x83 {
            let label = parse_label(bytes, pos);
            specials.push(SpecialEntry::Label(label));
            proof {
                assert(special_positions(bs, p) == seq![p] + special_positions(bs, p + 32));
                assert(sp_done.push(p) + special_positions(bs, p + 32) =~= sp_done + (seq![p] + special_positions(bs, p + 32)));
                sp_done = sp_done.push(p);
            }
            next = pos + ENTRY_SIZE;
        } else if kind == 5 {
            let slen = 32 * (1 + bytes[pos + 1] as usize);
            if slen > blen - pos {
                next = pos + ENTRY_SIZE;
            } else {
                match parse_set(bytes, pos, base_offset) {
                    Some(e) => {
                        entries.push(e);
                        proof {
                            assert(set_positions(bs, p) == seq![p] + set_positions(bs, p + slen));
                            assert(set_done.push(p) + set_positions(bs, p + slen) =~= set_done + (seq![p] + set_positions(bs, p + slen)));
                            set_done = set_done.push(p);
                        }
                    },
                    None => {},
                }
                next = pos + slen;
            }
        } else {
            next = pos + ENTRY_SIZE;
        }
        assert(next == scan_next(bs, p));
        pos = next;
    }
    proof {
        if blen - pos < 32 {
            assert(special_positions(bs, pos as int) =~= Seq::<int>::empty());
            assert(set_positions(bs, pos as int) =~= Seq::<int>::empty());
            assert(sp_done + Seq::<int>::empty() =~= sp_done);
            assert(set_done + Seq::<int>::empty() =~= set_done);
        }
    }
    Directory { entries, specials }
}

} // verus!
