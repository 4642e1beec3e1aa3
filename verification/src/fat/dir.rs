//! Directory entries, long file names and deleted-entry handling.

use vstd::prelude::*;

use crate::bytes::{le16, le32, read_u16, read_u32};
use crate::calendar::{dos_datetime_to_unix, dos_seconds, dos_valid};
use crate::text::{
    ascii_chars, ascii_text_trimmed, push_char, push_str, string_from_utf16_lossy, trimmed_len,
    units_le, utf16_lossy, utf16_units,
};

verus! {

/// Size of a directory entry.
pub const ENTRY_SIZE: usize = 32;

/// First byte of a deleted entry.
pub const DELETED_MARKER: u8 = 0xE5;

/// First byte of the end-of-directory marker.
pub const END_MARKER: u8 = 0x00;

/// Attribute bit: read-only.
pub const ATTR_READ_ONLY: u8 = 0x01;

/// Attribute bit: hidden.
pub const ATTR_HIDDEN: u8 = 0x02;

/// Attribute bit: system.
pub const ATTR_SYSTEM: u8 = 0x04;

/// Attribute bit: volume label.
pub const ATTR_VOLUME_ID: u8 = 0x08;

/// Attribute bit: directory.
pub const ATTR_DIRECTORY: u8 = 0x10;

/// Attribute bit: archive.
pub const ATTR_ARCHIVE: u8 = 0x20;

/// Attribute value of a long-name piece.
pub const ATTR_LONG_NAME: u8 = 0x0F;

/// FAT attribute bits.
#[derive(Debug, Clone, Copy, PartialEq, Eq, Structural)]
pub struct FatAttributes(pub u8);

impl FatAttributes {
    /// Whether the entry is a directory.
    pub fn is_directory(&self) -> (r: bool)
        ensures
            r == (self.0 & 0x10 != 0),
    {
        self.0 & ATTR_DIRECTORY != 0
    }

    /// Whether the entry is a volume label (and not a directory).
    pub fn is_volume_label(&self) -> (r: bool)
        ensures
            r == (self.0 & 0x08 != 0 && self.0 & 0x10 == 0),
    {
        self.0 & ATTR_VOLUME_ID != 0 && self.0 & ATTR_DIRECTORY == 0
    }

    /// Whether the entry is a long-name piece.
    pub fn is_long_name(&self) -> (r: bool)
        ensures
            r == (self.0 & 0x3F == 0x0F),
    {
        self.0 & 0x3F == ATTR_LONG_NAME
    }
}

/// A parsed directory entry (short entry plus any long name).
#[derive(Debug, Clone, PartialEq, Eq)]
pub struct DirEntry {
    /// Volume byte offset of the 8.3 entry.
    pub entry_offset: u64,
    /// Whether the entry is deleted (`0xE5`).
    pub deleted: bool,
    /// Short (8.3) name; for deleted entries the lost first character is `?`.
    pub short_name: String,
    /// Long name from LFN entries, if present.
    pub long_name: Option<String>,
    /// Whether the long name was taken from deleted LFN entries whose
    /// checksum could not be verified.
    pub long_name_unverified: bool,
    /// Attributes.
    pub attributes: FatAttributes,
    /// First cluster (high word included on FAT32).
    pub first_cluster: u32,
    /// The stored high word of the first cluster (FAT32); zero when the
    /// driver cleared it on deletion.
    pub first_cluster_high: u16,
    /// Size in bytes.
    pub size: u32,
    /// Creation time (Unix seconds, UTC assumed), if set.
    pub created: Option<i64>,
    /// Modification time.
    pub modified: Option<i64>,
    /// Access date (midnight).
    pub accessed: Option<i64>,
}

/// The display name of an entry: the long name when present, else the
/// short name.
pub open spec fn display_name(e: DirEntry) -> Seq<char> {
    match e.long_name {
        Some(n) => n@,
        None => e.short_name@,
    }
}

impl DirEntry {
    /// Best display name: long name, else short name.
    pub fn name(&self) -> (r: &str)
        ensures
            r@ == display_name(*self),
    {
        match &self.long_name {
            Some(n) => n.as_str(),
            None => self.short_name.as_str(),
        }
    }

    /// Whether the entry is `.` or `..` (a short name without a long one).
    pub fn is_dot(&self) -> (r: bool)
        ensures
            r == (self.long_name is None && (self.short_name@ == seq!['.'] || self.short_name@
                == seq!['.', '.'])),
    {
        if self.long_name.is_some() {
            return false;
        }
        let dot = ".".to_owned();
        let dotdot = "..".to_owned();
        proof {
            reveal_strlit(".");
            reveal_strlit("..");
            assert("."@ =~= seq!['.']);
            assert(".."@ =~= seq!['.', '.']);
        }
        self.short_name == dot || self.short_name == dotdot
    }
}

/// The eight base bytes of a short name with the first byte as displayed:
/// `?` for a deleted entry, `0xE5` for the `0x05` escape.
pub open spec fn short_base(raw: Seq<u8>, deleted: bool) -> Seq<u8> {
    let b = raw.subrange(0, 8);
    if deleted {
        b.update(0, 0x3F)
    } else if b[0] == 0x05 {
        b.update(0, 0xE5)
    } else {
        b
    }
}

/// Display form of the 11 raw bytes of a short name: base and extension
/// without trailing spaces, joined by `.` when the extension is not empty.
pub open spec fn short_name_chars(raw: Seq<u8>, deleted: bool) -> Seq<char> {
    let base = short_base(raw, deleted);
    let b = ascii_chars(base.subrange(0, trimmed_len(base) as int));
    let ext = raw.subrange(8, 11);
    let e = ascii_chars(ext.subrange(0, trimmed_len(ext) as int));
    if e.len() == 0 {
        b
    } else {
        b + seq!['.'] + e
    }
}

fn decode_short_name(bytes: &[u8], pos: usize, deleted: bool) -> (s: String)
    requires
        pos + 11 <= bytes@.len(),
    ensures
        s@ == short_name_chars(bytes@.subrange(pos as int, pos + 11), deleted),
{
    let ghost raw = bytes@.subrange(pos as int, pos + 11);
    let blen = bytes.len();
    let mut base: Vec<u8> = Vec::new();
    let mut i: usize = 0;
    while i < 8
        invariant
            pos + 11 <= bytes@.len(),
            blen == bytes@.len(),
            raw == bytes@.subrange(pos as int, pos + 11),
            i <= 8,
            base@ =~= raw.subrange(0, i as int),
        decreases 8 - i,
    {
        base.push(bytes[pos + i]);
        i = i + 1;
    }
    if deleted {
        base.set(0, 0x3F);
    } else if base[0] == 0x05 {
        base.set(0, 0xE5);
    }
    assert(base@ =~= short_base(raw, deleted));
    let mut s = ascii_text_trimmed(base.as_slice(), 0, 8);
    assert(base@.subrange(0, 8) =~= base@);
    let ext = ascii_text_trimmed(bytes, pos + 8, 3);
    assert(bytes@.subrange(pos + 8, pos + 8 + 3) =~= raw.subrange(8, 11));
    proof {
        let t = trimmed_len(raw.subrange(8, 11));
        crate::text::lemma_trimmed_len_bound(raw.subrange(8, 11));
        assert(bytes@.subrange(pos + 8, pos + 8 + t) =~= raw.subrange(8, 11).subrange(0, t as int));
    }
    if ext.as_str().is_empty() {
        return s;
    }
    push_char(&mut s, '.');
    push_str(&mut s, ext.as_str());
    s
}

/// One step of the long-name checksum: rotate right by one bit, then add.
pub open spec fn rotate_add(sum: u8, b: u8) -> u8 {
    ((sum / 2 + (sum % 2) * 128 + b) % 256) as u8
}

/// Long-name checksum of a byte sequence.
pub open spec fn checksum_of(s: Seq<u8>) -> u8
    decreases s.len(),
{
    if s.len() == 0 {
        0
    } else {
        rotate_add(checksum_of(s.drop_last()), s.last())
    }
}

fn checksum_range(raw: &[u8], start: usize, n: usize) -> (c: u8)
    requires
        start + n <= raw@.len(),
    ensures
        c == checksum_of(raw@.subrange(start as int, start + n)),
{
    let mut sum: u8 = 0;
    let rlen = raw.len();
    let mut i: usize = 0;
    while i < n
        invariant
            start + n <= raw@.len(),
            rlen == raw@.len(),
            i <= n,
            sum == checksum_of(raw@.subrange(start as int, start + i)),
        decreases n - i,
    {
        let b = raw[start + i];
        assert(raw@.subrange(start as int, start + i + 1).drop_last() =~= raw@.subrange(
            start as int,
            start + i,
        ));
        sum = (((sum / 2 + (sum % 2) * 128) as u16 + b as u16) % 256) as u8;
        i = i + 1;
    }
    sum
}

/// Checksum over the 11 raw short-name bytes, as used by LFN entries (at
/// most the first 11 bytes of `raw` are used).
pub fn short_name_checksum(raw: &[u8]) -> (c: u8)
    ensures
        c == checksum_of(raw@.subrange(0, if raw@.len() < 11 { raw@.len() as int } else { 11 })),
{
    let n: usize = if raw.len() < 11 {
        raw.len()
    } else {
        11
    };
    checksum_range(raw, 0, n)
}

/// The 26 name bytes of a long-name entry (offsets 1..11, 14..26, 28..32).
pub open spec fn lfn_name_bytes(e: Seq<u8>) -> Seq<u8> {
    e.subrange(1, 11) + e.subrange(14, 26) + e.subrange(28, 32)
}

/// Index of the first NUL or `0xFFFF` padding unit at or after `i`.
pub open spec fn stop_index(u: Seq<u16>, i: int) -> int
    decreases u.len() - i,
{
    if i >= u.len() {
        u.len() as int
    } else if u[i] == 0 || u[i] == 0xFFFF {
        i
    } else {
        stop_index(u, i + 1)
    }
}

/// Text of one long-name entry: its code units up to the padding.
pub open spec fn lfn_text(e: Seq<u8>) -> Seq<char> {
    let u = utf16_units(lfn_name_bytes(e));
    utf16_lossy(u.subrange(0, stop_index(u, 0)))
}

/// The 32 bytes of the entry at `p`.
pub open spec fn entry_at(bytes: Seq<u8>, p: int) -> Seq<u8> {
    bytes.subrange(p, p + 32)
}

/// Whether the entry at `p` is a long-name piece.
pub open spec fn is_lfn_at(bytes: Seq<u8>, p: int) -> bool {
    bytes[p + 11] & 0x3F == 0x0F
}

/// Positions of the short entries from `p` on, up to the end marker or the
/// last whole entry.
pub open spec fn short_positions(bytes: Seq<u8>, p: int) -> Seq<int>
    decreases bytes.len() - p,
{
    if p < 0 || p + 32 > bytes.len() || bytes[p] == 0 {
        seq![]
    } else if is_lfn_at(bytes, p) {
        short_positions(bytes, p + 32)
    } else {
        seq![p] + short_positions(bytes, p + 32)
    }
}

/// Number of long-name entries immediately before `p`.
pub open spec fn lfn_run(bytes: Seq<u8>, p: int) -> nat
    decreases p,
{
    if p >= 32 && is_lfn_at(bytes, p - 32) {
        1 + lfn_run(bytes, p - 32)
    } else {
        0
    }
}

/// Long name assembled from the `n` long-name entries before `p`: the
/// nearest entry holds the first part.
pub open spec fn lfn_long_name(bytes: Seq<u8>, p: int, n: nat) -> Seq<char>
    decreases n,
{
    if n == 0 {
        seq![]
    } else {
        lfn_text(entry_at(bytes, p - 32)) + lfn_long_name(bytes, p - 32, (n - 1) as nat)
    }
}

/// Whether every one of the `n` long-name entries before `p` carries
/// checksum `c`.
pub open spec fn lfn_checksums_match(bytes: Seq<u8>, p: int, n: nat, c: u8) -> bool {
    forall|k: int| 1 <= k <= n ==> #[trigger] bytes[p - 32 * k + 13] == c
}

/// Whether one of the `n` long-name entries before `p` is deleted.
pub open spec fn lfn_any_deleted(bytes: Seq<u8>, p: int, n: nat) -> bool {
    exists|k: int| 1 <= k <= n && #[trigger] bytes[p - 32 * k] == 0xE5
}

/// MS-DOS time as decoded: `None` when the fields do not denote a time.
pub open spec fn dos_time(date: int, time: int, tens_of_ms: int) -> Option<i64> {
    if dos_valid(date as u16, time as u16) {
        Some(dos_seconds(date as u16, time as u16, tens_of_ms as u8) as i64)
    } else {
        None
    }
}

/// Whether the long name and its flag of `e` are those assembled for the
/// short entry at `p`: the long-name entries right before it are used when
/// they all carry its checksum (a live entry), or — for a deleted entry —
/// when one of them is deleted too or they all carry the checksum, in which
/// case the name is marked unverified.
pub open spec fn long_name_matches(e: DirEntry, bytes: Seq<u8>, p: int) -> bool {
    long_name_ok(e.long_name, e.long_name_unverified, bytes, p)
}

/// See [`long_name_matches`].
pub open spec fn long_name_ok(long: Option<String>, unverified: bool, bytes: Seq<u8>, p: int) -> bool {
    let n = lfn_run(bytes, p);
    let deleted = bytes[p] == 0xE5;
    let c = checksum_of(bytes.subrange(p, p + 11));
    let all = lfn_checksums_match(bytes, p, n, c);
    let verified = !deleted && all;
    let accepted = n > 0 && (verified || (deleted && (lfn_any_deleted(bytes, p, n) || all)));
    if accepted {
        let name = lfn_long_name(bytes, p, n);
        &&& unverified == !verified
        &&& if name.len() == 0 {
            long is None
        } else {
            long is Some && long.unwrap()@ == name
        }
    } else {
        long is None && !unverified
    }
}

/// The first cluster a short entry at `p` records: the high 16 bits at
/// byte 20, the low 16 bits at byte 26, both little-endian.
pub open spec fn short_first_cluster(bytes: Seq<u8>, p: int) -> int {
    (bytes[p + 20] + 256 * bytes[p + 21]) * 65536 + bytes[p + 26] + 256 * bytes[p + 27]
}

/// A parsed short entry starts at the cluster whose high half is the word
/// at byte 20 and low half the word at byte 26: on FAT32 the high word is
/// never dropped.
pub proof fn lemma_first_cluster_fields(e: DirEntry, bytes: Seq<u8>, base: u64, p: int)
    requires
        entry_matches(e, bytes, base, p),
    ensures
        e.first_cluster == short_first_cluster(bytes, p),
        e.first_cluster / 65536 == bytes[p + 20] + 256 * bytes[p + 21],
        e.first_cluster % 65536 == bytes[p + 26] + 256 * bytes[p + 27],
{
}

/// The other fields of a parsed short entry sit at their on-disk offsets:
/// deleted when the first name byte is `0xE5`, attributes at 11, size the
/// 32-bit word at 28, and the high word of the first cluster at 20.
pub proof fn lemma_short_entry_fields(e: DirEntry, bytes: Seq<u8>, base: u64, p: int)
    requires
        entry_matches(e, bytes, base, p),
    ensures
        e.deleted == (bytes[p] == 0xE5),
        e.attributes.0 == bytes[p + 11],
        e.size == bytes[p + 28] + 256 * bytes[p + 29] + 65536 * bytes[p + 30] + 16777216 * bytes[p + 31],
        e.first_cluster_high == bytes[p + 20] + 256 * bytes[p + 21],
{
}

/// Whether `e` is the entry decoded from the short entry at `p` of a
/// directory region whose first byte lies at volume offset `base`.
pub open spec fn entry_matches(e: DirEntry, bytes: Seq<u8>, base: u64, p: int) -> bool {
    let deleted = bytes[p] == 0xE5;
    &&& e.entry_offset == (if base + p > u64::MAX {
        u64::MAX as int
    } else {
        base + p
    })
    &&& e.deleted == deleted
    &&& e.short_name@ == short_name_chars(bytes.subrange(p, p + 11), deleted)
    &&& long_name_matches(e, bytes, p)
    &&& e.attributes == FatAttributes(bytes[p + 11])
    &&& e.first_cluster == le16(bytes, p + 20) * 65536 + le16(bytes, p + 26)
    &&& e.first_cluster_high == le16(bytes, p + 20)
    &&& e.size == le32(bytes, p + 28)
    &&& e.created == dos_time(le16(bytes, p + 16), le16(bytes, p + 14), bytes[p + 13] as int)
    &&& e.modified == dos_time(le16(bytes, p + 24), le16(bytes, p + 22), 0)
    &&& e.accessed == dos_time(le16(bytes, p + 18), 0, 0)
}

/// The pending long-name pieces `parts` are those of the long-name entries
/// right before `p`, in disk order.
spec fn parts_match(parts: Seq<(bool, u8, String)>, bytes: Seq<u8>, p: int) -> bool {
    &&& parts.len() == lfn_run(bytes, p)
    &&& forall|i: int|
        #![trigger parts[i]]
        0 <= i < parts.len() ==> {
            let q = p - 32 * (parts.len() - i);
            &&& parts[i].0 == (bytes[q] == 0xE5)
            &&& parts[i].1 == bytes[q + 13]
            &&& parts[i].2@ == lfn_text(entry_at(bytes, q))
        }
    &&& 32 * parts.len() <= p
}

fn assemble_long_name(
    parts: &Vec<(bool, u8, String)>,
    deleted: bool,
    checksum: u8,
    Ghost(bytes): Ghost<Seq<u8>>,
    Ghost(p): Ghost<int>,
) -> (r: (Option<String>, bool))
    requires
        parts_match(parts@, bytes, p),
        0 <= p,
        p + 32 <= bytes.len(),
        deleted == (bytes[p] == 0xE5),
        checksum == checksum_of(bytes.subrange(p, p + 11)),
    ensures
        long_name_ok(r.0, r.1, bytes, p),
{
    let n = parts.len();
    if n == 0 {
        return (None, false);
    }
    let mut all = true;
    let mut any_deleted = false;
    let mut i: usize = 0;
    while i < n
        invariant
            n == parts@.len(),
            parts_match(parts@, bytes, p),
            i <= n,
            all == (forall|j: int| 0 <= j < i ==> #[trigger] parts@[j].1 == checksum),
            any_deleted == (exists|j: int| 0 <= j < i && #[trigger] parts@[j].0),
        decreases n - i,
    {
        if parts[i].1 != checksum {
            all = false;
        }
        if parts[i].0 {
            any_deleted = true;
        }
        i = i + 1;
    }
    proof {
        let nn = n as nat;
        assert(all == lfn_checksums_match(bytes, p, nn, checksum)) by {
            if all {
                assert forall|k: int| 1 <= k <= nn implies #[trigger] bytes[p - 32 * k + 13]
                    == checksum by {
                    let j = n - k;
                    assert(parts@[j].1 == checksum);
                }
            } else {
                let j = choose|j: int| 0 <= j < n && #[trigger] parts@[j].1 != checksum;
                let k = n - j;
                assert(bytes[p - 32 * k + 13] != checksum);
            }
        }
        assert(any_deleted == lfn_any_deleted(bytes, p, nn)) by {
            if any_deleted {
                let j = choose|j: int| 0 <= j < n && #[trigger] parts@[j].0;
                let k = n - j;
                assert(bytes[p - 32 * k] == 0xE5);
            } else {
                assert forall|k: int| 1 <= k <= nn implies !(#[trigger] bytes[p - 32 * k] == 0xE5) by {
                    let j = n - k;
                    assert(!parts@[j].0);
                }
            }
        }
    }
    let verified = !deleted && all;
    if !(verified || (deleted && (any_deleted || all))) {
        return (None, false);
    }
    let mut name = String::new();
    let mut j: usize = 0;
    while j < n
        invariant
            n == parts@.len(),
            parts_match(parts@, bytes, p),
            j <= n,
            name@ == lfn_long_name(bytes, p, j as nat),
        decreases n - j,
    {
        let idx = n - 1 - j;
        proof {
            lemma_long_name_extend(bytes, p, j as nat);
            assert(parts@[idx as int].2@ == lfn_text(entry_at(bytes, p - 32 * (j + 1))));
        }
        push_str(&mut name, parts[idx].2.as_str());
        j = j + 1;
    }
    if name.as_str().is_empty() {
        (None, !verified)
    } else {
        (Some(name), !verified)
    }
}

/// Text of the long-name entry at `pos`.
fn lfn_piece(bytes: &[u8], pos: usize) -> (s: String)
    requires
        pos + 32 <= bytes@.len(),
    ensures
        s@ == lfn_text(entry_at(bytes@, pos as int)),
{
    let ghost e = entry_at(bytes@, pos as int);
    let blen = bytes.len();
    let mut raw: Vec<u8> = Vec::new();
    let mut i: usize = 1;
    while i < 32
        invariant
            pos + 32 <= bytes@.len(),
            blen == bytes@.len(),
            1 <= i <= 32,
            e == entry_at(bytes@, pos as int),
            raw@ =~= (if i <= 11 {
                e.subrange(1, i as int)
            } else if i <= 14 {
                e.subrange(1, 11)
            } else if i <= 26 {
                e.subrange(1, 11) + e.subrange(14, i as int)
            } else if i <= 28 {
                e.subrange(1, 11) + e.subrange(14, 26)
            } else {
                e.subrange(1, 11) + e.subrange(14, 26) + e.subrange(28, i as int)
            }),
        decreases 32 - i,
    {
        if (1 <= i && i < 11) || (14 <= i && i < 26) || 28 <= i {
            raw.push(bytes[pos + i]);
        }
        i = i + 1;
    }
    assert(raw@ =~= lfn_name_bytes(e));
    let units = units_le(raw.as_slice());
    let ghost u = units@;
    let mut end: usize = 0;
    while end < units.len() && units[end] != 0 && units[end] != 0xFFFF
        invariant
            u == units@,
            end <= u.len(),
            stop_index(u, 0) == stop_index(u, end as int),
        decreases u.len() - end,
    {
        end = end + 1;
    }
    let mut kept: Vec<u16> = Vec::new();
    let mut j: usize = 0;
    while j < end
        invariant
            u == units@,
            end <= u.len(),
            j <= end,
            kept@ =~= u.subrange(0, j as int),
        decreases end - j,
    {
        kept.push(units[j]);
        j = j + 1;
    }
    string_from_utf16_lossy(kept.as_slice())
}

proof fn lemma_long_name_extend(bytes: Seq<u8>, p: int, m: nat)
    ensures
        lfn_long_name(bytes, p, m + 1) == lfn_long_name(bytes, p, m) + lfn_text(
            entry_at(bytes, p - 32 * (m + 1)),
        ),
    decreases m,
{
    if m > 0 {
        lemma_long_name_extend(bytes, p - 32, (m - 1) as nat);
        assert(p - 32 - 32 * m == p - 32 * (m + 1));
        assert(lfn_long_name(bytes, p, m + 1) =~= lfn_long_name(bytes, p, m) + lfn_text(
            entry_at(bytes, p - 32 * (m + 1)),
        ));
    } else {
        assert(lfn_long_name(bytes, p - 32, 0) =~= seq![]);
        assert(lfn_long_name(bytes, p, 1) =~= lfn_text(entry_at(bytes, p - 32)));
    }
}

/// Parses the directory entries in `bytes` (a whole directory region).
/// `base_offset` is the volume byte offset of `bytes[0]`.
///
/// One entry is produced for each short entry before the end marker, in
/// order. Long-name entries are assembled onto the following short entry;
/// for a deleted short entry the preceding deleted LFN entries are
/// assembled too, even though their checksum can no longer be verified
/// against the lost first byte (`long_name_unverified`).
pub fn parse_directory(bytes: &[u8], base_offset: u64) -> (out: Vec<DirEntry>)
    ensures
        out@.len() == short_positions(bytes@, 0).len(),
        forall|k: int|
            0 <= k < out@.len() ==> entry_matches(
                #[trigger] out@[k],
                bytes@,
                base_offset,
                short_positions(bytes@, 0)[k],
            ),
        forall|k: int|
            0 <= k < out@.len() ==> (#[trigger] out@[k]).first_cluster == short_first_cluster(
                bytes@,
                short_positions(bytes@, 0)[k],
            ),
{
    let ghost bs = bytes@;
    let mut out: Vec<DirEntry> = Vec::new();
    let mut parts: Vec<(bool, u8, String)> = Vec::new();
    let mut pos: usize = 0;
    let ghost mut done: Seq<int> = seq![];
    let blen = bytes.len();
    while blen - pos >= ENTRY_SIZE
        invariant
            bs == bytes@,
            blen == bs.len(),
            pos <= blen,
            short_positions(bs, 0) == done + short_positions(bs, pos as int),
            out@.len() == done.len(),
            forall|k: int|
                0 <= k < out@.len() ==> entry_matches(#[trigger] out@[k], bs, base_offset, done[k]),
            parts_match(parts@, bs, pos as int),
        ensures
            short_positions(bs, 0) == done,
            out@.len() == done.len(),
            forall|k: int|
                0 <= k < out@.len() ==> entry_matches(#[trigger] out@[k], bs, base_offset, done[k]),
        decreases blen - pos,
    {
        let first = bytes[pos];
        if first == END_MARKER {
            assert(short_positions(bs, pos as int) =~= Seq::<int>::empty());
            assert(done + Seq::<int>::empty() =~= done);
            break;
        }
        let attr = FatAttributes(bytes[pos + 11]);
        let deleted = first == DELETED_MARKER;
        if attr.is_long_name() {
            let checksum = bytes[pos + 13];
            let text = lfn_piece(bytes, pos);
            let ghost old_parts = parts@;
            parts.push((deleted, checksum, text));
            proof {
                assert(lfn_run(bs, pos + 32) == lfn_run(bs, pos as int) + 1);
                assert forall|i: int|
                    #![trigger parts@[i]]
                    0 <= i < parts@.len() implies {
                        let q = (pos + 32) - 32 * (parts@.len() - i);
                        &&& parts@[i].0 == (bs[q] == 0xE5)
                        &&& parts@[i].1 == bs[q + 13]
                        &&& parts@[i].2@ == lfn_text(entry_at(bs, q))
                    } by {
                    if i < old_parts.len() {
                        assert(parts@[i] == old_parts[i]);
                    }
                }
            }
            pos = pos + ENTRY_SIZE;
            continue;
        }
        let short_name = decode_short_name(bytes, pos, deleted);
        let checksum = checksum_range(bytes, pos, 11);
        let (long_name, unverified) = assemble_long_name(
            &parts,
            deleted,
            checksum,
            Ghost(bs),
            Ghost(pos as int),
        );
        parts = Vec::new();
        let cluster_high = read_u16(bytes, pos + 20).unwrap();
        let cluster_low = read_u16(bytes, pos + 26).unwrap();
        let ctime_tenths = bytes[pos + 13];
        let ctime = read_u16(bytes, pos + 14).unwrap();
        let cdate = read_u16(bytes, pos + 16).unwrap();
        let adate = read_u16(bytes, pos + 18).unwrap();
        let mtime = read_u16(bytes, pos + 22).unwrap();
        let mdate = read_u16(bytes, pos + 24).unwrap();
        let size = read_u32(bytes, pos + 28).unwrap();
        let entry_offset = match base_offset.checked_add(pos as u64) {
            Some(v) => v,
            None => u64::MAX,
        };
        let e = DirEntry {
            entry_offset,
            deleted,
            short_name,
            long_name,
            long_name_unverified: unverified,
            attributes: attr,
            first_cluster: cluster_high as u32 * 65536 + cluster_low as u32,
            first_cluster_high: cluster_high,
            size,
            created: dos_datetime_to_unix(cdate, ctime, ctime_tenths),
            modified: dos_datetime_to_unix(mdate, mtime, 0),
            accessed: dos_datetime_to_unix(adate, 0, 0),
        };
        proof {
            assert(entry_matches(e, bs, base_offset, pos as int));
            assert(short_positions(bs, pos as int) == seq![pos as int] + short_positions(
                bs,
                pos + 32,
            ));
            assert(done.push(pos as int) + short_positions(bs, pos + 32) =~= done + (seq![
                pos as int,
            ] + short_positions(bs, pos + 32)));
            assert(lfn_run(bs, pos + 32) == 0);
        }
        out.push(e);
        proof {
            done = done.push(pos as int);
        }
        pos = pos + ENTRY_SIZE;
    }
    proof {
        if pos + 32 > blen {
            assert(short_positions(bs, pos as int) =~= Seq::<int>::empty());
            assert(done + Seq::<int>::empty() =~= done);
        }
        assert forall|k: int| 0 <= k < out@.len() implies (#[trigger] out@[k]).first_cluster
            == short_first_cluster(bytes@, short_positions(bytes@, 0)[k]) by {
            lemma_first_cluster_fields(out@[k], bytes@, base_offset, short_positions(bytes@, 0)[k]);
        }
    }
    out
}

} // verus!
