//! Update Sequence Array (USA) handling for multi-sector records.
//!
//! NTFS stores the last two bytes of every sector of a FILE or INDX record in
//! the USA and overwrites them on disk with the update sequence number (USN).
//! Before any field beyond the header may be trusted, every sector tail must
//! match the USN and be restored from the array.

use vstd::prelude::*;

use crate::bytes::le16;
use crate::ntfs::error::NtfsError;

verus! {

/// Result of a successful fixup.
#[derive(Debug, Clone, Copy, PartialEq, Eq, Structural)]
pub struct FixupInfo {
    /// The update sequence number that protected the record.
    pub usn: u16,
    /// Number of sectors that were verified.
    pub sectors: u32,
}

/// Whether the record geometry admits a fixup: whole sectors of `stride`
/// bytes, one array slot per sector plus the USN, and the array inside the
/// first sector after the fixed header (offset `0x2A`).
pub open spec fn fixup_geometry_ok(len: int, usa_offset: int, usa_count: int, stride: int) -> bool {
    &&& stride >= 4
    &&& len >= stride
    &&& len % stride == 0
    &&& usa_count == len / stride + 1
    &&& usa_offset >= 0x2A
    &&& usa_offset + 2 * usa_count <= stride
}

/// Offset of the tail of sector `i`.
pub open spec fn tail(i: int, stride: int) -> int {
    (i + 1) * stride - 2
}

/// The record with the tails of its first `k` sectors restored from the
/// array of `old`.
pub open spec fn restored(old: Seq<u8>, usa_offset: int, stride: int, k: int) -> Seq<u8>
    decreases k,
{
    if k <= 0 {
        old
    } else {
        let t = tail(k - 1, stride);
        let a = usa_offset + 2 * k;
        restored(old, usa_offset, stride, k - 1).update(t, old[a]).update(t + 1, old[a + 1])
    }
}

/// Index of the first sector from `i` on whose tail differs from the USN at
/// `usa_offset`, or `n` when all `n` sectors match.
pub open spec fn first_mismatch(old: Seq<u8>, usa_offset: int, stride: int, i: int, n: int) -> int
    decreases n - i,
{
    if i >= n {
        n
    } else if old[tail(i, stride)] != old[usa_offset] || old[tail(i, stride) + 1] != old[usa_offset + 1] {
        i
    } else {
        first_mismatch(old, usa_offset, stride, i + 1, n)
    }
}

proof fn lemma_restored_len(old: Seq<u8>, usa_offset: int, stride: int, k: int)
    requires
        stride >= 4,
        k * stride <= old.len(),
    ensures
        restored(old, usa_offset, stride, k).len() == old.len(),
    decreases k,
{
    if k > 0 {
        assert((k - 1) * stride <= old.len() && tail(k - 1, stride) + 1 < old.len() && 0 <= tail(k - 1, stride)) by (nonlinear_arith)
            requires
                k * stride <= old.len(),
                k > 0,
                stride >= 4,
        ;
        lemma_restored_len(old, usa_offset, stride, k - 1);
    }
}

proof fn lemma_first_mismatch_bounds(old: Seq<u8>, usa_offset: int, stride: int, i: int, n: int)
    requires
        i <= n,
    ensures
        i <= first_mismatch(old, usa_offset, stride, i, n) <= n,
    decreases n - i,
{
    if i < n && !(old[tail(i, stride)] != old[usa_offset] || old[tail(i, stride) + 1] != old[usa_offset + 1]) {
        lemma_first_mismatch_bounds(old, usa_offset, stride, i + 1, n);
    }
}

/// Verifies and applies the USA of `record` in place.
///
/// `usa_offset` and `usa_count` come from the record header (offsets 0x04
/// and 0x06 in FILE records). `stride` is the protected block size,
/// normally the volume's bytes-per-sector.
///
/// Fails with [`NtfsError::InvalidRecord`] (record untouched) when the
/// geometry is not [`fixup_geometry_ok`], and with
/// [`NtfsError::FixupMismatch`] naming the first sector whose tail differs
/// from the USN, the sectors before it already restored. On success every
/// sector tail is restored from the array.
pub fn apply_fixup(
    record: &mut [u8],
    usa_offset: u16,
    usa_count: u16,
    stride: usize,
    record_number: u64,
) -> (r: Result<FixupInfo, NtfsError>)
    ensures
        ({
            let old_r = old(record)@;
            let len = old_r.len() as int;
            let n = if stride > 0 {
                len / (stride as int)
            } else {
                0
            };
            let m = first_mismatch(old_r, usa_offset as int, stride as int, 0, n);
            match r {
                Err(NtfsError::InvalidRecord { record: num, .. }) => !fixup_geometry_ok(
                    len,
                    usa_offset as int,
                    usa_count as int,
                    stride as int,
                ) && num == record_number && final(record)@ == old_r,
                Err(NtfsError::FixupMismatch { record: num, sector_index }) => fixup_geometry_ok(
                    len,
                    usa_offset as int,
                    usa_count as int,
                    stride as int,
                ) && m < n && sector_index == (if m > u32::MAX { u32::MAX as int } else { m })
                    && num == record_number && final(record)@ == restored(
                    old_r,
                    usa_offset as int,
                    stride as int,
                    m,
                ),
                Err(_) => false,
                Ok(info) => fixup_geometry_ok(len, usa_offset as int, usa_count as int, stride as int)
                    && m == n && info.usn == le16(old_r, usa_offset as int) && info.sectors == (if n > u32::MAX {
                    u32::MAX as int
                } else {
                    n
                })
                    && final(record)@ == restored(old_r, usa_offset as int, stride as int, n),
            }
        }),
{
    let ghost old_r = record@;
    let len = record.len();
    if stride < 4 || len < stride || len % stride != 0 {
        return Err(
            NtfsError::InvalidRecord {
                record: record_number,
                reason: "record length is not a multiple of the sector size",
            },
        );
    }
    let sectors = len / stride;
    assert(sectors < len) by (nonlinear_arith)
        requires
            sectors == len / stride,
            stride >= 4,
            len >= stride,
    ;
    if usa_count as usize != sectors + 1 {
        return Err(
            NtfsError::InvalidRecord {
                record: record_number,
                reason: "update sequence count does not match the sectors",
            },
        );
    }
    let usa_start = usa_offset as usize;
    let usa_end = usa_start + 2 * usa_count as usize;
    if usa_start < 0x2A || usa_end > stride {
        return Err(
            NtfsError::InvalidRecord {
                record: record_number,
                reason: "update sequence array lies outside the first sector",
            },
        );
    }
    let mut array: Vec<u8> = Vec::new();
    let mut j = usa_start;
    while j < usa_end
        invariant
            old_r == record@,
            len == old_r.len(),
            usa_start <= j <= usa_end,
            usa_end <= stride <= len,
            array@ =~= old_r.subrange(usa_start as int, j as int),
        decreases usa_end - j,
    {
        array.push(record[j]);
        j = j + 1;
    }
    let usn = array[0] as u16 + 256 * array[1] as u16;
    let mut i: usize = 0;
    assert(sectors * stride == len) by (nonlinear_arith)
        requires
            len % stride == 0,
            sectors == len / stride,
            stride > 0,
    ;
    while i < sectors
        invariant
            len == old_r.len(),
            old_r == old(record)@,
            record@.len() == len,
            stride >= 4,
            fixup_geometry_ok(len as int, usa_offset as int, usa_count as int, stride as int),
            usa_start == usa_offset,
            sectors == len / stride,
            sectors * stride == len,
            usa_end == usa_start + 2 * (sectors + 1),
            usa_end <= stride,
            array@ == old_r.subrange(usa_start as int, usa_end as int),
            i <= sectors,
            record@ == restored(old_r, usa_start as int, stride as int, i as int),
            first_mismatch(old_r, usa_start as int, stride as int, 0, sectors as int)
                == first_mismatch(old_r, usa_start as int, stride as int, i as int, sectors as int),
        decreases sectors - i,
    {
        assert((i + 1) * stride <= len) by (nonlinear_arith)
            requires
                i < sectors,
                sectors * stride == len,
        ;
        assert((i + 1) * stride >= stride) by (nonlinear_arith)
            requires
                i >= 0,
                stride >= 0,
        ;
        let t = (i + 1) * stride - 2;
        proof {
            assert(i * stride <= len) by (nonlinear_arith)
                requires
                    i < sectors,
                    sectors * stride == len,
                    stride >= 0,
            ;
            lemma_restored_len(old_r, usa_start as int, stride as int, i as int);
            lemma_restored_unchanged(old_r, usa_start as int, stride as int, i as int, t as int);
            lemma_restored_unchanged(old_r, usa_start as int, stride as int, i as int, t + 1);
        }
        if record[t] != array[0] || record[t + 1] != array[1] {
            return Err(
                NtfsError::FixupMismatch {
                    record: record_number,
                    sector_index: if i > u32::MAX as usize {
                        u32::MAX
                    } else {
                        i as u32
                    },
                },
            );
        }
        record[t] = array[2 * (i + 1)];
        record[t + 1] = array[2 * (i + 1) + 1];
        i = i + 1;
    }
    let count = if sectors > u32::MAX as usize {
        u32::MAX
    } else {
        sectors as u32
    };
    Ok(FixupInfo { usn, sectors: count })
}

/// Restoring the first `k` sector tails leaves every byte at or after the
/// tail of sector `k` as it was.
proof fn lemma_restored_unchanged(old: Seq<u8>, usa_offset: int, stride: int, k: int, j: int)
    requires
        stride >= 4,
        k >= 0,
        k * stride <= old.len(),
        j >= tail(k, stride),
        j < old.len(),
    ensures
        restored(old, usa_offset, stride, k)[j] == old[j],
    decreases k,
{
    if k > 0 {
        assert(tail(k, stride) >= tail(k - 1, stride) + 2 && (k - 1) * stride <= old.len()
            && tail(k - 1, stride) + 1 < old.len() && 0 <= tail(k - 1, stride)) by (nonlinear_arith)
            requires
                stride >= 4,
                k > 0,
                k * stride <= old.len(),
        ;
        lemma_restored_unchanged(old, usa_offset, stride, k - 1, j);
        lemma_restored_len(old, usa_offset, stride, k - 1);
    }
}

} // verus!
