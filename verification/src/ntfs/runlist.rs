//! Mapping-pairs (runlist) decoding.
//!
//! LCN deltas are signed and relative to the previous run; a decoder using
//! unsigned arithmetic silently corrupts fragmented files.

use vstd::prelude::*;

use crate::bytes::{le_int, le_uint, read_int, read_uint};
use crate::ntfs::error::NtfsError;

verus! {

/// One run of a non-resident attribute.
#[derive(Debug, Clone, Copy, PartialEq, Eq, Structural)]
pub enum NtfsRun {
    /// Clusters stored on disk.
    Data {
        /// First VCN of the run.
        vcn: u64,
        /// First LCN of the run.
        lcn: u64,
        /// Number of clusters.
        clusters: u64,
    },
    /// Clusters that read as zero and occupy no disk space.
    Sparse {
        /// First VCN of the run.
        vcn: u64,
        /// Number of clusters.
        clusters: u64,
    },
}

/// First VCN of a run.
pub open spec fn run_vcn(r: NtfsRun) -> u64 {
    match r {
        NtfsRun::Data { vcn, .. } => vcn,
        NtfsRun::Sparse { vcn, .. } => vcn,
    }
}

/// Cluster count of a run.
pub open spec fn run_clusters(r: NtfsRun) -> u64 {
    match r {
        NtfsRun::Data { clusters, .. } => clusters,
        NtfsRun::Sparse { clusters, .. } => clusters,
    }
}

impl NtfsRun {
    /// First VCN.
    pub fn vcn(&self) -> (v: u64)
        ensures
            v == run_vcn(*self),
    {
        match self {
            NtfsRun::Data { vcn, .. } => *vcn,
            NtfsRun::Sparse { vcn, .. } => *vcn,
        }
    }

    /// Cluster count.
    pub fn clusters(&self) -> (c: u64)
        ensures
            c == run_clusters(*self),
    {
        match self {
            NtfsRun::Data { clusters, .. } => *clusters,
            NtfsRun::Sparse { clusters, .. } => *clusters,
        }
    }

    /// Whether the run is sparse.
    pub fn is_sparse(&self) -> (b: bool)
        ensures
            b == (*self is Sparse),
    {
        match self {
            NtfsRun::Sparse { .. } => true,
            NtfsRun::Data { .. } => false,
        }
    }

    /// One past the last VCN (saturating).
    pub fn end_vcn(&self) -> (e: u64)
        ensures
            e == (if run_vcn(*self) + run_clusters(*self) > u64::MAX {
                u64::MAX as int
            } else {
                run_vcn(*self) + run_clusters(*self)
            }),
    {
        match self.vcn().checked_add(self.clusters()) {
            Some(v) => v,
            None => u64::MAX,
        }
    }
}

/// The runs encoded by the mapping pairs `mp` from byte `pos` on, the
/// first starting at `vcn` with the previous run's LCN `lcn`; `None` when
/// the encoding is malformed: a missing terminator or truncated field, a
/// zero-length run, a field width outside 1..=8 (length) or 0..=8 (offset),
/// a VCN overflow, a negative LCN, or a run reaching beyond `total`
/// clusters.
pub open spec fn runs_from(mp: Seq<u8>, pos: int, vcn: int, lcn: int, total: int) -> Option<Seq<NtfsRun>>
    decreases mp.len() - pos,
{
    if pos < 0 || pos >= mp.len() {
        None
    } else if mp[pos] == 0 {
        Some(seq![])
    } else {
        let ls = mp[pos] % 16;
        let os = mp[pos] / 16;
        let clusters = le_uint(mp.subrange(pos + 1, pos + 1 + ls));
        if ls == 0 || ls > 8 || os > 8 || pos + 1 + ls > mp.len() || clusters == 0 || vcn + clusters
            > u64::MAX {
            None
        } else if os == 0 {
            match runs_from(mp, pos + 1 + ls, vcn + clusters, lcn, total) {
                Some(rest) => Some(seq![NtfsRun::Sparse { vcn: vcn as u64, clusters: clusters as u64 }] + rest),
                None => None,
            }
        } else if pos + 1 + ls + os > mp.len() {
            None
        } else {
            let next = lcn + le_int(mp.subrange(pos + 1 + ls, pos + 1 + ls + os));
            if next < 0 || next + clusters > total {
                None
            } else {
                match runs_from(mp, pos + 1 + ls + os, vcn + clusters, next, total) {
                    Some(rest) => Some(
                        seq![NtfsRun::Data { vcn: vcn as u64, lcn: next as u64, clusters: clusters as u64 }]
                            + rest,
                    ),
                    None => None,
                }
            }
        }
    }
}

/// `p + o` when `o` is `Some`.
pub open spec fn prefixed(p: Seq<NtfsRun>, o: Option<Seq<NtfsRun>>) -> Option<Seq<NtfsRun>> {
    match o {
        Some(r) => Some(p + r),
        None => None,
    }
}

/// Decodes mapping pairs into runs.
///
/// `starting_vcn` is the attribute's starting VCN; `total_clusters` bounds
/// every LCN. The result is exactly [`runs_from`]; when that is `None` the
/// decoder fails with [`NtfsError::InvalidRunlist`].
pub fn decode_runlist(mapping_pairs: &[u8], starting_vcn: u64, total_clusters: u64) -> (r: Result<
    Vec<NtfsRun>,
    NtfsError,
>)
    ensures
        match r {
            Ok(runs) => runs_from(mapping_pairs@, 0, starting_vcn as int, 0, total_clusters as int)
                == Some(runs@),
            Err(e) => runs_from(mapping_pairs@, 0, starting_vcn as int, 0, total_clusters as int)
                is None && e is InvalidRunlist,
        },
{
    let ghost mp = mapping_pairs@;
    let len = mapping_pairs.len();
    let mut runs: Vec<NtfsRun> = Vec::new();
    let mut pos: usize = 0;
    let mut vcn = starting_vcn;
    let mut lcn: i128 = 0;
    loop
        invariant
            mp == mapping_pairs@,
            len == mp.len(),
            pos <= len,
            0 <= lcn <= total_clusters,
            runs_from(mp, 0, starting_vcn as int, 0, total_clusters as int) == prefixed(
                runs@,
                runs_from(mp, pos as int, vcn as int, lcn as int, total_clusters as int),
            ),
        decreases len - pos,
    {
        if pos >= len {
            return Err(NtfsError::InvalidRunlist("truncated: missing terminator"));
        }
        let header = mapping_pairs[pos];
        if header == 0 {
            assert(runs@ + Seq::<NtfsRun>::empty() =~= runs@);
            return Ok(runs);
        }
        let length_size = (header % 16) as usize;
        let offset_size = (header / 16) as usize;
        if length_size == 0 || length_size > 8 || offset_size > 8 {
            return Err(NtfsError::InvalidRunlist("invalid field widths"));
        }
        if len - pos - 1 < length_size {
            return Err(NtfsError::InvalidRunlist("truncated run length"));
        }
        let clusters = read_uint(mapping_pairs, pos + 1, length_size);
        if clusters == 0 {
            return Err(NtfsError::InvalidRunlist("zero-length run"));
        }
        let end_vcn = match vcn.checked_add(clusters) {
            Some(v) => v,
            None => return Err(NtfsError::InvalidRunlist("VCN overflow")),
        };
        let ghost old_runs = runs@;
        if offset_size == 0 {
            runs.push(NtfsRun::Sparse { vcn, clusters });
            assert(old_runs + (seq![NtfsRun::Sparse { vcn, clusters }] + runs_from(mp, pos + 1 + length_size, end_vcn as int, lcn as int, total_clusters as int).unwrap_or(seq![])) =~= runs@ + runs_from(mp, pos + 1 + length_size, end_vcn as int, lcn as int, total_clusters as int).unwrap_or(seq![]));
        } else {
            if len - pos - 1 - length_size < offset_size {
                return Err(NtfsError::InvalidRunlist("truncated run offset"));
            }
            let delta = read_int(mapping_pairs, pos + 1 + length_size, offset_size);
            proof {
                crate::bytes::lemma_le_uint_bound(mp.subrange(pos + 1 + length_size, pos + 1 + length_size + offset_size));
                crate::bytes::lemma_pow2_mono((8 * offset_size) as nat, 64);
                crate::bytes::lemma_pow2_add(32, 32);
                crate::bytes::lemma_pow2_add(31, 31);
                crate::bytes::lemma_pow2_add(31, 1);
                reveal_with_fuel(crate::bytes::pow2, 2);
                crate::bytes::lemma_pow2_62();
            }
            let next = lcn + delta;
            if next < 0 {
                return Err(NtfsError::InvalidRunlist("LCN underflow"));
            }
            if next > total_clusters as i128 || total_clusters as i128 - next < clusters as i128 {
                return Err(NtfsError::InvalidRunlist("run extends beyond the volume"));
            }
            lcn = next;
            runs.push(NtfsRun::Data { vcn, lcn: lcn as u64, clusters });
            assert(old_runs + (seq![NtfsRun::Data { vcn, lcn: lcn as u64, clusters }] + runs_from(mp, pos + 1 + length_size + offset_size, end_vcn as int, lcn as int, total_clusters as int).unwrap_or(seq![])) =~= runs@ + runs_from(mp, pos + 1 + length_size + offset_size, end_vcn as int, lcn as int, total_clusters as int).unwrap_or(seq![]));
        }
        vcn = end_vcn;
        pos = pos + 1 + length_size + offset_size;
    }
}

/// The signed LCN delta stored in the data pair whose header is at `q`:
/// the offset field that follows the length field.
pub open spec fn pair_delta(mp: Seq<u8>, q: int) -> int {
    let ls = mp[q] % 16;
    let os = mp[q] / 16;
    le_int(mp.subrange(q + 1 + ls, q + 1 + ls + os))
}

/// What one mapping pair decodes to: a zero header ends the list; any
/// other header gives a run starting at the current VCN, as long as the
/// unsigned length field that follows the header, sparse when the offset
/// width is 0, else on disk at the previous LCN plus the signed offset
/// field.
pub proof fn lemma_pair_run(mp: Seq<u8>, pos: int, vcn: int, lcn: int, total: int)
    requires
        0 <= pos < mp.len(),
        0 <= vcn,
        total <= u64::MAX,
        runs_from(mp, pos, vcn, lcn, total) is Some,
    ensures
        ({
            let rs = runs_from(mp, pos, vcn, lcn, total).unwrap();
            let ls = mp[pos] % 16;
            &&& mp[pos] == 0 <==> rs.len() == 0
            &&& mp[pos] != 0 ==> {
                &&& run_vcn(rs[0]) == vcn
                &&& run_clusters(rs[0]) == le_uint(mp.subrange(pos + 1, pos + 1 + ls))
                &&& (rs[0] is Sparse <==> mp[pos] / 16 == 0)
                &&& rs[0] matches NtfsRun::Data { lcn: l, .. } ==> l == lcn + pair_delta(mp, pos)
            }
        }),
{
}

/// A sparse run does not move the LCN base: when the pair at `pos` is
/// sparse (offset width 0) and the next pair carries data, the data run's
/// LCN is the LCN before the sparse run plus the data pair's signed delta.
pub proof fn lemma_sparse_keeps_lcn_base(mp: Seq<u8>, pos: int, vcn: int, lcn: int, total: int)
    requires
        0 <= pos < mp.len(),
        mp[pos] != 0,
        mp[pos] / 16 == 0,
        0 <= pos + 1 + mp[pos] % 16 < mp.len(),
        mp[pos + 1 + mp[pos] % 16] != 0,
        mp[pos + 1 + mp[pos] % 16] / 16 > 0,
        total <= u64::MAX,
        runs_from(mp, pos, vcn, lcn, total) is Some,
    ensures
        ({
            let rs = runs_from(mp, pos, vcn, lcn, total).unwrap();
            let q = pos + 1 + mp[pos] % 16;
            &&& rs.len() >= 2
            &&& rs[0] is Sparse
            &&& rs[1] matches NtfsRun::Data { lcn: l, .. } && l == lcn + pair_delta(mp, q)
        }),
{
    let ls = mp[pos] % 16;
    let clusters = le_uint(mp.subrange(pos + 1, pos + 1 + ls));
    let q = pos + 1 + ls;
    let rest = runs_from(mp, q, vcn + clusters, lcn, total);
    assert(rest is Some);
    let r = rest.unwrap();
    assert(runs_from(mp, pos, vcn, lcn, total).unwrap() == seq![NtfsRun::Sparse { vcn: vcn as u64, clusters: clusters as u64 }] + r);
    let ls2 = mp[q] % 16;
    let c2 = le_uint(mp.subrange(q + 1, q + 1 + ls2));
    let next = lcn + pair_delta(mp, q);
    let tail = runs_from(mp, q + 1 + ls2 + mp[q] / 16, vcn + clusters + c2, next, total);
    assert(r == seq![NtfsRun::Data { vcn: (vcn + clusters) as u64, lcn: next as u64, clusters: c2 as u64 }] + tail.unwrap());
}

/// Each data pair moves the LCN by its signed delta from the previous data
/// run's LCN, whatever sparse runs stand between: for a data pair, a sparse
/// pair and a data pair, the second data run's LCN is the first one's plus
/// the second pair's delta, and the first one's is the base plus its own.
pub proof fn lemma_data_sparse_data(mp: Seq<u8>, pos: int, vcn: int, lcn: int, total: int)
    requires
        0 <= pos < mp.len(),
        mp[pos] != 0,
        mp[pos] / 16 > 0,
        0 <= pos + 1 + mp[pos] % 16 + mp[pos] / 16 < mp.len(),
        ({
            let p1 = pos + 1 + mp[pos] % 16 + mp[pos] / 16;
            &&& mp[p1] != 0
            &&& mp[p1] / 16 == 0
            &&& 0 <= p1 + 1 + mp[p1] % 16 < mp.len()
            &&& mp[p1 + 1 + mp[p1] % 16] != 0
            &&& mp[p1 + 1 + mp[p1] % 16] / 16 > 0
        }),
        total <= u64::MAX,
        runs_from(mp, pos, vcn, lcn, total) is Some,
    ensures
        ({
            let rs = runs_from(mp, pos, vcn, lcn, total).unwrap();
            let p1 = pos + 1 + mp[pos] % 16 + mp[pos] / 16;
            let p2 = p1 + 1 + mp[p1] % 16;
            &&& rs.len() >= 3
            &&& rs[0] matches NtfsRun::Data { lcn: l0, .. } && l0 == lcn + pair_delta(mp, pos)
            &&& rs[1] is Sparse
            &&& rs[2] matches NtfsRun::Data { lcn: l2, .. } && l2 == lcn + pair_delta(mp, pos)
                + pair_delta(mp, p2)
        }),
{
    let ls = mp[pos] % 16;
    let os = mp[pos] / 16;
    let clusters = le_uint(mp.subrange(pos + 1, pos + 1 + ls));
    let first = lcn + pair_delta(mp, pos);
    let p1 = pos + 1 + ls + os;
    let rest = runs_from(mp, p1, vcn + clusters, first, total);
    assert(rest is Some);
    assert(runs_from(mp, pos, vcn, lcn, total).unwrap() == seq![NtfsRun::Data { vcn: vcn as u64, lcn: first as u64, clusters: clusters as u64 }] + rest.unwrap());
    lemma_sparse_keeps_lcn_base(mp, p1, vcn + clusters, first, total);
}

/// Decoded runs tile the VCN range from the starting VCN without gaps or
/// overlaps, none is empty, and every data run lies inside the volume.
pub proof fn lemma_runs_tile(mp: Seq<u8>, pos: int, vcn: int, lcn: int, total: int)
    requires
        0 <= vcn <= u64::MAX,
        total <= u64::MAX,
        runs_from(mp, pos, vcn, lcn, total) is Some,
    ensures
        ({
            let rs = runs_from(mp, pos, vcn, lcn, total).unwrap();
            &&& rs.len() > 0 ==> run_vcn(rs[0]) == vcn
            &&& forall|i: int| 0 <= i < rs.len() - 1 ==> run_vcn(#[trigger] rs[i + 1]) == run_vcn(rs[i])
                + run_clusters(rs[i])
            &&& forall|i: int| 0 <= i < rs.len() ==> run_clusters(#[trigger] rs[i]) > 0
            &&& forall|i: int|
                0 <= i < rs.len() ==> (#[trigger] rs[i] matches NtfsRun::Data { lcn: l, clusters: c, .. }
                    ==> l + c <= total)
        }),
    decreases mp.len() - pos,
{
    let ls = mp[pos] % 16;
    let os = mp[pos] / 16;
    let clusters = le_uint(mp.subrange(pos + 1, pos + 1 + ls));
    if mp[pos] == 0 {
        return;
    }
    let rs = runs_from(mp, pos, vcn, lcn, total).unwrap();
    if os == 0 {
        let q = pos + 1 + ls;
        lemma_runs_tile(mp, q, vcn + clusters, lcn, total);
        let rest = runs_from(mp, q, vcn + clusters, lcn, total).unwrap();
        assert(rs == seq![NtfsRun::Sparse { vcn: vcn as u64, clusters: clusters as u64 }] + rest);
        assert forall|i: int| 0 <= i < rs.len() - 1 implies run_vcn(#[trigger] rs[i + 1]) == run_vcn(rs[i])
            + run_clusters(rs[i]) by {
            if i > 0 {
                assert(rs[i] == rest[i - 1] && rs[i + 1] == rest[i]);
                let j = i - 1;
                assert(run_vcn(rest[j + 1]) == run_vcn(rest[j]) + run_clusters(rest[j]));
            } else {
                assert(rs[1] == rest[0]);
            }
        }
        assert forall|i: int| 0 <= i < rs.len() implies run_clusters(#[trigger] rs[i]) > 0 by {
            if i > 0 {
                assert(rs[i] == rest[i - 1]);
            }
        }
        assert forall|i: int| 0 <= i < rs.len() implies (#[trigger] rs[i] matches NtfsRun::Data {
            lcn: l,
            clusters: c,
            ..
        } ==> l + c <= total) by {
            if i > 0 {
                assert(rs[i] == rest[i - 1]);
            }
        }
    } else {
        let q = pos + 1 + ls + os;
        let next = lcn + pair_delta(mp, pos);
        lemma_runs_tile(mp, q, vcn + clusters, next, total);
        let rest = runs_from(mp, q, vcn + clusters, next, total).unwrap();
        assert(rs == seq![NtfsRun::Data { vcn: vcn as u64, lcn: next as u64, clusters: clusters as u64 }] + rest);
        assert forall|i: int| 0 <= i < rs.len() - 1 implies run_vcn(#[trigger] rs[i + 1]) == run_vcn(rs[i])
            + run_clusters(rs[i]) by {
            if i > 0 {
                assert(rs[i] == rest[i - 1] && rs[i + 1] == rest[i]);
                let j = i - 1;
                assert(run_vcn(rest[j + 1]) == run_vcn(rest[j]) + run_clusters(rest[j]));
            } else {
                assert(rs[1] == rest[0]);
            }
        }
        assert forall|i: int| 0 <= i < rs.len() implies run_clusters(#[trigger] rs[i]) > 0 by {
            if i > 0 {
                assert(rs[i] == rest[i - 1]);
            }
        }
        assert forall|i: int| 0 <= i < rs.len() implies (#[trigger] rs[i] matches NtfsRun::Data {
            lcn: l,
            clusters: c,
            ..
        } ==> l + c <= total) by {
            if i > 0 {
                assert(rs[i] == rest[i - 1]);
            }
        }
    }
}

/// Total clusters of `runs`, saturating at `u64::MAX`.
pub open spec fn clusters_sum(runs: Seq<NtfsRun>) -> int
    decreases runs.len(),
{
    if runs.len() == 0 {
        0
    } else {
        let s = clusters_sum(runs.drop_last()) + run_clusters(runs.last());
        if s > u64::MAX {
            u64::MAX as int
        } else {
            s
        }
    }
}

/// Number of data (non-sparse) runs.
pub open spec fn data_runs(runs: Seq<NtfsRun>) -> nat
    decreases runs.len(),
{
    if runs.len() == 0 {
        0
    } else {
        data_runs(runs.drop_last()) + (if runs.last() is Data {
            1nat
        } else {
            0nat
        })
    }
}

/// Total clusters covered by a runlist (saturating).
pub fn total_clusters(runs: &[NtfsRun]) -> (t: u64)
    ensures
        t == clusters_sum(runs@),
{
    let mut acc: u64 = 0;
    let mut i: usize = 0;
    let n = runs.len();
    while i < n
        invariant
            n == runs@.len(),
            i <= n,
            acc == clusters_sum(runs@.subrange(0, i as int)),
        decreases n - i,
    {
        assert(runs@.subrange(0, i + 1).drop_last() =~= runs@.subrange(0, i as int));
        acc = match acc.checked_add(runs[i].clusters()) {
            Some(v) => v,
            None => u64::MAX,
        };
        i = i + 1;
    }
    assert(runs@.subrange(0, n as int) =~= runs@);
    acc
}

/// Number of physical extents (data runs) in a runlist, saturating at
/// `u32::MAX`.
pub fn extent_count(runs: &[NtfsRun]) -> (c: u32)
    ensures
        c == (if data_runs(runs@) > u32::MAX {
            u32::MAX as int
        } else {
            data_runs(runs@) as int
        }),
{
    let mut acc: u64 = 0;
    let mut i: usize = 0;
    let n = runs.len();
    while i < n
        invariant
            n == runs@.len(),
            i <= n,
            acc == data_runs(runs@.subrange(0, i as int)),
            acc <= i,
        decreases n - i,
    {
        assert(runs@.subrange(0, i + 1).drop_last() =~= runs@.subrange(0, i as int));
        if !runs[i].is_sparse() {
            acc = acc + 1;
        }
        i = i + 1;
    }
    assert(runs@.subrange(0, n as int) =~= runs@);
    if acc > u32::MAX as u64 {
        u32::MAX
    } else {
        acc as u32
    }
}

} // verus!
