//! The NTFS cluster allocation bitmap (`$Bitmap`).

use vstd::prelude::*;

use crate::exfat::bitmap::bit_set;

verus! {

/// Largest `$Bitmap` loaded into memory.
pub const MAX_BITMAP_BYTES: u64 = 268435456;

/// Allocation state of one cluster.
#[derive(Debug, Clone, Copy, PartialEq, Eq, Hash, Structural)]
pub enum ClusterState {
    /// Not allocated.
    Free,
    /// Allocated.
    Allocated,
    /// Outside the bitmap.
    Unknown,
}

/// Per-range allocation summary.
#[derive(Debug, Clone, Copy, PartialEq, Eq, Structural)]
pub struct RangeAllocation {
    /// Free clusters.
    pub free: u64,
    /// Allocated clusters.
    pub allocated: u64,
    /// Clusters of unknown state.
    pub unknown: u64,
}

/// `a + b`, or `u64::MAX` when the sum does not fit.
pub open spec fn sat_add(a: u64, b: u64) -> u64 {
    if a + b > u64::MAX {
        u64::MAX
    } else {
        (a + b) as u64
    }
}

impl RangeAllocation {
    /// An empty summary.
    pub fn new() -> (r: Self)
        ensures
            r.free == 0 && r.allocated == 0 && r.unknown == 0,
    {
        RangeAllocation { free: 0, allocated: 0, unknown: 0 }
    }

    /// Total clusters, saturating at `u64::MAX`.
    pub fn total(&self) -> (r: u64)
        ensures
            r == sat_add(sat_add(self.free, self.allocated), self.unknown),
    {
        self.free.saturating_add(self.allocated).saturating_add(self.unknown)
    }

    /// Adds another summary, field by field, saturating.
    pub fn add(&mut self, other: RangeAllocation)
        ensures
            final(self).free == sat_add(old(self).free, other.free),
            final(self).allocated == sat_add(old(self).allocated, other.allocated),
            final(self).unknown == sat_add(old(self).unknown, other.unknown),
    {
        self.free = self.free.saturating_add(other.free);
        self.allocated = self.allocated.saturating_add(other.allocated);
        self.unknown = self.unknown.saturating_add(other.unknown);
    }
}

/// Anything that can answer the allocation state of a logical cluster.
pub trait ClusterAllocationMap: Sized {
    /// The state of cluster `lcn`.
    spec fn state_of(&self, lcn: u64) -> ClusterState;

    /// State of cluster `lcn`.
    fn state(&self, lcn: u64) -> (s: ClusterState)
        ensures
            s == self.state_of(lcn),
    ;

    /// Summarises `count` clusters from `lcn` (clusters past `u64::MAX`
    /// count as unknown).
    fn summarize(&self, lcn: u64, count: u64) -> (r: RangeAllocation)
        ensures
            r.free == count_state(|c: u64| self.state_of(c), lcn, count as nat, ClusterState::Free),
            r.allocated == count_state(|c: u64| self.state_of(c), lcn, count as nat, ClusterState::Allocated),
            r.unknown == count_state(|c: u64| self.state_of(c), lcn, count as nat, ClusterState::Unknown),
    {
        let mut out = RangeAllocation::new();
        let mut i: u64 = 0;
        while i < count
            invariant
                i <= count,
                out.free == count_state(|c: u64| self.state_of(c), lcn, i as nat, ClusterState::Free),
                out.allocated == count_state(|c: u64| self.state_of(c), lcn, i as nat, ClusterState::Allocated),
                out.unknown == count_state(|c: u64| self.state_of(c), lcn, i as nat, ClusterState::Unknown),
                out.free + out.allocated + out.unknown == i,
            decreases count - i,
        {
            let s = match lcn.checked_add(i) {
                Some(c) => self.state(c),
                None => ClusterState::Unknown,
            };
            match s {
                ClusterState::Free => out.free = out.free + 1,
                ClusterState::Allocated => out.allocated = out.allocated + 1,
                ClusterState::Unknown => out.unknown = out.unknown + 1,
            }
            i = i + 1;
        }
        out
    }
}

/// State of the `i`-th cluster from `lcn` under the map `m`: unknown past
/// `u64::MAX`.
pub open spec fn state_at(m: spec_fn(u64) -> ClusterState, lcn: u64, i: int) -> ClusterState {
    if lcn + i > u64::MAX {
        ClusterState::Unknown
    } else {
        m((lcn + i) as u64)
    }
}

/// How many of the `n` clusters from `lcn` are in state `st` under the map
/// `m`.
pub open spec fn count_state(
    m: spec_fn(u64) -> ClusterState,
    lcn: u64,
    n: nat,
    st: ClusterState,
) -> nat
    decreases n,
{
    if n == 0 {
        0
    } else {
        count_state(m, lcn, (n - 1) as nat, st) + (if state_at(m, lcn, n - 1) == st {
            1nat
        } else {
            0nat
        })
    }
}

/// Every cluster of a range is counted exactly once: the free, allocated
/// and unknown counts of `n` clusters add up to `n`.
pub proof fn lemma_counts_cover(m: spec_fn(u64) -> ClusterState, lcn: u64, n: nat)
    ensures
        count_state(m, lcn, n, ClusterState::Free) + count_state(m, lcn, n, ClusterState::Allocated)
            + count_state(m, lcn, n, ClusterState::Unknown) == n,
    decreases n,
{
    if n > 0 {
        lemma_counts_cover(m, lcn, (n - 1) as nat);
    }
}

/// In-memory copy of `$Bitmap`: bit `n` describes cluster `n`.
#[derive(Debug, Clone)]
pub struct ClusterBitmap {
    bits: Vec<u8>,
    total_clusters: u64,
}

/// State of `lcn` under the bitmap bytes `bits` of a volume of `total`
/// clusters.
pub open spec fn bitmap_state(bits: Seq<u8>, total: u64, lcn: u64) -> ClusterState {
    if lcn >= total || lcn / 8 >= bits.len() {
        ClusterState::Unknown
    } else if (bits[(lcn / 8) as int] / crate::bytes::pow2((lcn % 8) as nat) as u8) % 2 == 1 {
        ClusterState::Allocated
    } else {
        ClusterState::Free
    }
}

impl ClusterBitmap {
    /// The bitmap bytes.
    pub closed spec fn spec_bits(&self) -> Seq<u8> {
        self.bits@
    }

    /// The volume's cluster count.
    pub closed spec fn spec_total(&self) -> u64 {
        self.total_clusters
    }

    /// Wraps raw bitmap bytes.
    pub fn from_bytes(bits: Vec<u8>, total_clusters: u64) -> (b: Self)
        ensures
            b.spec_bits() == bits@,
            b.spec_total() == total_clusters,
    {
        ClusterBitmap { bits, total_clusters }
    }

    /// Number of clusters in the volume.
    pub fn total_clusters(&self) -> (r: u64)
        ensures
            r == self.spec_total(),
    {
        self.total_clusters
    }

    /// Number of allocated clusters in the volume.
    pub fn allocated_clusters(&self) -> (n: u64)
        ensures
            n == count_state(|c: u64| self.state_of(c), 0, self.spec_total() as nat, ClusterState::Allocated),
    {
        let total = self.total_clusters;
        let mut n: u64 = 0;
        let mut lcn: u64 = 0;
        while lcn < total
            invariant
                total == self.spec_total(),
                lcn <= total,
                n == count_state(|c: u64| self.state_of(c), 0, lcn as nat, ClusterState::Allocated),
                n <= lcn,
            decreases total - lcn,
        {
            if self.state(lcn) == ClusterState::Allocated {
                n = n + 1;
            }
            lcn = lcn + 1;
        }
        n
    }
}

impl ClusterAllocationMap for ClusterBitmap {
    open spec fn state_of(&self, lcn: u64) -> ClusterState {
        bitmap_state(self.spec_bits(), self.spec_total(), lcn)
    }

    fn state(&self, lcn: u64) -> (s: ClusterState) {
        if lcn >= self.total_clusters {
            return ClusterState::Unknown;
        }
        let index = lcn / 8;
        if index >= self.bits.len() as u64 {
            return ClusterState::Unknown;
        }
        if bit_set(self.bits[index as usize], (lcn % 8) as u32) {
            ClusterState::Allocated
        } else {
            ClusterState::Free
        }
    }
}

} // verus!
