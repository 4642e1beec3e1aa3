//! The exFAT allocation bitmap.

use vstd::prelude::*;

use crate::exfat::boot::ExfatBootSector;
use crate::exfat::error::ExfatError;
use crate::exfat::table::ExfatTable;
use crate::exfat::volume::{lemma_chain_unique, sat_cluster};

verus! {

/// Largest bitmap loaded into memory.
pub const MAX_BITMAP_BYTES: u64 = 268435456;

/// Allocation state of one cluster.
#[derive(Debug, Clone, Copy, PartialEq, Eq, Structural)]
pub enum ClusterState {
    /// Not allocated.
    Free,
    /// Allocated.
    Allocated,
    /// Outside the bitmap.
    Unknown,
}

/// Per-range allocation summary.
#[derive(Debug, Clone, Copy, PartialEq, Eq, Structural)]
pub struct RangeAllocation {
    /// Free clusters.
    pub free: u64,
    /// Allocated clusters.
    pub allocated: u64,
    /// Clusters of unknown state.
    pub unknown: u64,
}

/// The allocation bitmap: bit `n` describes cluster `n + 2`.
#[derive(Debug, Clone)]
pub struct AllocationBitmap {
    bits: Vec<u8>,
    cluster_count: u32,
}

/// State of `cluster` under the bitmap bytes `bits` of a heap of
/// `cluster_count` clusters.
pub open spec fn state_of(bits: Seq<u8>, cluster_count: u32, cluster: u32) -> ClusterState {
    if cluster < 2 || cluster - 2 >= cluster_count {
        ClusterState::Unknown
    } else {
        let index = cluster - 2;
        if index / 8 >= bits.len() {
            ClusterState::Unknown
        } else if (bits[index / 8] / crate::bytes::pow2((index % 8) as nat) as u8) % 2 == 1 {
            ClusterState::Allocated
        } else {
            ClusterState::Free
        }
    }
}

/// Tally of the states of `clusters`.
pub open spec fn tally(bits: Seq<u8>, cluster_count: u32, clusters: Seq<u32>) -> (nat, nat, nat)
    decreases clusters.len(),
{
    if clusters.len() == 0 {
        (0, 0, 0)
    } else {
        let t = tally(bits, cluster_count, clusters.drop_last());
        match state_of(bits, cluster_count, clusters.last()) {
            ClusterState::Free => (t.0 + 1, t.1, t.2),
            ClusterState::Allocated => (t.0, t.1 + 1, t.2),
            ClusterState::Unknown => (t.0, t.1, t.2 + 1),
        }
    }
}

/// Number of allocated clusters among `lo..hi`.
pub open spec fn allocated_count(bits: Seq<u8>, cluster_count: u32, lo: int, hi: int) -> nat
    decreases hi - lo,
{
    if hi <= lo {
        0
    } else {
        allocated_count(bits, cluster_count, lo, hi - 1) + (if state_of(
            bits,
            cluster_count,
            (hi - 1) as u32,
        ) == ClusterState::Allocated {
            1nat
        } else {
            0nat
        })
    }
}

/// Whether bit `bit` (0..8) of `b` is set.
pub fn bit_set(b: u8, bit: u32) -> (r: bool)
    requires
        bit < 8,
    ensures
        r == ((b / crate::bytes::pow2(bit as nat) as u8) % 2 == 1),
{
    let p = crate::bytes::pow2_u64(bit) as u8;
    proof {
        crate::bytes::lemma_pow2_mono(bit as nat, 7);
        reveal_with_fuel(crate::bytes::pow2, 8);
    }
    (b / p) % 2 == 1
}

/// Bytes of a `length`-byte bitmap held by its `i`-th cluster of `cs`
/// bytes.
pub open spec fn bitmap_take(length: int, cs: int, i: int) -> int {
    if length - i * cs < cs {
        length - i * cs
    } else {
        cs
    }
}

impl AllocationBitmap {
    /// Where a bitmap of `length` bytes from `first_cluster` is read: one
    /// `(cluster, bytes)` pair for each of the clusters it needs, in order.
    /// The clusters are its FAT chain when the FAT holds one of exactly
    /// that many clusters, else the clusters that follow `first_cluster`.
    /// A bitmap larger than [`MAX_BITMAP_BYTES`] is
    /// [`ExfatError::Unsupported`].
    pub fn load_plan(boot: &ExfatBootSector, fat: &ExfatTable, first_cluster: u32, length: u64) -> (r: Result<
        Vec<(u32, u64)>,
        ExfatError,
    >)
        requires
            boot.cluster_size > 0,
        ensures
            match r {
                Err(e) => length > MAX_BITMAP_BYTES && e is Unsupported,
                Ok(plan) => {
                    let cs = boot.cluster_size as int;
                    let needed = (length + cs - 1) / cs;
                    &&& length <= MAX_BITMAP_BYTES
                    &&& plan@.len() == needed
                    &&& forall|i: int| 0 <= i < needed ==> #[trigger] plan@[i].1 == bitmap_take(length as int, cs, i)
                    &&& forall|v: Seq<u32>|
                        fat@.is_chain(first_cluster, needed, v) && v.len() == needed ==> forall|i: int|
                            0 <= i < needed ==> #[trigger] plan@[i].0 == v[i]
                    &&& (forall|v: Seq<u32>|
                        !(fat@.is_chain(first_cluster, needed, v) && v.len() == needed)) ==> forall|i: int|
                        0 <= i < needed ==> #[trigger] plan@[i].0 == sat_cluster(first_cluster, i)
                },
            },
    {
        if length > MAX_BITMAP_BYTES {
            return Err(ExfatError::Unsupported("allocation bitmap too large"));
        }
        let cs = boot.cluster_size as u64;
        let needed = (length + cs - 1) / cs;
        let ghost g = needed as int;
        let chain = fat.chain(first_cluster, needed);
        let (clusters, chained) = match chain {
            Ok(c) => {
                if c.len() as u64 == needed {
                    (c, true)
                } else {
                    proof {
                        assert forall|v: Seq<u32>| !(fat@.is_chain(first_cluster, g, v) && v.len() == g) by {
                            if fat@.is_chain(first_cluster, g, v) && v.len() == g {
                                lemma_chain_unique(fat@, first_cluster, g, c@, v);
                            }
                        }
                    }
                    (Vec::new(), false)
                }
            },
            Err(_) => (Vec::new(), false),
        };
        proof {
            if chained {
                assert forall|v: Seq<u32>| fat@.is_chain(first_cluster, g, v) && v.len() == g implies v
                    == clusters@ by {
                    lemma_chain_unique(fat@, first_cluster, g, clusters@, v);
                }
            }
        }
        let mut plan: Vec<(u32, u64)> = Vec::new();
        let mut i: u64 = 0;
        let mut done: u64 = 0;
        while i < needed
            invariant
                cs == boot.cluster_size,
                cs > 0,
                length <= MAX_BITMAP_BYTES,
                needed == (length + cs - 1) / (cs as int),
                g == needed,
                i <= needed,
                done == i * cs,
                chained ==> clusters@.len() == needed,
                plan@.len() == i,
                forall|j: int| 0 <= j < i ==> #[trigger] plan@[j].1 == bitmap_take(length as int, cs as int, j),
                chained ==> forall|j: int| 0 <= j < i ==> #[trigger] plan@[j].0 == clusters@[j],
                !chained ==> forall|j: int| 0 <= j < i ==> #[trigger] plan@[j].0 == sat_cluster(first_cluster, j),
            decreases needed - i,
        {
            assert(i * cs < length) by (nonlinear_arith)
                requires
                    i < needed,
                    needed == (length + cs - 1) / (cs as int),
                    cs > 0,
            ;
            let take = if length - done < cs {
                length - done
            } else {
                cs
            };
            let c: u32 = if chained {
                clusters[i as usize]
            } else if i > (u32::MAX - first_cluster) as u64 {
                u32::MAX
            } else {
                first_cluster + i as u32
            };
            plan.push((c, take));
            proof {
                assert((i + 1) * cs == i * cs + cs) by (nonlinear_arith);
            }
            done = done + cs;
            i = i + 1;
        }
        Ok(plan)
    }

    /// The bitmap bytes.
    pub closed spec fn spec_bits(&self) -> Seq<u8> {
        self.bits@
    }

    /// The heap's cluster count.
    pub closed spec fn spec_cluster_count(&self) -> u32 {
        self.cluster_count
    }

    /// Wraps raw bitmap bytes.
    pub fn from_bytes(bits: Vec<u8>, cluster_count: u32) -> (b: Self)
        ensures
            b.spec_bits() == bits@,
            b.spec_cluster_count() == cluster_count,
    {
        AllocationBitmap { bits, cluster_count }
    }

    /// State of `cluster`: `Unknown` outside the heap or the bitmap.
    pub fn state(&self, cluster: u32) -> (s: ClusterState)
        ensures
            s == state_of(self.spec_bits(), self.spec_cluster_count(), cluster),
    {
        if cluster < 2 || cluster - 2 >= self.cluster_count {
            return ClusterState::Unknown;
        }
        let index = cluster - 2;
        let byte = (index / 8) as usize;
        if byte >= self.bits.len() {
            return ClusterState::Unknown;
        }
        if bit_set(self.bits[byte], index % 8) {
            ClusterState::Allocated
        } else {
            ClusterState::Free
        }
    }

    /// Tallies the states of `clusters`.
    pub fn summarize(&self, clusters: &[u32]) -> (r: RangeAllocation)
        ensures
            ({
                let t = tally(self.spec_bits(), self.spec_cluster_count(), clusters@);
                r.free == t.0 && r.allocated == t.1 && r.unknown == t.2
            }),
            r.free + r.allocated + r.unknown == clusters@.len(),
    {
        let mut out = RangeAllocation { free: 0, allocated: 0, unknown: 0 };
        let n = clusters.len();
        let mut i: usize = 0;
        while i < n
            invariant
                n == clusters@.len(),
                i <= n,
                ({
                    let t = tally(self.spec_bits(), self.spec_cluster_count(), clusters@.subrange(0, i as int));
                    out.free == t.0 && out.allocated == t.1 && out.unknown == t.2
                }),
                out.free + out.allocated + out.unknown == i,
            decreases n - i,
        {
            assert(clusters@.subrange(0, i + 1).drop_last() =~= clusters@.subrange(0, i as int));
            match self.state(clusters[i]) {
                ClusterState::Free => out.free = out.free + 1,
                ClusterState::Allocated => out.allocated = out.allocated + 1,
                ClusterState::Unknown => out.unknown = out.unknown + 1,
            }
            i = i + 1;
        }
        assert(clusters@.subrange(0, n as int) =~= clusters@);
        out
    }

    /// Number of allocated clusters in the heap (clusters `2..cluster_count
    /// + 2`, saturating at `u32::MAX`).
    pub fn allocated_clusters(&self) -> (n: u64)
        ensures
            n == allocated_count(
                self.spec_bits(),
                self.spec_cluster_count(),
                2,
                if self.spec_cluster_count() + 2 > u32::MAX {
                    u32::MAX as int
                } else {
                    self.spec_cluster_count() + 2
                },
            ),
    {
        let end: u32 = if self.cluster_count > u32::MAX - 2 {
            u32::MAX
        } else {
            self.cluster_count + 2
        };
        let mut n: u64 = 0;
        let mut c: u32 = 2;
        while c < end
            invariant
                2 <= c,
                c <= end || end < 2,
                n == allocated_count(self.spec_bits(), self.spec_cluster_count(), 2, c as int),
                n <= c - 2,
            decreases end - c,
        {
            if self.state(c) == ClusterState::Allocated {
                n = n + 1;
            }
            c = c + 1;
        }
        if end < 2 {
            return 0;
        }
        n
    }
}

} // verus!
