//! The exFAT volume: parsed metadata and the reconstruction of a file's
//! clusters from its entry set.

use vstd::prelude::*;

use crate::exfat::bitmap::{state_of, AllocationBitmap, ClusterState};
use crate::exfat::boot::ExfatBootSector;
use crate::exfat::dir::EntrySet;
use crate::exfat::error::ExfatError;
use crate::exfat::table::{ExfatTable, ExfatTableView, BAD_CLUSTER, END_OF_CHAIN};
use crate::extent::{push_extent, push_merged, Extent};
use crate::fat::volume::{count_extents, extent_breaks};

verus! {

/// Largest directory read into memory.
pub const MAX_DIRECTORY_BYTES: u64 = 67108864;

/// Deepest directory nesting walked.
pub const MAX_DEPTH: usize = 128;

/// Allocated clusters skipped before the contiguous search gives up.
pub const MAX_SKIPPED_CLUSTERS: usize = 65536;

/// How a file's clusters were determined.
#[derive(Debug, Clone, PartialEq, Eq)]
pub struct Reconstruction {
    /// Clusters in logical order.
    pub clusters: Vec<u32>,
    /// The layout comes from the `NoFatChain` flag or an intact FAT chain.
    pub chain_known: bool,
    /// Contiguity was assumed because the FAT chain was gone.
    pub assumed_contiguous: bool,
    /// Clusters skipped because the bitmap marks them allocated to other
    /// files (heuristic fragmented reconstruction).
    pub skipped_allocated: Vec<u32>,
    /// The plain contiguous span (before skipping), for allocation evidence.
    pub contiguous_span: Vec<u32>,
    /// Whether every cluster of the declared length was located.
    pub complete: bool,
    /// Number of contiguous extents.
    pub extent_count: u32,
}

/// One entry found while walking the tree.
#[derive(Debug, Clone, PartialEq, Eq)]
pub struct WalkedEntry {
    /// Windows-style path (`\docs\photo.jpg`).
    pub path: String,
    /// The entry set.
    pub entry: EntrySet,
    /// Whether an ancestor directory is deleted.
    pub via_deleted_directory: bool,
}

/// Every two chains from `first` cut at `max` are the same.
pub proof fn lemma_chain_unique(t: ExfatTableView, first: u32, max: int, v: Seq<u32>, w: Seq<u32>)
    requires
        t.is_chain(first, max, v),
        t.is_chain(first, max, w),
    ensures
        v == w,
{
    assert forall|i: int| 0 <= i < v.len() && i < w.len() implies v[i] == w[i] by {
        lemma_chains_agree(t, first, max, v, w, i);
    }
    if v.len() < w.len() {
        let k = v.len() - 1;
        assert(v[k] == w[k]);
        assert(t.raw(w[k] as int) == Some(w[k + 1]));
        assert(!(t.raw(w[k] as int) matches Some(x) && (x == 0 || x == BAD_CLUSTER || x == END_OF_CHAIN)));
    } else if w.len() < v.len() {
        let k = w.len() - 1;
        assert(v[k] == w[k]);
        assert(t.raw(v[k] as int) == Some(v[k + 1]));
        assert(!(t.raw(v[k] as int) matches Some(x) && (x == 0 || x == BAD_CLUSTER || x == END_OF_CHAIN)));
    }
    assert(v =~= w);
}

proof fn lemma_chains_agree(t: ExfatTableView, first: u32, max: int, v: Seq<u32>, w: Seq<u32>, i: int)
    requires
        t.is_chain(first, max, v),
        t.is_chain(first, max, w),
        0 <= i < v.len(),
        i < w.len(),
    ensures
        v[i] == w[i],
    decreases i,
{
    if i > 0 {
        lemma_chains_agree(t, first, max, v, w, i - 1);
        assert(t.raw(v[i - 1] as int) == Some(v[i]));
        assert(t.raw(w[i - 1] as int) == Some(w[i]));
    }
}

/// `first + i`, saturating at `u32::MAX`.
pub open spec fn sat_cluster(first: u32, i: int) -> u32 {
    if first + i > u32::MAX {
        u32::MAX
    } else {
        (first + i) as u32
    }
}

/// The valid heap clusters among `first`, `first + 1`, ... (`n` of them,
/// saturating), in order.
pub open spec fn contiguous_valid(boot: ExfatBootSector, first: u32, n: int) -> Seq<u32>
    decreases n,
{
    if n <= 0 {
        Seq::empty()
    } else {
        let prev = contiguous_valid(boot, first, n - 1);
        let c = sat_cluster(first, n - 1);
        if boot.spec_is_valid_cluster(c) {
            prev.push(c)
        } else {
            prev
        }
    }
}

/// The clusters among `lo..hi` that the bitmap `bm` does not show
/// allocated (all of them without a bitmap), in order.
pub open spec fn unallocated_in(bm: Option<(Seq<u8>, u32)>, lo: int, hi: int) -> Seq<u32>
    decreases hi - lo,
{
    if hi <= lo {
        Seq::empty()
    } else {
        let rest = unallocated_in(bm, lo, hi - 1);
        if allocated(bm, (hi - 1) as u32) {
            rest
        } else {
            rest.push((hi - 1) as u32)
        }
    }
}

/// The clusters among `lo..hi` that the bitmap `bm` shows allocated.
pub open spec fn allocated_in(bm: Option<(Seq<u8>, u32)>, lo: int, hi: int) -> Seq<u32>
    decreases hi - lo,
{
    if hi <= lo {
        Seq::empty()
    } else {
        let rest = allocated_in(bm, lo, hi - 1);
        if allocated(bm, (hi - 1) as u32) {
            rest.push((hi - 1) as u32)
        } else {
            rest
        }
    }
}

/// Whether the bitmap `bm` (bytes and cluster count) shows `c` allocated.
pub open spec fn allocated(bm: Option<(Seq<u8>, u32)>, c: u32) -> bool {
    match bm {
        Some((bits, count)) => state_of(bits, count, c) == ClusterState::Allocated,
        None => false,
    }
}

/// The clusters `lo..hi`, in order.
pub open spec fn span_of(lo: int, hi: int) -> Seq<u32> {
    Seq::new((if hi > lo { hi - lo } else { 0 }) as nat, |i: int| (lo + i) as u32)
}

/// Whether the contiguous search from `first` stops at `stop`: it has
/// found `needed` clusters not allocated, reached `limit`, or skipped more
/// than [`MAX_SKIPPED_CLUSTERS`] allocated ones; and not earlier.
pub open spec fn search_stops_at(bm: Option<(Seq<u8>, u32)>, first: int, limit: int, needed: int, stop: int) -> bool {
    &&& first <= stop
    &&& stop <= limit || stop == first
    &&& (stop >= limit || unallocated_in(bm, first, stop).len() >= needed || allocated_in(bm, first, stop).len()
        > MAX_SKIPPED_CLUSTERS)
    &&& forall|c: int|
        first <= c < stop ==> #[trigger] unallocated_in(bm, first, c).len() < needed && allocated_in(bm, first, c).len()
            <= MAX_SKIPPED_CLUSTERS && c < limit
}

/// Whether `clusters`, `skipped` and `span` are what the contiguous search
/// from `first` finds (see [`search_stops_at`]).
#[verifier::opaque]
pub open spec fn search_layout(
    bm: Option<(Seq<u8>, u32)>,
    first: u32,
    limit: u32,
    needed: int,
    clusters: Seq<u32>,
    skipped: Seq<u32>,
    span: Seq<u32>,
) -> bool {
    exists|stop: int|
        #[trigger] search_stops_at(bm, first as int, limit as int, needed, stop) && clusters == unallocated_in(
            bm,
            first as int,
            stop,
        ) && skipped == allocated_in(bm, first as int, stop) && span == span_of(
            first as int,
            if stop - first < needed {
                stop
            } else {
                first + needed
            },
        )
}

/// Clusters needed for `size` bytes at clusters of `cs` bytes.
pub open spec fn clusters_needed(size: int, cs: int) -> int {
    (size + cs - 1) / cs
}

/// Volume byte offset of cluster `c`.
pub open spec fn cluster_byte_offset(boot: ExfatBootSector, c: u32) -> int {
    boot.heap_offset + (c - 2) * boot.cluster_size
}

/// Whether cluster `c` is inside the heap with an offset that fits.
pub open spec fn cluster_mappable(boot: ExfatBootSector, c: u32) -> bool {
    boot.spec_is_valid_cluster(c) && cluster_byte_offset(boot, c) <= u64::MAX
}

/// Extents of the first `i` clusters of `clusters` for a file of `length`
/// bytes, merged where adjacent (as for FAT).
pub open spec fn extents_prefix(boot: ExfatBootSector, clusters: Seq<u32>, length: int, i: int) -> Seq<Extent>
    decreases i,
{
    if i <= 0 {
        seq![]
    } else {
        let acc = extents_prefix(boot, clusters, length, i - 1);
        let start = (i - 1) * boot.cluster_size;
        if start < length {
            let take = if length - start < boot.cluster_size {
                length - start
            } else {
                boot.cluster_size as int
            };
            push_merged(acc, cluster_byte_offset(boot, clusters[i - 1]) as u64, take as u64)
        } else {
            acc
        }
    }
}

/// Whether every cluster of `clusters` that holds some of the first
/// `length` bytes is mappable.
pub open spec fn used_clusters_mappable(boot: ExfatBootSector, clusters: Seq<u32>, length: int, i: int) -> bool {
    forall|j: int|
        0 <= j < i && j * boot.cluster_size < length ==> cluster_mappable(boot, #[trigger] clusters[j])
}

proof fn lemma_extents_stable(boot: ExfatBootSector, clusters: Seq<u32>, length: int, i: int, n: int)
    requires
        boot.cluster_size > 0,
        0 <= i <= n,
        i * boot.cluster_size >= length,
    ensures
        extents_prefix(boot, clusters, length, n) == extents_prefix(boot, clusters, length, i),
    decreases n - i,
{
    if n > i {
        lemma_extents_stable(boot, clusters, length, i, n - 1);
        assert((n - 1) * boot.cluster_size >= i * boot.cluster_size) by (nonlinear_arith)
            requires
                n - 1 >= i,
                boot.cluster_size > 0,
        ;
    }
}

/// An exFAT volume's metadata: boot sector, FAT, allocation bitmap and
/// label.
pub struct ExfatVolume {
    boot: ExfatBootSector,
    fat: ExfatTable,
    bitmap: Option<AllocationBitmap>,
    label: Option<String>,
    boot_checksum_ok: Option<bool>,
}

impl ExfatVolume {
    /// The invariant of a volume: clusters have a size.
    pub open spec fn wf(&self) -> bool {
        self.spec_boot().cluster_size > 0
    }

    /// The boot sector.
    pub closed spec fn spec_boot(&self) -> ExfatBootSector {
        self.boot
    }

    /// The FAT.
    pub closed spec fn spec_fat(&self) -> ExfatTableView {
        self.fat@
    }

    /// The bitmap's bytes and cluster count, when loaded.
    pub closed spec fn spec_bitmap(&self) -> Option<(Seq<u8>, u32)> {
        match self.bitmap {
            Some(b) => Some((b.spec_bits(), b.spec_cluster_count())),
            None => None,
        }
    }

    /// The label text, if any.
    pub closed spec fn spec_label(&self) -> Option<Seq<char>> {
        match self.label {
            Some(l) => Some(l@),
            None => None,
        }
    }

    /// Whether the boot-region checksum verified (None: not checked).
    pub closed spec fn spec_boot_checksum_ok(&self) -> Option<bool> {
        self.boot_checksum_ok
    }

    /// Assembles a volume from its parsed parts.
    pub fn from_parts(
        boot: ExfatBootSector,
        fat: ExfatTable,
        bitmap: Option<AllocationBitmap>,
        label: Option<String>,
        boot_checksum_ok: Option<bool>,
    ) -> (v: Self)
        requires
            boot.cluster_size > 0,
        ensures
            v.spec_boot() == boot,
            v.spec_fat() == fat@,
            v.spec_bitmap() == match bitmap {
                Some(b) => Some((b.spec_bits(), b.spec_cluster_count())),
                None => None,
            },
            v.spec_label() == match label {
                Some(l) => Some(l@),
                None => None::<Seq<char>>,
            },
            v.spec_boot_checksum_ok() == boot_checksum_ok,
            v.wf(),
    {
        ExfatVolume { boot, fat, bitmap, label, boot_checksum_ok }
    }

    /// The boot sector.
    pub fn boot(&self) -> (b: &ExfatBootSector)
        ensures
            *b == self.spec_boot(),
    {
        &self.boot
    }

    /// The FAT.
    pub fn fat(&self) -> (t: &ExfatTable)
        ensures
            t@ == self.spec_fat(),
    {
        &self.fat
    }

    /// The allocation bitmap, if loaded.
    pub fn bitmap(&self) -> (b: Option<&AllocationBitmap>)
        ensures
            match b {
                Some(m) => self.spec_bitmap() == Some((m.spec_bits(), m.spec_cluster_count())),
                None => self.spec_bitmap() is None,
            },
    {
        match &self.bitmap {
            Some(b) => Some(b),
            None => None,
        }
    }

    /// The volume label, if any.
    pub fn label(&self) -> (l: Option<&str>)
        ensures
            match l {
                Some(s) => self.spec_label() == Some(s@),
                None => self.spec_label() is None,
            },
    {
        match &self.label {
            Some(s) => Some(s.as_str()),
            None => None,
        }
    }

    /// Whether the boot-region checksum verified.
    pub fn boot_checksum_ok(&self) -> (r: Option<bool>)
        ensures
            r == self.spec_boot_checksum_ok(),
    {
        self.boot_checksum_ok
    }

    /// Cluster size.
    pub fn cluster_size(&self) -> (c: u32)
        ensures
            c == self.spec_boot().cluster_size,
    {
        self.boot.cluster_size
    }

    /// Allocation state of a cluster: `Unknown` without a bitmap.
    pub fn cluster_state(&self, cluster: u32) -> (s: ClusterState)
        ensures
            s == match self.spec_bitmap() {
                Some((bits, count)) => state_of(bits, count, cluster),
                None => ClusterState::Unknown,
            },
    {
        match &self.bitmap {
            Some(b) => b.state(cluster),
            None => ClusterState::Unknown,
        }
    }

    /// The valid heap clusters among `n` clusters from `first`.
    fn contiguous(&self, first: u32, n: u64) -> (v: Vec<u32>)
        ensures
            v@ == contiguous_valid(self.spec_boot(), first, n as int),
    {
        let mut out: Vec<u32> = Vec::new();
        let mut i: u64 = 0;
        while i < n
            invariant
                i <= n,
                out@ == contiguous_valid(self.spec_boot(), first, i as int),
            decreases n - i,
        {
            let c: u32 = if i > (u32::MAX - first) as u64 {
                u32::MAX
            } else {
                first + i as u32
            };
            if self.boot.is_valid_cluster(c) {
                out.push(c);
            }
            i = i + 1;
        }
        out
    }

    /// Clusters of a directory: `length` bytes contiguous from `first` (at
    /// least one cluster, valid ones only) with `no_fat_chain`, else its FAT
    /// chain, or just `first` when the chain is gone.
    pub fn directory_clusters(&self, first: u32, no_fat_chain: bool, length: Option<u64>) -> (v: Vec<u32>)
        requires
            self.wf(),
        ensures
            no_fat_chain ==> v@ == contiguous_valid(
                self.spec_boot(),
                first,
                vstd::math::max(
                    clusters_needed(
                        match length {
                            Some(l) => l as int,
                            None => self.spec_boot().cluster_size as int,
                        },
                        self.spec_boot().cluster_size as int,
                    ),
                    1,
                ),
            ),
            !no_fat_chain ==> (self.spec_fat().is_chain(
                first,
                MAX_DIRECTORY_BYTES as int / (self.spec_boot().cluster_size as int),
                v@,
            ) || v@ == seq![first]),
    {
        let cs = self.boot.cluster_size as u64;
        if no_fat_chain {
            let len = match length {
                Some(l) => l,
                None => cs,
            };
            proof {
                assert(len % cs != 0 ==> len / cs < u64::MAX) by (nonlinear_arith)
                    requires
                        cs >= 1,
                ;
            }
            let q = len / cs + if len % cs != 0 {
                1
            } else {
                0
            };
            proof {
                assert(q == (len + cs - 1) / (cs as int)) by (nonlinear_arith)
                    requires
                        cs >= 1,
                        q == len / cs + if len % cs != 0 {
                            1int
                        } else {
                            0int
                        },
                ;
            }
            let n = if q < 1 {
                1
            } else {
                q
            };
            return self.contiguous(first, n);
        }
        let max = MAX_DIRECTORY_BYTES / cs;
        match self.fat.chain(first, max) {
            Ok(c) => c,
            Err(_) => vec![first],
        }
    }

    /// Scans clusters from `first` for `needed` not shown allocated (see
    /// [`search_stops_at`]).
    #[verifier::spinoff_prover]
    fn contiguous_search(&self, first: u32, needed: u64, limit: u32) -> (r: (Vec<u32>, Vec<u32>, Vec<u32>))
        requires
            first <= limit,
        ensures
            search_layout(self.spec_bitmap(), first, limit, needed as int, r.0@, r.1@, r.2@),
    {
        let ghost bm = self.spec_bitmap();
        let mut clusters: Vec<u32> = Vec::new();
        let mut skipped: Vec<u32> = Vec::new();
        let mut span: Vec<u32> = Vec::new();
        let mut c = first;
        while (clusters.len() as u64) < needed && c < limit
            invariant_except_break
                skipped@.len() <= MAX_SKIPPED_CLUSTERS,
            invariant
                bm == self.spec_bitmap(),
                first <= c,
                c <= limit,
                clusters@ == unallocated_in(bm, first as int, c as int),
                skipped@ == allocated_in(bm, first as int, c as int),
                span@ == span_of(
                    first as int,
                    if c - first < needed {
                        c as int
                    } else {
                        first + needed
                    },
                ),
                forall|d: int|
                    first <= d < c ==> #[trigger] unallocated_in(bm, first as int, d).len() < needed
                        && allocated_in(bm, first as int, d).len() <= MAX_SKIPPED_CLUSTERS && d < limit,
                clusters@.len() + skipped@.len() == c - first,
            ensures
                search_stops_at(bm, first as int, limit as int, needed as int, c as int),
                clusters@ == unallocated_in(bm, first as int, c as int),
                skipped@ == allocated_in(bm, first as int, c as int),
                span@ == span_of(
                    first as int,
                    if c - first < needed {
                        c as int
                    } else {
                        first + needed
                    },
                ),
            decreases limit - c,
        {
            assert(unallocated_in(bm, first as int, c as int).len() < needed);
            assert(allocated_in(bm, first as int, c as int).len() <= MAX_SKIPPED_CLUSTERS);
            let ghost c0: int = c as int;
            if (span.len() as u64) < needed {
                span.push(c);
                assert(span@ =~= span_of(
                    first as int,
                    if c + 1 - first < needed {
                        c + 1
                    } else {
                        first + needed
                    },
                ));
            } else {
                assert(span_of(first as int, first + needed) =~= span_of(
                    first as int,
                    if c + 1 - first < needed {
                        c + 1
                    } else {
                        first + needed
                    },
                ));
            }
            match self.cluster_state(c) {
                ClusterState::Allocated => skipped.push(c),
                _ => clusters.push(c),
            }
            c = c + 1;
            assert forall|d: int| first <= d < c implies #[trigger] unallocated_in(
                bm,
                first as int,
                d,
            ).len() < needed && allocated_in(bm, first as int, d).len() <= MAX_SKIPPED_CLUSTERS
                && d < limit by {
                if d == c0 {
                } else {
                    assert(d < c0);
                }
            }
            if skipped.len() > MAX_SKIPPED_CLUSTERS {
                break;
            }
        }
        proof {
            reveal(search_layout);
        }
        (clusters, skipped, span)
    }

    /// Determines the clusters of a file.
    ///
    /// With the `NoFatChain` flag the clusters are contiguous. Otherwise an
    /// intact chain of exactly the needed length is used; failing that the
    /// file is assumed contiguous from its first cluster, skipping clusters
    /// the bitmap shows allocated to other files. Fails with
    /// [`ExfatError::Malformed`] for a first cluster outside the heap when
    /// clusters are needed.
    pub fn reconstruct(&self, entry: &EntrySet) -> (r: Result<Reconstruction, ExfatError>)
        requires
            self.wf(),
        ensures
            ({
                let boot = self.spec_boot();
                let t = self.spec_fat();
                let needed = clusters_needed(entry.data_length as int, boot.cluster_size as int);
                let first = entry.first_cluster;
                let limit = if boot.cluster_count + 2 > u32::MAX {
                    u32::MAX
                } else {
                    (boot.cluster_count + 2) as u32
                };
                match r {
                    Err(e) => needed > 0 && first != 0 && !boot.spec_is_valid_cluster(first)
                        && e is Malformed,
                    Ok(rec) => if needed == 0 || first == 0 {
                        rec.clusters@.len() == 0 && rec.chain_known && !rec.assumed_contiguous
                            && rec.complete && rec.skipped_allocated@.len() == 0
                            && rec.extent_count == 0 && rec.contiguous_span@.len() == 0
                    } else if entry.flags.0 & 0x02 != 0 {
                        &&& boot.spec_is_valid_cluster(first)
                        &&& rec.clusters@ == contiguous_valid(boot, first, needed)
                        &&& rec.chain_known && !rec.assumed_contiguous
                        &&& rec.skipped_allocated@.len() == 0
                        &&& rec.contiguous_span@ == rec.clusters@
                        &&& rec.complete == (rec.clusters@.len() == needed)
                        &&& rec.extent_count == 1
                    } else {
                        &&& boot.spec_is_valid_cluster(first)
                        &&& rec.extent_count == (if extent_breaks(rec.clusters@) > u32::MAX {
                            u32::MAX as int
                        } else {
                            extent_breaks(rec.clusters@) as int
                        })
                        &&& if rec.chain_known {
                            &&& t.is_chain(first, needed, rec.clusters@)
                            &&& rec.clusters@.len() == needed
                            &&& !rec.assumed_contiguous
                            &&& rec.complete
                            &&& rec.skipped_allocated@.len() == 0
                            &&& rec.contiguous_span@ == rec.clusters@
                        } else {
                            &&& forall|v: Seq<u32>| #[trigger] t.is_chain(first, needed, v) ==> v.len() != needed
                            &&& rec.assumed_contiguous
                            &&& search_layout(
                                self.spec_bitmap(),
                                first,
                                limit,
                                needed,
                                rec.clusters@,
                                rec.skipped_allocated@,
                                rec.contiguous_span@,
                            )
                            &&& rec.complete == (rec.clusters@.len() == needed)
                        }
                    },
                }
            }),
    {
        let ghost t = self.fat@;
        let cs = self.boot.cluster_size as u64;
        let size = entry.data_length;
        proof {
            assert(size % cs != 0 ==> size / cs < u64::MAX) by (nonlinear_arith)
                requires
                    cs >= 1,
            ;
        }
        let needed: u64 = size / cs + if size % cs != 0 {
            1
        } else {
            0
        };
        proof {
            assert(needed == (size + cs - 1) / (cs as int)) by (nonlinear_arith)
                requires
                    cs >= 1,
                    needed == size / cs + if size % cs != 0 {
                        1int
                    } else {
                        0int
                    },
            ;
        }
        let first = entry.first_cluster;
        if needed == 0 || first == 0 {
            return Ok(
                Reconstruction {
                    clusters: Vec::new(),
                    chain_known: true,
                    assumed_contiguous: false,
                    skipped_allocated: Vec::new(),
                    contiguous_span: Vec::new(),
                    complete: true,
                    extent_count: 0,
                },
            );
        }
        if !self.boot.is_valid_cluster(first) {
            return Err(ExfatError::Malformed("first cluster outside the heap"));
        }
        if entry.flags.no_fat_chain() {
            let clusters = self.contiguous(first, needed);
            let complete = clusters.len() as u64 == needed;
            let span = clusters.clone();
            return Ok(
                Reconstruction {
                    clusters,
                    chain_known: true,
                    assumed_contiguous: false,
                    skipped_allocated: Vec::new(),
                    contiguous_span: span,
                    complete,
                    extent_count: 1,
                },
            );
        }
        match self.fat.chain(first, needed) {
            Ok(chain) => {
                if chain.len() as u64 == needed {
                    let extent_count = count_extents(chain.as_slice());
                    let span = chain.clone();
                    return Ok(
                        Reconstruction {
                            clusters: chain,
                            chain_known: true,
                            assumed_contiguous: false,
                            skipped_allocated: Vec::new(),
                            contiguous_span: span,
                            complete: true,
                            extent_count,
                        },
                    );
                }
                proof {
                    assert forall|v: Seq<u32>| #[trigger] t.is_chain(first, needed as int, v) implies v.len()
                        != needed by {
                        lemma_chain_unique(t, first, needed as int, v, chain@);
                    }
                }
            },
            Err(_) => {},
        }
        let limit: u32 = if self.boot.cluster_count > u32::MAX - 2 {
            u32::MAX
        } else {
            self.boot.cluster_count + 2
        };
        let (clusters, skipped, span) = self.contiguous_search(first, needed, limit);
        let complete = clusters.len() as u64 == needed;
        let extent_count = count_extents(clusters.as_slice());
        Ok(
            Reconstruction {
                clusters,
                chain_known: false,
                assumed_contiguous: true,
                skipped_allocated: skipped,
                contiguous_span: span,
                complete,
                extent_count,
            },
        )
    }

    /// Byte extents for `clusters` covering `length` bytes: each cluster
    /// contributes up to a cluster of bytes until `length` is covered, and
    /// adjacent ranges are merged. Fails exactly when a cluster that is
    /// needed is not mappable.
    pub fn extents(&self, clusters: &[u32], length: u64) -> (r: Result<Vec<Extent>, ExfatError>)
        requires
            self.wf(),
        ensures
            ({
                let boot = self.spec_boot();
                match r {
                    Ok(v) => used_clusters_mappable(boot, clusters@, length as int, clusters@.len() as int)
                        && v@ == extents_prefix(boot, clusters@, length as int, clusters@.len() as int),
                    Err(_) => !used_clusters_mappable(boot, clusters@, length as int, clusters@.len() as int),
                }
            }),
    {
        let ghost boot = self.boot;
        let cs = self.boot.cluster_size as u64;
        let mut out: Vec<Extent> = Vec::new();
        let mut remaining = length;
        let mut i: usize = 0;
        let n = clusters.len();
        while i < n
            invariant
                boot == self.spec_boot(),
                cs == boot.cluster_size,
                cs > 0,
                n == clusters@.len(),
                i <= n,
                remaining == (if i * cs < length { length - i * cs } else { 0 }),
                out@ == extents_prefix(boot, clusters@, length as int, i as int),
                used_clusters_mappable(boot, clusters@, length as int, i as int),
            ensures
                out@ == extents_prefix(boot, clusters@, length as int, n as int),
                used_clusters_mappable(boot, clusters@, length as int, n as int),
            decreases n - i,
        {
            if remaining == 0 {
                proof {
                    lemma_extents_stable(boot, clusters@, length as int, i as int, n as int);
                    assert forall|j: int|
                        0 <= j < n && j * boot.cluster_size < length implies cluster_mappable(
                        boot,
                        #[trigger] clusters@[j],
                    ) by {
                        if j >= i {
                            assert(j * cs >= i * cs) by (nonlinear_arith)
                                requires
                                    j >= i,
                                    cs > 0,
                            ;
                        }
                    }
                }
                break;
            }
            let c = clusters[i];
            let off = match self.boot.cluster_offset(c) {
                Ok(o) => o,
                Err(e) => {
                    assert(!cluster_mappable(boot, clusters@[i as int]));
                    return Err(e);
                },
            };
            let take = if remaining < cs {
                remaining
            } else {
                cs
            };
            push_extent(&mut out, off, take);
            remaining = remaining - take;
            proof {
                assert((i + 1) * cs == i * cs + cs) by (nonlinear_arith);
            }
            i = i + 1;
        }
        Ok(out)
    }
}

} // verus!
