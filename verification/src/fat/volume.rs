//! The FAT volume: parsed metadata and the reconstruction of a file's
//! clusters from its directory entry.

use vstd::prelude::*;

use crate::extent::{push_extent, push_merged, Extent};
use crate::fat::boot::{FatBootSector, FatVariant};
use crate::fat::dir::DirEntry;
use crate::fat::error::FatError;
use crate::fat::table::{FatEntry, FatTable, FatTableView};

verus! {

/// Largest directory read into memory.
pub const MAX_DIRECTORY_BYTES: u64 = 67108864;

/// Deepest directory nesting walked.
pub const MAX_DEPTH: usize = 128;

/// Allocated clusters skipped before the contiguous search gives up.
pub const MAX_SKIPPED_CLUSTERS: usize = 65536;

/// How a file's clusters were determined.
#[derive(Debug, Clone, PartialEq, Eq)]
pub struct Reconstruction {
    /// Clusters in logical order.
    pub clusters: Vec<u32>,
    /// The chain came from the FAT (allocated file, or a deleted file whose
    /// chain survived).
    pub chain_known: bool,
    /// Clusters that were skipped because they are allocated to other files.
    pub skipped_allocated: Vec<u32>,
    /// Whether every cluster of the declared size was located.
    pub complete: bool,
    /// Number of contiguous extents.
    pub extent_count: u32,
    /// Clusters of the plain contiguous span (before skipping), used for
    /// allocation evidence.
    pub contiguous_span: Vec<u32>,
}

impl Reconstruction {
    /// Whether the layout was inferred heuristically: no chain was known
    /// and allocated clusters had to be skipped.
    pub fn is_heuristic(&self) -> (r: bool)
        ensures
            r == (!self.chain_known && self.skipped_allocated@.len() > 0),
    {
        !self.chain_known && self.skipped_allocated.len() > 0
    }
}

/// Whether a directory buffer holds the end of the directory: a 32-byte
/// entry whose first byte is zero.
pub open spec fn ends_directory(buf: Seq<u8>) -> bool {
    exists|k: int| 0 <= k < buf.len() / 32 && #[trigger] buf[32 * k] == 0
}

/// Whether a directory buffer holds the end of the directory (see
/// [`ends_directory`]).
pub fn block_ends_directory(buf: &[u8]) -> (b: bool)
    ensures
        b == ends_directory(buf@),
{
    let blen = buf.len();
    let n = blen / 32;
    let mut k: usize = 0;
    while k < n
        invariant
            blen == buf@.len(),
            n == buf@.len() / 32,
            k <= n,
            forall|j: int| 0 <= j < k ==> #[trigger] buf@[32 * j] != 0,
        decreases n - k,
    {
        assert(32 * k < buf@.len()) by (nonlinear_arith)
            requires
                k < n,
                n == buf@.len() / 32,
        ;
        if buf[32 * k] == 0 {
            return true;
        }
        k = k + 1;
    }
    false
}

/// One entry found while walking the tree.
#[derive(Debug, Clone, PartialEq, Eq)]
pub struct WalkedEntry {
    /// Windows-style path (`\docs\photo.jpg`).
    pub path: String,
    /// The entry.
    pub entry: DirEntry,
    /// Whether an ancestor directory is deleted.
    pub via_deleted_directory: bool,
}

/// Whether `v[i]` starts a new extent (it does not follow its predecessor).
pub open spec fn starts_extent(v: Seq<u32>, i: int) -> bool {
    i == 0 || (if v[i - 1] == u32::MAX {
        u32::MAX as int
    } else {
        v[i - 1] + 1
    }) != v[i]
}

/// Number of contiguous runs in `v`.
pub open spec fn extent_breaks(v: Seq<u32>) -> nat
    decreases v.len(),
{
    if v.len() == 0 {
        0
    } else {
        extent_breaks(v.drop_last()) + (if starts_extent(v, v.len() - 1) {
            1nat
        } else {
            0nat
        })
    }
}

/// Counts the contiguous runs of `clusters` (saturating at `u32::MAX`).
pub fn count_extents(clusters: &[u32]) -> (n: u32)
    ensures
        n == (if extent_breaks(clusters@) > u32::MAX {
            u32::MAX as int
        } else {
            extent_breaks(clusters@) as int
        }),
{
    let mut n: u32 = 0;
    let mut i: usize = 0;
    let len = clusters.len();
    while i < len
        invariant
            len == clusters@.len(),
            i <= len,
            n == (if extent_breaks(clusters@.subrange(0, i as int)) > u32::MAX {
                u32::MAX as int
            } else {
                extent_breaks(clusters@.subrange(0, i as int)) as int
            }),
        decreases len - i,
    {
        let ghost pre = clusters@.subrange(0, i + 1);
        assert(pre.drop_last() =~= clusters@.subrange(0, i as int));
        let starts = if i == 0 {
            true
        } else {
            let p = clusters[i - 1];
            let next = if p == u32::MAX {
                u32::MAX
            } else {
                p + 1
            };
            next != clusters[i]
        };
        assert(starts == starts_extent(pre, i as int));
        if starts && n < u32::MAX {
            n = n + 1;
        }
        i = i + 1;
    }
    assert(clusters@.subrange(0, len as int) =~= clusters@);
    n
}

/// The free clusters among `lo..hi`, in order.
pub open spec fn free_in(t: FatTableView, lo: int, hi: int) -> Seq<u32>
    decreases hi - lo,
{
    if hi <= lo {
        seq![]
    } else {
        let rest = free_in(t, lo, hi - 1);
        if t.entry(hi - 1) == FatEntry::Free {
            rest.push((hi - 1) as u32)
        } else {
            rest
        }
    }
}

/// The clusters among `lo..hi` that are not free, in order.
pub open spec fn used_in(t: FatTableView, lo: int, hi: int) -> Seq<u32>
    decreases hi - lo,
{
    if hi <= lo {
        seq![]
    } else {
        let rest = used_in(t, lo, hi - 1);
        if t.entry(hi - 1) != FatEntry::Free {
            rest.push((hi - 1) as u32)
        } else {
            rest
        }
    }
}

/// The clusters `lo..hi`, in order.
pub open spec fn cluster_span(lo: int, hi: int) -> Seq<u32> {
    Seq::new((if hi > lo { hi - lo } else { 0 }) as nat, |i: int| (lo + i) as u32)
}

/// Whether the contiguous search from `first` stops at `stop`: it has
/// found `needed` free clusters, reached the end of the volume (`limit`),
/// or skipped more than [`MAX_SKIPPED_CLUSTERS`] allocated ones; and it did
/// not stop earlier.
pub open spec fn search_stops_at(t: FatTableView, first: int, limit: int, needed: int, stop: int) -> bool {
    &&& first <= stop
    &&& stop <= limit || stop == first
    &&& (stop >= limit || free_in(t, first, stop).len() >= needed || used_in(t, first, stop).len()
        > MAX_SKIPPED_CLUSTERS)
    &&& forall|c: int|
        first <= c < stop ==> #[trigger] free_in(t, first, c).len() < needed && used_in(t, first, c).len()
            <= MAX_SKIPPED_CLUSTERS && c < limit
}

/// The first cluster of `e` as used on the volume: on FAT12/16 only the
/// low word is meaningful.
pub open spec fn effective_first(boot: FatBootSector, e: DirEntry) -> u32 {
    if boot.variant == FatVariant::Fat32 {
        e.first_cluster
    } else {
        (e.first_cluster % 65536) as u32
    }
}

/// One past the last data cluster (saturating at `u32::MAX`).
pub open spec fn cluster_limit(boot: FatBootSector) -> u32 {
    if boot.cluster_count + 2 > u32::MAX {
        u32::MAX
    } else {
        (boot.cluster_count + 2) as u32
    }
}

/// Whether `cl` is the first `needed` clusters of the FAT chain from
/// `first`, and that chain has at least `needed` clusters (exactly
/// `needed` for a deleted file).
#[verifier::opaque]
pub open spec fn chain_layout(t: FatTableView, first: u32, needed: int, deleted: bool, cl: Seq<u32>) -> bool {
    exists|v: Seq<u32>|
        #[trigger] t.is_chain(first, v) && v.len() <= crate::fat::table::MAX_CHAIN && v.len() >= needed
            && (!deleted || v.len() == needed) && cl == v.subrange(0, needed)
}

/// Whether no usable chain exists: every chain from `first` is shorter
/// than `needed` (or, for a deleted file, of another length).
#[verifier::opaque]
pub open spec fn no_chain_layout(t: FatTableView, first: u32, needed: int, deleted: bool) -> bool {
    forall|v: Seq<u32>|
        #[trigger] t.is_chain(first, v) && v.len() <= crate::fat::table::MAX_CHAIN ==> v.len() < needed
            || (deleted && v.len() != needed)
}

/// Whether `clusters`, `skipped` and `span` are what the contiguous search
/// from `first` finds (see [`search_stops_at`]).
#[verifier::opaque]
pub open spec fn search_layout(
    t: FatTableView,
    first: u32,
    limit: u32,
    needed: int,
    clusters: Seq<u32>,
    skipped: Seq<u32>,
    span: Seq<u32>,
) -> bool {
    exists|stop: int|
        #[trigger] search_stops_at(t, first as int, limit as int, needed, stop) && clusters == free_in(
            t,
            first as int,
            stop,
        ) && skipped == used_in(t, first as int, stop) && span == cluster_span(
            first as int,
            if stop - first < needed {
                stop
            } else {
                first + needed
            },
        )
}

/// Clusters needed for `size` bytes at clusters of `cs` bytes.
pub open spec fn clusters_needed(size: int, cs: int) -> int {
    (size + cs - 1) / cs
}

/// Volume byte offset of cluster `c`.
pub open spec fn cluster_byte_offset(boot: FatBootSector, c: u32) -> int {
    boot.data_offset + (c - 2) * boot.cluster_size
}

/// Whether cluster `c` is inside the volume with an offset that fits.
pub open spec fn cluster_mappable(boot: FatBootSector, c: u32) -> bool {
    boot.spec_is_valid_cluster(c) && cluster_byte_offset(boot, c) <= u64::MAX
}

/// Extents of the first `i` clusters of `clusters` for a file of `length`
/// bytes: cluster `j` holds file bytes `j * cs .. min((j + 1) * cs,
/// length)` (nothing once `j * cs >= length`), merged where adjacent.
pub open spec fn extents_prefix(boot: FatBootSector, clusters: Seq<u32>, length: int, i: int) -> Seq<Extent>
    decreases i,
{
    if i <= 0 {
        seq![]
    } else {
        let acc = extents_prefix(boot, clusters, length, i - 1);
        let start = (i - 1) * boot.cluster_size;
        if start < length {
            let take = if length - start < boot.cluster_size {
                length - start
            } else {
                boot.cluster_size as int
            };
            push_merged(acc, cluster_byte_offset(boot, clusters[i - 1]) as u64, take as u64)
        } else {
            acc
        }
    }
}

/// Whether every cluster of `clusters` that holds some of the first
/// `length` bytes is mappable.
pub open spec fn used_clusters_mappable(boot: FatBootSector, clusters: Seq<u32>, length: int, i: int) -> bool {
    forall|j: int|
        0 <= j < i && j * boot.cluster_size < length ==> cluster_mappable(boot, #[trigger] clusters[j])
}

proof fn lemma_extents_stable(boot: FatBootSector, clusters: Seq<u32>, length: int, i: int, n: int)
    requires
        boot.cluster_size > 0,
        0 <= i <= n,
        i * boot.cluster_size >= length,
    ensures
        extents_prefix(boot, clusters, length, n) == extents_prefix(boot, clusters, length, i),
    decreases n - i,
{
    if n > i {
        lemma_extents_stable(boot, clusters, length, i, n - 1);
        assert((n - 1) * boot.cluster_size >= i * boot.cluster_size) by (nonlinear_arith)
            requires
                n - 1 >= i,
                boot.cluster_size > 0,
        ;
    }
}

/// Every chain from `first` is the same sequence.
pub proof fn lemma_chain_unique(t: FatTableView, first: u32, v: Seq<u32>, w: Seq<u32>)
    requires
        t.is_chain(first, v),
        t.is_chain(first, w),
    ensures
        v == w,
{
    crate::fat::table::lemma_chain_prefix(t, first, w, v);
    if v.len() < w.len() {
        let k = v.len() - 1;
        assert(v[k] == w[k]);
        assert(t.entry(w[k] as int) == FatEntry::Next(w[k + 1]));
    } else if w.len() < v.len() {
        crate::fat::table::lemma_chain_prefix(t, first, v, w);
        let k = w.len() - 1;
        assert(v[k] == w[k]);
        assert(t.entry(v[k] as int) == FatEntry::Next(v[k + 1]));
    }
    assert(v =~= w);
}

/// A FAT volume's metadata: its boot sector and its active FAT.
pub struct FatVolume {
    boot: FatBootSector,
    fat: FatTable,
}

impl FatVolume {
    /// The invariant of a volume: clusters have a size.
    pub open spec fn wf(&self) -> bool {
        self.spec_boot().cluster_size > 0
    }

    /// The most clusters read for one directory:
    /// [`MAX_DIRECTORY_BYTES`] in clusters.
    pub fn directory_cluster_limit(&self) -> (n: u64)
        requires
            self.wf(),
        ensures
            n == (MAX_DIRECTORY_BYTES as int) / (self.spec_boot().cluster_size as int),
    {
        MAX_DIRECTORY_BYTES / (self.boot.cluster_size as u64)
    }

    /// Bytes of the fixed root directory (FAT12/16) read: at most
    /// [`MAX_DIRECTORY_BYTES`].
    pub fn root_directory_len(&self) -> (n: u64)
        ensures
            n == vstd::math::min(self.spec_boot().root_dir_bytes as int, MAX_DIRECTORY_BYTES as int),
    {
        if self.boot.root_dir_bytes < MAX_DIRECTORY_BYTES {
            self.boot.root_dir_bytes
        } else {
            MAX_DIRECTORY_BYTES
        }
    }

    /// The boot sector.
    pub closed spec fn spec_boot(&self) -> FatBootSector {
        self.boot
    }

    /// The FAT.
    pub closed spec fn spec_fat(&self) -> FatTableView {
        self.fat@
    }

    /// Assembles a volume from its parsed boot sector and FAT.
    pub fn from_parts(boot: FatBootSector, fat: FatTable) -> (v: Self)
        requires
            boot.cluster_size > 0,
        ensures
            v.spec_boot() == boot,
            v.spec_fat() == fat@,
            v.wf(),
    {
        FatVolume { boot, fat }
    }

    /// The boot sector.
    pub fn boot(&self) -> (b: &FatBootSector)
        ensures
            *b == self.spec_boot(),
    {
        &self.boot
    }

    /// The FAT.
    pub fn fat(&self) -> (t: &FatTable)
        ensures
            t@ == self.spec_fat(),
    {
        &self.fat
    }

    /// Variant.
    pub fn variant(&self) -> (v: FatVariant)
        ensures
            v == self.spec_boot().variant,
    {
        self.boot.variant
    }

    /// Cluster size in bytes.
    pub fn cluster_size(&self) -> (c: u32)
        ensures
            c == self.spec_boot().cluster_size,
    {
        self.boot.cluster_size
    }

    /// The first cluster to use: on FAT12/16 only the low word is
    /// meaningful.
    pub fn effective_first_cluster(&self, entry: &DirEntry) -> (c: u32)
        ensures
            c == (if self.spec_boot().variant == FatVariant::Fat32 {
                entry.first_cluster as int
            } else {
                (entry.first_cluster % 65536) as int
            }),
    {
        if self.boot.variant == FatVariant::Fat32 {
            entry.first_cluster
        } else {
            entry.first_cluster % 65536
        }
    }

    /// Clusters holding a directory starting at `first`: its chain, or just
    /// `first` for a deleted directory (the chain is gone) or when the
    /// chain is broken.
    pub fn directory_clusters(&self, first: u32, deleted: bool) -> (v: Vec<u32>)
        ensures
            deleted ==> v@ == seq![first],
            !deleted ==> (self.spec_fat().is_chain(first, v@) || v@ == seq![first]),
    {
        if deleted {
            return vec![first];
        }
        match self.fat.chain(first) {
            Ok(c) => c,
            Err(_) => vec![first],
        }
    }

    /// Scans clusters from `first` for `needed` free ones (see
    /// [`search_stops_at`]); returns the free clusters found, the allocated
    /// ones skipped, and the plain span of `needed` clusters.
    fn contiguous_search(&self, first: u32, needed: u64, limit: u32) -> (r: (Vec<u32>, Vec<u32>, Vec<u32>))
        requires
            first <= limit,
        ensures
            search_layout(self.spec_fat(), first, limit, needed as int, r.0@, r.1@, r.2@),
    {
        let ghost t = self.fat@;
        let mut clusters: Vec<u32> = Vec::new();
        let mut skipped: Vec<u32> = Vec::new();
        let mut span: Vec<u32> = Vec::new();
        let mut c = first;
        while (clusters.len() as u64) < needed && c < limit
            invariant_except_break
                skipped@.len() <= MAX_SKIPPED_CLUSTERS,
            invariant
                t == self.fat@,
                first <= c,
                c <= limit,
                clusters@ == free_in(t, first as int, c as int),
                skipped@ == used_in(t, first as int, c as int),
                span@ == cluster_span(
                    first as int,
                    if c - first < needed {
                        c as int
                    } else {
                        first + needed
                    },
                ),
                forall|d: int|
                    first <= d < c ==> #[trigger] free_in(t, first as int, d).len() < needed
                        && used_in(t, first as int, d).len() <= MAX_SKIPPED_CLUSTERS && d < limit,
                clusters@.len() + skipped@.len() == c - first,
            ensures
                search_stops_at(t, first as int, limit as int, needed as int, c as int),
                clusters@ == free_in(t, first as int, c as int),
                skipped@ == used_in(t, first as int, c as int),
                span@ == cluster_span(
                    first as int,
                    if c - first < needed {
                        c as int
                    } else {
                        first + needed
                    },
                ),
            decreases limit - c,
        {
            let ghost old_c = c;
            assert(free_in(t, first as int, c as int).len() < needed);
            assert(used_in(t, first as int, c as int).len() <= MAX_SKIPPED_CLUSTERS);
            if (span.len() as u64) < needed {
                span.push(c);
                assert(span@ =~= cluster_span(
                    first as int,
                    if c + 1 - first < needed {
                        c + 1
                    } else {
                        first + needed
                    },
                ));
            } else {
                assert(cluster_span(first as int, first + needed) =~= cluster_span(
                    first as int,
                    if c + 1 - first < needed {
                        c + 1
                    } else {
                        first + needed
                    },
                ));
            }
            match self.fat.entry(c) {
                FatEntry::Free => clusters.push(c),
                _ => skipped.push(c),
            }
            c = c + 1;
            if skipped.len() > MAX_SKIPPED_CLUSTERS {
                break;
            }
        }
        proof {
            reveal(search_layout);
        }
        (clusters, skipped, span)
    }

    /// The first `needed` clusters of the chain from `first`, when a chain
    /// of at least `needed` clusters (exactly `needed` for a deleted file)
    /// exists.
    fn chain_prefix(&self, first: u32, needed: u64, deleted: bool) -> (r: Option<Vec<u32>>)
        ensures
            match r {
                Some(cl) => chain_layout(self.spec_fat(), first, needed as int, deleted, cl@),
                None => no_chain_layout(self.spec_fat(), first, needed as int, deleted),
            },
    {
        let ghost t = self.fat@;
        reveal(chain_layout);
        reveal(no_chain_layout);
        match self.fat.chain(first) {
            Ok(chain) => {
                let n = chain.len() as u64;
                if n >= needed && (!deleted || n == needed) {
                    let mut clusters: Vec<u32> = Vec::new();
                    let mut i: usize = 0;
                    let k = needed as usize;
                    while i < k
                        invariant
                            k <= chain@.len(),
                            i <= k,
                            clusters@ =~= chain@.subrange(0, i as int),
                        decreases k - i,
                    {
                        clusters.push(chain[i]);
                        i = i + 1;
                    }
                    assert(t.is_chain(first, chain@));
                    return Some(clusters);
                }
                proof {
                    assert forall|v: Seq<u32>|
                        #[trigger] t.is_chain(first, v) && v.len() <= crate::fat::table::MAX_CHAIN
                            implies v.len() < needed || (deleted && v.len() != needed) by {
                        lemma_chain_unique(t, first, v, chain@);
                    }
                }
                None
            },
            Err(_) => None,
        }
    }

    /// Determines the clusters of a file.
    ///
    /// An intact chain long enough for the size (of exactly the needed
    /// length for a deleted file) is used as is. Otherwise the file is
    /// assumed contiguous from its first cluster, and clusters now
    /// allocated to other files are skipped (heuristic reconstruction).
    /// Fails with [`FatError::InvalidChain`] for a first cluster outside
    /// the volume when clusters are needed.
    pub fn reconstruct(&self, entry: &DirEntry) -> (r: Result<Reconstruction, FatError>)
        requires
            self.wf(),
        ensures
            ({
                let boot = self.spec_boot();
                let t = self.spec_fat();
                let needed = clusters_needed(entry.size as int, boot.cluster_size as int);
                let first = effective_first(boot, *entry);
                let limit = cluster_limit(boot);
                match r {
                    Err(e) => needed > 0 && !boot.spec_is_valid_cluster(first)
                        && e is InvalidChain,
                    Ok(rec) => if needed == 0 {
                        rec.clusters@.len() == 0 && rec.chain_known && rec.complete
                            && rec.skipped_allocated@.len() == 0 && rec.extent_count == 0
                            && rec.contiguous_span@.len() == 0
                    } else {
                        &&& boot.spec_is_valid_cluster(first)
                        &&& rec.extent_count == (if extent_breaks(rec.clusters@) > u32::MAX {
                            u32::MAX as int
                        } else {
                            extent_breaks(rec.clusters@) as int
                        })
                        &&& if rec.chain_known {
                            &&& chain_layout(t, first, needed, entry.deleted, rec.clusters@)
                            &&& rec.complete
                            &&& rec.skipped_allocated@.len() == 0
                            &&& rec.contiguous_span@ == rec.clusters@
                        } else {
                            &&& no_chain_layout(t, first, needed, entry.deleted)
                            &&& search_layout(
                                t,
                                first,
                                limit,
                                needed,
                                rec.clusters@,
                                rec.skipped_allocated@,
                                rec.contiguous_span@,
                            )
                            &&& rec.complete == (rec.clusters@.len() == needed)
                        }
                    },
                }
            }),
    {
        let cs = self.boot.cluster_size as u64;
        let size = entry.size as u64;
        let needed: u64 = (size + cs - 1) / cs;
        if needed == 0 {
            return Ok(
                Reconstruction {
                    clusters: Vec::new(),
                    chain_known: true,
                    skipped_allocated: Vec::new(),
                    complete: true,
                    extent_count: 0,
                    contiguous_span: Vec::new(),
                },
            );
        }
        let first = self.effective_first_cluster(entry);
        if !self.boot.is_valid_cluster(first) {
            return Err(FatError::InvalidChain("first cluster is outside the volume"));
        }
        match self.chain_prefix(first, needed, entry.deleted) {
            Some(clusters) => {
                let extent_count = count_extents(clusters.as_slice());
                let span = clusters.clone();
                return Ok(
                    Reconstruction {
                        clusters,
                        chain_known: true,
                        skipped_allocated: Vec::new(),
                        complete: true,
                        extent_count,
                        contiguous_span: span,
                    },
                );
            },
            None => {},
        }
        let limit: u32 = if self.boot.cluster_count > u32::MAX - 2 {
            u32::MAX
        } else {
            self.boot.cluster_count + 2
        };
        let (clusters, skipped, span) = self.contiguous_search(first, needed, limit);
        let complete = clusters.len() as u64 == needed;
        let extent_count = count_extents(clusters.as_slice());
        Ok(
            Reconstruction {
                clusters,
                chain_known: false,
                skipped_allocated: skipped,
                complete,
                extent_count,
                contiguous_span: span,
            },
        )
    }

    /// Byte extents for `clusters` covering `length` bytes: each cluster
    /// contributes up to a cluster of bytes until `length` is covered, and
    /// adjacent ranges are merged. Fails with [`FatError::InvalidChain`] or
    /// [`FatError::Overflow`] exactly when a cluster that is needed is not
    /// mappable.
    pub fn extents(&self, clusters: &[u32], length: u64) -> (r: Result<Vec<Extent>, FatError>)
        requires
            self.wf(),
        ensures
            ({
                let boot = self.spec_boot();
                match r {
                    Ok(v) => used_clusters_mappable(boot, clusters@, length as int, clusters@.len() as int)
                        && v@ == extents_prefix(boot, clusters@, length as int, clusters@.len() as int),
                    Err(_) => !used_clusters_mappable(boot, clusters@, length as int, clusters@.len() as int),
                }
            }),
    {
        let ghost boot = self.boot;
        let cs = self.boot.cluster_size as u64;
        let mut out: Vec<Extent> = Vec::new();
        let mut remaining = length;
        let mut i: usize = 0;
        let n = clusters.len();
        while i < n
            invariant
                boot == self.spec_boot(),
                cs == boot.cluster_size,
                cs > 0,
                n == clusters@.len(),
                i <= n,
                remaining == (if i * cs < length { length - i * cs } else { 0 }),
                out@ == extents_prefix(boot, clusters@, length as int, i as int),
                used_clusters_mappable(boot, clusters@, length as int, i as int),
            ensures
                out@ == extents_prefix(boot, clusters@, length as int, n as int),
                used_clusters_mappable(boot, clusters@, length as int, n as int),
            decreases n - i,
        {
            if remaining == 0 {
                proof {
                    lemma_extents_stable(boot, clusters@, length as int, i as int, n as int);
                    assert forall|j: int|
                        0 <= j < n && j * boot.cluster_size < length implies cluster_mappable(
                        boot,
                        #[trigger] clusters@[j],
                    ) by {
                        if j >= i {
                            assert(j * cs >= i * cs) by (nonlinear_arith)
                                requires
                                    j >= i,
                                    cs > 0,
                            ;
                        }
                    }
                }
                break;
            }
            let c = clusters[i];
            let off = match self.boot.cluster_offset(c) {
                Ok(o) => o,
                Err(e) => {
                    assert(!cluster_mappable(boot, clusters@[i as int]));
                    return Err(e);
                },
            };
            let take = if remaining < cs {
                remaining
            } else {
                cs
            };
            push_extent(&mut out, off, take);
            remaining = remaining - take;
            proof {
                assert((i + 1) * cs == i * cs + cs) by (nonlinear_arith);
            }
            i = i + 1;
        }
        Ok(out)
    }
}

} // verus!
