//! The exFAT File Allocation Table.

use std::collections::HashSet;
use vstd::prelude::*;

use crate::bytes::{le32, read_u32};
use crate::exfat::boot::ExfatBootSector;
use crate::exfat::error::ExfatError;

verus! {

broadcast use vstd::std_specs::hash::group_hash_axioms;

/// Largest FAT loaded into memory.
pub const MAX_FAT_BYTES: u64 = 268435456;

/// Longest chain followed.
pub const MAX_CHAIN: usize = 67108864;

/// End-of-chain marker.
pub const END_OF_CHAIN: u32 = 0xFFFF_FFFF;

/// Bad-cluster marker.
pub const BAD_CLUSTER: u32 = 0xFFFF_FFF7;

/// One exFAT FAT loaded into memory.
#[derive(Debug, Clone)]
pub struct ExfatTable {
    bytes: Vec<u8>,
    cluster_count: u32,
}

/// The mathematical content of an [`ExfatTable`].
pub struct ExfatTableView {
    /// Raw table bytes.
    pub bytes: Seq<u8>,
    /// Number of heap clusters.
    pub cluster_count: u32,
}

impl View for ExfatTable {
    type V = ExfatTableView;

    closed spec fn view(&self) -> ExfatTableView {
        ExfatTableView { bytes: self.bytes@, cluster_count: self.cluster_count }
    }
}

impl ExfatTableView {
    /// Raw 32-bit entry of `cluster`, if inside the table.
    pub open spec fn raw(self, cluster: int) -> Option<u32> {
        if 4 * cluster + 4 <= self.bytes.len() {
            Some(le32(self.bytes, 4 * cluster) as u32)
        } else {
            None
        }
    }

    /// Whether `c` is a heap cluster.
    pub open spec fn valid_cluster(self, c: int) -> bool {
        2 <= c && c - 2 < self.cluster_count
    }

    /// Whether `v` is the chain from `first` cut at `max` clusters: `first`
    /// is a heap cluster, and `v` holds valid, distinct clusters, each entry
    /// pointing at the next; it ends at an end-of-chain entry or after `max`
    /// clusters, and holds no more than `max` (none when `max` is 0).
    pub open spec fn is_chain(self, first: u32, max: int, v: Seq<u32>) -> bool {
        &&& self.valid_cluster(first as int)
        &&& max > 0 ==> v.len() >= 1 && v[0] == first
        &&& forall|i: int| 0 <= i < v.len() ==> self.valid_cluster(#[trigger] v[i] as int)
        &&& forall|i: int| 0 <= i < v.len() - 1 ==> self.raw(#[trigger] v[i] as int) == Some(v[i + 1])
        &&& forall|i: int| 0 <= i < v.len() - 1 ==> !(#[trigger] self.raw(v[i] as int) matches Some(x) && (x == 0 || x == BAD_CLUSTER || x == END_OF_CHAIN))
        &&& forall|i: int, j: int| 0 <= i < j < v.len() ==> #[trigger] v[i] != #[trigger] v[j]
        &&& v.len() >= max || v.len() >= MAX_CHAIN || (v.len() >= 1 && self.raw(v.last() as int) == Some(END_OF_CHAIN))
        &&& v.len() <= max
        &&& v.len() <= MAX_CHAIN
    }
}

/// Byte offset of the active FAT (the second one when two are kept and
/// the volume flags select it).
pub open spec fn active_fat_offset(boot: ExfatBootSector) -> int {
    (boot.fat_offset + (if boot.fat_count == 2 && boot.volume_flags % 2 == 1 {
        boot.fat_length as int
    } else {
        0
    })) * boot.bytes_per_sector
}

/// How many bytes of the FAT a source of `source_len` bytes holds: the
/// whole FAT, cut where the source ends.
pub open spec fn fat_read_len(boot: ExfatBootSector, source_len: u64) -> int {
    let fat = boot.fat_length * boot.bytes_per_sector;
    let rest = if source_len > active_fat_offset(boot) {
        source_len - active_fat_offset(boot)
    } else {
        0
    };
    if rest < fat {
        rest
    } else {
        fat
    }
}

impl ExfatTable {
    /// How many bytes of the active FAT are read from a source of
    /// `source_len` bytes (see [`fat_read_len`]), at
    /// [`ExfatBootSector::fat_byte_offset`]. A FAT larger than
    /// [`MAX_FAT_BYTES`] is [`ExfatError::Unsupported`].
    pub fn load_len(boot: &ExfatBootSector, source_len: u64) -> (r: Result<u64, ExfatError>)
        requires
            boot.bytes_per_sector <= 4096,
        ensures
            match r {
                Ok(n) => boot.fat_length * boot.bytes_per_sector <= MAX_FAT_BYTES && n == fat_read_len(
                    *boot,
                    source_len,
                ),
                Err(e) => boot.fat_length * boot.bytes_per_sector > MAX_FAT_BYTES && e is Unsupported,
            },
    {
        let len = boot.fat_bytes();
        if len > MAX_FAT_BYTES {
            return Err(ExfatError::Unsupported("FAT exceeds the in-memory limit"));
        }
        let off = boot.fat_byte_offset();
        let rest = if source_len > off {
            source_len - off
        } else {
            0
        };
        if rest < len {
            Ok(rest)
        } else {
            Ok(len)
        }
    }

    /// Wraps raw FAT bytes.
    pub fn from_bytes(bytes: Vec<u8>, cluster_count: u32) -> (t: Self)
        ensures
            t@.bytes == bytes@,
            t@.cluster_count == cluster_count,
    {
        ExfatTable { bytes, cluster_count }
    }

    /// Raw value of the entry of `cluster`, if inside the table.
    pub fn raw(&self, cluster: u32) -> (r: Option<u32>)
        ensures
            r == self@.raw(cluster as int),
    {
        let _len = self.bytes.len();
        match (cluster as usize).checked_mul(4) {
            Some(off) => read_u32(self.bytes.as_slice(), off),
            None => None,
        }
    }

    /// Follows the chain from `first` for at most `max_clusters` clusters
    /// (none when it is 0, once `first` is known to be a heap cluster),
    /// stopping at the end-of-chain marker.
    ///
    /// Returns the chain described by [`ExfatTableView::is_chain`] when
    /// there is one; otherwise (a cluster outside the heap, a loop, a free
    /// or bad entry inside the chain, or an entry beyond the table) fails
    /// with [`ExfatError::Malformed`].
    #[verifier::spinoff_prover]
    #[verifier::rlimit(40)]
    pub fn chain(&self, first: u32, max_clusters: u64) -> (r: Result<Vec<u32>, ExfatError>)
        ensures
            match r {
                Ok(v) => self@.is_chain(first, max_clusters as int, v@),
                Err(e) => e is Malformed && forall|v: Seq<u32>| !#[trigger] self@.is_chain(first, max_clusters as int, v),
            },
    {
        let ghost t = self@;
        if first < 2 || first - 2 >= self.cluster_count {
            return Err(ExfatError::Malformed("cluster outside the heap"));
        }
        if max_clusters == 0 {
            return Ok(Vec::new());
        }
        let mut out: Vec<u32> = Vec::new();
        let mut seen: HashSet<u32> = HashSet::new();
        let mut cur = first;
        loop
            invariant
                t == self@,
                out@.len() < MAX_CHAIN,
                out@.len() < max_clusters,
                out@.len() == 0 ==> cur == first,
                out@.len() >= 1 ==> out@[0] == first,
                forall|i: int| 0 <= i < out@.len() ==> t.valid_cluster(#[trigger] out@[i] as int),
                forall|i: int| 0 <= i < out@.len() - 1 ==> t.raw(#[trigger] out@[i] as int) == Some(out@[i + 1]),
                out@.len() >= 1 ==> t.raw(out@.last() as int) == Some(cur),
                forall|i: int| 0 <= i < out@.len() ==> !(#[trigger] t.raw(out@[i] as int) matches Some(x) && (x == 0 || x == BAD_CLUSTER || x == END_OF_CHAIN)),
                forall|i: int, j: int| 0 <= i < j < out@.len() ==> #[trigger] out@[i] != #[trigger] out@[j],
                forall|x: u32| seen@.contains(x) <==> out@.contains(x),
            decreases MAX_CHAIN - out@.len(),
        {
            let ghost prev = out@;
            if cur < 2 || cur - 2 >= self.cluster_count {
                proof { self.lemma_no_chain(first, max_clusters as int, prev, cur); }
                return Err(ExfatError::Malformed("cluster outside the heap"));
            }
            if seen.contains(&cur) {
                proof { self.lemma_no_chain(first, max_clusters as int, prev, cur); }
                return Err(ExfatError::Malformed("chain loops"));
            }
            seen.insert(cur);
            out.push(cur);
            proof {
                assert(out@ == prev.push(cur));
                assert forall|x: u32| seen@.contains(x) <==> out@.contains(x) by {
                    if out@.contains(x) && x != cur {
                        let i = choose|i: int| 0 <= i < out@.len() && out@[i] == x;
                        assert(prev[i] == x);
                    }
                    if prev.contains(x) {
                        let i = choose|i: int| 0 <= i < prev.len() && prev[i] == x;
                        assert(out@[i] == x);
                    }
                }
                assert forall|i: int, j: int| 0 <= i < j < out@.len() implies #[trigger] out@[i] != #[trigger] out@[j] by {
                    if j == out@.len() - 1 {
                        assert(!prev.contains(cur));
                        if out@[i] == out@[j] {
                            assert(prev[i] == cur);
                        }
                    }
                }
            }
            if out.len() as u64 >= max_clusters || out.len() >= MAX_CHAIN {
                return Ok(out);
            }
            match self.raw(cur) {
                Some(next) => {
                    if next == END_OF_CHAIN {
                        return Ok(out);
                    }
                    if next == 0 || next == BAD_CLUSTER {
                        proof { self.lemma_no_chain_bad(first, max_clusters as int, out@); }
                        return Err(ExfatError::Malformed("free or bad entry inside a chain"));
                    }
                    cur = next;
                },
                None => {
                    proof { self.lemma_no_chain_bad(first, max_clusters as int, out@); }
                    return Err(ExfatError::Malformed("FAT truncated"));
                },
            }
        }
    }

    proof fn lemma_prefix(&self, first: u32, max: int, out: Seq<u32>, v: Seq<u32>)
        requires
            out.len() >= 1,
            out[0] == first,
            forall|i: int| 0 <= i < out.len() - 1 ==> self@.raw(#[trigger] out[i] as int) == Some(out[i + 1]),
            self@.is_chain(first, max, v),
        ensures
            forall|k: int| 0 <= k < out.len() && k < v.len() ==> v[k] == out[k],
    {
        assert forall|k: int| 0 <= k < out.len() && k < v.len() implies v[k] == out[k] by {
            self.lemma_prefix_at(first, max, out, v, k);
        }
    }

    proof fn lemma_prefix_at(&self, first: u32, max: int, out: Seq<u32>, v: Seq<u32>, k: int)
        requires
            out.len() >= 1,
            out[0] == first,
            forall|i: int| 0 <= i < out.len() - 1 ==> self@.raw(#[trigger] out[i] as int) == Some(out[i + 1]),
            self@.is_chain(first, max, v),
            0 <= k < out.len(),
            k < v.len(),
        ensures
            v[k] == out[k],
        decreases k,
    {
        if k > 0 {
            self.lemma_prefix_at(first, max, out, v, k - 1);
            assert(self@.raw(out[k - 1] as int) == Some(out[k]));
            assert(self@.raw(v[k - 1] as int) == Some(v[k]));
        }
    }

    proof fn lemma_no_chain(&self, first: u32, max: int, prev: Seq<u32>, cur: u32)
        requires
            prev.len() < MAX_CHAIN,
            prev.len() < max,
            prev.len() == 0 ==> cur == first,
            prev.len() >= 1 ==> prev[0] == first,
            forall|i: int| 0 <= i < prev.len() - 1 ==> self@.raw(#[trigger] prev[i] as int) == Some(prev[i + 1]),
            prev.len() >= 1 ==> self@.raw(prev.last() as int) == Some(cur),
            forall|i: int| 0 <= i < prev.len() ==> !(#[trigger] self@.raw(prev[i] as int) matches Some(x) && (x == 0 || x == BAD_CLUSTER || x == END_OF_CHAIN)),
            !self@.valid_cluster(cur as int) || prev.contains(cur),
        ensures
            forall|v: Seq<u32>| !#[trigger] self@.is_chain(first, max, v),
    {
        let t = self@;
        let ext = prev.push(cur);
        assert forall|v: Seq<u32>| !#[trigger] t.is_chain(first, max, v) by {
            if t.is_chain(first, max, v) {
                assert forall|i: int| 0 <= i < ext.len() - 1 implies t.raw(#[trigger] ext[i] as int) == Some(ext[i + 1]) by {
                    if i == ext.len() - 2 {
                        assert(ext[i] == prev.last());
                    } else {
                        assert(ext[i] == prev[i]);
                        assert(ext[i + 1] == prev[i + 1]);
                    }
                }
                self.lemma_prefix(first, max, ext, v);
                if v.len() <= prev.len() {
                    let k = v.len() - 1;
                    assert(v[k] == prev[k]);
                    assert(t.raw(prev[k] as int) == Some(ext[k + 1]));
                    assert(!(t.raw(prev[k] as int) matches Some(x) && x == END_OF_CHAIN));
                } else {
                    assert(v[prev.len() as int] == cur);
                    if prev.contains(cur) {
                        let i = choose|i: int| 0 <= i < prev.len() && prev[i] == cur;
                        assert(v[i] == prev[i]);
                    }
                }
            }
        }
    }

    proof fn lemma_no_chain_bad(&self, first: u32, max: int, out: Seq<u32>)
        requires
            out.len() >= 1,
            out.len() < max,
            out.len() < MAX_CHAIN,
            out[0] == first,
            forall|i: int| 0 <= i < out.len() - 1 ==> self@.raw(#[trigger] out[i] as int) == Some(out[i + 1]),
            forall|i: int| 0 <= i < out.len() - 1 ==> !(#[trigger] self@.raw(out[i] as int) matches Some(x) && (x == 0 || x == BAD_CLUSTER || x == END_OF_CHAIN)),
            self@.raw(out.last() as int) is None || (self@.raw(out.last() as int) matches Some(x) && (x == 0 || x == BAD_CLUSTER)),
        ensures
            forall|v: Seq<u32>| !#[trigger] self@.is_chain(first, max, v),
    {
        let t = self@;
        assert forall|v: Seq<u32>| !#[trigger] t.is_chain(first, max, v) by {
            if t.is_chain(first, max, v) {
                self.lemma_prefix(first, max, out, v);
                let k = out.len() - 1;
                if v.len() <= k {
                    let m = v.len() - 1;
                    assert(v[m] == out[m]);
                    assert(t.raw(out[m] as int) == Some(out[m + 1]));
                } else {
                    assert(v[k] == out[k]);
                    if k < v.len() - 1 {
                        assert(t.raw(v[k] as int) == Some(v[k + 1]));
                    }
                }
            }
        }
    }
}

} // verus!
