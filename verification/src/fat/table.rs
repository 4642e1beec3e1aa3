//! The File Allocation Table.

use std::collections::HashSet;
use vstd::prelude::*;

use crate::bytes::{le16, le32, read_u16, read_u32};
use crate::fat::boot::FatVariant;
use crate::fat::error::FatError;

verus! {

broadcast use vstd::std_specs::hash::group_hash_axioms;

/// Largest FAT loaded into memory (256 MiB covers volumes up to 256 GiB at
/// 4 KiB clusters).
pub const MAX_FAT_BYTES: u64 = 268435456;

/// Longest chain followed.
pub const MAX_CHAIN: usize = 67108864;

/// Decoded FAT entry.
#[derive(Debug, Clone, Copy, PartialEq, Eq, Structural)]
pub enum FatEntry {
    /// Cluster is free.
    Free,
    /// Cluster is in use; the chain continues at the given cluster.
    Next(u32),
    /// Cluster is the last of its chain.
    EndOfChain,
    /// Cluster is marked bad.
    Bad,
    /// Reserved value.
    Reserved,
}

/// The entry of `cluster` read straight from the table bytes `b`: twelve
/// bits for FAT12 (the low 12 bits of the 16-bit word at `c + c / 2` for an
/// even cluster, its high 12 bits for an odd one), the whole 16-bit word at
/// `2c` for FAT16, the low 28 bits of the 32-bit word at `4c` for FAT32;
/// `None` past the table.
pub open spec fn entry_bits(v: FatVariant, b: Seq<u8>, c: int) -> Option<u32> {
    match v {
        FatVariant::Fat12 => {
            let o = c + c / 2;
            if 0 <= o && o + 2 <= b.len() {
                Some(
                    (if c % 2 == 0 {
                        b[o] + 256 * (b[o + 1] % 16)
                    } else {
                        b[o] / 16 + 16 * b[o + 1]
                    }) as u32,
                )
            } else {
                None
            }
        },
        FatVariant::Fat16 => if 0 <= 2 * c && 2 * c + 2 <= b.len() {
            Some((b[2 * c] + 256 * b[2 * c + 1]) as u32)
        } else {
            None
        },
        FatVariant::Fat32 => if 0 <= 4 * c && 4 * c + 4 <= b.len() {
            Some((b[4 * c] + 256 * b[4 * c + 1] + 65536 * b[4 * c + 2] + 16777216 * (b[4 * c + 3] % 16)) as u32)
        } else {
            None
        },
    }
}

/// Each FAT entry is the bit field of its variant read from the table
/// bytes, nothing masked beyond the variant's width: a FAT16 entry is the
/// full 16-bit word at `2c`, so `0xFFF8..=0xFFFF` ends a chain there, and a
/// FAT32 entry keeps all 28 bits.
pub proof fn lemma_entry_bits(t: FatTableView, c: int)
    requires
        0 <= c,
    ensures
        t.raw(c) == entry_bits(t.variant, t.bytes, c),
        t.variant is Fat16 && 2 * c + 2 <= t.bytes.len() && t.bytes[2 * c] + 256 * t.bytes[2 * c + 1]
            >= 0xFFF8 ==> t.entry(c) == FatEntry::EndOfChain,
{
    let b = t.bytes;
    match t.variant {
        FatVariant::Fat12 => {
            let o = c + c / 2;
            if o + 2 <= b.len() {
                let lo = b[o] as int;
                let hi = b[o + 1] as int;
                assert((lo + 256 * hi) / 16 == lo / 16 + 16 * hi);
                assert((lo + 256 * hi) % 4096 == lo + 256 * (hi % 16));
            }
        },
        FatVariant::Fat16 => {},
        FatVariant::Fat32 => {
            if 4 * c + 4 <= b.len() {
                let x0 = b[4 * c] as int;
                let x1 = b[4 * c + 1] as int;
                let x2 = b[4 * c + 2] as int;
                let x3 = b[4 * c + 3] as int;
                assert((x0 + 256 * x1 + 65536 * x2 + 16777216 * x3) % 0x1000_0000 == x0 + 256 * x1 + 65536
                    * x2 + 16777216 * (x3 % 16));
            }
        },
    }
}

/// One FAT loaded into memory.
#[derive(Debug, Clone)]
pub struct FatTable {
    variant: FatVariant,
    cluster_count: u32,
    bytes: Vec<u8>,
    /// Whether the second FAT (if present) matched the first.
    pub mirror_consistent: Option<bool>,
}

/// The mathematical content of a [`FatTable`].
pub struct FatTableView {
    /// FAT variant, which fixes the entry width.
    pub variant: FatVariant,
    /// Number of data clusters.
    pub cluster_count: u32,
    /// Raw table bytes.
    pub bytes: Seq<u8>,
    /// Whether the mirror FAT matched, when it was compared.
    pub mirror_consistent: Option<bool>,
}

impl View for FatTable {
    type V = FatTableView;

    closed spec fn view(&self) -> FatTableView {
        FatTableView { variant: self.variant, cluster_count: self.cluster_count, bytes: self.bytes@, mirror_consistent: self.mirror_consistent }
    }
}

impl FatTableView {
    /// Raw value of the entry for `cluster`, if it lies inside the table.
    pub open spec fn raw(self, cluster: int) -> Option<u32> {
        match self.variant {
            FatVariant::Fat12 => {
                let off = cluster + cluster / 2;
                if off + 2 <= self.bytes.len() {
                    let pair = le16(self.bytes, off);
                    Some(
                        (if cluster % 2 == 1 {
                            pair / 16
                        } else {
                            pair % 4096
                        }) as u32,
                    )
                } else {
                    None
                }
            },
            FatVariant::Fat16 => if 2 * cluster + 2 <= self.bytes.len() {
                Some(le16(self.bytes, 2 * cluster) as u32)
            } else {
                None
            },
            FatVariant::Fat32 => if 4 * cluster + 4 <= self.bytes.len() {
                Some((le32(self.bytes, 4 * cluster) % 0x1000_0000) as u32)
            } else {
                None
            },
        }
    }

    /// Lowest end-of-chain value of the variant.
    pub open spec fn eoc_min(self) -> u32 {
        match self.variant {
            FatVariant::Fat12 => 0xFF8,
            FatVariant::Fat16 => 0xFFF8,
            FatVariant::Fat32 => 0x0FFF_FFF8,
        }
    }

    /// Bad-cluster value of the variant.
    pub open spec fn bad_value(self) -> u32 {
        match self.variant {
            FatVariant::Fat12 => 0xFF7,
            FatVariant::Fat16 => 0xFFF7,
            FatVariant::Fat32 => 0x0FFF_FFF7,
        }
    }

    /// Whether `c` is a data cluster of the volume.
    pub open spec fn valid_cluster(self, c: int) -> bool {
        2 <= c && c - 2 < self.cluster_count
    }

    /// Decoded entry for `cluster`.
    pub open spec fn entry(self, cluster: int) -> FatEntry {
        match self.raw(cluster) {
            None => FatEntry::Reserved,
            Some(r) => if r == 0 {
                FatEntry::Free
            } else if r == 1 {
                FatEntry::Reserved
            } else if r == self.bad_value() {
                FatEntry::Bad
            } else if r >= self.eoc_min() {
                FatEntry::EndOfChain
            } else if self.valid_cluster(r as int) {
                FatEntry::Next(r)
            } else {
                FatEntry::Reserved
            },
        }
    }

    /// Whether `v` is a complete, loop-free chain from `first`: valid
    /// clusters, each entry pointing at the next, the last one marked
    /// end-of-chain.
    pub open spec fn is_chain(self, first: u32, v: Seq<u32>) -> bool {
        &&& v.len() >= 1
        &&& v[0] == first
        &&& forall|i: int| 0 <= i < v.len() ==> self.valid_cluster(#[trigger] v[i] as int)
        &&& forall|i: int| 0 <= i < v.len() - 1 ==> self.entry(#[trigger] v[i] as int) == FatEntry::Next(v[i + 1])
        &&& self.entry(v.last() as int) == FatEntry::EndOfChain
        &&& forall|i: int, j: int| 0 <= i < j < v.len() ==> #[trigger] v[i] != #[trigger] v[j]
    }

    /// Number of free clusters among `lo..hi`.
    pub open spec fn free_count(self, lo: int, hi: int) -> nat
        decreases hi - lo,
    {
        if hi <= lo {
            0
        } else {
            self.free_count(lo, hi - 1) + (if self.entry(hi - 1) == FatEntry::Free {
                1nat
            } else {
                0nat
            })
        }
    }
}

/// A chain that agrees with `out` on its first elements: every chain from
/// the same start agrees with any prefix built by following the entries.
pub proof fn lemma_chain_prefix(t: FatTableView, first: u32, out: Seq<u32>, v: Seq<u32>)
    requires
        out.len() >= 1,
        out[0] == first,
        forall|i: int| 0 <= i < out.len() - 1 ==> t.entry(#[trigger] out[i] as int) == FatEntry::Next(out[i + 1]),
        t.is_chain(first, v),
    ensures
        forall|k: int| 0 <= k < out.len() && k < v.len() ==> v[k] == out[k],
        v.len() >= out.len() ==> forall|k: int| 0 <= k < out.len() - 1 ==> v[k] != v.last(),
{
    assert forall|k: int| 0 <= k < out.len() && k < v.len() implies v[k] == out[k] by {
        lemma_chain_prefix_at(t, first, out, v, k);
    }
}

proof fn lemma_chain_prefix_at(t: FatTableView, first: u32, out: Seq<u32>, v: Seq<u32>, k: int)
    requires
        out.len() >= 1,
        out[0] == first,
        forall|i: int| 0 <= i < out.len() - 1 ==> t.entry(#[trigger] out[i] as int) == FatEntry::Next(out[i + 1]),
        t.is_chain(first, v),
        0 <= k < out.len(),
        k < v.len(),
    ensures
        v[k] == out[k],
    decreases k,
{
    if k > 0 {
        lemma_chain_prefix_at(t, first, out, v, k - 1);
        assert(t.entry(out[k - 1] as int) == FatEntry::Next(out[k]));
        if k - 1 < v.len() - 1 {
            assert(t.entry(v[k - 1] as int) == FatEntry::Next(v[k]));
        }
    }
}

impl FatTable {
    /// Wraps raw FAT bytes.
    pub fn from_bytes(variant: FatVariant, cluster_count: u32, bytes: Vec<u8>) -> (t: Self)
        ensures
            t@.variant == variant,
            t@.cluster_count == cluster_count,
            t@.bytes == bytes@,
            t@.mirror_consistent is None,
    {
        FatTable { variant, cluster_count, bytes, mirror_consistent: None }
    }

    /// Raw value of an entry, if inside the table.
    pub fn raw(&self, cluster: u32) -> (r: Option<u32>)
        ensures
            r == self@.raw(cluster as int),
            r == entry_bits(self@.variant, self@.bytes, cluster as int),
    {
        proof {
            lemma_entry_bits(self@, cluster as int);
        }
        let c = cluster as usize;
        let _len = self.bytes.len();
        match self.variant {
            FatVariant::Fat12 => {
                match c.checked_add(c / 2) {
                    Some(off) => match read_u16(self.bytes.as_slice(), off) {
                        Some(pair) => Some(
                            if cluster % 2 == 1 {
                                (pair / 16) as u32
                            } else {
                                (pair % 4096) as u32
                            },
                        ),
                        None => None,
                    },
                    None => None,
                }
            },
            FatVariant::Fat16 => match c.checked_mul(2) {
                Some(off) => match read_u16(self.bytes.as_slice(), off) {
                    Some(v) => Some(v as u32),
                    None => None,
                },
                None => None,
            },
            FatVariant::Fat32 => match c.checked_mul(4) {
                Some(off) => match read_u32(self.bytes.as_slice(), off) {
                    Some(v) => Some(v % 0x1000_0000),
                    None => None,
                },
                None => None,
            },
        }
    }

    /// Decodes the entry for `cluster`.
    pub fn entry(&self, cluster: u32) -> (e: FatEntry)
        ensures
            e == self@.entry(cluster as int),
    {
        let raw = match self.raw(cluster) {
            Some(r) => r,
            None => return FatEntry::Reserved,
        };
        let (eoc_min, bad): (u32, u32) = match self.variant {
            FatVariant::Fat12 => (0xFF8, 0xFF7),
            FatVariant::Fat16 => (0xFFF8, 0xFFF7),
            FatVariant::Fat32 => (0x0FFF_FFF8, 0x0FFF_FFF7),
        };
        if raw == 0 {
            FatEntry::Free
        } else if raw == 1 {
            FatEntry::Reserved
        } else if raw == bad {
            FatEntry::Bad
        } else if raw >= eoc_min {
            FatEntry::EndOfChain
        } else if raw >= 2 && raw - 2 < self.cluster_count {
            FatEntry::Next(raw)
        } else {
            FatEntry::Reserved
        }
    }

    /// Whether `cluster` is free.
    pub fn is_free(&self, cluster: u32) -> (r: bool)
        ensures
            r == (self@.entry(cluster as int) == FatEntry::Free),
    {
        self.entry(cluster) == FatEntry::Free
    }

    /// Follows the chain starting at `first`, protecting against loops and
    /// runaway chains.
    ///
    /// Returns the chain exactly when one of at most [`MAX_CHAIN`] clusters
    /// exists; otherwise (a loop, a bad, reserved or free entry, a cluster
    /// outside the volume, or a longer chain) fails with
    /// [`FatError::InvalidChain`].
    pub fn chain(&self, first: u32) -> (r: Result<Vec<u32>, FatError>)
        ensures
            match r {
                Ok(v) => self@.is_chain(first, v@) && v@.len() <= MAX_CHAIN,
                Err(e) => e is InvalidChain && forall|v: Seq<u32>| #[trigger]
                    self@.is_chain(first, v) ==> v.len() > MAX_CHAIN,
            },
    {
        let ghost t = self@;
        let mut out: Vec<u32> = Vec::new();
        let mut seen: HashSet<u32> = HashSet::new();
        let mut cur = first;
        loop
            invariant
                t == self@,
                out@.len() <= MAX_CHAIN,
                out@.len() == 0 ==> cur == first,
                out@.len() >= 1 ==> out@[0] == first,
                forall|i: int| 0 <= i < out@.len() ==> t.valid_cluster(#[trigger] out@[i] as int),
                forall|i: int| 0 <= i < out@.len() - 1 ==> t.entry(#[trigger] out@[i] as int) == FatEntry::Next(out@[i + 1]),
                out@.len() >= 1 ==> t.entry(out@.last() as int) == FatEntry::Next(cur),
                forall|i: int, j: int| 0 <= i < j < out@.len() ==> #[trigger] out@[i] != #[trigger] out@[j],
                forall|x: u32| seen@.contains(x) <==> out@.contains(x),
            decreases MAX_CHAIN - out@.len(),
        {
            let ghost prev = out@;
            if cur < 2 || cur - 2 >= self.cluster_count {
                proof { self.lemma_no_chain_past(first, prev, cur); }
                return Err(FatError::InvalidChain("cluster outside the volume"));
            }
            if seen.contains(&cur) {
                proof { self.lemma_no_chain_past(first, prev, cur); }
                return Err(FatError::InvalidChain("chain loops"));
            }
            if out.len() >= MAX_CHAIN {
                proof { self.lemma_no_chain_past(first, prev, cur); }
                return Err(FatError::InvalidChain("chain too long"));
            }
            seen.insert(cur);
            out.push(cur);
            proof {
                assert(out@ == prev.push(cur));
                assert forall|x: u32| seen@.contains(x) <==> out@.contains(x) by {
                    if out@.contains(x) && x != cur {
                        let i = choose|i: int| 0 <= i < out@.len() && out@[i] == x;
                        assert(prev[i] == x);
                    }
                    if prev.contains(x) {
                        let i = choose|i: int| 0 <= i < prev.len() && prev[i] == x;
                        assert(out@[i] == x);
                    }
                }
                assert forall|i: int, j: int| 0 <= i < j < out@.len() implies #[trigger] out@[i] != #[trigger] out@[j] by {
                    if j == out@.len() - 1 {
                        assert(!prev.contains(cur));
                        if out@[i] == out@[j] {
                            assert(prev[i] == cur);
                        }
                    }
                }
            }
            match self.entry(cur) {
                FatEntry::Next(n) => {
                    cur = n;
                },
                FatEntry::EndOfChain => {
                    return Ok(out);
                },
                _ => {
                    proof { self.lemma_no_chain_at_end(first, out@); }
                    return Err(FatError::InvalidChain("chain reaches an unusable entry"));
                },
            }
        }
    }

    /// No chain of at most [`MAX_CHAIN`] clusters exists when the prefix
    /// `prev` leads to `cur`, which is invalid, already visited, or would
    /// exceed the length bound.
    proof fn lemma_no_chain_past(&self, first: u32, prev: Seq<u32>, cur: u32)
        requires
            prev.len() <= MAX_CHAIN,
            prev.len() == 0 ==> cur == first,
            prev.len() >= 1 ==> prev[0] == first,
            forall|i: int| 0 <= i < prev.len() - 1 ==> self@.entry(#[trigger] prev[i] as int) == FatEntry::Next(prev[i + 1]),
            prev.len() >= 1 ==> self@.entry(prev.last() as int) == FatEntry::Next(cur),
            !self@.valid_cluster(cur as int) || prev.contains(cur) || prev.len() >= MAX_CHAIN,
        ensures
            forall|v: Seq<u32>| #[trigger] self@.is_chain(first, v) ==> v.len() > MAX_CHAIN,
    {
        let t = self@;
        let ext = prev.push(cur);
        assert forall|v: Seq<u32>| #[trigger] t.is_chain(first, v) implies v.len() > MAX_CHAIN by {
            assert forall|i: int| 0 <= i < ext.len() - 1 implies t.entry(#[trigger] ext[i] as int) == FatEntry::Next(ext[i + 1]) by {
                if i == ext.len() - 2 {
                    assert(ext[i] == prev.last());
                } else {
                    assert(ext[i] == prev[i]);
                    assert(ext[i + 1] == prev[i + 1]);
                }
            }
            lemma_chain_prefix(t, first, ext, v);
            if v.len() <= prev.len() {
                // The last element of `v` is end-of-chain, but every element of
                // the prefix points onwards.
                let k = v.len() - 1;
                assert(v[k] == ext[k]);
                assert(t.entry(ext[k] as int) == FatEntry::Next(ext[k + 1]));
            } else {
                assert(v[prev.len() as int] == cur);
                if prev.contains(cur) {
                    let i = choose|i: int| 0 <= i < prev.len() && prev[i] == cur;
                    assert(v[i] == prev[i]);
                    assert(v[i] != v[prev.len() as int]);
                }
            }
        }
    }

    /// No chain exists when the last element of the prefix `out` has an
    /// entry that neither continues nor ends the chain.
    proof fn lemma_no_chain_at_end(&self, first: u32, out: Seq<u32>)
        requires
            out.len() >= 1,
            out[0] == first,
            forall|i: int| 0 <= i < out.len() - 1 ==> self@.entry(#[trigger] out[i] as int) == FatEntry::Next(out[i + 1]),
            !(self@.entry(out.last() as int) is Next),
            self@.entry(out.last() as int) != FatEntry::EndOfChain,
        ensures
            forall|v: Seq<u32>| #[trigger] self@.is_chain(first, v) ==> v.len() > MAX_CHAIN,
    {
        let t = self@;
        assert forall|v: Seq<u32>| #[trigger] t.is_chain(first, v) implies v.len() > MAX_CHAIN by {
            lemma_chain_prefix(t, first, out, v);
            let k = out.len() - 1;
            if v.len() <= k {
                let m = v.len() - 1;
                assert(v[m] == out[m]);
                assert(t.entry(out[m] as int) == FatEntry::Next(out[m + 1]));
            } else {
                assert(v[k] == out[k]);
                if k < v.len() - 1 {
                    assert(t.entry(v[k] as int) == FatEntry::Next(v[k + 1]));
                }
            }
        }
    }

    /// Number of data clusters.
    pub fn cluster_count(&self) -> (r: u32)
        ensures
            r == self@.cluster_count,
    {
        self.cluster_count
    }

    /// Counts free clusters among the data clusters `2..cluster_count + 2`
    /// (the upper end saturating at `u32::MAX`).
    pub fn free_clusters(&self) -> (n: u32)
        ensures
            n == self@.free_count(
                2,
                if self@.cluster_count + 2 > u32::MAX {
                    u32::MAX as int
                } else {
                    self@.cluster_count + 2
                },
            ),
    {
        let end: u32 = if self.cluster_count > u32::MAX - 2 {
            u32::MAX
        } else {
            self.cluster_count + 2
        };
        let mut n: u32 = 0;
        let mut c: u32 = 2;
        while c < end
            invariant
                2 <= c,
                c <= end || end < 2,
                n == self@.free_count(2, c as int),
                n <= c - 2,
            decreases end - c,
        {
            if self.is_free(c) {
                n = n + 1;
            }
            c = c + 1;
        }
        if end < 2 {
            return 0;
        }
        n
    }
}

} // verus!
