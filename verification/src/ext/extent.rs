//! ext4 extent tree nodes and the runs of ext2/ext3 block maps.
//!
//! Walking a tree reads its blocks one after another; what each node holds
//! (runs in a leaf, child blocks in an index node) and how block pointers
//! merge into runs are decided here.

use vstd::prelude::*;

use crate::bytes::{le16, le32, read_u16, read_u32};
use crate::ext::error::ExtError;

verus! {

/// Extent header magic.
pub const MAGIC: u16 = 0xF30A;

/// Deepest tree walked.
pub const MAX_DEPTH: u16 = 5;

/// Most extents collected for one file.
pub const MAX_EXTENTS: usize = 1_000_000;

/// One mapped run of a file: logical block, physical block, count.
#[derive(Debug, Clone, Copy, PartialEq, Eq, Structural)]
pub struct Run {
    /// First logical block.
    pub logical: u64,
    /// First physical block, or `None` for a hole.
    pub physical: Option<u64>,
    /// Number of blocks.
    pub count: u64,
    /// Extent is uninitialised (reads as zeros).
    pub uninitialized: bool,
}

/// What an extent tree node holds.
#[derive(Debug, Clone, PartialEq, Eq)]
pub enum ExtentNode {
    /// A leaf: the runs of its non-empty extents.
    Leaf(Vec<Run>),
    /// An index node: the blocks of its children, in order.
    Index(Vec<u64>),
}

/// The little-endian 16-bit value at `off`, or 0 when not all present.
pub open spec fn le16_or0(s: Seq<u8>, off: int) -> int {
    if off + 2 <= s.len() {
        le16(s, off)
    } else {
        0
    }
}

/// Whether a node's header is acceptable at tree level `level`.
pub open spec fn header_ok(node: Seq<u8>, level: u16) -> bool {
    &&& node.len() >= 2 && le16(node, 0) == 0xF30A
    &&& le16_or0(node, 2) <= le16_or0(node, 4)
    &&& le16_or0(node, 6) <= 5
    &&& level <= 5
}

/// Number of entries read from a node: the recorded count, at most what
/// fits after the 12-byte header.
pub open spec fn entry_count(node: Seq<u8>) -> int {
    let cap = if node.len() >= 12 {
        (node.len() - 12) / 12
    } else {
        0
    };
    vstd::math::min(le16_or0(node, 2), cap)
}

/// The run described by leaf entry `i`.
pub open spec fn leaf_entry(node: Seq<u8>, i: int) -> Run {
    let off = 12 + 12 * i;
    let raw = le16(node, off + 4);
    Run {
        logical: le32(node, off) as u64,
        physical: Some((le32(node, off + 8) + le16(node, off + 6) * 0x1_0000_0000) as u64),
        count: (if raw > 32768 {
            raw - 32768
        } else {
            raw
        }) as u64,
        uninitialized: raw > 32768,
    }
}

/// The child block of index entry `i`.
pub open spec fn index_entry(node: Seq<u8>, i: int) -> u64 {
    let off = 12 + 12 * i;
    (le32(node, off + 4) + le16(node, off + 8) * 0x1_0000_0000) as u64
}

/// The runs of the first `n` leaf entries (empty ones skipped), `None` when
/// one points past the volume's `blocks` blocks.
pub open spec fn leaf_runs(node: Seq<u8>, n: int, blocks: u64) -> Option<Seq<Run>>
    decreases n,
{
    if n <= 0 {
        Some(Seq::empty())
    } else {
        match leaf_runs(node, n - 1, blocks) {
            None => None,
            Some(prev) => {
                let r = leaf_entry(node, n - 1);
                if r.count == 0 {
                    Some(prev)
                } else if r.physical->0 >= blocks {
                    None
                } else {
                    Some(prev.push(r))
                }
            },
        }
    }
}

/// The children of the first `n` index entries, `None` when one points
/// past the volume's `blocks` blocks.
pub open spec fn index_children(node: Seq<u8>, n: int, blocks: u64) -> Option<Seq<u64>>
    decreases n,
{
    if n <= 0 {
        Some(Seq::empty())
    } else {
        match index_children(node, n - 1, blocks) {
            None => None,
            Some(prev) => {
                let c = index_entry(node, n - 1);
                if c >= blocks {
                    None
                } else {
                    Some(prev.push(c))
                }
            },
        }
    }
}

/// Decodes one extent tree node (the 60 bytes of `i_block` or a tree
/// block) found at tree level `level`; fails with [`ExtError::Malformed`]
/// for a bad header or an entry past the volume's `blocks_count` blocks.
pub fn decode_node(node: &[u8], level: u16, blocks_count: u64) -> (r: Result<ExtentNode, ExtError>)
    ensures
        match r {
            Ok(ExtentNode::Leaf(runs)) => header_ok(node@, level) && le16_or0(node@, 6) == 0
                && leaf_runs(node@, entry_count(node@), blocks_count) == Some(runs@),
            Ok(ExtentNode::Index(children)) => header_ok(node@, level) && le16_or0(node@, 6) != 0
                && index_children(node@, entry_count(node@), blocks_count) == Some(children@),
            Err(e) => e is Malformed && !(header_ok(node@, level) && if le16_or0(node@, 6) == 0 {
                leaf_runs(node@, entry_count(node@), blocks_count) is Some
            } else {
                index_children(node@, entry_count(node@), blocks_count) is Some
            }),
        },
{
    let len = node.len();
    if read_u16(node, 0) != Some(MAGIC) {
        return Err(ExtError::Malformed { structure: "extent tree", detail: "header magic absent" });
    }
    let entries = match read_u16(node, 2) {
        Some(v) => v,
        None => 0,
    };
    let max = match read_u16(node, 4) {
        Some(v) => v,
        None => 0,
    };
    let depth = match read_u16(node, 6) {
        Some(v) => v,
        None => 0,
    };
    if entries > max || depth > MAX_DEPTH || level > MAX_DEPTH {
        return Err(
            ExtError::Malformed { structure: "extent tree", detail: "entry count or depth invalid" },
        );
    }
    let capacity = if len >= 12 {
        (len - 12) / 12
    } else {
        0
    };
    let n: usize = if (entries as usize) < capacity {
        entries as usize
    } else {
        capacity
    };
    assert(n == entry_count(node@));
    if depth == 0 {
        let mut runs: Vec<Run> = Vec::new();
        let mut i: usize = 0;
        while i < n
            invariant
                len == node@.len(),
                n <= capacity,
                capacity == (if len >= 12 {
                    (len - 12) / 12
                } else {
                    0
                }),
                i <= n,
                n == entry_count(node@),
                le16_or0(node@, 6) == 0,
                leaf_runs(node@, i as int, blocks_count) == Some(runs@),
            decreases n - i,
        {
            assert(12 + 12 * i + 12 <= len) by (nonlinear_arith)
                requires
                    i < n,
                    n <= capacity,
                    capacity == (if len >= 12 {
                        (len - 12) / 12
                    } else {
                        0
                    }),
            ;
            let off = 12 + 12 * i;
            let logical = read_u32(node, off).unwrap() as u64;
            let raw_len = read_u16(node, off + 4).unwrap();
            let (count, uninitialized) = if raw_len > 32768 {
                ((raw_len - 32768) as u64, true)
            } else {
                (raw_len as u64, false)
            };
            let physical = read_u32(node, off + 8).unwrap() as u64 + read_u16(node, off + 6).unwrap() as u64
                * 0x1_0000_0000;
            let ghost r = leaf_entry(node@, i as int);
            assert(r.count == count && r.physical == Some(physical));
            if count != 0 {
                if physical >= blocks_count {
                    proof {
                        lemma_leaf_runs_stays_none(node@, i as int + 1, n as int, blocks_count);
                    }
                    return Err(
                        ExtError::Malformed {
                            structure: "extent tree",
                            detail: "extent beyond the volume",
                        },
                    );
                }
                runs.push(Run { logical, physical: Some(physical), count, uninitialized });
            }
            i = i + 1;
        }
        Ok(ExtentNode::Leaf(runs))
    } else {
        let mut children: Vec<u64> = Vec::new();
        let mut i: usize = 0;
        while i < n
            invariant
                len == node@.len(),
                n <= capacity,
                capacity == (if len >= 12 {
                    (len - 12) / 12
                } else {
                    0
                }),
                i <= n,
                n == entry_count(node@),
                le16_or0(node@, 6) != 0,
                index_children(node@, i as int, blocks_count) == Some(children@),
            decreases n - i,
        {
            assert(12 + 12 * i + 12 <= len) by (nonlinear_arith)
                requires
                    i < n,
                    n <= capacity,
                    capacity == (if len >= 12 {
                        (len - 12) / 12
                    } else {
                        0
                    }),
            ;
            let off = 12 + 12 * i;
            let child = read_u32(node, off + 4).unwrap() as u64 + read_u16(node, off + 8).unwrap() as u64
                * 0x1_0000_0000;
            if child >= blocks_count {
                proof {
                    lemma_index_children_stays_none(node@, i as int + 1, n as int, blocks_count);
                }
                return Err(
                    ExtError::Malformed { structure: "extent tree", detail: "index beyond the volume" },
                );
            }
            children.push(child);
            i = i + 1;
        }
        Ok(ExtentNode::Index(children))
    }
}

proof fn lemma_leaf_runs_stays_none(node: Seq<u8>, k: int, n: int, blocks: u64)
    requires
        0 <= k <= n,
        leaf_runs(node, k, blocks) is None,
    ensures
        leaf_runs(node, n, blocks) is None,
    decreases n - k,
{
    if k < n {
        lemma_leaf_runs_stays_none(node, k + 1, n, blocks);
    }
}

proof fn lemma_index_children_stays_none(node: Seq<u8>, k: int, n: int, blocks: u64)
    requires
        0 <= k <= n,
        index_children(node, k, blocks) is None,
    ensures
        index_children(node, n, blocks) is None,
    decreases n - k,
{
    if k < n {
        lemma_index_children_stays_none(node, k + 1, n, blocks);
    }
}

/// Whether logical block `logical` at physical block `phys` (`None`: a
/// hole) continues the run `last`.
pub open spec fn continues(last: Run, logical: u64, phys: Option<u64>) -> bool {
    last.logical + last.count == logical && match (last.physical, phys) {
        (Some(a), Some(b)) => a + last.count == b,
        (None, None) => true,
        _ => false,
    }
}

/// Runs after adding block `logical` at `phys`: the last run grows when the
/// block continues it, else a one-block run is appended.
pub open spec fn with_block(runs: Seq<Run>, logical: u64, phys: Option<u64>) -> Seq<Run> {
    if runs.len() > 0 && continues(runs.last(), logical, phys) {
        runs.update(
            runs.len() - 1,
            Run { count: (runs.last().count + 1) as u64, ..runs.last() },
        )
    } else {
        runs.push(Run { logical, physical: phys, count: 1, uninitialized: false })
    }
}

/// Adds block-map entry `logical` pointing at `physical` (0: a hole) to the
/// runs; fails with [`ExtError::Malformed`] for a pointer past the volume's
/// `blocks_count` blocks (the runs unchanged) and, once added, for more
/// than [`MAX_EXTENTS`] runs.
pub fn push_block(out: &mut Vec<Run>, logical: u64, physical: u64, blocks_count: u64) -> (r:
    Result<(), ExtError>)
    requires
        old(out)@.len() > 0 ==> old(out)@.last().count < u64::MAX,
    ensures
        physical != 0 && physical >= blocks_count ==> final(out)@ == old(out)@ && r is Err,
        !(physical != 0 && physical >= blocks_count) ==> {
            let phys = if physical == 0 {
                None::<u64>
            } else {
                Some(physical)
            };
            &&& final(out)@ == with_block(old(out)@, logical, phys)
            &&& (r is Err <==> final(out)@.len() > 1_000_000)
        },
        r matches Err(e) ==> e is Malformed,
{
    let phys: Option<u64> = if physical == 0 {
        None
    } else {
        Some(physical)
    };
    if physical != 0 && physical >= blocks_count {
        return Err(ExtError::Malformed { structure: "block map", detail: "block beyond the volume" });
    }
    let n = out.len();
    let mut merged = false;
    if n > 0 {
        let last = out[n - 1];
        let next_ok = match last.logical.checked_add(last.count) {
            Some(e) => e == logical,
            None => false,
        };
        let phys_ok = match (last.physical, phys) {
            (Some(a), Some(b)) => match a.checked_add(last.count) {
                Some(e) => e == b,
                None => false,
            },
            (None, None) => true,
            _ => false,
        };
        if next_ok && phys_ok {
            out.set(n - 1, Run { count: last.count + 1, ..last });
            merged = true;
        }
    }
    if !merged {
        out.push(Run { logical, physical: phys, count: 1, uninitialized: false });
    }
    if out.len() > MAX_EXTENTS {
        return Err(ExtError::Malformed { structure: "block map", detail: "too many extents" });
    }
    Ok(())
}

/// Blocks covered by one pointer at indirection `level` of a map with
/// `per_block` pointers per block: `per_block^level`, saturating.
pub open spec fn level_span(per_block: u64, level: nat) -> int
    decreases level,
{
    if level == 0 {
        1
    } else {
        let s = per_block * level_span(per_block, (level - 1) as nat);
        if s > u64::MAX {
            u64::MAX as int
        } else {
            s
        }
    }
}

/// `per_block^level`, saturating at `u64::MAX`.
pub fn span_of_level(per_block: u64, level: u32) -> (r: u64)
    ensures
        r == level_span(per_block, level as nat),
{
    let mut acc: u64 = 1;
    let mut k: u32 = 0;
    while k < level
        invariant
            k <= level,
            acc == level_span(per_block, k as nat),
        decreases level - k,
    {
        acc = match acc.checked_mul(per_block) {
            Some(v) => v,
            None => u64::MAX,
        };
        proof {
            assert(per_block * level_span(per_block, k as nat) == level_span(per_block, k as nat)
                * per_block) by (nonlinear_arith);
        }
        k = k + 1;
    }
    acc
}

/// The run of a missing pointer: a hole over `span` blocks from `logical`,
/// at most up to `needed`.
pub fn hole_run(logical: u64, span: u64, needed: u64) -> (r: Run)
    ensures
        r.logical == logical,
        r.physical is None,
        r.count == vstd::math::min(span as int, if needed >= logical {
            needed - logical
        } else {
            0
        }),
        !r.uninitialized,
{
    let left = if needed >= logical {
        needed - logical
    } else {
        0
    };
    let count = if span < left {
        span
    } else {
        left
    };
    Run { logical, physical: None, count, uninitialized: false }
}

} // verus!
