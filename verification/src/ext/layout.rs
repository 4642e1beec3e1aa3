//! Walking a file's block layout: the ext4 extent tree, and the ext2/ext3
//! block map with its indirect blocks. Both walks read tree blocks one
//! after another: each says which block it needs next and is handed its
//! bytes.

use vstd::prelude::*;

use crate::bytes::{fits, le32, read_u32};
use crate::ext::error::ExtError;
use crate::ext::extent::{
    decode_node, entry_count, header_ok, hole_run, index_children, le16_or0, leaf_runs, level_span,
    push_block, span_of_level, with_block, ExtentNode, Run, MAX_EXTENTS,
};
use crate::ntfs::assemble::{insert_by, lemma_insert_at, sort_by};

verus! {

/// Order of runs by first logical block.
pub open spec fn logical_le(a: Run, b: Run) -> bool {
    a.logical <= b.logical
}

/// What an extent tree node holds, as values.
pub enum NodeContents {
    /// A leaf's runs.
    Leaf(Seq<Run>),
    /// An index node's children.
    Index(Seq<u64>),
}

/// What `node`, found at tree level `level` of a volume of `blocks`
/// blocks, decodes to (see [`decode_node`]); `None` when it does not.
pub open spec fn node_contents(node: Seq<u8>, level: u16, blocks: u64) -> Option<NodeContents> {
    if !header_ok(node, level) {
        None
    } else if le16_or0(node, 6) == 0 {
        match leaf_runs(node, entry_count(node), blocks) {
            Some(rs) => Some(NodeContents::Leaf(rs)),
            None => None,
        }
    } else {
        match index_children(node, entry_count(node), blocks) {
            Some(cs) => Some(NodeContents::Index(cs)),
            None => None,
        }
    }
}

/// The contents of a decoded node.
pub open spec fn contents_of(n: ExtentNode) -> NodeContents {
    match n {
        ExtentNode::Leaf(rs) => NodeContents::Leaf(rs@),
        ExtentNode::Index(cs) => NodeContents::Index(cs@),
    }
}

/// Index children still to visit: the blocks, the next one's index, and
/// the tree level of the children.
#[derive(Debug)]
struct IndexFrame {
    children: Vec<u64>,
    next: usize,
    level: u16,
}

/// An index frame as values: children, next index, level of the children.
pub type IndexFrameView = (Seq<u64>, nat, u16);

spec fn frame_view(f: IndexFrame) -> IndexFrameView {
    (f.children@, f.next as nat, f.level)
}

/// The frames left once the exhausted ones on top are dropped.
pub open spec fn live_frames(stack: Seq<IndexFrameView>) -> Seq<IndexFrameView>
    decreases stack.len(),
{
    if stack.len() == 0 {
        stack
    } else if stack.last().1 >= stack.last().0.len() {
        live_frames(stack.drop_last())
    } else {
        stack
    }
}

/// The walk of an extent tree: leaves' runs are collected, index nodes'
/// children are read depth first, in order.
#[derive(Debug)]
pub struct ExtentWalk {
    blocks_count: u64,
    runs: Vec<Run>,
    visited: Vec<u64>,
    stack: Vec<IndexFrame>,
    pending: Option<u16>,
}

fn holds_block(v: &Vec<u64>, x: u64) -> (b: bool)
    ensures
        b == v@.contains(x),
{
    let mut j: usize = 0;
    while j < v.len()
        invariant
            j <= v@.len(),
            forall|k: int| 0 <= k < j ==> v@[k] != x,
        decreases v@.len() - j,
    {
        if v[j] == x {
            assert(v@[j as int] == x);
            return true;
        }
        j = j + 1;
    }
    false
}

fn append_runs(out: &mut Vec<Run>, more: Vec<Run>)
    ensures
        final(out)@ == old(out)@ + more@,
{
    let mut more = more;
    out.append(&mut more);
}

/// Inserts a run into runs kept in order of first logical block, after
/// those that start at or before it.
fn insert_run(out: &mut Vec<Run>, x: Run)
    ensures
        final(out)@ == insert_by(old(out)@, x, |a: Run, b: Run| logical_le(a, b)),
{
    let ghost le = |a: Run, b: Run| logical_le(a, b);
    let mut k = out.len();
    while k > 0 && out[k - 1].logical > x.logical
        invariant
            k <= out@.len(),
            out@ == old(out)@,
            le == (|a: Run, b: Run| logical_le(a, b)),
            forall|j: int| k <= j < out@.len() ==> !le(#[trigger] out@[j], x),
        decreases k,
    {
        k = k - 1;
    }
    proof {
        lemma_insert_at(out@, x, le, k as int);
    }
    out.insert(k, x);
    assert(out@ =~= old(out)@.take(k as int).push(x) + old(out)@.skip(k as int));
}

/// Runs in order of first logical block; runs that start together keep
/// their order.
pub fn sort_runs(runs: Vec<Run>) -> (r: Vec<Run>)
    ensures
        r@ == sort_by(runs@, |a: Run, b: Run| logical_le(a, b)),
{
    let ghost le = |a: Run, b: Run| logical_le(a, b);
    let mut out: Vec<Run> = Vec::new();
    let mut i: usize = 0;
    while i < runs.len()
        invariant
            i <= runs@.len(),
            le == (|a: Run, b: Run| logical_le(a, b)),
            out@ == sort_by(runs@.take(i as int), le),
        decreases runs@.len() - i,
    {
        proof {
            assert(runs@.take(i + 1).drop_last() =~= runs@.take(i as int));
        }
        insert_run(&mut out, runs[i]);
        i = i + 1;
    }
    assert(runs@.take(runs@.len() as int) =~= runs@);
    out
}

/// Whether `after` is `before` having taken a node with `contents` at
/// tree level `level`, with outcome `r`: a leaf's runs are added (more
/// than [`MAX_EXTENTS`] in all fail), an index node's children are queued
/// at the next level.
pub open spec fn took(before: ExtentWalk, after: ExtentWalk, contents: NodeContents, level: u16, r: Result<(), ExtError>) -> bool {
    match contents {
        NodeContents::Leaf(runs) => {
            &&& after.spec_runs() == before.spec_runs() + runs
            &&& after.spec_stack() == before.spec_stack()
            &&& (r is Err <==> after.spec_runs().len() > MAX_EXTENTS)
            &&& r matches Err(e) ==> e is Malformed
        },
        NodeContents::Index(children) => {
            &&& r is Ok
            &&& after.spec_runs() == before.spec_runs()
            &&& after.spec_stack() == before.spec_stack().push((children, 0nat, (level + 1) as u16))
        },
    }
}

impl ExtentWalk {
    /// Runs collected so far, in the order met.
    pub closed spec fn spec_runs(&self) -> Seq<Run> {
        self.runs@
    }

    /// Index blocks read so far.
    pub closed spec fn spec_visited(&self) -> Seq<u64> {
        self.visited@
    }

    /// Index nodes being walked, the innermost last.
    pub closed spec fn spec_stack(&self) -> Seq<IndexFrameView> {
        Seq::new(self.stack@.len(), |i: int| frame_view(self.stack@[i]))
    }

    /// The tree level of the block asked for, if any.
    pub closed spec fn spec_pending(&self) -> Option<u16> {
        self.pending
    }

    /// Blocks in the volume.
    pub closed spec fn spec_blocks_count(&self) -> u64 {
        self.blocks_count
    }

    /// Takes the decoded node at tree level `level`: a leaf's runs are
    /// added, an index node's children are queued.
    fn take_node(&mut self, node: ExtentNode, level: u16) -> (r: Result<(), ExtError>)
        requires
            level <= 5,
        ensures
            final(self).spec_visited() == old(self).spec_visited(),
            final(self).spec_pending() == old(self).spec_pending(),
            final(self).spec_blocks_count() == old(self).spec_blocks_count(),
            took(*old(self), *final(self), contents_of(node), level, r),
            r matches Err(e) ==> e is Malformed,
    {
        match node {
            ExtentNode::Leaf(runs) => {
                append_runs(&mut self.runs, runs);
                if self.runs.len() > MAX_EXTENTS {
                    return Err(ExtError::Malformed { structure: "extent tree", detail: "too many extents" });
                }
                Ok(())
            },
            ExtentNode::Index(children) => {
                let ghost before = self.spec_stack();
                self.stack.push(IndexFrame { children, next: 0, level: level + 1 });
                assert(self.spec_stack() =~= before.push((children@, 0nat, (level + 1) as u16)));
                Ok(())
            },
        }
    }

    /// Starts the walk at the root node (the 60 bytes of `i_block`) of a
    /// volume of `blocks_count` blocks; fails as [`decode_node`] does at
    /// level 0.
    pub fn new(root: &[u8], blocks_count: u64) -> (r: Result<Self, ExtError>)
        ensures
            match r {
                Ok(w) => {
                    &&& w.spec_visited().len() == 0
                    &&& w.spec_pending() is None
                    &&& w.spec_blocks_count() == blocks_count
                    &&& match node_contents(root@, 0, blocks_count) {
                        Some(NodeContents::Leaf(runs)) => w.spec_runs() == runs && w.spec_stack().len()
                            == 0 && runs.len() <= MAX_EXTENTS,
                        Some(NodeContents::Index(children)) => w.spec_runs().len() == 0
                            && w.spec_stack() == seq![(children, 0nat, 1u16)],
                        None => false,
                    }
                },
                Err(e) => e is Malformed,
            },
            node_contents(root@, 0, blocks_count) is None ==> r is Err,
    {
        let node = decode_node(root, 0, blocks_count)?;
        assert(node_contents(root@, 0, blocks_count) == Some(contents_of(node)));
        let mut w = ExtentWalk {
            blocks_count,
            runs: Vec::new(),
            visited: Vec::new(),
            stack: Vec::new(),
            pending: None,
        };
        assert(w.spec_stack() =~= Seq::<IndexFrameView>::empty());
        assert(w.spec_runs() =~= Seq::<Run>::empty());
        w.take_node(node, 0)?;
        Ok(w)
    }

    /// The next index block to read, depth first (`None`: the walk is
    /// over). A block met twice is a cyclic tree,
    /// [`ExtError::Malformed`].
    pub fn next_read(&mut self) -> (r: Result<Option<u64>, ExtError>)
        ensures
            ({
                let live = live_frames(old(self).spec_stack());
                if live.len() == 0 {
                    &&& r == Ok::<Option<u64>, ExtError>(None)
                    &&& final(self).spec_stack().len() == 0
                    &&& final(self).spec_visited() == old(self).spec_visited()
                    &&& final(self).spec_pending() is None
                } else {
                    let top = live.last();
                    let child = top.0[top.1 as int];
                    if old(self).spec_visited().contains(child) {
                        r matches Err(e) && e is Malformed
                    } else {
                        &&& r == Ok::<Option<u64>, ExtError>(Some(child))
                        &&& final(self).spec_stack() == live.update(
                            live.len() - 1,
                            (top.0, top.1 + 1, top.2),
                        )
                        &&& final(self).spec_visited() == old(self).spec_visited().push(child)
                        &&& final(self).spec_pending() == Some(top.2)
                    }
                }
            }),
            final(self).spec_runs() == old(self).spec_runs(),
            final(self).spec_blocks_count() == old(self).spec_blocks_count(),
    {
        self.pending = None;
        loop
            invariant
                live_frames(self.spec_stack()) == live_frames(old(self).spec_stack()),
                self.spec_runs() == old(self).spec_runs(),
                self.spec_visited() == old(self).spec_visited(),
                self.spec_blocks_count() == old(self).spec_blocks_count(),
                self.spec_pending() is None,
            decreases self.stack@.len(),
        {
            let n = self.stack.len();
            if n == 0 {
                return Ok(None);
            }
            let ghost st = self.spec_stack();
            let exhausted = self.stack[n - 1].next >= self.stack[n - 1].children.len();
            if exhausted {
                self.stack.pop();
                assert(self.spec_stack() =~= st.drop_last());
            } else {
                assert(live_frames(st) == st);
                let child = self.stack[n - 1].children[self.stack[n - 1].next];
                if holds_block(&self.visited, child) {
                    return Err(ExtError::Malformed { structure: "extent tree", detail: "cyclic extent tree" });
                }
                self.visited.push(child);
                let mut top = self.stack.pop().unwrap();
                let level = top.level;
                top.next = top.next + 1;
                self.stack.push(top);
                assert(self.spec_stack() =~= st.update(
                    st.len() - 1,
                    (st.last().0, st.last().1 + 1, st.last().2),
                ));
                self.pending = Some(level);
                return Ok(Some(child));
            }
        }
    }

    /// Hands in the bytes of the block asked for: decoded at its level
    /// (see [`decode_node`]), a leaf's runs are added (more than
    /// [`MAX_EXTENTS`] in all fail) and an index node's children are
    /// queued. Nothing happens when no block was asked for.
    pub fn give(&mut self, node: &[u8]) -> (r: Result<(), ExtError>)
        ensures
            final(self).spec_pending() is None,
            final(self).spec_visited() == old(self).spec_visited(),
            final(self).spec_blocks_count() == old(self).spec_blocks_count(),
            match old(self).spec_pending() {
                None => r is Ok && final(self).spec_runs() == old(self).spec_runs()
                    && final(self).spec_stack() == old(self).spec_stack(),
                Some(level) => match node_contents(node@, level, old(self).spec_blocks_count()) {
                    None => r matches Err(e) && e is Malformed,
                    Some(c) => took(*old(self), *final(self), c, level, r),
                },
            },
            r matches Err(e) ==> e is Malformed,
    {
        let level = match self.pending.take() {
            None => {
                return Ok(());
            },
            Some(l) => l,
        };
        let decoded = decode_node(node, level, self.blocks_count)?;
        assert(node_contents(node@, level, self.blocks_count) == Some(contents_of(decoded)));
        self.take_node(decoded, level)
    }

    /// The runs found, in order of first logical block.
    pub fn finish(self) -> (runs: Vec<Run>)
        ensures
            runs@ == sort_by(self.spec_runs(), |a: Run, b: Run| logical_le(a, b)),
    {
        sort_runs(self.runs)
    }
}


/// The `i`-th 32-bit block pointer of `data`, 0 when it is not all there.
pub open spec fn pointer_at(data: Seq<u8>, i: int) -> u64 {
    if fits(data, 4 * i, 4) {
        le32(data, 4 * i) as u64
    } else {
        0
    }
}

/// Whether `runs` cover logical blocks `0..end` one after another, each
/// starting where the one before ends.
pub open spec fn tiles(runs: Seq<Run>, end: int) -> bool {
    &&& runs.len() == 0 ==> end == 0
    &&& runs.len() > 0 ==> runs[0].logical == 0 && runs.last().logical + runs.last().count == end
    &&& forall|i: int|
        0 <= i < runs.len() - 1 ==> #[trigger] runs[i].logical + runs[i].count == runs[i + 1].logical
    &&& forall|i: int| 0 <= i < runs.len() ==> #[trigger] runs[i].logical + runs[i].count <= end
}

/// A block of pointers being walked: its bytes, its indirection level (1:
/// pointers to data blocks) and the index of the next pointer.
#[derive(Debug)]
struct MapFrame {
    data: Vec<u8>,
    level: u32,
    next: u64,
}

/// A pointer block as values: bytes, level, next index.
pub type MapFrameView = (Seq<u8>, u32, nat);

spec fn map_frame_view(f: MapFrame) -> MapFrameView {
    (f.data@, f.level, f.next as nat)
}

/// What one step of a block map walk did.
#[derive(Debug, Clone, Copy, PartialEq, Eq, Structural)]
pub enum MapStep {
    /// The walk is over.
    Done,
    /// The walk waits for the block it asked for.
    Waiting,
    /// The walk needs this pointer block read.
    Read(u64),
    /// One pointer was taken.
    Continued,
}

/// The walk of an ext2/ext3 block map: twelve direct pointers in
/// `i_block`, then an indirect, a double and a triple indirect block.
#[derive(Debug)]
pub struct BlockMapWalk {
    i_block: Vec<u8>,
    needed: u64,
    per_block: u64,
    blocks_count: u64,
    logical: u64,
    runs: Vec<Run>,
    visited: Vec<u64>,
    slot: usize,
    frames: Vec<MapFrame>,
    pending: Option<u32>,
}

/// Blocks of a file of `size` bytes, blocks being `block_size` bytes (at
/// least one).
pub open spec fn blocks_needed(size: u64, block_size: u32) -> int {
    let b: int = if block_size == 0 {
        1
    } else {
        block_size as int
    };
    (size as int) / b + if (size as int) % b == 0 {
        0int
    } else {
        1int
    }
}

impl BlockMapWalk {
    /// The pointers of the inode (`i_block`).
    pub closed spec fn spec_i_block(&self) -> Seq<u8> {
        self.i_block@
    }

    /// Blocks of the file.
    pub closed spec fn spec_needed(&self) -> u64 {
        self.needed
    }

    /// Pointers per block.
    pub closed spec fn spec_per_block(&self) -> u64 {
        self.per_block
    }

    /// Blocks in the volume.
    pub closed spec fn spec_blocks_count(&self) -> u64 {
        self.blocks_count
    }

    /// Logical blocks mapped so far.
    pub closed spec fn spec_logical(&self) -> u64 {
        self.logical
    }

    /// Runs so far.
    pub closed spec fn spec_runs(&self) -> Seq<Run> {
        self.runs@
    }

    /// Pointer blocks read so far.
    pub closed spec fn spec_visited(&self) -> Seq<u64> {
        self.visited@
    }

    /// Next slot of `i_block` (0 to 11 direct, 12 to 14 indirect, 15 past
    /// the end).
    pub closed spec fn spec_slot(&self) -> nat {
        self.slot as nat
    }

    /// Pointer blocks being walked, the innermost last.
    pub closed spec fn spec_frames(&self) -> Seq<MapFrameView> {
        Seq::new(self.frames@.len(), |i: int| map_frame_view(self.frames@[i]))
    }

    /// Level of the pointer block asked for, if any.
    pub closed spec fn spec_pending(&self) -> Option<u32> {
        self.pending
    }

    /// The invariant of the walk: the runs cover logical blocks
    /// `0..logical` in order, no further than the file's blocks; every
    /// pointer block is read once.
    pub open spec fn wf(&self) -> bool {
        &&& self.spec_logical() <= self.spec_needed()
        &&& tiles(self.spec_runs(), self.spec_logical() as int)
        &&& self.spec_visited().no_duplicates()
        &&& self.spec_slot() <= 15
        &&& self.spec_per_block() < 0x4000_0000
        &&& forall|i: int| 0 <= i < self.spec_frames().len() ==> #[trigger] self.spec_frames()[i].1 >= 1
        &&& self.spec_pending() matches Some(l) ==> l >= 1
    }

    /// Starts the walk of the block map `i_block` of a file of `size`
    /// bytes on a volume of `blocks_count` blocks of `block_size` bytes.
    pub fn new(i_block: &[u8], size: u64, block_size: u32, blocks_count: u64) -> (w: Self)
        ensures
            w.wf(),
            w.spec_i_block() == i_block@,
            w.spec_needed() == blocks_needed(size, block_size),
            w.spec_per_block() == block_size / 4,
            w.spec_blocks_count() == blocks_count,
            w.spec_logical() == 0,
            w.spec_runs().len() == 0,
            w.spec_visited().len() == 0,
            w.spec_slot() == 0,
            w.spec_frames().len() == 0,
            w.spec_pending() is None,
    {
        let b: u64 = if block_size == 0 {
            1
        } else {
            block_size as u64
        };
        assert(size % b != 0 ==> size / b < u64::MAX) by (nonlinear_arith)
            requires
                b >= 1,
        ;
        let needed = size / b + if size % b == 0 {
            0
        } else {
            1
        };
        let w = BlockMapWalk {
            i_block: crate::ntfs::assemble::copy_bytes(i_block),
            needed,
            per_block: (block_size / 4) as u64,
            blocks_count,
            logical: 0,
            runs: Vec::new(),
            visited: Vec::new(),
            slot: 0,
            frames: Vec::new(),
            pending: None,
        };
        assert(w.spec_frames() =~= Seq::<MapFrameView>::empty());
        w
    }

    /// Maps the next logical block to pointer `p` (0: a hole), as
    /// [`push_block`] does.
    fn map_block(&mut self, p: u64) -> (r: Result<(), ExtError>)
        requires
            old(self).wf(),
            old(self).spec_logical() < old(self).spec_needed(),
        ensures
            mapped(*old(self), *final(self), p, r),
            r is Ok ==> final(self).wf(),
            r matches Err(e) ==> e is Malformed,
            final(self).spec_frames() == old(self).spec_frames(),
            final(self).spec_visited() == old(self).spec_visited(),
            final(self).spec_slot() == old(self).spec_slot(),
            final(self).spec_pending() == old(self).spec_pending(),
            same_walk(*old(self), *final(self)),
    {
        let ghost before = self.runs@;
        let ghost fr = self.spec_frames();
        proof {
            if before.len() > 0 {
                assert(before.last().logical + before.last().count <= self.logical);
            }
        }
        let r = push_block(&mut self.runs, self.logical, p, self.blocks_count);
        if r.is_err() {
            return r;
        }
        proof {
            let phys = if p == 0 {
                None::<u64>
            } else {
                Some(p)
            };
            let after = self.runs@;
            assert(after == with_block(before, self.logical, phys));
            if before.len() > 0 && crate::ext::extent::continues(before.last(), self.logical, phys) {
                assert forall|i: int| 0 <= i < after.len() implies #[trigger] after[i].logical
                    + after[i].count <= self.logical + 1 by {
                    if i < before.len() - 1 {
                        assert(after[i] == before[i]);
                    }
                }
                assert forall|i: int| 0 <= i < after.len() - 1 implies #[trigger] after[i].logical
                    + after[i].count == after[i + 1].logical by {
                    assert(after[i] == before[i]);
                    if i + 1 < before.len() - 1 {
                        assert(after[i + 1] == before[i + 1]);
                    }
                }
            } else {
                assert forall|i: int| 0 <= i < after.len() implies #[trigger] after[i].logical
                    + after[i].count <= self.logical + 1 by {
                    if i < before.len() {
                        assert(after[i] == before[i]);
                    }
                }
                assert forall|i: int| 0 <= i < after.len() - 1 implies #[trigger] after[i].logical
                    + after[i].count == after[i + 1].logical by {
                    assert(after[i] == before[i]);
                    if i + 1 < before.len() {
                        assert(after[i + 1] == before[i + 1]);
                    }
                }
            }
        }
        self.logical = self.logical + 1;
        assert(self.spec_frames() =~= fr);
        Ok(())
    }

    /// Adds a hole of `n` blocks at the next logical block.
    fn map_hole(&mut self, n: u64)
        requires
            old(self).wf(),
            old(self).spec_logical() + n <= old(self).spec_needed(),
        ensures
            final(self).wf(),
            final(self).spec_runs() == old(self).spec_runs().push(
                Run { logical: old(self).spec_logical(), physical: None, count: n, uninitialized: false },
            ),
            final(self).spec_logical() == old(self).spec_logical() + n,
            final(self).spec_frames() == old(self).spec_frames(),
            final(self).spec_visited() == old(self).spec_visited(),
            final(self).spec_slot() == old(self).spec_slot(),
            final(self).spec_pending() == old(self).spec_pending(),
            same_walk(*old(self), *final(self)),
    {
        let ghost before = self.runs@;
        let ghost fr = self.spec_frames();
        let run = Run { logical: self.logical, physical: None, count: n, uninitialized: false };
        self.runs.push(run);
        proof {
            let after = self.runs@;
            assert forall|i: int| 0 <= i < after.len() implies #[trigger] after[i].logical
                + after[i].count <= self.logical + n by {
                if i < before.len() {
                    assert(after[i] == before[i]);
                }
            }
            assert forall|i: int| 0 <= i < after.len() - 1 implies #[trigger] after[i].logical
                + after[i].count == after[i + 1].logical by {
                assert(after[i] == before[i]);
                if i + 1 < before.len() {
                    assert(after[i + 1] == before[i + 1]);
                }
            }
        }
        self.logical = self.logical + n;
        assert(self.spec_frames() =~= fr);
    }

    /// Asks for pointer block `p` at level `level`: fails with
    /// [`ExtError::Malformed`] when `p` is past the volume or was read
    /// before.
    fn ask(&mut self, p: u64, level: u32) -> (r: Result<MapStep, ExtError>)
        requires
            old(self).wf(),
            level >= 1,
            old(self).spec_pending() is None,
        ensures
            asked(*old(self), *final(self), p, level, r),
            r is Ok ==> final(self).wf(),
            r matches Err(e) ==> e is Malformed,
            final(self).spec_frames() == old(self).spec_frames(),
            final(self).spec_slot() == old(self).spec_slot(),
            final(self).spec_runs() == old(self).spec_runs(),
            final(self).spec_logical() == old(self).spec_logical(),
            same_walk(*old(self), *final(self)),
    {
        if p >= self.blocks_count || holds_block(&self.visited, p) {
            return Err(ExtError::Malformed { structure: "block map", detail: "indirect block invalid or cyclic" });
        }
        let ghost before = self.visited@;
        let ghost fr = self.spec_frames();
        self.visited.push(p);
        proof {
            assert forall|a: int, b: int|
                0 <= a < self.visited@.len() && 0 <= b < self.visited@.len() && a != b implies self.visited@[a]
                != self.visited@[b] by {
                if a < before.len() && b < before.len() {
                    assert(self.visited@[a] == before[a] && self.visited@[b] == before[b]);
                } else if a == before.len() {
                    assert(self.visited@[b] == before[b]);
                } else {
                    assert(self.visited@[a] == before[a]);
                }
            }
        }
        self.pending = Some(level);
        assert(self.spec_frames() =~= fr);
        Ok(MapStep::Read(p))
    }

    /// One step of the walk:
    /// - while a block is asked for, the walk waits;
    /// - once the file's blocks are all mapped, or all of `i_block` is
    ///   taken, the walk is over;
    /// - in a pointer block whose pointers are all taken, the block is
    ///   left;
    /// - otherwise the next pointer, from the innermost pointer block or
    ///   else from `i_block`, is taken: a data block pointer maps the next
    ///   logical block (see [`mapped`]); a zero pointer above the data
    ///   level is a hole over all it would cover (up to the file's end);
    ///   any other pointer block is asked for (see [`asked`]).
    pub fn step(&mut self) -> (r: Result<MapStep, ExtError>)
        requires
            old(self).wf(),
        ensures
            r is Ok ==> final(self).wf(),
            same_walk(*old(self), *final(self)),
            r matches Err(e) ==> e is Malformed,
            stepped(*old(self), *final(self), r),
    {
        if self.pending.is_some() {
            return Ok(MapStep::Waiting);
        }
        if self.logical >= self.needed {
            return Ok(MapStep::Done);
        }
        let nf = self.frames.len();
        if nf > 0 {
            let ghost fr = self.spec_frames();
            let next = self.frames[nf - 1].next;
            let level = self.frames[nf - 1].level;
            if next >= self.per_block {
                self.frames.pop();
                assert(self.spec_frames() =~= fr.drop_last());
                return Ok(MapStep::Continued);
            }
            let p: u64 = match read_u32(self.frames[nf - 1].data.as_slice(), (4 * next) as usize) {
                Some(v) => v as u64,
                None => 0,
            };
            assert(p == pointer_at(fr.last().0, fr.last().2 as int));
            let mut top = self.frames.pop().unwrap();
            top.next = next + 1;
            self.frames.push(top);
            assert(self.spec_frames() =~= fr.update(fr.len() - 1, (fr.last().0, fr.last().1, fr.last().2 + 1)));
            if level == 1 {
                return match self.map_block(p) {
                    Ok(()) => Ok(MapStep::Continued),
                    Err(e) => Err(e),
                };
            }
            if p == 0 {
                let span = span_of_level(self.per_block, level - 1);
                let hole = hole_run(self.logical, span, self.needed);
                self.map_hole(hole.count);
                return Ok(MapStep::Continued);
            }
            return self.ask(p, level - 1);
        }
        if self.slot >= 15 {
            return Ok(MapStep::Done);
        }
        let slot = self.slot;
        let p: u64 = match read_u32(self.i_block.as_slice(), 4 * slot) {
            Some(v) => v as u64,
            None => 0,
        };
        self.slot = slot + 1;
        if slot < 12 {
            return match self.map_block(p) {
                Ok(()) => Ok(MapStep::Continued),
                Err(e) => Err(e),
            };
        }
        let level = (slot - 11) as u32;
        if p == 0 {
            let span = span_of_level(self.per_block, level);
            let hole = hole_run(self.logical, span, self.needed);
            if hole.count >= 1 {
                self.map_hole(hole.count);
            }
            return Ok(MapStep::Continued);
        }
        self.ask(p, level)
    }

    /// Hands in the bytes of the pointer block asked for; its pointers are
    /// taken next. Nothing happens when no block was asked for.
    pub fn give(&mut self, block: Vec<u8>)
        requires
            old(self).wf(),
        ensures
            final(self).wf(),
            same_walk(*old(self), *final(self)),
            final(self).spec_pending() is None,
            final(self).spec_runs() == old(self).spec_runs(),
            final(self).spec_logical() == old(self).spec_logical(),
            final(self).spec_visited() == old(self).spec_visited(),
            final(self).spec_slot() == old(self).spec_slot(),
            final(self).spec_frames() == match old(self).spec_pending() {
                Some(level) => old(self).spec_frames().push((block@, level, 0nat)),
                None => old(self).spec_frames(),
            },
    {
        let ghost fr = self.spec_frames();
        match self.pending.take() {
            Some(level) => {
                let ghost data = block@;
                self.frames.push(MapFrame { data: block, level, next: 0 });
                assert(self.spec_frames() =~= fr.push((data, level, 0nat)));
            },
            None => {},
        }
    }

    /// The runs found, in logical order.
    pub fn finish(self) -> (runs: Vec<Run>)
        ensures
            runs@ == self.spec_runs(),
    {
        self.runs
    }
}

/// Whether `after` keeps the fixed parts of `before`: the pointers in
/// `i_block`, the file's blocks, pointers per block, the volume's blocks.
pub open spec fn same_walk(before: BlockMapWalk, after: BlockMapWalk) -> bool {
    &&& after.spec_i_block() == before.spec_i_block()
    &&& after.spec_needed() == before.spec_needed()
    &&& after.spec_per_block() == before.spec_per_block()
    &&& after.spec_blocks_count() == before.spec_blocks_count()
}

/// Whether `after` is `before` with the next logical block mapped to
/// pointer `p` (0: a hole) as [`push_block`] does, with outcome `r`: a
/// pointer past the volume fails, as do more than [`MAX_EXTENTS`] runs.
pub open spec fn mapped(before: BlockMapWalk, after: BlockMapWalk, p: u64, r: Result<(), ExtError>) -> bool {
    if p != 0 && p >= before.spec_blocks_count() {
        r is Err
    } else {
        let phys = if p == 0 {
            None::<u64>
        } else {
            Some(p)
        };
        let runs = with_block(before.spec_runs(), before.spec_logical(), phys);
        &&& (r is Err <==> runs.len() > MAX_EXTENTS)
        &&& r is Ok ==> after.spec_runs() == runs && after.spec_logical() == before.spec_logical() + 1
    }
}

/// Whether `after` is `before` having asked for pointer block `p` at level
/// `level`, with outcome `r`: a block past the volume or read before fails.
pub open spec fn asked(before: BlockMapWalk, after: BlockMapWalk, p: u64, level: u32, r: Result<MapStep, ExtError>) -> bool {
    if p >= before.spec_blocks_count() || before.spec_visited().contains(p) {
        r is Err
    } else {
        &&& r == Ok::<MapStep, ExtError>(MapStep::Read(p))
        &&& after.spec_visited() == before.spec_visited().push(p)
        &&& after.spec_pending() == Some(level)
    }
}

/// What one step does (see [`BlockMapWalk::step`]).
pub open spec fn stepped(before: BlockMapWalk, after: BlockMapWalk, r: Result<MapStep, ExtError>) -> bool {
    let fr = before.spec_frames();
    let need = before.spec_needed();
    let logical = before.spec_logical();
    if before.spec_pending() is Some {
        r == Ok::<MapStep, ExtError>(MapStep::Waiting) && after == before
    } else if logical >= need {
        r == Ok::<MapStep, ExtError>(MapStep::Done) && after == before
    } else if fr.len() > 0 {
        let top = fr.last();
        if top.2 >= before.spec_per_block() {
            &&& r == Ok::<MapStep, ExtError>(MapStep::Continued)
            &&& after.spec_frames() == fr.drop_last()
            &&& after.spec_runs() == before.spec_runs()
            &&& after.spec_logical() == logical
            &&& after.spec_visited() == before.spec_visited()
            &&& after.spec_slot() == before.spec_slot()
            &&& after.spec_pending() is None
        } else {
            let p = pointer_at(top.0, top.2 as int);
            &&& after.spec_slot() == before.spec_slot()
            &&& r is Ok ==> after.spec_frames() == fr.update(fr.len() - 1, (top.0, top.1, top.2 + 1))
            &&& if top.1 == 1 {
                &&& mapped(before, after, p, match r {
                    Ok(_) => Ok(()),
                    Err(e) => Err(e),
                })
                &&& r is Ok ==> r == Ok::<MapStep, ExtError>(MapStep::Continued)
                    && after.spec_visited() == before.spec_visited() && after.spec_pending() is None
            } else if p == 0 {
                let n = vstd::math::min(level_span(before.spec_per_block(), (top.1 - 1) as nat), need - logical);
                &&& r == Ok::<MapStep, ExtError>(MapStep::Continued)
                &&& after.spec_runs() == before.spec_runs().push(
                    Run { logical, physical: None, count: n as u64, uninitialized: false },
                )
                &&& after.spec_logical() == logical + n
                &&& after.spec_visited() == before.spec_visited()
                &&& after.spec_pending() is None
            } else {
                &&& asked(before, after, p, (top.1 - 1) as u32, r)
                &&& r is Ok ==> after.spec_runs() == before.spec_runs() && after.spec_logical() == logical
            }
        }
    } else if before.spec_slot() >= 15 {
        r == Ok::<MapStep, ExtError>(MapStep::Done) && after == before
    } else {
        let slot = before.spec_slot();
        let p = pointer_at(before.spec_i_block(), slot as int);
        &&& after.spec_frames() == fr
        &&& r is Ok ==> after.spec_slot() == slot + 1
        &&& if slot < 12 {
            &&& mapped(before, after, p, match r {
                Ok(_) => Ok(()),
                Err(e) => Err(e),
            })
            &&& r is Ok ==> r == Ok::<MapStep, ExtError>(MapStep::Continued)
                && after.spec_visited() == before.spec_visited() && after.spec_pending() is None
        } else if p == 0 {
            let n = vstd::math::min(level_span(before.spec_per_block(), (slot - 11) as nat), need - logical);
            &&& r == Ok::<MapStep, ExtError>(MapStep::Continued)
            &&& after.spec_runs() == if n >= 1 {
                before.spec_runs().push(Run { logical, physical: None, count: n as u64, uninitialized: false })
            } else {
                before.spec_runs()
            }
            &&& after.spec_logical() == logical + n
            &&& after.spec_visited() == before.spec_visited()
            &&& after.spec_pending() is None
        } else {
            &&& asked(before, after, p, (slot - 11) as u32, r)
            &&& r is Ok ==> after.spec_runs() == before.spec_runs() && after.spec_logical() == logical
        }
    }
}

} // verus!
