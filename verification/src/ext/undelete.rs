//! Deleted ext objects: which inode version and which name describe them.

use vstd::prelude::*;

use crate::evidence::{ceil_div, div_ceil, AllocationFacts, CandidateFacts, ExtentFacts, MetadataFacts, Note};
use crate::ext::bitmap::BlockState;
use crate::ext::extent::Run;
use crate::ext::inode::Inode;
use crate::ext::volume::{covers_from, sat_add, ExtVolume, Layout, LayoutSource, WalkedEntry};

verus! {

/// Which version of an inode a candidate describes.
#[derive(Debug, Clone, Copy, PartialEq, Eq, Structural)]
pub enum InodeVersion {
    /// The inode as it is on disk now.
    Current,
    /// An older copy from the journal.
    Journal,
}

/// A deleted object assembled from the inode table, the journal and
/// directory slack.
#[derive(Debug, Clone)]
pub struct DeletedInode {
    /// Inode number.
    pub number: u32,
    /// The inode as it is on disk now, if readable.
    pub current: Option<Inode>,
    /// The layout, from the inode itself or from the journal.
    pub layout: Option<Layout>,
    /// Directory entries (live or slack) naming the inode.
    pub names: Vec<WalkedEntry>,
    /// The on-disk inode is alive again: it was reused by another file
    /// and only a journal copy describes the deleted one.
    pub reused: bool,
    /// The journal shows the file was empty when alive.
    pub known_empty: bool,
}

/// The journal transaction a layout was read from, if any.
pub open spec fn layout_sequence(layout: Option<Layout>) -> Option<u32> {
    match layout {
        Some(l) => match l.source {
            LayoutSource::Journal { sequence, .. } => Some(sequence),
            _ => None,
        },
        None => None,
    }
}

/// How well a name whose entry was live in transactions `alive` fits a
/// layout from transaction `sequence`: live in that very transaction best,
/// then unknown lifetime, then names that died before it, then later ones;
/// ties broken by the last live transaction.
pub open spec fn name_rank(sequence: Option<u32>, alive: Option<(u32, u32)>) -> (int, int) {
    match (sequence, alive) {
        (Some(s), Some((a, b))) => if a <= s && s <= b {
            (3, b as int)
        } else if b < s {
            (1, b as int)
        } else {
            (0, b as int)
        },
        (_, None) => (2, 0),
        (None, Some((_, b))) => (2, b as int),
    }
}

/// Whether rank `x` is below rank `y` (lexicographic).
pub open spec fn rank_below(x: (int, int), y: (int, int)) -> bool {
    x.0 < y.0 || (x.0 == y.0 && x.1 < y.1)
}

fn rank_of(sequence: Option<u32>, alive: Option<(u32, u32)>) -> (r: (u8, u32))
    ensures
        (r.0 as int, r.1 as int) == name_rank(sequence, alive),
{
    match (sequence, alive) {
        (Some(s), Some((a, b))) => if a <= s && s <= b {
            (3, b)
        } else if b < s {
            (1, b)
        } else {
            (0, b)
        },
        (_, None) => (2, 0),
        (None, Some((_, b))) => (2, b),
    }
}

impl DeletedInode {
    /// The inode version the candidate describes: the layout's, else the
    /// current one.
    pub fn version(&self) -> (r: Option<&Inode>)
        ensures
            r == match self.layout {
                Some(l) => Some(&l.inode),
                None => match self.current {
                    Some(c) => Some(&c),
                    None => None,
                },
            },
    {
        match &self.layout {
            Some(l) => Some(&l.inode),
            None => match &self.current {
                Some(c) => Some(c),
                None => None,
            },
        }
    }

    /// Where [`version`](Self::version) came from.
    pub fn version_source(&self) -> (v: InodeVersion)
        ensures
            v == (if layout_sequence(self.layout) is Some {
                InodeVersion::Journal
            } else {
                InodeVersion::Current
            }),
    {
        match &self.layout {
            Some(l) => match l.source {
                LayoutSource::Journal { .. } => InodeVersion::Journal,
                _ => InodeVersion::Current,
            },
            None => InodeVersion::Current,
        }
    }

    /// Generation of the version used (identity of the candidate), 0 when
    /// there is none.
    pub fn generation(&self) -> (g: u32)
        ensures
            g == match self.layout {
                Some(l) => l.inode.generation,
                None => match self.current {
                    Some(c) => c.generation,
                    None => 0,
                },
            },
    {
        match self.version() {
            Some(i) => i.generation,
            None => 0,
        }
    }

    /// The name most consistent with the inode version used (inode numbers
    /// are reused, so a slack entry may belong to an earlier or later file):
    /// the first of the names of highest [`name_rank`].
    pub fn name(&self) -> (r: Option<&WalkedEntry>)
        ensures
            self.names@.len() == 0 ==> r is None,
            self.names@.len() > 0 ==> exists|k: int|
                0 <= k < self.names@.len() && r == Some(&self.names@[k]) && (forall|j: int|
                    0 <= j < self.names@.len() ==> !rank_below(
                        name_rank(layout_sequence(self.layout), self.names@[k].entry.alive_in),
                        #[trigger] name_rank(layout_sequence(self.layout), self.names@[j].entry.alive_in),
                    )) && (forall|j: int|
                    0 <= j < k ==> rank_below(
                        #[trigger] name_rank(layout_sequence(self.layout), self.names@[j].entry.alive_in),
                        name_rank(layout_sequence(self.layout), self.names@[k].entry.alive_in),
                    )),
    {
        let sequence: Option<u32> = match &self.layout {
            Some(l) => match l.source {
                LayoutSource::Journal { sequence, .. } => Some(sequence),
                _ => None,
            },
            None => None,
        };
        let ghost seq_spec = layout_sequence(self.layout);
        assert(sequence == seq_spec);
        let n = self.names.len();
        if n == 0 {
            return None;
        }
        let mut best: usize = 0;
        let mut best_rank = rank_of(sequence, self.names[0].entry.alive_in);
        let mut i: usize = 1;
        while i < n
            invariant
                n == self.names@.len(),
                sequence == seq_spec,
                1 <= i <= n,
                best < i,
                (best_rank.0 as int, best_rank.1 as int) == name_rank(seq_spec, self.names@[best as int].entry.alive_in),
                forall|j: int|
                    0 <= j < i ==> !rank_below(
                        name_rank(seq_spec, self.names@[best as int].entry.alive_in),
                        #[trigger] name_rank(seq_spec, self.names@[j].entry.alive_in),
                    ),
                forall|j: int|
                    0 <= j < best ==> rank_below(
                        #[trigger] name_rank(seq_spec, self.names@[j].entry.alive_in),
                        name_rank(seq_spec, self.names@[best as int].entry.alive_in),
                    ),
            decreases n - i,
        {
            let r = rank_of(sequence, self.names[i].entry.alive_in);
            if r.0 > best_rank.0 || (r.0 == best_rank.0 && r.1 > best_rank.1) {
                best = i;
                best_rank = r;
            }
            i = i + 1;
        }
        Some(&self.names[best])
    }
}

/// Whether `k` is the name [`DeletedInode::name`] picks: the first of
/// the names of highest rank.
pub open spec fn picks(d: DeletedInode, k: int) -> bool {
    let seq = layout_sequence(d.layout);
    &&& 0 <= k < d.names@.len()
    &&& forall|j: int|
        0 <= j < d.names@.len() ==> !rank_below(
            name_rank(seq, d.names@[k].entry.alive_in),
            #[trigger] name_rank(seq, d.names@[j].entry.alive_in),
        )
    &&& forall|j: int|
        0 <= j < k ==> rank_below(
            #[trigger] name_rank(seq, d.names@[j].entry.alive_in),
            name_rank(seq, d.names@[k].entry.alive_in),
        )
}

/// At most one name is picked.
pub proof fn lemma_one_pick(d: DeletedInode, a: int, b: int)
    requires
        picks(d, a),
        picks(d, b),
    ensures
        a == b,
{
    let seq = layout_sequence(d.layout);
    if a < b {
        assert(rank_below(name_rank(seq, d.names@[a].entry.alive_in), name_rank(seq, d.names@[b].entry.alive_in)));
        assert(!rank_below(name_rank(seq, d.names@[a].entry.alive_in), name_rank(seq, d.names@[b].entry.alive_in)));
    } else if b < a {
        assert(rank_below(name_rank(seq, d.names@[b].entry.alive_in), name_rank(seq, d.names@[a].entry.alive_in)));
        assert(!rank_below(name_rank(seq, d.names@[b].entry.alive_in), name_rank(seq, d.names@[a].entry.alive_in)));
    }
}

/// Whether the picked name lies in a deleted directory.
pub open spec fn picked_via_deleted(d: DeletedInode) -> bool {
    d.names@.len() > 0 && d.names@[choose|k: int| picks(d, k)].via_deleted_directory
}

/// The inode version used: the layout's, else the current one.
pub open spec fn version_of(d: DeletedInode) -> Option<Inode> {
    match d.layout {
        Some(l) => Some(l.inode),
        None => d.current,
    }
}

/// Whether the journal copy a layout comes from is stale: the current
/// inode, deleted and not reused, was modified at a time that is neither
/// its deletion time nor the copy's modification time.
pub open spec fn stale_copy(d: DeletedInode, l: Layout) -> bool {
    &&& l.source is Journal
    &&& d.current matches Some(cur) && !d.reused && cur.dtime != 0 && cur.mtime != 0 && cur.mtime != cur.dtime
        && cur.mtime != l.inode.mtime
}

/// Runs that map blocks.
pub open spec fn mapped_runs(runs: Seq<Run>) -> Seq<Run> {
    runs.filter(|r: Run| r.physical is Some)
}

/// Blocks the mapped runs cover, saturated to `u64`.
pub open spec fn mapped_total(runs: Seq<Run>) -> int
    decreases runs.len(),
{
    if runs.len() == 0 {
        0
    } else {
        let t = mapped_total(runs.drop_last()) + if runs.last().physical is Some {
            runs.last().count as int
        } else {
            0
        };
        if t > u64::MAX {
            u64::MAX as int
        } else {
            t
        }
    }
}

/// Number of runs that map blocks.
pub open spec fn mapped_count(runs: Seq<Run>) -> nat
    decreases runs.len(),
{
    if runs.len() == 0 {
        0
    } else {
        mapped_count(runs.drop_last()) + if runs.last().physical is Some {
            1nat
        } else {
            0nat
        }
    }
}

/// Whether a run is a hole or uninitialised.
pub open spec fn has_gap(runs: Seq<Run>) -> bool {
    exists|i: int| 0 <= i < runs.len() && (#[trigger] runs[i].physical is None || runs[i].uninitialized)
}

/// How many of `states` are `s`.
pub open spec fn count_state(states: Seq<BlockState>, s: BlockState) -> nat
    decreases states.len(),
{
    if states.len() == 0 {
        0
    } else {
        count_state(states.drop_last(), s) + if states.last() == s {
            1nat
        } else {
            0nat
        }
    }
}

/// Whether the layout covers its size (see [`ExtVolume::layout_complete`]).
pub open spec fn layout_covers(l: Layout, bs: int) -> bool {
    l.inline is Some || l.inode.flags & 0x0008_0000u32 != 0 || covers_from(l.runs@, 0, ((l.size + bs - 1) / bs) as u64)
}

/// The notes on an ext candidate, in order: a picked name in a deleted
/// directory; other names; the deletion time; reuse; then, with a layout,
/// its journal transaction (and a stale copy) or a kept block map, and
/// without one, a known empty file, no journal copy, or no journal.
pub open spec fn ext_notes(d: DeletedInode, has_journal: bool) -> Seq<Note> {
    (if picked_via_deleted(d) {
        seq![Note::ViaDeletedDirectory]
    } else {
        seq![]
    }) + (if d.names@.len() > 1 {
        seq![Note::OtherNames]
    } else {
        seq![]
    }) + (match d.current {
        Some(cur) => if cur.dtime != 0 {
            seq![Note::DeletedAt(cur.dtime)]
        } else {
            seq![]
        },
        None => seq![],
    }) + (if d.reused {
        seq![Note::Reused]
    } else {
        seq![]
    }) + match d.layout {
        Some(l) => match l.source {
            LayoutSource::Journal { sequence, checksum_ok } => seq![Note::JournalLayout { sequence, checksum_ok }]
                + if stale_copy(d, l) {
                seq![Note::StaleJournalCopy { modified: d.current->0.mtime, copied: l.inode.mtime }]
            } else {
                seq![]
            },
            LayoutSource::Inode => seq![Note::BlockMapKept],
            LayoutSource::Inline => seq![],
        },
        None => if d.known_empty {
            seq![Note::KnownEmpty]
        } else if has_journal {
            seq![Note::NoJournalCopy]
        } else {
            seq![Note::NoJournal]
        },
    }
}

/// The layout facts of an ext candidate, blocks being `bs` bytes.
pub open spec fn ext_extents_of(d: DeletedInode, bs: int) -> ExtentFacts {
    match d.layout {
        Some(l) => {
            let resident = l.inline is Some;
            let complete = layout_covers(l, bs);
            let total = mapped_total(l.runs@);
            let expected = ceil_div(l.size as int, bs);
            let n = mapped_count(l.runs@);
            ExtentFacts {
                resident,
                complete,
                extent_count: (if n > u32::MAX {
                    u32::MAX as int
                } else {
                    n as int
                }) as u32,
                total_clusters: Some(total as u64),
                expected_clusters: Some(expected as u64),
                sparse: has_gap(l.runs@) || (complete && !resident && total < expected),
                compressed: false,
                encrypted: false,
                chain_known: true,
                heuristic: false,
                start_inferred: false,
                stale: stale_copy(d, l),
            }
        },
        None => ExtentFacts {
            resident: false,
            complete: d.known_empty,
            extent_count: 0,
            total_clusters: Some(0),
            expected_clusters: match version_of(d) {
                Some(v) => if v.size > 0 {
                    Some(ceil_div(v.size as int, bs) as u64)
                } else {
                    None
                },
                None => None,
            },
            sparse: false,
            compressed: false,
            encrypted: false,
            chain_known: true,
            heuristic: false,
            start_inferred: false,
            stale: false,
        },
    }
}

/// The allocation facts of an ext candidate, `states` being the states of
/// its mapped blocks: none counted for inline data or without a layout.
pub open spec fn ext_allocation_of(d: DeletedInode, states: Seq<BlockState>) -> AllocationFacts {
    match d.layout {
        Some(l) => if l.inline is None {
            AllocationFacts {
                map_available: true,
                total: states.len() as u64,
                free: count_state(states, BlockState::Free) as u64,
                allocated: count_state(states, BlockState::Allocated) as u64,
                unknown: count_state(states, BlockState::Unknown) as u64,
            }
        } else {
            AllocationFacts { map_available: true, total: 0, free: 0, allocated: 0, unknown: 0 }
        },
        None => AllocationFacts { map_available: true, total: 0, free: 0, allocated: 0, unknown: 0 },
    }
}

/// The metadata facts of an ext candidate: the record is sound unless the
/// version's checksum or the journal copy's fails; the size is the
/// layout's, else the version's when non-zero, else 0 for a known empty
/// file.
pub open spec fn ext_metadata_of(d: DeletedInode) -> MetadataFacts {
    let named = d.names@.len() > 0;
    let journal_bad = d.layout matches Some(l) && l.source matches LayoutSource::Journal { checksum_ok, .. }
        && checksum_ok == Some(false);
    MetadataFacts {
        valid_record: (version_of(d) matches Some(v) && v.checksum_ok != Some(false)) && !journal_bad,
        filename_available: named,
        original_parent_available: named,
        parent_reference_valid: named && !d.reused,
        logical_size: match d.layout {
            Some(l) => Some(l.size),
            None => match version_of(d) {
                Some(v) => if v.size > 0 {
                    Some(v.size)
                } else if d.known_empty {
                    Some(0)
                } else {
                    None
                },
                None => if d.known_empty {
                    Some(0)
                } else {
                    None
                },
            },
        },
        timestamps_available: version_of(d) matches Some(v) && v.mtime != 0,
    }
}

fn tally_states(states: &[BlockState]) -> (r: (u64, u64, u64))
    ensures
        r.0 == count_state(states@, BlockState::Free),
        r.1 == count_state(states@, BlockState::Allocated),
        r.2 == count_state(states@, BlockState::Unknown),
{
    let mut r: (u64, u64, u64) = (0, 0, 0);
    let mut i: usize = 0;
    while i < states.len()
        invariant
            i <= states@.len(),
            r.0 == count_state(states@.take(i as int), BlockState::Free),
            r.1 == count_state(states@.take(i as int), BlockState::Allocated),
            r.2 == count_state(states@.take(i as int), BlockState::Unknown),
            r.0 + r.1 + r.2 == i,
        decreases states@.len() - i,
    {
        proof {
            assert(states@.take(i + 1).drop_last() =~= states@.take(i as int));
        }
        match states[i] {
            BlockState::Free => r.0 = r.0 + 1,
            BlockState::Allocated => r.1 = r.1 + 1,
            BlockState::Unknown => r.2 = r.2 + 1,
        }
        i = i + 1;
    }
    assert(states@.take(states@.len() as int) =~= states@);
    r
}

fn run_summary(runs: &Vec<Run>) -> (r: (u64, u64, bool))
    ensures
        r.0 == mapped_total(runs@),
        r.1 == (if mapped_count(runs@) > u32::MAX {
            u32::MAX as int
        } else {
            mapped_count(runs@) as int
        }),
        r.2 == has_gap(runs@),
{
    let mut total: u64 = 0;
    let mut count: u64 = 0;
    let mut gap = false;
    let mut i: usize = 0;
    while i < runs.len()
        invariant
            i <= runs@.len(),
            total == mapped_total(runs@.take(i as int)),
            count == mapped_count(runs@.take(i as int)),
            count <= i,
            gap == has_gap(runs@.take(i as int)),
        decreases runs@.len() - i,
    {
        let r = runs[i];
        proof {
            let t = runs@.take(i + 1);
            assert(t.drop_last() =~= runs@.take(i as int));
            assert(t.last() == r);
            if has_gap(t) {
                let k = choose|k: int| 0 <= k < t.len() && (#[trigger] t[k].physical is None || t[k].uninitialized);
                if k < i {
                    assert(runs@.take(i as int)[k] == t[k]);
                }
            }
            if gap {
                let k = choose|k: int| 0 <= k < i && (#[trigger] runs@.take(i as int)[k].physical is None || runs@.take(i as int)[k].uninitialized);
                assert(t[k] == runs@.take(i as int)[k]);
            }
            if r.physical is None || r.uninitialized {
                assert(t[i as int] == r);
            }
        }
        if r.physical.is_some() {
            total = match total.checked_add(r.count) {
                Some(v) => v,
                None => u64::MAX,
            };
            count = count + 1;
        }
        if r.physical.is_none() || r.uninitialized {
            gap = true;
        }
        i = i + 1;
    }
    assert(runs@.take(runs@.len() as int) =~= runs@);
    let c: u64 = if count > u32::MAX as u64 {
        u32::MAX as u64
    } else {
        count
    };
    (total, c, gap)
}

/// The blocks of the runs with blocks on disk, in order: `count` blocks
/// from each run's first physical block (saturated to `u64`).
pub open spec fn mapped_blocks_of(runs: Seq<Run>) -> Seq<u64>
    decreases runs.len(),
{
    if runs.len() == 0 {
        Seq::empty()
    } else {
        let r = runs.last();
        mapped_blocks_of(runs.drop_last()) + match r.physical {
            Some(p) => Seq::new(r.count as nat, |i: int| sat_add(p, i as u64)),
            None => Seq::empty(),
        }
    }
}

/// The blocks whose allocation states an ext candidate's facts count:
/// those the layout maps, none for inline data.
pub open spec fn counted_blocks(l: Layout) -> Seq<u64> {
    if l.inline is Some {
        Seq::empty()
    } else {
        mapped_blocks_of(l.runs@)
    }
}

/// The blocks of `layout` whose allocation is looked at (see
/// [`counted_blocks`]).
pub fn mapped_blocks(layout: &Layout) -> (v: Vec<u64>)
    ensures
        v@ == counted_blocks(*layout),
{
    let mut v: Vec<u64> = Vec::new();
    if layout.inline.is_some() {
        return v;
    }
    let runs = &layout.runs;
    let mut k: usize = 0;
    while k < runs.len()
        invariant
            k <= runs@.len(),
            layout.inline is None,
            *runs == layout.runs,
            v@ == mapped_blocks_of(runs@.take(k as int)),
        decreases runs@.len() - k,
    {
        let r = runs[k];
        assert(runs@.take(k + 1).drop_last() =~= runs@.take(k as int));
        assert(runs@.take(k + 1).last() == r);
        match r.physical {
            Some(p) => {
                let ghost before = v@;
                let mut i: u64 = 0;
                while i < r.count
                    invariant
                        i <= r.count,
                        v@ == before + Seq::new(i as nat, |j: int| sat_add(p, j as u64)),
                    decreases r.count - i,
                {
                    v.push(p.saturating_add(i));
                    assert(v@ =~= before + Seq::new((i + 1) as nat, |j: int| sat_add(p, j as u64)));
                    i = i + 1;
                }
            },
            None => {
                assert(v@ =~= v@ + Seq::<u64>::empty());
            },
        }
        k = k + 1;
    }
    assert(runs@.take(runs@.len() as int) =~= runs@);
    v
}

/// The facts of deleted object `d` as a candidate, on volume `volume`
/// (with a journal when `has_journal`), `states` being the states of the
/// blocks its layout maps, in order (see [`mapped_blocks`]).
pub fn ext_candidate_facts(d: &DeletedInode, volume: &ExtVolume, has_journal: bool, states: &[BlockState]) -> (f:
    CandidateFacts)
    requires
        volume.wf(),
        d.layout matches Some(l) ==> states@.len() == counted_blocks(l).len(),
    ensures
        f.from_journal == (layout_sequence(d.layout) is Some),
        f.metadata == ext_metadata_of(*d),
        f.extents == ext_extents_of(*d, volume.spec_sb().block_size as int),
        f.allocation == ext_allocation_of(*d, states@),
        f.notes@ == ext_notes(*d, has_journal),
{
    let bs = volume.block_size() as u64;
    let mut notes: Vec<Note> = Vec::new();
    let picked = d.name();
    match picked {
        Some(w) => {
            proof {
                let k = choose|k: int|
                    0 <= k < d.names@.len() && picked == Some(&d.names@[k]) && (forall|j: int|
                        0 <= j < d.names@.len() ==> !rank_below(
                            name_rank(layout_sequence(d.layout), d.names@[k].entry.alive_in),
                            #[trigger] name_rank(layout_sequence(d.layout), d.names@[j].entry.alive_in),
                        )) && (forall|j: int|
                        0 <= j < k ==> rank_below(
                            #[trigger] name_rank(layout_sequence(d.layout), d.names@[j].entry.alive_in),
                            name_rank(layout_sequence(d.layout), d.names@[k].entry.alive_in),
                        ));
                assert(picks(*d, k));
                let c = choose|k: int| picks(*d, k);
                lemma_one_pick(*d, k, c);
            }
            if w.via_deleted_directory {
                notes.push(Note::ViaDeletedDirectory);
            }
        },
        None => {},
    }
    if d.names.len() > 1 {
        notes.push(Note::OtherNames);
    }
    match &d.current {
        Some(cur) => {
            if cur.dtime != 0 {
                notes.push(Note::DeletedAt(cur.dtime));
            }
        },
        None => {},
    }
    if d.reused {
        notes.push(Note::Reused);
    }
    let version = d.version();
    let mut valid_record = match version {
        Some(v) => match v.checksum_ok {
            Some(false) => false,
            _ => true,
        },
        None => false,
    };
    let (extents, allocation, from_journal) = match &d.layout {
        Some(layout) => {
            let mut stale = false;
            let mut from_journal = false;
            match layout.source {
                LayoutSource::Journal { sequence, checksum_ok } => {
                    from_journal = true;
                    notes.push(Note::JournalLayout { sequence, checksum_ok });
                    match checksum_ok {
                        Some(false) => {
                            valid_record = false;
                        },
                        _ => {},
                    }
                    match &d.current {
                        Some(cur) => {
                            if !d.reused && cur.dtime != 0 && cur.mtime != 0 && cur.mtime != cur.dtime
                                && cur.mtime != layout.inode.mtime {
                                stale = true;
                                notes.push(Note::StaleJournalCopy { modified: cur.mtime, copied: layout.inode.mtime });
                            }
                        },
                        None => {},
                    }
                },
                LayoutSource::Inode => {
                    notes.push(Note::BlockMapKept);
                },
                LayoutSource::Inline => {},
            }
            let resident = layout.inline.is_some();
            let complete = volume.layout_complete(layout);
            let (total, count, gap) = run_summary(&layout.runs);
            let expected = div_ceil(layout.size, bs);
            let extents = ExtentFacts {
                resident,
                complete,
                extent_count: count as u32,
                total_clusters: Some(total),
                expected_clusters: Some(expected),
                sparse: gap || (complete && !resident && total < expected),
                compressed: false,
                encrypted: false,
                chain_known: true,
                heuristic: false,
                start_inferred: false,
                stale,
            };
            let allocation = if resident {
                AllocationFacts { map_available: true, total: 0, free: 0, allocated: 0, unknown: 0 }
            } else {
                let t = tally_states(states);
                AllocationFacts {
                    map_available: true,
                    total: states.len() as u64,
                    free: t.0,
                    allocated: t.1,
                    unknown: t.2,
                }
            };
            (extents, allocation, from_journal)
        },
        None => {
            if d.known_empty {
                notes.push(Note::KnownEmpty);
            } else if has_journal {
                notes.push(Note::NoJournalCopy);
            } else {
                notes.push(Note::NoJournal);
            }
            let expected = match version {
                Some(v) => if v.size > 0 {
                    Some(div_ceil(v.size, bs))
                } else {
                    None
                },
                None => None,
            };
            (
                ExtentFacts {
                    resident: false,
                    complete: d.known_empty,
                    extent_count: 0,
                    total_clusters: Some(0),
                    expected_clusters: expected,
                    sparse: false,
                    compressed: false,
                    encrypted: false,
                    chain_known: true,
                    heuristic: false,
                    start_inferred: false,
                    stale: false,
                },
                AllocationFacts { map_available: true, total: 0, free: 0, allocated: 0, unknown: 0 },
                false,
            )
        },
    };
    let named = d.names.len() > 0;
    let size = match &d.layout {
        Some(l) => Some(l.size),
        None => match version {
            Some(v) => if v.size > 0 {
                Some(v.size)
            } else if d.known_empty {
                Some(0)
            } else {
                None
            },
            None => if d.known_empty {
                Some(0)
            } else {
                None
            },
        },
    };
    let metadata = MetadataFacts {
        valid_record,
        filename_available: named,
        original_parent_available: named,
        parent_reference_valid: named && !d.reused,
        logical_size: size,
        timestamps_available: match version {
            Some(v) => v.mtime != 0,
            None => false,
        },
    };
    assert(notes@ =~= ext_notes(*d, has_journal));
    CandidateFacts { from_journal, metadata, extents, allocation, notes }
}

} // verus!
