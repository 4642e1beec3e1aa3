//! The walk of a FAT directory tree, one entry at a time: deleted entries
//! are kept, and deleted directories are entered through their first
//! cluster. The walk says which directory to read next and is handed its
//! entries.

use vstd::prelude::*;

use crate::fat::boot::FatBootSector;
use crate::fat::dir::{display_name, DirEntry};
use crate::fat::volume::{WalkedEntry, MAX_DEPTH};
use crate::text::{push_char, push_str};

verus! {

/// A directory being walked: its path, its entries still to take (last
/// first), whether it lies in a deleted directory, and its depth.
#[derive(Debug)]
pub struct Frame {
    prefix: String,
    rest: Vec<DirEntry>,
    via_deleted: bool,
    depth: usize,
}

/// A directory read the walk waits for: its path, whether it lies in a
/// deleted directory, its depth.
#[derive(Debug)]
struct Pending {
    path: String,
    via_deleted: bool,
    depth: usize,
}

/// What one step of the walk did.
#[derive(Debug, Clone, Copy, PartialEq, Eq, Structural)]
pub enum WalkStep {
    /// The walk is over.
    Done,
    /// The walk waits for the entries of the directory it asked for.
    Waiting,
    /// The next directory in line was taken up.
    Entered,
    /// A `.`, `..` or volume label entry was passed over.
    Skipped,
    /// An entry was listed.
    Listed,
    /// An entry was listed and its directory, starting at `cluster`, is to
    /// be read (`deleted`: only its first cluster).
    Read {
        /// First cluster.
        cluster: u32,
        /// Whether the directory entry is deleted.
        deleted: bool,
    },
}

/// The walk.
#[derive(Debug)]
pub struct FatWalk {
    current: Option<Frame>,
    stack: Vec<Frame>,
    visited: Vec<u32>,
    out: Vec<WalkedEntry>,
    pending: Option<Pending>,
}

/// The entries of `v` in reverse order.
pub open spec fn reversed(v: Seq<DirEntry>) -> Seq<DirEntry> {
    Seq::new(v.len(), |i: int| v[v.len() - 1 - i])
}

/// The path of an entry named `name` in the directory at `prefix`.
pub open spec fn child_path(prefix: Seq<char>, name: Seq<char>) -> Seq<char> {
    prefix + seq!['\\'] + name
}

/// Whether the walk passes over an entry: `.`, `..`, or a volume label.
pub open spec fn passed_over(e: DirEntry) -> bool {
    (e.long_name is None && (e.short_name@ == seq!['.'] || e.short_name@ == seq!['.', '.'])) || (
    e.attributes.0 & 0x08 != 0 && e.attributes.0 & 0x10 == 0)
}

fn reverse_entries(v: Vec<DirEntry>) -> (r: Vec<DirEntry>)
    ensures
        r@ == reversed(v@),
{
    let ghost orig = v@;
    let mut v = v;
    let mut r: Vec<DirEntry> = Vec::new();
    while v.len() > 0
        invariant
            orig.len() == v@.len() + r@.len(),
            v@ == orig.take(v@.len() as int),
            r@ == reversed(orig).take(r@.len() as int),
        decreases v@.len(),
    {
        let e = v.pop().unwrap();
        proof {
            assert(reversed(orig)[r@.len() as int] == orig[v@.len() as int]);
        }
        r.push(e);
        proof {
            assert(v@ =~= orig.take(v@.len() as int));
            assert(r@ =~= reversed(orig).take(r@.len() as int));
        }
    }
    assert(r@ =~= reversed(orig));
    r
}

fn holds_cluster(v: &Vec<u32>, x: u32) -> (b: bool)
    ensures
        b == v@.contains(x),
{
    let mut j: usize = 0;
    while j < v.len()
        invariant
            j <= v@.len(),
            forall|k: int| 0 <= k < j ==> v@[k] != x,
        decreases v@.len() - j,
    {
        if v[j] == x {
            assert(v@[j as int] == x);
            return true;
        }
        j = j + 1;
    }
    false
}

impl Frame {
    /// The path of the directory.
    pub closed spec fn spec_prefix(&self) -> Seq<char> {
        self.prefix@
    }

    /// The entries still to take, in order.
    pub closed spec fn spec_rest(&self) -> Seq<DirEntry> {
        reversed(self.rest@)
    }

    /// Whether the directory lies in a deleted directory.
    pub closed spec fn spec_via_deleted(&self) -> bool {
        self.via_deleted
    }

    /// Depth of the directory.
    pub closed spec fn spec_depth(&self) -> nat {
        self.depth as nat
    }
}

impl FatWalk {
    /// The directory whose entries are being taken.
    pub closed spec fn spec_current(&self) -> Option<Frame> {
        self.current
    }

    /// Directories waiting, the next on top (last).
    pub closed spec fn spec_stack(&self) -> Seq<Frame> {
        self.stack@
    }

    /// First clusters of the directories entered.
    pub closed spec fn spec_visited(&self) -> Seq<u32> {
        self.visited@
    }

    /// Entries listed so far.
    pub closed spec fn spec_listed(&self) -> Seq<WalkedEntry> {
        self.out@
    }

    /// Whether a directory read is awaited: its path, whether it lies in a
    /// deleted directory, and its depth.
    pub closed spec fn spec_pending(&self) -> Option<(Seq<char>, bool, nat)> {
        match self.pending {
            None => None,
            Some(p) => Some((p.path@, p.via_deleted, p.depth as nat)),
        }
    }

    /// A walk over the root directory's entries.
    pub fn new(root: Vec<DirEntry>) -> (w: Self)
        ensures
            w.spec_current() matches Some(f) && f.spec_prefix().len() == 0 && f.spec_rest() == root@
                && !f.spec_via_deleted() && f.spec_depth() == 0,
            w.spec_stack().len() == 0,
            w.spec_visited().len() == 0,
            w.spec_listed().len() == 0,
            w.spec_pending() is None,
    {
        let rest = reverse_entries(root);
        proof {
            assert(reversed(rest@) =~= root@);
        }
        FatWalk {
            current: Some(Frame { prefix: String::new(), rest, via_deleted: false, depth: 0 }),
            stack: Vec::new(),
            visited: Vec::new(),
            out: Vec::new(),
            pending: None,
        }
    }

    /// Hands in what was read of the directory asked for: its entries are
    /// walked after the directory being walked (none when it could not be
    /// read). Nothing happens when no read is awaited.
    pub fn give(&mut self, entries: Option<Vec<DirEntry>>)
        ensures
            final(self).spec_pending() is None,
            final(self).spec_current() == old(self).spec_current(),
            final(self).spec_visited() == old(self).spec_visited(),
            final(self).spec_listed() == old(self).spec_listed(),
            match (old(self).spec_pending(), entries) {
                (Some((path, via, depth)), Some(es)) => final(self).spec_stack().len()
                    == old(self).spec_stack().len() + 1 && final(self).spec_stack().drop_last()
                    == old(self).spec_stack() && ({
                    let f = final(self).spec_stack().last();
                    f.spec_prefix() == path && f.spec_rest() == es@ && f.spec_via_deleted() == via
                        && f.spec_depth() == depth
                }),
                _ => final(self).spec_stack() == old(self).spec_stack(),
            },
    {
        let p = self.pending.take();
        match (p, entries) {
            (Some(p), Some(es)) => {
                let rest = reverse_entries(es);
                self.stack.push(Frame { prefix: p.path, rest, via_deleted: p.via_deleted, depth: p.depth });
            },
            _ => {},
        }
    }

    /// One step of the walk (see [`WalkStep`]): waits while a read is
    /// awaited; takes up the next directory when the current one is done
    /// (the walk is over when none is left); otherwise takes the next entry
    /// of the current directory: `.`, `..` and volume labels are passed
    /// over, every other entry is listed with its path, and a directory is
    /// to be read when it is not too deep, starts at a valid cluster and
    /// was not entered before.
    pub fn step(&mut self, boot: &FatBootSector) -> (s: WalkStep)
        ensures
            old(self).spec_visited().no_duplicates() ==> final(self).spec_visited().no_duplicates(),
            old(self).spec_pending() is Some ==> s == WalkStep::Waiting && *final(self) == *old(self),
            old(self).spec_pending() is None ==> match old(self).spec_current() {
                None => if old(self).spec_stack().len() == 0 {
                    s == WalkStep::Done && *final(self) == *old(self)
                } else {
                    &&& s == WalkStep::Entered
                    &&& final(self).spec_current() == Some(old(self).spec_stack().last())
                    &&& final(self).spec_stack() == old(self).spec_stack().drop_last()
                    &&& final(self).spec_visited() == old(self).spec_visited()
                    &&& final(self).spec_listed() == old(self).spec_listed()
                    &&& final(self).spec_pending() is None
                },
                Some(f) => if f.spec_rest().len() == 0 {
                    &&& s == WalkStep::Entered
                    &&& final(self).spec_current() == (if old(self).spec_stack().len() == 0 {
                        None
                    } else {
                        Some(old(self).spec_stack().last())
                    })
                    &&& final(self).spec_stack() == (if old(self).spec_stack().len() == 0 {
                        old(self).spec_stack()
                    } else {
                        old(self).spec_stack().drop_last()
                    })
                    &&& final(self).spec_visited() == old(self).spec_visited()
                    &&& final(self).spec_listed() == old(self).spec_listed()
                    &&& final(self).spec_pending() is None
                } else {
                    let e = f.spec_rest()[0];
                    let path = child_path(f.spec_prefix(), display_name(e));
                    let here = f.spec_via_deleted() || e.deleted;
                    let descend = e.attributes.0 & 0x10 != 0 && f.spec_depth() < MAX_DEPTH
                        && boot.spec_is_valid_cluster(e.first_cluster) && !old(self).spec_visited().contains(
                        e.first_cluster,
                    );
                    &&& final(self).spec_current() matches Some(g) && g.spec_prefix() == f.spec_prefix()
                        && g.spec_rest() == f.spec_rest().skip(1) && g.spec_via_deleted()
                        == f.spec_via_deleted() && g.spec_depth() == f.spec_depth()
                    &&& final(self).spec_stack() == old(self).spec_stack()
                    &&& if passed_over(e) {
                        &&& s == WalkStep::Skipped
                        &&& final(self).spec_visited() == old(self).spec_visited()
                        &&& final(self).spec_listed() == old(self).spec_listed()
                        &&& final(self).spec_pending() is None
                    } else {
                        &&& final(self).spec_listed().len() == old(self).spec_listed().len() + 1
                        &&& final(self).spec_listed().drop_last() == old(self).spec_listed()
                        &&& final(self).spec_listed().last().path@ == path
                        &&& final(self).spec_listed().last().entry == e
                        &&& final(self).spec_listed().last().via_deleted_directory == f.spec_via_deleted()
                        &&& if descend {
                            &&& s == WalkStep::Read { cluster: e.first_cluster, deleted: e.deleted }
                            &&& final(self).spec_visited() == old(self).spec_visited().push(e.first_cluster)
                            &&& final(self).spec_pending() == Some((path, here, f.spec_depth() + 1))
                        } else {
                            &&& s == WalkStep::Listed
                            &&& final(self).spec_visited() == old(self).spec_visited()
                            &&& final(self).spec_pending() is None
                        }
                    }
                },
            },
    {
        if self.pending.is_some() {
            return WalkStep::Waiting;
        }
        let cur = self.current.take();
        let mut f = match cur {
            None => {
                if self.stack.len() == 0 {
                    return WalkStep::Done;
                }
                self.current = self.stack.pop();
                return WalkStep::Entered;
            },
            Some(f) => f,
        };
        if f.rest.len() == 0 {
            self.current = self.stack.pop();
            return WalkStep::Entered;
        }
        let ghost rest0 = f.rest@;
        let e = f.rest.pop().unwrap();
        proof {
            assert(reversed(rest0)[0] == e);
            assert(reversed(f.rest@) =~= reversed(rest0).skip(1));
        }
        let skip = e.is_dot() || e.attributes.is_volume_label();
        if skip {
            self.current = Some(f);
            return WalkStep::Skipped;
        }
        let mut path = f.prefix.clone();
        push_char(&mut path, '\\');
        push_str(&mut path, e.name());
        let here = f.via_deleted || e.deleted;
        let descend = e.attributes.is_directory() && f.depth < MAX_DEPTH && boot.is_valid_cluster(
            e.first_cluster,
        ) && !holds_cluster(&self.visited, e.first_cluster);
        let cluster = e.first_cluster;
        let deleted = e.deleted;
        let via = f.via_deleted;
        let depth = f.depth;
        let step = if descend {
            let ghost before = self.visited@;
            self.visited.push(cluster);
            proof {
                if before.no_duplicates() {
                    assert forall|a: int, b: int|
                        0 <= a < self.visited@.len() && 0 <= b < self.visited@.len() && a != b implies self.visited@[a]
                        != self.visited@[b] by {
                        if a < before.len() && b < before.len() {
                            assert(self.visited@[a] == before[a] && self.visited@[b] == before[b]);
                        } else if a == before.len() {
                            assert(self.visited@[b] == before[b]);
                        } else {
                            assert(self.visited@[a] == before[a]);
                        }
                    }
                }
            }
            self.pending = Some(Pending { path: path.clone(), via_deleted: here, depth: depth + 1 });
            WalkStep::Read { cluster, deleted }
        } else {
            WalkStep::Listed
        };
        self.out.push(WalkedEntry { path, entry: e, via_deleted_directory: via });
        self.current = Some(f);
        step
    }

    /// Whether a directory read is awaited.
    pub fn is_waiting(&self) -> (b: bool)
        ensures
            b == (self.spec_pending() is Some),
    {
        self.pending.is_some()
    }

    /// The entries listed, in the order they were met.
    pub fn finish(self) -> (v: Vec<WalkedEntry>)
        ensures
            v@ == self.spec_listed(),
    {
        self.out
    }
}

} // verus!
