//! Paths reconstructed from `$FILE_NAME.parent` references.

use vstd::prelude::*;

use crate::ntfs::diagnostic::NtfsDiagnostic;
use crate::ntfs::record::FileReference;
use crate::text::{decimal, push_char, push_decimal, push_str};

verus! {

/// Maximum number of parent links followed.
pub const MAX_PARENT_DEPTH: usize = 1024;

/// A reconstructed path.
#[derive(Debug, Clone, PartialEq, Eq)]
pub struct ResolvedPath {
    /// Windows-style path (`\Users\Pablo\document.docx`). When the chain is
    /// uncertain the path starts with `\?\`.
    pub path: String,
    /// Whether some ancestor could not be trusted (reused record, unreadable
    /// record, loop, depth limit).
    pub uncertain: bool,
    /// Whether some ancestor directory is itself deleted.
    pub via_deleted_directory: bool,
    /// Findings.
    pub diagnostics: Vec<NtfsDiagnostic>,
}

/// What is known of an ancestor directory record.
#[derive(Debug, Clone, PartialEq, Eq)]
pub struct ParentEntry {
    /// Its preferred name, if any.
    pub name: Option<String>,
    /// Its own parent, if it has a name.
    pub parent: Option<FileReference>,
    /// Its sequence number.
    pub sequence: u16,
    /// Whether it is in use.
    pub in_use: bool,
}

/// Whether `v` holds `x`.
fn holds_record(v: &Vec<u64>, x: u64) -> (b: bool)
    ensures
        b == v@.contains(x),
{
    let mut j: usize = 0;
    while j < v.len()
        invariant
            j <= v@.len(),
            forall|k: int| 0 <= k < j ==> v@[k] != x,
        decreases v@.len() - j,
    {
        if v[j] == x {
            assert(v@[j as int] == x);
            return true;
        }
        j = j + 1;
    }
    false
}

/// The walk up the parent references of a file, one ancestor at a time:
/// the walk says which record to read next, is handed what was read, and
/// finally yields the path.
#[derive(Debug, Clone)]
pub struct PathWalk {
    components: Vec<String>,
    parent: FileReference,
    visited: Vec<u64>,
    depth: usize,
    diagnostics: Vec<NtfsDiagnostic>,
    uncertain: bool,
    via_deleted: bool,
    finished: bool,
    pending: bool,
}

/// Whether an ancestor with `sequence` (in use or not) is the record the
/// reference `expected` meant: the same sequence, or a record freed once
/// since (its sequence bumped by one, wrapping).
pub open spec fn sequence_fits(expected: u16, sequence: u16, in_use: bool) -> bool {
    sequence == expected || (!in_use && sequence == (if expected == u16::MAX {
        0
    } else {
        expected + 1
    }))
}

/// The path text of `components` (nearest first), `\?` first when
/// uncertain: each component after a backslash, root-most first.
pub open spec fn path_text(components: Seq<Seq<char>>, uncertain: bool) -> Seq<char>
    decreases components.len(),
{
    if components.len() == 0 {
        if uncertain {
            seq!['\\', '?']
        } else {
            Seq::empty()
        }
    } else {
        path_text(components.skip(1), uncertain) + seq!['\\'] + components[0]
    }
}

impl PathWalk {
    /// The names collected so far, nearest first.
    pub closed spec fn spec_components(&self) -> Seq<Seq<char>> {
        self.components@.map_values(|c: String| c@)
    }

    /// The reference to follow next.
    pub closed spec fn spec_parent(&self) -> FileReference {
        self.parent
    }

    /// The records already on the walk.
    pub closed spec fn spec_visited(&self) -> Seq<u64> {
        self.visited@
    }

    /// Ancestors taken so far.
    pub closed spec fn spec_depth(&self) -> nat {
        self.depth as nat
    }

    /// Findings so far.
    pub closed spec fn spec_diagnostics(&self) -> Seq<NtfsDiagnostic> {
        self.diagnostics@
    }

    /// Whether the path is uncertain so far.
    pub closed spec fn spec_uncertain(&self) -> bool {
        self.uncertain
    }

    /// Whether some ancestor is deleted.
    pub closed spec fn spec_via_deleted(&self) -> bool {
        self.via_deleted
    }

    /// Whether the walk has ended.
    pub closed spec fn spec_finished(&self) -> bool {
        self.finished
    }

    /// Whether a record is waiting to be handed in.
    pub closed spec fn spec_pending(&self) -> bool {
        self.pending
    }

    /// The walk for a file numbered `record` named `name` in the directory
    /// `parent`.
    pub fn new(record: u64, name: String, parent: FileReference) -> (w: Self)
        ensures
            w.spec_visited().no_duplicates(),
            w.spec_components() == seq![name@],
            w.spec_parent() == parent,
            w.spec_visited() == seq![record],
            w.spec_depth() == 0,
            w.spec_diagnostics().len() == 0,
            !w.spec_uncertain() && !w.spec_via_deleted() && !w.spec_finished() && !w.spec_pending(),
    {
        let mut components = Vec::new();
        components.push(name);
        let mut visited = Vec::new();
        visited.push(record);
        let w = PathWalk {
            components,
            parent,
            visited,
            depth: 0,
            diagnostics: Vec::new(),
            uncertain: false,
            via_deleted: false,
            finished: false,
            pending: false,
        };
        assert(w.spec_components() =~= seq![w.components@[0]@]);
        w
    }

    /// The path of a file numbered `record` that has no name:
    /// `\?\<record N>`, uncertain.
    pub fn unnamed(record: u64) -> (p: ResolvedPath)
        ensures
            p.path@ == "\\?\\<record "@ + decimal(record as nat) + ">"@,
            p.uncertain,
            !p.via_deleted_directory,
            p.diagnostics@ == seq![NtfsDiagnostic::NoFileName],
    {
        let mut path = String::new();
        push_str(&mut path, "\\?\\<record ");
        push_decimal(&mut path, record);
        push_str(&mut path, ">");
        let mut diagnostics = Vec::new();
        diagnostics.push(NtfsDiagnostic::NoFileName);
        ResolvedPath { path, uncertain: true, via_deleted_directory: false, diagnostics }
    }

    /// The record to read next, if the walk goes on: none once the walk has
    /// ended, when the next reference is the root directory, after
    /// [`MAX_PARENT_DEPTH`] ancestors (noted, uncertain), or when the
    /// reference leads back to a record already on the walk (noted,
    /// uncertain); any of these ends the walk.
    pub fn next_record(&mut self) -> (r: Option<u64>)
        ensures
            old(self).spec_visited().no_duplicates() ==> final(self).spec_visited().no_duplicates(),
            final(self).spec_components() == old(self).spec_components(),
            final(self).spec_parent() == old(self).spec_parent(),
            final(self).spec_via_deleted() == old(self).spec_via_deleted(),
            ({
                let p = old(self).spec_parent().record;
                let d = old(self).spec_diagnostics();
                if old(self).spec_finished() || old(self).spec_pending() {
                    r is None && *final(self) == *old(self)
                } else if p == 5 {
                    &&& r is None
                    &&& final(self).spec_finished() && !final(self).spec_pending()
                    &&& final(self).spec_depth() == old(self).spec_depth()
                    &&& final(self).spec_diagnostics() == d
                    &&& final(self).spec_uncertain() == old(self).spec_uncertain()
                    &&& final(self).spec_visited() == old(self).spec_visited()
                } else if old(self).spec_depth() >= MAX_PARENT_DEPTH {
                    &&& r is None
                    &&& final(self).spec_finished() && !final(self).spec_pending()
                    &&& final(self).spec_depth() == old(self).spec_depth()
                    &&& final(self).spec_diagnostics() == d.push(NtfsDiagnostic::PathDepthExceeded)
                    &&& final(self).spec_uncertain()
                    &&& final(self).spec_visited() == old(self).spec_visited()
                } else if old(self).spec_visited().contains(p) {
                    &&& r is None
                    &&& final(self).spec_finished() && !final(self).spec_pending()
                    &&& final(self).spec_depth() == old(self).spec_depth()
                    &&& final(self).spec_diagnostics() == d.push(NtfsDiagnostic::PathLoop)
                    &&& final(self).spec_uncertain()
                    &&& final(self).spec_visited() == old(self).spec_visited()
                } else {
                    &&& r == Some(p)
                    &&& final(self).spec_depth() == old(self).spec_depth() + 1
                    &&& !final(self).spec_finished() && final(self).spec_pending()
                    &&& final(self).spec_diagnostics() == d
                    &&& final(self).spec_uncertain() == old(self).spec_uncertain()
                    &&& final(self).spec_visited() == old(self).spec_visited().push(p)
                }
            }),
    {
        if self.finished || self.pending {
            return None;
        }
        let p = self.parent.record;
        if p == 5 {
            self.finished = true;
            return None;
        }
        if self.depth >= MAX_PARENT_DEPTH {
            self.diagnostics.push(NtfsDiagnostic::PathDepthExceeded);
            self.uncertain = true;
            self.finished = true;
            return None;
        }
        if holds_record(&self.visited, p) {
            self.diagnostics.push(NtfsDiagnostic::PathLoop);
            self.uncertain = true;
            self.finished = true;
            return None;
        }
        let ghost before = self.visited@;
        self.visited.push(p);
        proof {
            if before.no_duplicates() {
                assert forall|a: int, b: int|
                    0 <= a < self.visited@.len() && 0 <= b < self.visited@.len() && a != b implies self.visited@[a]
                    != self.visited@[b] by {
                    if a < before.len() && b < before.len() {
                        assert(self.visited@[a] == before[a] && self.visited@[b] == before[b]);
                    } else if a == before.len() {
                        assert(self.visited@[b] == before[b]);
                    } else {
                        assert(self.visited@[a] == before[a]);
                    }
                }
            }
        }
        self.depth = self.depth + 1;
        self.pending = true;
        Some(p)
    }

    /// Takes what was read of the record [`next_record`](Self::next_record)
    /// named: an unreadable record, one whose sequence does not fit the
    /// reference (reused) or one with no name ends the walk, noted and
    /// uncertain; a deleted one is noted; otherwise its name is added and
    /// its parent followed (a record with no parent ends the walk,
    /// uncertain).
    pub fn take(&mut self, entry: Result<ParentEntry, String>)
        ensures
            !old(self).spec_pending() || old(self).spec_finished() ==> *final(self) == *old(self),
            old(self).spec_pending() && !old(self).spec_finished() ==> final(self).spec_visited() == old(self).spec_visited()
                && final(self).spec_depth() == old(self).spec_depth() && !final(self).spec_pending() && ({
                let p = old(self).spec_parent();
                let d = old(self).spec_diagnostics();
                let c = old(self).spec_components();
                match entry {
                    Err(reason) => {
                        &&& final(self).spec_finished() && final(self).spec_uncertain()
                        &&& final(self).spec_diagnostics() == d.push(
                            NtfsDiagnostic::ParentUnreadable { parent: p.record, reason },
                        )
                        &&& final(self).spec_components() == c
                        &&& final(self).spec_via_deleted() == old(self).spec_via_deleted()
                    },
                    Ok(e) => if !sequence_fits(p.sequence, e.sequence, e.in_use) {
                        &&& final(self).spec_finished() && final(self).spec_uncertain()
                        &&& final(self).spec_diagnostics() == d.push(
                            NtfsDiagnostic::ParentReferenceStale {
                                parent: p.record,
                                expected_sequence: p.sequence,
                                actual_sequence: e.sequence,
                            },
                        )
                        &&& final(self).spec_components() == c
                        &&& final(self).spec_via_deleted() == old(self).spec_via_deleted()
                    } else {
                        let d1 = if e.in_use {
                            d
                        } else {
                            d.push(NtfsDiagnostic::ParentDeleted { parent: p.record })
                        };
                        &&& final(self).spec_via_deleted() == (old(self).spec_via_deleted() || !e.in_use)
                        &&& match e.name {
                            None => {
                                &&& final(self).spec_finished() && final(self).spec_uncertain()
                                &&& final(self).spec_diagnostics() == d1.push(
                                    NtfsDiagnostic::ParentUnnamed { parent: p.record },
                                )
                                &&& final(self).spec_components() == c
                                    },
                            Some(n) => {
                                &&& final(self).spec_diagnostics() == d1
                                &&& final(self).spec_components() == c.push(n@)
                                &&& match e.parent {
                                    Some(q) => !final(self).spec_finished() && final(self).spec_parent() == q
                                        && final(self).spec_uncertain() == old(self).spec_uncertain(),
                                    None => final(self).spec_finished() && final(self).spec_uncertain(),
                                }
                            },
                        }
                    },
                }
            }),
    {
        if !self.pending || self.finished {
            return;
        }
        self.pending = false;
        let p = self.parent;
        match entry {
            Err(reason) => {
                self.diagnostics.push(NtfsDiagnostic::ParentUnreadable { parent: p.record, reason });
                self.uncertain = true;
                self.finished = true;
            },
            Ok(e) => {
                let bumped = p.sequence.wrapping_add(1);
                let fits = e.sequence == p.sequence || (!e.in_use && e.sequence == bumped);
                if !fits {
                    self.diagnostics.push(
                        NtfsDiagnostic::ParentReferenceStale {
                            parent: p.record,
                            expected_sequence: p.sequence,
                            actual_sequence: e.sequence,
                        },
                    );
                    self.uncertain = true;
                    self.finished = true;
                    return;
                }
                if !e.in_use {
                    self.diagnostics.push(NtfsDiagnostic::ParentDeleted { parent: p.record });
                    self.via_deleted = true;
                }
                match e.name {
                    None => {
                        self.diagnostics.push(NtfsDiagnostic::ParentUnnamed { parent: p.record });
                        self.uncertain = true;
                        self.finished = true;
                    },
                    Some(n) => {
                        let ghost before = self.components@;
                        let ghost nv = n@;
                        self.components.push(n);
                        assert(self.components@.map_values(|c: String| c@) =~= before.map_values(
                            |c: String| c@,
                        ).push(nv));
                        match e.parent {
                            Some(q) => {
                                self.parent = q;
                            },
                            None => {
                                self.uncertain = true;
                                self.finished = true;
                            },
                        }
                    },
                }
            },
        }
    }

    /// The path: the names root-most first, each after a backslash, `\?`
    /// first when uncertain (see [`path_text`]).
    pub fn finish(self) -> (p: ResolvedPath)
        ensures
            p.path@ == path_text(self.spec_components(), self.spec_uncertain()),
            p.uncertain == self.spec_uncertain(),
            p.via_deleted_directory == self.spec_via_deleted(),
            p.diagnostics@ == self.spec_diagnostics(),
    {
        let ghost comps = self.spec_components();
        let mut path = String::new();
        if self.uncertain {
            push_str(&mut path, "\\?");
        }
        proof {
            reveal_strlit("\\?");
            assert("\\?"@ =~= seq!['\\', '?']);
        }
        let n = self.components.len();
        let mut k: usize = n;
        assert(comps.skip(n as int).len() == 0);
        while k > 0
            invariant
                k <= n,
                n == comps.len(),
                comps == self.components@.map_values(|c: String| c@),
                path@ == path_text(comps.skip(k as int), self.uncertain),
            decreases k,
        {
            k = k - 1;
            push_char(&mut path, '\\');
            push_str(&mut path, self.components[k].as_str());
            assert(comps.skip(k as int).skip(1) =~= comps.skip(k + 1));
            assert(comps.skip(k as int)[0] == self.components@[k as int]@);
        }
        assert(comps.skip(0) =~= comps);
        ResolvedPath {
            path,
            uncertain: self.uncertain,
            via_deleted_directory: self.via_deleted,
            diagnostics: self.diagnostics,
        }
    }
}

} // verus!
