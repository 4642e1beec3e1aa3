//! The walk of an ext directory tree, deleted entries included: entries
//! found in directory slack and in journal copies are listed, and deleted
//! directories are entered when a layout for them can still be found. The
//! walk says what it needs (a directory's entries, an inode, a layout) and
//! is handed it.

use vstd::prelude::*;

use crate::ext::dir::DirEntry;
use crate::ext::inode::{kind_of, Inode, InodeKind};
use crate::ext::volume::{Layout, WalkedEntry};
use crate::text::{push_char, push_str};

verus! {

/// Inode of the root directory.
pub const ROOT_INODE: u32 = 2;

/// Deepest directory nesting walked.
pub const MAX_DEPTH: usize = 128;

/// The path of entry `name` in the directory at `prefix`.
pub open spec fn entry_path(prefix: Seq<char>, name: Seq<char>) -> Seq<char> {
    prefix + seq!['/'] + name
}

/// A directory waiting to be read: its path, layout and inode, whether it
/// lies in a deleted directory, and its depth.
#[derive(Debug)]
struct Queued {
    path: String,
    layout: Layout,
    inode: u32,
    via_deleted: bool,
    depth: usize,
}

/// The directory whose entries are being taken, with the entries left
/// (last first).
#[derive(Debug)]
struct Current {
    path: String,
    inode: u32,
    via_deleted: bool,
    depth: usize,
    rest: Vec<DirEntry>,
}

/// What the walk waits for.
#[derive(Debug)]
enum Request {
    /// Nothing.
    Nothing,
    /// The entries of the directory handed out: its path, inode, whether
    /// it lies in a deleted directory, depth.
    Entries { path: String, inode: u32, via_deleted: bool, depth: usize },
    /// The inode of an entry without a file type, to tell whether it is a
    /// directory.
    Kind { entry: DirEntry },
    /// The inode of a directory entry to enter.
    Child { entry: DirEntry },
    /// The layout of that directory: its current one, or one resolved
    /// from older copies when `resolved`.
    Layout { entry: DirEntry, resolved: bool },
}

/// What the walk waits for, as values.
pub enum RequestView {
    /// Nothing.
    Nothing,
    /// A directory's entries: path, inode, whether in a deleted directory,
    /// depth.
    Entries(Seq<char>, u32, bool, nat),
    /// The inode of an entry without a file type.
    Kind(DirEntry),
    /// The inode of a directory entry to enter.
    Child(DirEntry),
    /// A layout for that directory; `true`: resolved from older copies.
    Layout(DirEntry, bool),
}

/// A queued directory as values: path, layout, inode, whether in a
/// deleted directory, depth.
pub type QueuedDir = (Seq<char>, Layout, u32, bool, nat);

/// The directory being taken as values: path, inode, whether in a deleted
/// directory, depth, entries left in order.
pub type CurrentDir = (Seq<char>, u32, bool, nat, Seq<DirEntry>);

/// What one step of the walk asks for or did.
#[derive(Debug)]
pub enum ExtStep {
    /// The walk is over.
    Done,
    /// The walk waits for what it asked for.
    Waiting,
    /// The entries of the directory with this layout are needed.
    ReadDirectory(Layout),
    /// The inode with this number is needed.
    NeedInode(u32),
    /// A layout for the directory of this inode is needed: its own, or
    /// (`resolved`) one found from older copies.
    NeedLayout {
        /// The directory's inode.
        inode: Inode,
        /// Whether a layout resolved from older copies is asked for.
        resolved: bool,
    },
    /// An entry was taken, or a directory left.
    Continued,
}

/// The walk.
#[derive(Debug)]
pub struct ExtWalk {
    stack: Vec<Queued>,
    visited: Vec<u32>,
    out: Vec<WalkedEntry>,
    current: Option<Current>,
    request: Request,
}

spec fn queued_view(q: Queued) -> QueuedDir {
    (q.path@, q.layout, q.inode, q.via_deleted, q.depth as nat)
}

/// The entries of `v` in reverse order.
pub open spec fn reversed(v: Seq<DirEntry>) -> Seq<DirEntry> {
    Seq::new(v.len(), |i: int| v[v.len() - 1 - i])
}

fn reverse_entries(v: Vec<DirEntry>) -> (r: Vec<DirEntry>)
    ensures
        r@ == reversed(v@),
{
    let ghost orig = v@;
    let mut v = v;
    let mut r: Vec<DirEntry> = Vec::new();
    while v.len() > 0
        invariant
            orig.len() == v@.len() + r@.len(),
            v@ == orig.take(v@.len() as int),
            r@ == reversed(orig).take(r@.len() as int),
        decreases v@.len(),
    {
        let e = v.pop().unwrap();
        proof {
            assert(reversed(orig)[r@.len() as int] == orig[v@.len() as int]);
        }
        r.push(e);
        proof {
            assert(v@ =~= orig.take(v@.len() as int));
            assert(r@ =~= reversed(orig).take(r@.len() as int));
        }
    }
    assert(r@ =~= reversed(orig));
    r
}

fn holds_inode(v: &Vec<u32>, x: u32) -> (b: bool)
    ensures
        b == v@.contains(x),
{
    let mut j: usize = 0;
    while j < v.len()
        invariant
            j <= v@.len(),
            forall|k: int| 0 <= k < j ==> v@[k] != x,
        decreases v@.len() - j,
    {
        if v[j] == x {
            assert(v@[j as int] == x);
            return true;
        }
        j = j + 1;
    }
    false
}

/// Whether the walk enters the directory of entry `e`, taken from a
/// directory at depth `depth`, when `is_dir` says it is one: not too deep,
/// with an inode, not entered before.
pub open spec fn enters(e: DirEntry, is_dir: bool, depth: nat, visited: Seq<u32>) -> bool {
    is_dir && depth < MAX_DEPTH && e.inode != 0 && !visited.contains(e.inode)
}

impl ExtWalk {
    /// Directories waiting to be read, the next on top (last).
    pub closed spec fn spec_stack(&self) -> Seq<QueuedDir> {
        Seq::new(self.stack@.len(), |i: int| queued_view(self.stack@[i]))
    }

    /// Inodes of the directories entered.
    pub closed spec fn spec_visited(&self) -> Seq<u32> {
        self.visited@
    }

    /// Entries listed so far.
    pub closed spec fn spec_listed(&self) -> Seq<WalkedEntry> {
        self.out@
    }

    /// The directory whose entries are being taken.
    pub closed spec fn spec_current(&self) -> Option<CurrentDir> {
        match self.current {
            None => None,
            Some(c) => Some((c.path@, c.inode, c.via_deleted, c.depth as nat, reversed(c.rest@))),
        }
    }

    /// What the walk waits for.
    pub closed spec fn spec_request(&self) -> RequestView {
        match self.request {
            Request::Nothing => RequestView::Nothing,
            Request::Entries { path, inode, via_deleted, depth } => RequestView::Entries(
                path@,
                inode,
                via_deleted,
                depth as nat,
            ),
            Request::Kind { entry } => RequestView::Kind(entry),
            Request::Child { entry } => RequestView::Child(entry),
            Request::Layout { entry, resolved } => RequestView::Layout(entry, resolved),
        }
    }

    /// The walk's invariant: an entry is decided on only while its
    /// directory is being taken.
    pub open spec fn wf(&self) -> bool {
        match self.spec_request() {
            RequestView::Kind(_) => self.spec_current() is Some,
            RequestView::Child(_) | RequestView::Layout(_, _) => self.spec_current() is Some
                && (self.spec_current()->0).3 < MAX_DEPTH,
            _ => true,
        }
    }

    /// A walk from the root directory, whose layout is `root`.
    pub fn new(root: Layout) -> (w: Self)
        ensures
            w.wf(),
            w.spec_stack() == seq![(Seq::<char>::empty(), root, ROOT_INODE, false, 0nat)],
            w.spec_visited() == seq![ROOT_INODE],
            w.spec_listed().len() == 0,
            w.spec_current() is None,
            w.spec_request() == RequestView::Nothing,
    {
        let mut stack: Vec<Queued> = Vec::new();
        stack.push(Queued { path: String::new(), layout: root, inode: ROOT_INODE, via_deleted: false, depth: 0 });
        let mut visited: Vec<u32> = Vec::new();
        visited.push(ROOT_INODE);
        let w = ExtWalk { stack, visited, out: Vec::new(), current: None, request: Request::Nothing };
        assert(w.spec_stack() =~= seq![(Seq::<char>::empty(), root, ROOT_INODE, false, 0nat)]);
        w
    }

    /// Lists entry `e` of the current directory.
    fn list(&mut self, e: DirEntry)
        requires
            old(self).spec_current() is Some,
        ensures
            final(self).spec_listed().len() == old(self).spec_listed().len() + 1,
            final(self).spec_listed().drop_last() == old(self).spec_listed(),
            ({
                let c = old(self).spec_current()->0;
                let w = final(self).spec_listed().last();
                &&& w.path@ == entry_path(c.0, e.name@)
                &&& w.entry == e
                &&& w.parent == c.1
                &&& w.via_deleted_directory == c.2
            }),
            final(self).spec_stack() == old(self).spec_stack(),
            final(self).spec_visited() == old(self).spec_visited(),
            final(self).spec_current() == old(self).spec_current(),
            final(self).spec_request() == old(self).spec_request(),
    {
        let (path, parent, via) = match &self.current {
            Some(c) => {
                let mut p = c.path.clone();
                push_char(&mut p, '/');
                push_str(&mut p, e.name.as_str());
                (p, c.inode, c.via_deleted)
            },
            None => {
                return;
            },
        };
        let ghost before = self.out@;
        self.out.push(WalkedEntry { path, entry: e, parent, via_deleted_directory: via });
        assert(self.out@.drop_last() =~= before);
    }

    /// Decides on entry `e` of the current directory, a directory when
    /// `is_dir`: the walk enters it (see [`enters`]) by asking for its
    /// inode, or lists it.
    fn decide(&mut self, e: DirEntry, is_dir: bool) -> (s: ExtStep)
        requires
            old(self).spec_current() is Some,
            old(self).spec_request() == RequestView::Nothing,
        ensures
            final(self).wf(),
            decided(
                old(self).spec_current()->0,
                old(self).spec_visited(),
                old(self).spec_listed(),
                *final(self),
                e,
                is_dir,
                s,
            ),
            final(self).spec_stack() == old(self).spec_stack(),
            final(self).spec_current() == old(self).spec_current(),
    {
        let depth = match &self.current {
            Some(c) => c.depth,
            None => {
                return ExtStep::Continued;
            },
        };
        if is_dir && depth < MAX_DEPTH && e.inode != 0 && !holds_inode(&self.visited, e.inode) {
            self.visited.push(e.inode);
            let n = e.inode;
            self.request = Request::Child { entry: e };
            return ExtStep::NeedInode(n);
        }
        self.list(e);
        ExtStep::Continued
    }

    /// One step of the walk:
    /// - while something asked for is not handed in, the walk waits;
    /// - with no directory being taken, the next queued one is handed out
    ///   to be read (the walk is over when none is left);
    /// - a directory whose entries are all taken is left;
    /// - otherwise its next entry is taken: `.` and `..` are passed over;
    ///   an entry typed as a directory is decided on (see [`decided`]); an
    ///   untyped entry with an inode has its inode asked for; any other
    ///   entry is decided on as no directory.
    pub fn step(&mut self) -> (s: ExtStep)
        requires
            old(self).wf(),
        ensures
            final(self).wf(),
            stepped(*old(self), *final(self), s),
    {
        match self.request {
            Request::Nothing => {},
            _ => {
                return ExtStep::Waiting;
            },
        }
        let cur = self.current.take();
        let mut c = match cur {
            None => {
                let ghost st = self.spec_stack();
                match self.stack.pop() {
                    None => {
                        return ExtStep::Done;
                    },
                    Some(q) => {
                        assert(self.spec_stack() =~= st.drop_last());
                        assert(queued_view(q) == st.last());
                        self.request = Request::Entries {
                            path: q.path,
                            inode: q.inode,
                            via_deleted: q.via_deleted,
                            depth: q.depth,
                        };
                        return ExtStep::ReadDirectory(q.layout);
                    },
                }
            },
            Some(c) => c,
        };
        if c.rest.len() == 0 {
            return ExtStep::Continued;
        }
        let ghost rest0 = c.rest@;
        let e = c.rest.pop().unwrap();
        proof {
            assert(reversed(rest0)[0] == e);
            assert(reversed(c.rest@) =~= reversed(rest0).skip(1));
        }
        self.current = Some(c);
        if e.is_dot() {
            return ExtStep::Continued;
        }
        if e.is_directory() {
            return self.decide(e, true);
        }
        if e.file_type.is_none() && e.inode != 0 {
            let n = e.inode;
            self.request = Request::Kind { entry: e };
            return ExtStep::NeedInode(n);
        }
        self.decide(e, false)
    }

    /// Hands in the entries of the directory handed out (`None`: it could
    /// not be read, and is passed over). Nothing happens when no entries
    /// were asked for.
    pub fn give_entries(&mut self, entries: Option<Vec<DirEntry>>) -> (s: ExtStep)
        requires
            old(self).wf(),
        ensures
            final(self).wf(),
            s is Continued,
            final(self).spec_stack() == old(self).spec_stack(),
            final(self).spec_visited() == old(self).spec_visited(),
            final(self).spec_listed() == old(self).spec_listed(),
            match old(self).spec_request() {
                RequestView::Entries(path, inode, via, depth) => {
                    &&& final(self).spec_request() == RequestView::Nothing
                    &&& final(self).spec_current() == match entries {
                        Some(es) => Some((path, inode, via, depth, es@)),
                        None => None::<CurrentDir>,
                    }
                },
                _ => final(self).spec_request() == old(self).spec_request() && final(self).spec_current()
                    == old(self).spec_current(),
            },
    {
        match self.request {
            Request::Entries { .. } => {},
            _ => {
                return ExtStep::Continued;
            },
        }
        let mut req = Request::Nothing;
        std::mem::swap(&mut req, &mut self.request);
        match req {
            Request::Entries { path, inode, via_deleted, depth } => {
                match entries {
                    Some(es) => {
                        let rest = reverse_entries(es);
                        proof {
                            assert(reversed(rest@) =~= es@);
                        }
                        self.current = Some(Current { path, inode, via_deleted, depth, rest });
                    },
                    None => {
                        self.current = None;
                    },
                }
            },
            _ => {},
        }
        ExtStep::Continued
    }

    /// Hands in the inode asked for (`None`: it could not be read). For an
    /// untyped entry, it tells whether the entry is a directory, which is
    /// then decided on (see [`decided`]). For a directory to enter, a
    /// directory that is not deleted has its own layout asked for; a
    /// deleted inode or directory has a layout from older copies asked
    /// for; anything else, or no inode, lists the entry. Nothing happens
    /// when no inode was asked for.
    pub fn give_inode(&mut self, inode: Option<Inode>) -> (s: ExtStep)
        requires
            old(self).wf(),
        ensures
            final(self).wf(),
            match old(self).spec_request() {
                RequestView::Kind(e) => {
                    let is_dir = inode matches Some(i) && kind_of(i.mode) == InodeKind::Directory;
                    &&& decided(
                        old(self).spec_current()->0,
                        old(self).spec_visited(),
                        old(self).spec_listed(),
                        *final(self),
                        e,
                        is_dir,
                        s,
                    )
                    &&& final(self).spec_stack() == old(self).spec_stack()
                    &&& final(self).spec_current() == old(self).spec_current()
                },
                RequestView::Child(e) => {
                    &&& final(self).spec_stack() == old(self).spec_stack()
                    &&& final(self).spec_visited() == old(self).spec_visited()
                    &&& final(self).spec_current() == old(self).spec_current()
                    &&& match inode {
                        Some(i) => if kind_of(i.mode) == InodeKind::Directory && !(i.dtime != 0 || (
                        i.links == 0 && i.mode != 0)) {
                            &&& s matches ExtStep::NeedLayout { inode: j, resolved: false } && j == i
                            &&& final(self).spec_request() == RequestView::Layout(e, false)
                            &&& final(self).spec_listed() == old(self).spec_listed()
                        } else if kind_of(i.mode) == InodeKind::Directory || (i.dtime != 0 || (i.links
                            == 0 && i.mode != 0)) {
                            &&& s matches ExtStep::NeedLayout { inode: j, resolved: true } && j == i
                            &&& final(self).spec_request() == RequestView::Layout(e, true)
                            &&& final(self).spec_listed() == old(self).spec_listed()
                        } else {
                            &&& s is Continued
                            &&& final(self).spec_request() == RequestView::Nothing
                            &&& listed_one(old(self).spec_current()->0, old(self).spec_listed(), *final(self), e)
                        },
                        None => {
                            &&& s is Continued
                            &&& final(self).spec_request() == RequestView::Nothing
                            &&& listed_one(old(self).spec_current()->0, old(self).spec_listed(), *final(self), e)
                        },
                    }
                },
                _ => s is Continued && *final(self) == *old(self),
            },
    {
        match self.request {
            Request::Kind { .. } | Request::Child { .. } => {},
            _ => {
                return ExtStep::Continued;
            },
        }
        let mut req = Request::Nothing;
        std::mem::swap(&mut req, &mut self.request);
        match req {
            Request::Kind { entry } => {
                let is_dir = match &inode {
                    Some(i) => match i.kind() {
                        InodeKind::Directory => true,
                        _ => false,
                    },
                    None => false,
                };
                self.decide(entry, is_dir)
            },
            Request::Child { entry } => {
                match inode {
                    Some(i) => {
                        let dir = match i.kind() {
                            InodeKind::Directory => true,
                            _ => false,
                        };
                        let deleted = i.is_deleted();
                        if dir && !deleted {
                            self.request = Request::Layout { entry, resolved: false };
                            ExtStep::NeedLayout { inode: i, resolved: false }
                        } else if dir || deleted {
                            self.request = Request::Layout { entry, resolved: true };
                            ExtStep::NeedLayout { inode: i, resolved: true }
                        } else {
                            self.list(entry);
                            ExtStep::Continued
                        }
                    },
                    None => {
                        self.list(entry);
                        ExtStep::Continued
                    },
                }
            },
            _ => ExtStep::Continued,
        }
    }

    /// Hands in the layout asked for (`None`: none could be had). A layout
    /// from older copies counts only when it is a directory's. With a
    /// layout, the directory is queued with the entry's path, one level
    /// deeper, in a deleted directory when the current one is or the entry
    /// is deleted; the entry is listed either way. Nothing happens when no
    /// layout was asked for.
    pub fn give_layout(&mut self, layout: Option<Layout>) -> (s: ExtStep)
        requires
            old(self).wf(),
        ensures
            final(self).wf(),
            s is Continued,
            match old(self).spec_request() {
                RequestView::Layout(e, resolved) => {
                    let c = old(self).spec_current()->0;
                    let usable = match layout {
                        Some(l) => !resolved || kind_of(l.inode.mode) == InodeKind::Directory,
                        None => false,
                    };
                    &&& final(self).spec_request() == RequestView::Nothing
                    &&& listed_one(c, old(self).spec_listed(), *final(self), e)
                    &&& final(self).spec_visited() == old(self).spec_visited()
                    &&& final(self).spec_current() == old(self).spec_current()
                    &&& final(self).spec_stack() == if usable {
                        old(self).spec_stack().push(
                            (entry_path(c.0, e.name@), layout->0, e.inode, c.2 || e.deleted, c.3 + 1),
                        )
                    } else {
                        old(self).spec_stack()
                    }
                },
                _ => *final(self) == *old(self),
            },
    {
        match self.request {
            Request::Layout { .. } => {},
            _ => {
                return ExtStep::Continued;
            },
        }
        let mut req = Request::Nothing;
        std::mem::swap(&mut req, &mut self.request);
        match req {
            Request::Layout { entry, resolved } => {
                let (path, via, depth) = match &self.current {
                    Some(c) => {
                        let mut p = c.path.clone();
                        push_char(&mut p, '/');
                        push_str(&mut p, entry.name.as_str());
                        (p, c.via_deleted || entry.deleted, c.depth)
                    },
                    None => {
                        return ExtStep::Continued;
                    },
                };
                let ghost c0 = old(self).spec_current()->0;
                assert(path@ == entry_path(c0.0, entry.name@));
                assert(via == (c0.2 || entry.deleted));
                assert(depth as nat == c0.3);
                let usable = match &layout {
                    Some(l) => !resolved || match l.inode.kind() {
                        InodeKind::Directory => true,
                        _ => false,
                    },
                    None => false,
                };
                if usable {
                    match layout {
                        Some(l) => {
                            let ghost st = self.spec_stack();
                            self.stack.push(
                                Queued { path, layout: l, inode: entry.inode, via_deleted: via, depth: depth + 1 },
                            );
                            assert(self.spec_stack() =~= st.push(
                                (path@, l, entry.inode, via, depth as nat + 1),
                            ));
                        },
                        None => {},
                    }
                }
                self.list(entry);
            },
            _ => {},
        }
        ExtStep::Continued
    }

    /// Whether the walk waits for something it asked for.
    pub fn is_waiting(&self) -> (b: bool)
        ensures
            b == !(self.spec_request() == RequestView::Nothing),
    {
        match self.request {
            Request::Nothing => false,
            _ => true,
        }
    }

    /// The entries listed, in the order they were met.
    pub fn finish(self) -> (v: Vec<WalkedEntry>)
        ensures
            v@ == self.spec_listed(),
    {
        self.out
    }
}

/// Whether `after` lists entry `e` of directory `c` after `listed`.
pub open spec fn listed_one(c: CurrentDir, listed: Seq<WalkedEntry>, after: ExtWalk, e: DirEntry) -> bool {
    let w = after.spec_listed().last();
    &&& after.spec_listed().len() == listed.len() + 1
    &&& after.spec_listed().drop_last() == listed
    &&& w.path@ == entry_path(c.0, e.name@)
    &&& w.entry == e
    &&& w.parent == c.1
    &&& w.via_deleted_directory == c.2
}

/// Whether `after` has decided on entry `e` of directory `c` (a directory
/// when `is_dir`), the walk having entered `visited` and listed `listed`,
/// with step `s`: an entered directory (see [`enters`]) is marked visited
/// and its inode asked for; any other entry is listed.
pub open spec fn decided(
    c: CurrentDir,
    visited: Seq<u32>,
    listed: Seq<WalkedEntry>,
    after: ExtWalk,
    e: DirEntry,
    is_dir: bool,
    s: ExtStep,
) -> bool {
    if enters(e, is_dir, c.3, visited) {
        &&& s matches ExtStep::NeedInode(n) && n == e.inode
        &&& after.spec_visited() == visited.push(e.inode)
        &&& after.spec_request() == RequestView::Child(e)
        &&& after.spec_listed() == listed
    } else {
        &&& s is Continued
        &&& after.spec_visited() == visited
        &&& after.spec_request() == RequestView::Nothing
        &&& listed_one(c, listed, after, e)
    }
}

/// What one step does (see [`ExtWalk::step`]).
pub open spec fn stepped(before: ExtWalk, after: ExtWalk, s: ExtStep) -> bool {
    if !(before.spec_request() == RequestView::Nothing) {
        s is Waiting && after == before
    } else {
        match before.spec_current() {
            None => if before.spec_stack().len() == 0 {
                s is Done && after.spec_stack() == before.spec_stack() && after.spec_visited()
                    == before.spec_visited() && after.spec_listed() == before.spec_listed()
                    && after.spec_current() is None && after.spec_request() == RequestView::Nothing
            } else {
                let q = before.spec_stack().last();
                &&& s matches ExtStep::ReadDirectory(l) && l == q.1
                &&& after.spec_stack() == before.spec_stack().drop_last()
                &&& after.spec_request() == RequestView::Entries(q.0, q.2, q.3, q.4)
                &&& after.spec_current() is None
                &&& after.spec_visited() == before.spec_visited()
                &&& after.spec_listed() == before.spec_listed()
            },
            Some(c) => if c.4.len() == 0 {
                &&& s is Continued
                &&& after.spec_current() is None
                &&& after.spec_stack() == before.spec_stack()
                &&& after.spec_visited() == before.spec_visited()
                &&& after.spec_listed() == before.spec_listed()
                &&& after.spec_request() == RequestView::Nothing
            } else {
                let e = c.4[0];
                &&& after.spec_current() == Some((c.0, c.1, c.2, c.3, c.4.skip(1)))
                &&& if e.name@ == seq!['.'] || e.name@ == seq!['.', '.'] {
                    &&& s is Continued
                    &&& after.spec_stack() == before.spec_stack()
                    &&& after.spec_visited() == before.spec_visited()
                    &&& after.spec_listed() == before.spec_listed()
                    &&& after.spec_request() == RequestView::Nothing
                } else if e.file_type == Some(2u8) {
                    &&& decided(c, before.spec_visited(), before.spec_listed(), after, e, true, s)
                    &&& after.spec_stack() == before.spec_stack()
                } else if e.file_type is None && e.inode != 0 {
                    &&& s matches ExtStep::NeedInode(n) && n == e.inode
                    &&& after.spec_request() == RequestView::Kind(e)
                    &&& after.spec_stack() == before.spec_stack()
                    &&& after.spec_visited() == before.spec_visited()
                    &&& after.spec_listed() == before.spec_listed()
                } else {
                    &&& decided(c, before.spec_visited(), before.spec_listed(), after, e, false, s)
                    &&& after.spec_stack() == before.spec_stack()
                }
            },
        }
    }
}

} // verus!
