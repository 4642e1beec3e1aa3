//! Reading exFAT directories cluster by cluster, and the walk of the whole
//! tree, deleted entries and deleted directories included. The walk says
//! which directory to read next and is handed its entry sets.

use vstd::prelude::*;

use crate::exfat::boot::ExfatBootSector;
use crate::exfat::dir::{
    parse_directory, set_matches, set_positions, special_matches, special_positions, Directory,
    EntrySet, SpecialEntry,
};
use crate::exfat::error::ExfatError;
use crate::exfat::volume::{cluster_byte_offset, cluster_mappable, WalkedEntry, MAX_DEPTH, MAX_DIRECTORY_BYTES};
use crate::fat::walk::child_path;
use crate::text::{push_char, push_str};

verus! {

/// The lead byte of the `k`-th 32-byte entry of `bytes`.
pub open spec fn entry_lead(bytes: Seq<u8>, k: int) -> u8 {
    bytes[32 * k]
}

/// Whether one of the whole 32-byte entries of `bytes` starts with a zero
/// byte, the end-of-directory marker.
pub open spec fn has_end_marker(bytes: Seq<u8>) -> bool {
    exists|k: int| 0 <= k < bytes.len() / 32 && #[trigger] entry_lead(bytes, k) == 0
}

/// The `i`-th cluster of `data`, clusters being `cs` bytes.
pub open spec fn cluster_chunk(data: Seq<u8>, cs: int, i: int) -> Seq<u8> {
    data.subrange(i * cs, (i + 1) * cs)
}

/// How many of the `n` clusters of `data` are parsed, counting from
/// cluster `i`: up to and including the first that holds an end marker,
/// all of them when none does.
pub open spec fn clusters_parsed(data: Seq<u8>, cs: int, n: int, i: int) -> int
    decreases n - i,
{
    if i >= n - 1 {
        n
    } else if has_end_marker(cluster_chunk(data, cs, i)) {
        i + 1
    } else {
        clusters_parsed(data, cs, n, i + 1)
    }
}

/// Whether `entries` and `specials` are what [`parse_directory`] finds in
/// `bytes` read at volume offset `base`.
pub open spec fn directory_parsed(
    entries: Seq<EntrySet>,
    specials: Seq<SpecialEntry>,
    bytes: Seq<u8>,
    base: u64,
) -> bool {
    &&& specials.len() == special_positions(bytes, 0).len()
    &&& forall|k: int|
        0 <= k < specials.len() ==> special_matches(
            #[trigger] specials[k],
            bytes,
            special_positions(bytes, 0)[k],
        )
    &&& entries.len() == set_positions(bytes, 0).len()
    &&& forall|k: int|
        0 <= k < entries.len() ==> set_matches(
            #[trigger] entries[k],
            bytes,
            base,
            set_positions(bytes, 0)[k],
        )
}

/// How many clusters of a directory are read: all of them, up to the
/// in-memory limit.
pub open spec fn clusters_read(boot: ExfatBootSector, count: int) -> int {
    let cap = MAX_DIRECTORY_BYTES / (boot.cluster_size as u64);
    if count < cap {
        count
    } else {
        cap as int
    }
}

/// Whether `bytes[start..start + len]` holds an end marker.
fn ends_directory(bytes: &[u8], start: usize, len: usize) -> (b: bool)
    requires
        start + len <= bytes@.len(),
    ensures
        b == has_end_marker(bytes@.subrange(start as int, start + len)),
{
    let ghost sub = bytes@.subrange(start as int, start + len);
    let mut pos: usize = 0;
    let mut k: usize = 0;
    while len - pos >= 32
        invariant
            sub == bytes@.subrange(start as int, start + len),
            start + len <= bytes.len(),
            pos == 32 * k,
            pos <= len,
            forall|j: int| 0 <= j < k ==> #[trigger] entry_lead(sub, j) != 0,
        decreases len - pos,
    {
        if bytes[start + pos] == 0 {
            assert(entry_lead(sub, k as int) == 0);
            return true;
        }
        assert(entry_lead(sub, k as int) != 0);
        pos = pos + 32;
        k = k + 1;
    }
    assert(sub.len() / 32 == k);
    false
}

/// The byte offsets of the clusters of a directory, in order, for the
/// clusters that are read (see [`clusters_read`]), with the error met
/// first: the offsets of the clusters before the first one outside the
/// heap or past the end of the offset range, and the error it gives.
pub fn directory_reads(boot: &ExfatBootSector, clusters: &[u32]) -> (r: (Vec<u64>, Option<ExfatError>))
    requires
        boot.cluster_size > 0,
    ensures
        ({
            let n = clusters_read(*boot, clusters@.len() as int);
            let offs = r.0@;
            &&& offs.len() <= n
            &&& forall|i: int|
                #![trigger offs[i]]
                0 <= i < offs.len() ==> cluster_mappable(*boot, clusters@[i]) && offs[i]
                    == cluster_byte_offset(*boot, clusters@[i])
            &&& match r.1 {
                None => offs.len() == n,
                Some(e) => offs.len() < n && !cluster_mappable(*boot, clusters@[offs.len() as int])
                    && if boot.spec_is_valid_cluster(clusters@[offs.len() as int]) {
                    e == ExfatError::Overflow
                } else {
                    e is Malformed
                },
            }
        }),
{
    let cap = MAX_DIRECTORY_BYTES / (boot.cluster_size as u64);
    assert(cap <= MAX_DIRECTORY_BYTES) by (nonlinear_arith)
        requires
            cap == MAX_DIRECTORY_BYTES / (boot.cluster_size as u64),
            boot.cluster_size > 0,
    ;
    let n: usize = if (clusters.len() as u64) < cap {
        clusters.len()
    } else {
        cap as usize
    };
    let mut offs: Vec<u64> = Vec::new();
    let mut i: usize = 0;
    while i < n
        invariant
            n == clusters_read(*boot, clusters@.len() as int),
            n <= clusters@.len(),
            i <= n,
            offs@.len() == i,
            forall|j: int| 0 <= j < i ==> cluster_mappable(*boot, #[trigger] clusters@[j]),
            forall|j: int| 0 <= j < i ==> #[trigger] offs@[j] == cluster_byte_offset(*boot, clusters@[j]),
        decreases n - i,
    {
        match boot.cluster_offset(clusters[i]) {
            Ok(off) => {
                let ghost before = offs@;
                offs.push(off);
                proof {
                    assert(boot.spec_is_valid_cluster(clusters@[i as int]));
                    assert(offs@[i as int] == cluster_byte_offset(*boot, clusters@[i as int]));
                    assert(cluster_mappable(*boot, clusters@[i as int]));
                    assert forall|j: int| 0 <= j <= i implies #[trigger] offs@[j]
                        == cluster_byte_offset(*boot, clusters@[j]) by {
                        if j < i {
                            assert(offs@[j] == before[j]);
                        }
                    }
                }
            },
            Err(e) => {
                return (offs, Some(e));
            },
        }
        i = i + 1;
    }
    proof {
        assert forall|j: int| #![trigger offs@[j]]
            0 <= j < offs@.len() implies cluster_mappable(*boot, clusters@[j]) && offs@[j]
            == cluster_byte_offset(*boot, clusters@[j]) by {
            assert(cluster_mappable(*boot, clusters@[j]));
        }
    }
    (offs, None)
}

/// Parses the clusters read of a directory: `data` holds them one after
/// the other, `offsets` gives the volume offset of each. The clusters are
/// parsed one by one, and the scan stops after the first that holds an end
/// marker (see [`clusters_parsed`]). No cluster at all is
/// [`ExfatError::Malformed`].
pub fn directory_from_clusters(data: &[u8], cluster_size: usize, offsets: &[u64]) -> (r: Result<
    Directory,
    ExfatError,
>)
    requires
        cluster_size > 0,
        data@.len() == cluster_size * offsets@.len(),
    ensures
        r is Err <==> offsets@.len() == 0,
        r matches Err(e) ==> e is Malformed,
        r matches Ok(dir) ==> exists|es: Seq<Seq<EntrySet>>, sps: Seq<Seq<SpecialEntry>>|
            #![trigger es.flatten(), sps.flatten()]
            {
                let m = clusters_parsed(data@, cluster_size as int, offsets@.len() as int, 0);
                &&& es.len() == m
                &&& sps.len() == m
                &&& forall|i: int|
                    0 <= i < m ==> directory_parsed(
                        #[trigger] es[i],
                        sps[i],
                        cluster_chunk(data@, cluster_size as int, i),
                        offsets@[i],
                    )
                &&& dir.entries@ == es.flatten()
                &&& dir.specials@ == sps.flatten()
            },
{
    let n = offsets.len();
    if n == 0 {
        return Err(ExfatError::Malformed("empty directory chain"));
    }
    let ghost cs = cluster_size as int;
    let mut entries: Vec<EntrySet> = Vec::new();
    let mut specials: Vec<SpecialEntry> = Vec::new();
    let ghost mut es: Seq<Seq<EntrySet>> = seq![];
    let ghost mut sps: Seq<Seq<SpecialEntry>> = seq![];
    let mut i: usize = 0;
    let mut start: usize = 0;
    loop
        invariant_except_break
            clusters_parsed(data@, cs, n as int, 0) == clusters_parsed(data@, cs, n as int, i as int),
            es.len() == i,
            sps.len() == i,
            forall|j: int|
                0 <= j < i ==> directory_parsed(
                    #[trigger] es[j],
                    sps[j],
                    cluster_chunk(data@, cs, j),
                    offsets@[j],
                ),
            entries@ == es.flatten(),
            specials@ == sps.flatten(),
        invariant
            n == offsets@.len(),
            n >= 1,
            cs == cluster_size as int,
            cs > 0,
            data.len() == cs * n,
            i < n,
            start == i * cs,
        ensures
            clusters_parsed(data@, cs, n as int, 0) == es.len(),
            forall|j: int|
                0 <= j < es.len() ==> directory_parsed(
                    #[trigger] es[j],
                    sps[j],
                    cluster_chunk(data@, cs, j),
                    offsets@[j],
                ),
            sps.len() == es.len(),
            entries@ == es.flatten(),
            specials@ == sps.flatten(),
        decreases n - i,
    {
        assert(start + cs <= cs * n) by (nonlinear_arith)
            requires
                start == i * cs,
                i < n,
                cs > 0,
        ;
        assert((i + 1) * cs == start + cs) by (nonlinear_arith)
            requires
                start == i * cs,
        ;
        let chunk = vstd::slice::slice_subrange(data, start, start + cluster_size);
        let d = parse_directory(chunk, offsets[i]);
        let ghost sub = cluster_chunk(data@, cs, i as int);
        assert(chunk@ =~= sub);
        let Directory { entries: mut ce, specials: mut cs_specials } = d;
        let ghost es_old = es;
        let ghost sps_old = sps;
        let ghost ce_v = ce@;
        let ghost cs_v = cs_specials@;
        proof {
            es = es_old.push(ce_v);
            sps = sps_old.push(cs_v);
            es_old.lemma_flatten_push(ce_v);
            sps_old.lemma_flatten_push(cs_v);
            assert forall|j: int| 0 <= j <= i implies directory_parsed(
                #[trigger] es[j],
                sps[j],
                cluster_chunk(data@, cs, j),
                offsets@[j],
            ) by {
                if j < i {
                    assert(es[j] == es_old[j] && sps[j] == sps_old[j]);
                }
            }
        }
        entries.append(&mut ce);
        specials.append(&mut cs_specials);
        let end = ends_directory(data, start, cluster_size);
        if end || i + 1 == n {
            break;
        }
        i = i + 1;
        start = start + cluster_size;
    }
    Ok(Directory { entries, specials })
}

/// A directory the walk asks to be read.
#[derive(Debug, Clone, Copy, PartialEq, Eq)]
pub struct DirectoryRead {
    /// First cluster.
    pub first_cluster: u32,
    /// Whether the directory is contiguous with no FAT chain.
    pub no_fat_chain: bool,
    /// Its length in bytes, when known (all but the root).
    pub length: Option<u64>,
}

/// A directory waiting to be read.
#[derive(Debug)]
struct Queued {
    path: String,
    first: u32,
    no_fat_chain: bool,
    length: Option<u64>,
    via_deleted: bool,
    depth: usize,
}

/// The directory being read: its path, whether it lies in a deleted
/// directory, and the depth of its subdirectories.
#[derive(Debug)]
struct Open {
    path: String,
    via_deleted: bool,
    child_depth: usize,
}

/// A queued directory as values: path, first cluster, `NoFatChain`,
/// length, whether it lies in a deleted directory, depth.
pub type QueuedView = (Seq<char>, u32, bool, Option<u64>, bool, nat);

/// The walk of an exFAT tree.
#[derive(Debug)]
pub struct ExfatWalk {
    queue: Vec<Queued>,
    visited: Vec<u32>,
    out: Vec<WalkedEntry>,
    open: Option<Open>,
}

spec fn queued_view(q: Queued) -> QueuedView {
    (q.path@, q.first, q.no_fat_chain, q.length, q.via_deleted, q.depth as nat)
}

/// Where the walk goes next from `queue` (next on top, last) and the first
/// clusters entered so far: queued directories entered before are dropped,
/// those nested too deep are dropped once entered; the first other one is
/// taken up. Gives the queue and entered clusters left, and the directory
/// taken up, if any.
pub open spec fn next_directory(queue: Seq<QueuedView>, visited: Seq<u32>) -> (Seq<QueuedView>, Seq<u32>, Option<QueuedView>)
    decreases queue.len(),
{
    if queue.len() == 0 {
        (queue, visited, None)
    } else {
        let q = queue.last();
        if visited.contains(q.1) {
            next_directory(queue.drop_last(), visited)
        } else if q.5 > MAX_DEPTH {
            next_directory(queue.drop_last(), visited.push(q.1))
        } else {
            (queue.drop_last(), visited.push(q.1), Some(q))
        }
    }
}

/// Whether the walk enters the directory of entry set `e`: a directory
/// with a first cluster inside the heap.
pub open spec fn enters(e: EntrySet, boot: ExfatBootSector) -> bool {
    e.attributes.0 & 0x10 != 0 && e.first_cluster != 0 && boot.spec_is_valid_cluster(e.first_cluster)
}

/// The directories queued, in order, for the entry sets `es` of the
/// directory at `path` (in a deleted directory when `via`), whose
/// subdirectories have depth `depth`.
pub open spec fn subdirectories(
    path: Seq<char>,
    via: bool,
    depth: nat,
    es: Seq<EntrySet>,
    boot: ExfatBootSector,
) -> Seq<QueuedView>
    decreases es.len(),
{
    if es.len() == 0 {
        seq![]
    } else {
        let e = es.last();
        subdirectories(path, via, depth, es.drop_last(), boot) + if enters(e, boot) {
            seq![
                (
                    child_path(path, e.name@),
                    e.first_cluster,
                    e.flags.0 & 0x02 != 0,
                    Some(e.data_length),
                    via || e.deleted,
                    depth,
                ),
            ]
        } else {
            seq![]
        }
    }
}

fn holds(v: &Vec<u32>, x: u32) -> (b: bool)
    ensures
        b == v@.contains(x),
{
    let mut j: usize = 0;
    while j < v.len()
        invariant
            j <= v@.len(),
            forall|k: int| 0 <= k < j ==> v@[k] != x,
        decreases v@.len() - j,
    {
        if v[j] == x {
            assert(v@[j as int] == x);
            return true;
        }
        j = j + 1;
    }
    false
}

fn reverse_sets(v: Vec<EntrySet>) -> (r: Vec<EntrySet>)
    ensures
        r@.len() == v@.len(),
        forall|j: int| 0 <= j < r@.len() ==> #[trigger] r@[j] == v@[v@.len() - 1 - j],
{
    let ghost orig = v@;
    let mut v = v;
    let mut r: Vec<EntrySet> = Vec::new();
    while v.len() > 0
        invariant
            orig.len() == v@.len() + r@.len(),
            v@ == orig.take(v@.len() as int),
            forall|j: int| 0 <= j < r@.len() ==> #[trigger] r@[j] == orig[orig.len() - 1 - j],
        decreases v@.len(),
    {
        let ghost before = r@;
        let e = v.pop().unwrap();
        r.push(e);
        proof {
            assert(v@ =~= orig.take(v@.len() as int));
            assert forall|j: int| 0 <= j < r@.len() implies #[trigger] r@[j] == orig[orig.len() - 1 - j] by {
                if j < before.len() {
                    assert(r@[j] == before[j]);
                }
            }
        }
    }
    r
}

impl ExfatWalk {
    /// Directories waiting to be read, the next on top (last).
    pub closed spec fn spec_queue(&self) -> Seq<QueuedView> {
        Seq::new(self.queue@.len(), |i: int| queued_view(self.queue@[i]))
    }

    /// First clusters of the directories entered.
    pub closed spec fn spec_visited(&self) -> Seq<u32> {
        self.visited@
    }

    /// Entries listed so far.
    pub closed spec fn spec_listed(&self) -> Seq<WalkedEntry> {
        self.out@
    }

    /// The directory being read, if any: its path, whether it lies in a
    /// deleted directory, and the depth of its subdirectories.
    pub closed spec fn spec_open(&self) -> Option<(Seq<char>, bool, nat)> {
        match self.open {
            None => None,
            Some(o) => Some((o.path@, o.via_deleted, o.child_depth as nat)),
        }
    }

    /// A walk from the root directory at `root_cluster`.
    pub fn new(root_cluster: u32) -> (w: Self)
        ensures
            w.spec_queue() == seq![(Seq::<char>::empty(), root_cluster, false, None::<u64>, false, 0nat)],
            w.spec_visited().len() == 0,
            w.spec_listed().len() == 0,
            w.spec_open() is None,
    {
        let mut queue: Vec<Queued> = Vec::new();
        queue.push(
            Queued {
                path: String::new(),
                first: root_cluster,
                no_fat_chain: false,
                length: None,
                via_deleted: false,
                depth: 0,
            },
        );
        let w = ExfatWalk { queue, visited: Vec::new(), out: Vec::new(), open: None };
        assert(w.spec_queue() =~= seq![(Seq::<char>::empty(), root_cluster, false, None::<u64>, false, 0nat)]);
        w
    }

    /// The next directory to read (see [`next_directory`]), or `None` when
    /// the walk is over. A directory asked for before and not handed in
    /// is dropped.
    pub fn next_read(&mut self) -> (r: Option<DirectoryRead>)
        ensures
            ({
                let (queue, visited, next) = next_directory(
                    old(self).spec_queue(),
                    old(self).spec_visited(),
                );
                &&& final(self).spec_queue() == queue
                &&& final(self).spec_visited() == visited
                &&& final(self).spec_listed() == old(self).spec_listed()
                &&& match next {
                    None => r is None && final(self).spec_open() is None,
                    Some(q) => r == Some(
                        DirectoryRead { first_cluster: q.1, no_fat_chain: q.2, length: q.3 },
                    ) && final(self).spec_open() == Some((q.0, q.4, q.5 + 1)),
                }
            }),
            old(self).spec_visited().no_duplicates() ==> final(self).spec_visited().no_duplicates(),
    {
        self.open = None;
        loop
            invariant
                next_directory(self.spec_queue(), self.spec_visited()) == next_directory(
                    old(self).spec_queue(),
                    old(self).spec_visited(),
                ),
                self.spec_listed() == old(self).spec_listed(),
                self.spec_open() is None,
                old(self).spec_visited().no_duplicates() ==> self.spec_visited().no_duplicates(),
            decreases self.queue@.len(),
        {
            let ghost queue0 = self.spec_queue();
            let ghost visited0 = self.spec_visited();
            let popped = self.queue.pop();
            match popped {
                None => {
                    return None;
                },
                Some(q) => {
                    proof {
                        assert(self.spec_queue() =~= queue0.drop_last());
                        assert(queue0.last() == queued_view(q));
                    }
                    if holds(&self.visited, q.first) {
                        continue;
                    }
                    self.visited.push(q.first);
                    proof {
                        if visited0.no_duplicates() {
                            assert forall|a: int, b: int|
                                0 <= a < self.visited@.len() && 0 <= b < self.visited@.len() && a != b
                                    implies self.visited@[a] != self.visited@[b] by {
                                if a < visited0.len() && b < visited0.len() {
                                    assert(self.visited@[a] == visited0[a] && self.visited@[b] == visited0[b]);
                                } else if a == visited0.len() {
                                    assert(self.visited@[b] == visited0[b]);
                                } else {
                                    assert(self.visited@[a] == visited0[a]);
                                }
                            }
                        }
                    }
                    if q.depth > MAX_DEPTH {
                        continue;
                    }
                    let read = DirectoryRead {
                        first_cluster: q.first,
                        no_fat_chain: q.no_fat_chain,
                        length: q.length,
                    };
                    self.open = Some(Open { path: q.path, via_deleted: q.via_deleted, child_depth: q.depth + 1 });
                    return Some(read);
                },
            }
        }
    }

    /// Hands in the entry sets of the directory being read (`None` when it
    /// could not be read). Each set is listed with its path, in order, and
    /// the directories among them are queued (see [`subdirectories`]).
    /// Nothing is listed when no directory is being read.
    pub fn give(&mut self, boot: &ExfatBootSector, entries: Option<Vec<EntrySet>>)
        ensures
            final(self).spec_open() is None,
            final(self).spec_visited() == old(self).spec_visited(),
            match (old(self).spec_open(), entries) {
                (Some((path, via, depth)), Some(es)) => {
                    &&& final(self).spec_queue() == old(self).spec_queue() + subdirectories(
                        path,
                        via,
                        depth,
                        es@,
                        *boot,
                    )
                    &&& final(self).spec_listed().len() == old(self).spec_listed().len() + es@.len()
                    &&& final(self).spec_listed().take(old(self).spec_listed().len() as int)
                        == old(self).spec_listed()
                    &&& forall|k: int|
                        0 <= k < es@.len() ==> {
                            let w = #[trigger] final(self).spec_listed()[old(self).spec_listed().len() + k];
                            &&& w.path@ == child_path(path, es@[k].name@)
                            &&& w.entry == es@[k]
                            &&& w.via_deleted_directory == via
                        }
                },
                _ => final(self).spec_queue() == old(self).spec_queue() && final(self).spec_listed()
                    == old(self).spec_listed(),
            },
    {
        let open = self.open.take();
        let (o, es) = match (open, entries) {
            (Some(o), Some(es)) => (o, es),
            _ => {
                return;
            },
        };
        let ghost esv = es@;
        assert(esv.len() == es.len());
        let ghost queue0 = self.spec_queue();
        let ghost out0 = self.out@;
        let ghost path0 = o.path@;
        let mut rev = reverse_sets(es);
        let mut k: usize = 0;
        while rev.len() > 0
            invariant
                esv.len() <= usize::MAX,
                rev@.len() + k == esv.len(),
                forall|j: int| 0 <= j < rev@.len() ==> #[trigger] rev@[j] == esv[esv.len() - 1 - j],
                o.path@ == path0,
                self.spec_queue() == queue0 + subdirectories(
                    path0,
                    o.via_deleted,
                    o.child_depth as nat,
                    esv.take(k as int),
                    *boot,
                ),
                self.out@.len() == out0.len() + k,
                self.out@.take(out0.len() as int) == out0,
                forall|j: int|
                    0 <= j < k ==> {
                        let w = #[trigger] self.out@[out0.len() + j];
                        &&& w.path@ == child_path(path0, esv[j].name@)
                        &&& w.entry == esv[j]
                        &&& w.via_deleted_directory == o.via_deleted
                    },
                self.spec_open() is None,
                self.spec_visited() == old(self).spec_visited(),
            decreases rev@.len(),
        {
            let e = rev.pop().unwrap();
            proof {
                assert(e == esv[k as int]);
            }
            let mut path = o.path.clone();
            push_char(&mut path, '\\');
            push_str(&mut path, e.name.as_str());
            let ghost q1 = self.spec_queue();
            let ghost t = esv.take(k as int + 1);
            proof {
                assert(t.drop_last() =~= esv.take(k as int));
                assert(t.last() == e);
            }
            let ghost item = (
                child_path(path0, e.name@),
                e.first_cluster,
                e.flags.0 & 0x02 != 0,
                Some(e.data_length),
                o.via_deleted || e.deleted,
                o.child_depth as nat,
            );
            if e.is_directory() && e.first_cluster != 0 && boot.is_valid_cluster(e.first_cluster) {
                let q = Queued {
                    path: path.clone(),
                    first: e.first_cluster,
                    no_fat_chain: e.flags.no_fat_chain(),
                    length: Some(e.data_length),
                    via_deleted: o.via_deleted || e.deleted,
                    depth: o.child_depth,
                };
                assert(queued_view(q) == item);
                self.queue.push(q);
                proof {
                    assert(self.spec_queue() =~= q1.push(item));
                    assert(subdirectories(path0, o.via_deleted, o.child_depth as nat, t, *boot)
                        == subdirectories(path0, o.via_deleted, o.child_depth as nat, esv.take(k as int), *boot)
                        + seq![item]);
                    assert(self.spec_queue() =~= queue0 + subdirectories(
                        path0,
                        o.via_deleted,
                        o.child_depth as nat,
                        t,
                        *boot,
                    ));
                }
            } else {
                proof {
                    assert(subdirectories(path0, o.via_deleted, o.child_depth as nat, t, *boot)
                        =~= subdirectories(path0, o.via_deleted, o.child_depth as nat, esv.take(k as int), *boot));
                }
            }
            let ghost out1 = self.out@;
            self.out.push(WalkedEntry { path, entry: e, via_deleted_directory: o.via_deleted });
            proof {
                assert forall|j: int| 0 <= j < k + 1 implies {
                    let w = #[trigger] self.out@[out0.len() + j];
                    &&& w.path@ == child_path(path0, esv[j].name@)
                    &&& w.entry == esv[j]
                    &&& w.via_deleted_directory == o.via_deleted
                } by {
                    if j < k {
                        assert(self.out@[out0.len() + j] == out1[out0.len() + j]);
                    }
                }
                assert(self.out@.take(out0.len() as int) =~= out0) by {
                    assert forall|j: int| 0 <= j < out0.len() implies self.out@[j] == out0[j] by {
                        assert(out1.take(out0.len() as int)[j] == out0[j]);
                    }
                }
            }
            k = k + 1;
        }
        assert(esv.take(k as int) =~= esv);
    }

    /// The entries listed, in the order they were met.
    pub fn finish(self) -> (v: Vec<WalkedEntry>)
        ensures
            v@ == self.spec_listed(),
    {
        self.out
    }
}

} // verus!
