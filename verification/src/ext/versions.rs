//! Joining a directory block's current entries with the entries its
//! journal copies held: entries only an older copy still holds are added
//! as deleted, and every entry learns the range of transactions in which
//! it was live.

use vstd::prelude::*;

use crate::ext::dir::DirEntry;

verus! {

/// Whether two entries name the same inode under the same name.
pub open spec fn same_key(a: DirEntry, b: DirEntry) -> bool {
    a.inode == b.inode && a.name@ == b.name@
}

/// Whether an entry of `s` has the key of `e`.
pub open spec fn keyed(s: Seq<DirEntry>, e: DirEntry) -> bool {
    exists|i: int| 0 <= i < s.len() && same_key(#[trigger] s[i], e)
}

/// Whether the entry is `.` or `..`.
pub open spec fn is_dot_name(e: DirEntry) -> bool {
    e.name@ == seq!['.'] || e.name@ == seq!['.', '.']
}

/// The entries of journal copies `(transaction, entries)`, in order, each
/// with its copy's transaction, leaving out `.` and `..`.
pub open spec fn flat_copies(copies: Seq<(u32, Seq<DirEntry>)>) -> Seq<(u32, DirEntry)>
    decreases copies.len(),
{
    if copies.len() == 0 {
        Seq::empty()
    } else {
        let (t, es) = copies.last();
        flat_copies(copies.drop_last()) + es.filter(|e: DirEntry| !is_dot_name(e)).map_values(
            |e: DirEntry| (t, e),
        )
    }
}

/// The first and last transaction in which an entry with the key of `e`
/// is live among `flat`, if any.
pub open spec fn alive_range(flat: Seq<(u32, DirEntry)>, e: DirEntry) -> Option<(u32, u32)>
    decreases flat.len(),
{
    if flat.len() == 0 {
        None
    } else {
        let prev = alive_range(flat.drop_last(), e);
        let (t, x) = flat.last();
        if !x.deleted && same_key(x, e) {
            match prev {
                None => Some((t, t)),
                Some((a, b)) => Some((if t < a { t } else { a }, if t > b { t } else { b })),
            }
        } else {
            prev
        }
    }
}

/// `e` marked deleted.
pub open spec fn as_deleted(e: DirEntry) -> DirEntry {
    DirEntry { deleted: true, ..e }
}

/// The entries of `flat` whose key neither `current` nor an earlier entry
/// of `flat` has, marked deleted, in order.
pub open spec fn added(current: Seq<DirEntry>, flat: Seq<(u32, DirEntry)>) -> Seq<DirEntry>
    decreases flat.len(),
{
    if flat.len() == 0 {
        Seq::empty()
    } else {
        let prev = added(current, flat.drop_last());
        let x = flat.last().1;
        if keyed(current, x) || keyed(prev, x) {
            prev
        } else {
            prev.push(as_deleted(x))
        }
    }
}

/// `current` followed by what only the copies hold (see [`added`]), each
/// entry with the transactions in which it was live (see [`alive_range`]).
pub open spec fn merged_versions(current: Seq<DirEntry>, copies: Seq<(u32, Seq<DirEntry>)>) -> Seq<
    DirEntry,
> {
    let flat = flat_copies(copies);
    (current + added(current, flat)).map_values(
        |e: DirEntry| DirEntry { alive_in: alive_range(flat, e), ..e },
    )
}

/// The journal copies of a block as `(transaction, entries)`.
pub open spec fn copies_view(copies: Seq<(u32, Vec<DirEntry>)>) -> Seq<(u32, Seq<DirEntry>)> {
    copies.map_values(|c: (u32, Vec<DirEntry>)| (c.0, c.1@))
}

/// A copy of an entry.
fn copy_entry(e: &DirEntry) -> (r: DirEntry)
    ensures
        r == *e,
{
    DirEntry {
        inode: e.inode,
        name: e.name.clone(),
        file_type: e.file_type,
        deleted: e.deleted,
        offset: e.offset,
        alive_in: e.alive_in,
    }
}

/// Whether an entry of `s` has the key of `e`.
fn has_key(s: &Vec<DirEntry>, e: &DirEntry) -> (b: bool)
    ensures
        b == keyed(s@, *e),
{
    let mut i: usize = 0;
    while i < s.len()
        invariant
            i <= s@.len(),
            forall|j: int| 0 <= j < i ==> !same_key(#[trigger] s@[j], *e),
        decreases s@.len() - i,
    {
        if s[i].inode == e.inode && s[i].name == e.name {
            assert(same_key(s@[i as int], *e));
            return true;
        }
        i = i + 1;
    }
    false
}

/// The entries of the copies, in order, with their transactions.
fn flatten(copies: &Vec<(u32, Vec<DirEntry>)>) -> (r: Vec<(u32, DirEntry)>)
    ensures
        r@ == flat_copies(copies_view(copies@)),
{
    let mut out: Vec<(u32, DirEntry)> = Vec::new();
    let n = copies.len();
    let mut i: usize = 0;
    while i < n
        invariant
            n == copies@.len(),
            i <= n,
            out@ == flat_copies(copies_view(copies@.take(i as int))),
        decreases n - i,
    {
        let t = copies[i].0;
        let es = &copies[i].1;
        let ghost before = out@;
        let ghost keep = es@.filter(|e: DirEntry| !is_dot_name(e));
        let m = es.len();
        let mut j: usize = 0;
        while j < m
            invariant
                m == es@.len(),
                j <= m,
                keep == es@.filter(|e: DirEntry| !is_dot_name(e)),
                out@ == before + es@.take(j as int).filter(|e: DirEntry| !is_dot_name(e)).map_values(
                    |e: DirEntry| (t, e),
                ),
            decreases m - j,
        {
            let e = &es[j];
            proof {
                assert(es@.take(j + 1).drop_last() =~= es@.take(j as int));
                reveal(Seq::filter);
            }
            if !e.is_dot() {
                out.push((t, copy_entry(e)));
            }
            proof {
                let f = es@.take(j + 1).filter(|e: DirEntry| !is_dot_name(e));
                let g = es@.take(j as int).filter(|e: DirEntry| !is_dot_name(e));
                assert(es@.take(j + 1).last() == *e);
                if !is_dot_name(*e) {
                    assert(f == g.push(*e));
                    assert(f.map_values(|e: DirEntry| (t, e)) =~= g.map_values(|e: DirEntry| (t, e)).push(
                        (t, *e),
                    ));
                } else {
                    assert(f == g);
                }
            }
            j = j + 1;
        }
        proof {
            assert(es@.take(m as int) =~= es@);
            let cv = copies_view(copies@.take(i + 1));
            assert(copies_view(copies@.take(i + 1)).drop_last() =~= copies_view(copies@.take(i as int)));
            assert(cv.last() == (t, es@));
        }
        i = i + 1;
    }
    assert(copies@.take(n as int) =~= copies@);
    out
}

/// The first and last transaction in which an entry with the key of `e`
/// is live among `flat` (see [`alive_range`]).
fn alive_of(flat: &Vec<(u32, DirEntry)>, e: &DirEntry) -> (r: Option<(u32, u32)>)
    ensures
        r == alive_range(flat@, *e),
{
    let mut r: Option<(u32, u32)> = None;
    let n = flat.len();
    let mut i: usize = 0;
    while i < n
        invariant
            n == flat@.len(),
            i <= n,
            r == alive_range(flat@.take(i as int), *e),
        decreases n - i,
    {
        assert(flat@.take(i + 1).drop_last() =~= flat@.take(i as int));
        let t = flat[i].0;
        let x = &flat[i].1;
        if !x.deleted && x.inode == e.inode && x.name == e.name {
            r = match r {
                None => Some((t, t)),
                Some((a, b)) => Some((if t < a { t } else { a }, if t > b { t } else { b })),
            };
        }
        i = i + 1;
    }
    assert(flat@.take(n as int) =~= flat@);
    r
}

/// Joins the current entries of a directory block with those its journal
/// copies `(transaction, entries)` hold (see [`merged_versions`]).
pub fn merge_directory_versions(current: Vec<DirEntry>, copies: &Vec<(u32, Vec<DirEntry>)>) -> (r: Vec<
    DirEntry,
>)
    ensures
        r@ == merged_versions(current@, copies_view(copies@)),
{
    let flat = flatten(copies);
    let ghost fl = flat@;
    let mut extra: Vec<DirEntry> = Vec::new();
    let n = flat.len();
    let mut k: usize = 0;
    while k < n
        invariant
            n == fl.len(),
            flat@ == fl,
            k <= n,
            extra@ == added(current@, fl.take(k as int)),
        decreases n - k,
    {
        assert(fl.take(k + 1).drop_last() =~= fl.take(k as int));
        let x = &flat[k].1;
        if !has_key(&current, x) && !has_key(&extra, x) {
            let mut d = copy_entry(x);
            d.deleted = true;
            extra.push(d);
        }
        k = k + 1;
    }
    assert(fl.take(n as int) =~= fl);
    let mut all = current;
    let ghost base = all@ + extra@;
    all.append(&mut extra);
    let m = all.len();
    let mut out: Vec<DirEntry> = Vec::new();
    let mut i: usize = 0;
    while all.len() > 0
        invariant
            m == base.len(),
            i + all@.len() == m,
            all@ == base.skip(i as int),
            flat@ == fl,
            out@ == base.take(i as int).map_values(
                |e: DirEntry| DirEntry { alive_in: alive_range(fl, e), ..e },
            ),
        decreases all@.len(),
    {
        let mut e = all.remove(0);
        proof {
            assert(base.skip(i as int)[0] == e);
            assert(base.skip(i as int).skip(1) =~= base.skip(i + 1));
        }
        let a = alive_of(&flat, &e);
        let ghost e0 = e;
        e.alive_in = a;
        out.push(e);
        proof {
            assert(base.take(i + 1).drop_last() =~= base.take(i as int));
            assert(base.take(i + 1).last() == e0);
            assert(out@ =~= base.take(i + 1).map_values(
                |e: DirEntry| DirEntry { alive_in: alive_range(fl, e), ..e },
            ));
        }
        i = i + 1;
    }
    assert(base.take(m as int) =~= base);
    out
}

} // verus!
