//! The last step of assembly: the non-resident pieces of each stream are
//! merged, streams are put in name order and the file is handed out.

use vstd::prelude::*;

use crate::device::names::chars_of;
use crate::ntfs::assemble::{
    insert_by, lemma_insert_at, lemma_sort_by_sorted, merge_stream, merged, sort_by, sorted_by,
    total_preorder, DataPiece, FileBuilder,
};
use crate::ntfs::data::DataStreamDescriptor;
use crate::ntfs::diagnostic::NtfsDiagnostic;
use crate::ntfs::file::NtfsFile;

verus! {

/// Lexicographic order of texts by code point (the order of Rust's `str`).
pub open spec fn text_le(a: Seq<char>, b: Seq<char>) -> bool
    decreases a.len(),
{
    if a.len() == 0 {
        true
    } else if b.len() == 0 {
        false
    } else if (a[0] as u32) < (b[0] as u32) {
        true
    } else if (a[0] as u32) > (b[0] as u32) {
        false
    } else {
        text_le(a.skip(1), b.skip(1))
    }
}

/// Order of stream names: the unnamed stream first, then names by text.
pub open spec fn name_le(a: Option<String>, b: Option<String>) -> bool {
    match a {
        None => true,
        Some(x) => match b {
            None => false,
            Some(y) => text_le(x@, y@),
        },
    }
}

/// Order of streams by name.
pub open spec fn stream_le(a: DataStreamDescriptor, b: DataStreamDescriptor) -> bool {
    name_le(a.name, b.name)
}

/// The pieces of `ps` kept under `key`, in order.
pub open spec fn pieces_under(ps: Seq<DataPiece>, key: Seq<char>) -> Seq<DataPiece>
    decreases ps.len(),
{
    if ps.len() == 0 {
        Seq::empty()
    } else if ps.last().key@ == key {
        pieces_under(ps.drop_last(), key).push(ps.last())
    } else {
        pieces_under(ps.drop_last(), key)
    }
}

/// The pieces of `ps` kept under another key than `key`, in order.
pub open spec fn pieces_except(ps: Seq<DataPiece>, key: Seq<char>) -> Seq<DataPiece>
    decreases ps.len(),
{
    if ps.len() == 0 {
        Seq::empty()
    } else if ps.last().key@ == key {
        pieces_except(ps.drop_last(), key)
    } else {
        pieces_except(ps.drop_last(), key).push(ps.last())
    }
}

/// The smallest key of `ps` by [`text_le`] (the first of equal ones).
pub open spec fn min_key(ps: Seq<DataPiece>) -> Seq<char>
    decreases ps.len(),
{
    if ps.len() == 0 {
        Seq::empty()
    } else if ps.len() == 1 {
        ps[0].key@
    } else {
        let m = min_key(ps.drop_last());
        if text_le(m, ps.last().key@) {
            m
        } else {
            ps.last().key@
        }
    }
}

/// The smallest key is the key of some piece.
pub proof fn lemma_min_key_occurs(ps: Seq<DataPiece>)
    requires
        ps.len() > 0,
    ensures
        exists|i: int| 0 <= i < ps.len() && #[trigger] ps[i].key@ == min_key(ps),
    decreases ps.len(),
{
    if ps.len() == 1 {
        assert(ps[0].key@ == min_key(ps));
    } else {
        let t = ps.drop_last();
        lemma_min_key_occurs(t);
        let i = choose|i: int| 0 <= i < t.len() && #[trigger] t[i].key@ == min_key(t);
        assert(ps[i] == t[i]);
        assert(ps[ps.len() - 1] == ps.last());
    }
}

/// Leaving out the pieces of a key that occurs shortens the pieces.
pub proof fn lemma_except_shorter(ps: Seq<DataPiece>, key: Seq<char>)
    ensures
        pieces_except(ps, key).len() <= ps.len(),
        (exists|i: int| 0 <= i < ps.len() && #[trigger] ps[i].key@ == key) ==> pieces_except(
            ps,
            key,
        ).len() < ps.len(),
    decreases ps.len(),
{
    if ps.len() > 0 {
        let t = ps.drop_last();
        lemma_except_shorter(t, key);
        if exists|i: int| 0 <= i < ps.len() && #[trigger] ps[i].key@ == key {
            let i = choose|i: int| 0 <= i < ps.len() && #[trigger] ps[i].key@ == key;
            if i < ps.len() - 1 {
                assert(t[i] == ps[i]);
            }
        }
    }
}

/// The pieces of `ps` grouped by key, the groups in ascending key order,
/// the pieces of a group in their order in `ps`.
pub open spec fn key_groups(ps: Seq<DataPiece>) -> Seq<(Seq<char>, Seq<DataPiece>)>
    decreases ps.len(),
{
    if ps.len() == 0 {
        Seq::empty()
    } else {
        let k = min_key(ps);
        proof {
            lemma_min_key_occurs(ps);
            lemma_except_shorter(ps, k);
        }
        seq![(k, pieces_under(ps, k))] + key_groups(pieces_except(ps, k))
    }
}

/// The streams among merged results, in order.
pub open spec fn part_streams(parts: Seq<(Option<DataStreamDescriptor>, Seq<NtfsDiagnostic>)>) -> Seq<
    DataStreamDescriptor,
>
    decreases parts.len(),
{
    if parts.len() == 0 {
        Seq::empty()
    } else {
        match parts.last().0 {
            Some(s) => part_streams(parts.drop_last()).push(s),
            None => part_streams(parts.drop_last()),
        }
    }
}

/// The findings of merged results, in order.
pub open spec fn part_diags(parts: Seq<(Option<DataStreamDescriptor>, Seq<NtfsDiagnostic>)>) -> Seq<
    NtfsDiagnostic,
>
    decreases parts.len(),
{
    if parts.len() == 0 {
        Seq::empty()
    } else {
        part_diags(parts.drop_last()) + parts.last().1
    }
}


/// Any two texts are ordered one way or the other.
pub proof fn lemma_text_le_total(a: Seq<char>, b: Seq<char>)
    ensures
        text_le(a, b) || text_le(b, a),
    decreases a.len(),
{
    if a.len() > 0 && b.len() > 0 && (a[0] as u32) == (b[0] as u32) {
        lemma_text_le_total(a.skip(1), b.skip(1));
    }
}

/// The order of texts is transitive.
pub proof fn lemma_text_le_transitive(a: Seq<char>, b: Seq<char>, c: Seq<char>)
    requires
        text_le(a, b),
        text_le(b, c),
    ensures
        text_le(a, c),
    decreases a.len(),
{
    if a.len() > 0 && b.len() > 0 && c.len() > 0 && (a[0] as u32) == (b[0] as u32) && (b[0] as u32)
        == (c[0] as u32) {
        lemma_text_le_transitive(a.skip(1), b.skip(1), c.skip(1));
    }
}

/// Streams by name form a total preorder.
pub proof fn lemma_stream_order()
    ensures
        total_preorder(|x: DataStreamDescriptor, y: DataStreamDescriptor| stream_le(x, y)),
{
    let le = |x: DataStreamDescriptor, y: DataStreamDescriptor| stream_le(x, y);
    assert forall|a: DataStreamDescriptor, b: DataStreamDescriptor| #[trigger] le(a, b) || le(b, a) by {
        match (a.name, b.name) {
            (Some(x), Some(y)) => lemma_text_le_total(x@, y@),
            _ => {},
        }
    }
    assert forall|a: DataStreamDescriptor, b: DataStreamDescriptor, c: DataStreamDescriptor|
        #[trigger] le(a, b) && #[trigger] le(b, c) implies le(a, c) by {
        match (a.name, b.name, c.name) {
            (Some(x), Some(y), Some(z)) => lemma_text_le_transitive(x@, y@, z@),
            _ => {},
        }
    }
}

/// The streams of a finished file are in name order: the unnamed stream
/// first, then the named ones by name.
pub proof fn lemma_finished_streams_in_order(
    b: FileBuilder,
    f: NtfsFile,
    parts: Seq<(Option<DataStreamDescriptor>, Seq<NtfsDiagnostic>)>,
)
    requires
        finished(b, f, parts),
    ensures
        forall|i: int, j: int|
            0 <= i < j < f.streams@.len() ==> stream_le(#[trigger] f.streams@[i], #[trigger] f.streams@[j]),
{
    let le = |x: DataStreamDescriptor, y: DataStreamDescriptor| stream_le(x, y);
    lemma_stream_order();
    lemma_sort_by_sorted(b.resident_streams@ + part_streams(parts), le);
    assert forall|i: int, j: int| 0 <= i < j < f.streams@.len() implies stream_le(
        #[trigger] f.streams@[i],
        #[trigger] f.streams@[j],
    ) by {
        assert(le(f.streams@[i], f.streams@[j]));
    }
}

/// Whether `f` is what the builder `b` finishes into, when the stream
/// kept under each key merges into `parts` (one per key, in key order):
/// the resident streams and the merged ones sorted by name (stable), the
/// findings of the merges after the builder's, and a note when a file that
/// is no directory has no name.
pub open spec fn finished(
    b: FileBuilder,
    f: NtfsFile,
    parts: Seq<(Option<DataStreamDescriptor>, Seq<NtfsDiagnostic>)>,
) -> bool {
    let groups = key_groups(b.pieces@);
    &&& parts.len() == groups.len()
    &&& forall|j: int|
        0 <= j < groups.len() ==> merged(
            groups[j].0,
            groups[j].1,
            b.cluster_size,
            #[trigger] parts[j].0,
            parts[j].1,
        )
    &&& f.streams@ == sort_by(
        b.resident_streams@ + part_streams(parts),
        |x: DataStreamDescriptor, y: DataStreamDescriptor| stream_le(x, y),
    )
    &&& f.diagnostics@ == b.diagnostics@ + part_diags(parts) + (if b.names@.len() == 0
        && !b.directory {
        seq![NtfsDiagnostic::NoFileName]
    } else {
        Seq::empty()
    })
    &&& f.reference == b.reference
    &&& f.in_use == b.in_use
    &&& f.directory == b.directory
    &&& f.is_base == b.is_base
    &&& f.hard_link_count == b.hard_link_count
    &&& f.names@ == b.names@
    &&& f.standard_information == b.standard_information
    &&& f.has_attribute_list == b.has_attribute_list
    &&& f.extension_records@ == b.extension_records@
}

/// Whether `a` comes before or with `b` in code-point order.
pub fn text_le_exec(a: &str, b: &str) -> (r: bool)
    ensures
        r == text_le(a@, b@),
{
    let x = chars_of(a);
    let y = chars_of(b);
    let mut i: usize = 0;
    assert(x@.skip(0) =~= x@);
    assert(y@.skip(0) =~= y@);
    while i < x.len() && i < y.len()
        invariant
            i <= x@.len(),
            i <= y@.len(),
            x@ == a@,
            y@ == b@,
            text_le(a@, b@) == text_le(x@.skip(i as int), y@.skip(i as int)),
        decreases x@.len() - i,
    {
        let c = x[i] as u32;
        let d = y[i] as u32;
        assert(x@.skip(i as int)[0] == x@[i as int]);
        assert(y@.skip(i as int)[0] == y@[i as int]);
        if c < d {
            return true;
        }
        if c > d {
            return false;
        }
        assert(x@.skip(i as int).skip(1) =~= x@.skip(i + 1));
        assert(y@.skip(i as int).skip(1) =~= y@.skip(i + 1));
        i = i + 1;
    }
    i == x.len()
}

/// Whether stream `a` comes before or with stream `b` by name.
fn stream_le_exec(a: &DataStreamDescriptor, b: &DataStreamDescriptor) -> (r: bool)
    ensures
        r == stream_le(*a, *b),
{
    match &a.name {
        None => true,
        Some(x) => match &b.name {
            None => false,
            Some(y) => text_le_exec(x.as_str(), y.as_str()),
        },
    }
}

/// Inserts a stream into streams kept in name order (after the streams not
/// above it).
fn insert_stream(out: &mut Vec<DataStreamDescriptor>, x: DataStreamDescriptor)
    ensures
        final(out)@ == insert_by(
            old(out)@,
            x,
            |a: DataStreamDescriptor, b: DataStreamDescriptor| stream_le(a, b),
        ),
{
    let ghost le = |a: DataStreamDescriptor, b: DataStreamDescriptor| stream_le(a, b);
    let mut k = out.len();
    while k > 0 && !stream_le_exec(&out[k - 1], &x)
        invariant
            k <= out@.len(),
            out@ == old(out)@,
            le == (|a: DataStreamDescriptor, b: DataStreamDescriptor| stream_le(a, b)),
            forall|j: int| k <= j < out@.len() ==> !le(#[trigger] out@[j], x),
        decreases k,
    {
        k = k - 1;
    }
    proof {
        lemma_insert_at(out@, x, le, k as int);
    }
    let ghost xv = x;
    out.insert(k, x);
    assert(out@ =~= old(out)@.take(k as int).push(xv) + old(out)@.skip(k as int));
}

/// The smallest key of the pieces (see [`min_key`]).
fn smallest_key(ps: &Vec<DataPiece>) -> (k: String)
    requires
        ps@.len() > 0,
    ensures
        k@ == min_key(ps@),
{
    let mut m = ps[0].key.clone();
    let n = ps.len();
    let mut i: usize = 1;
    assert(ps@.take(1).len() == 1);
    while i < n
        invariant
            n == ps@.len(),
            1 <= i <= n,
            m@ == min_key(ps@.take(i as int)),
        decreases n - i,
    {
        assert(ps@.take(i + 1).drop_last() =~= ps@.take(i as int));
        if !text_le_exec(m.as_str(), ps[i].key.as_str()) {
            m = ps[i].key.clone();
        }
        i = i + 1;
    }
    assert(ps@.take(n as int) =~= ps@);
    m
}

/// Splits pieces into those kept under `key` and the others, each in order.
fn split_by_key(ps: Vec<DataPiece>, key: &String) -> (r: (Vec<DataPiece>, Vec<DataPiece>))
    ensures
        r.0@ == pieces_under(ps@, key@),
        r.1@ == pieces_except(ps@, key@),
{
    let ghost orig = ps@;
    let n0 = ps.len();
    let mut rest = ps;
    let mut under: Vec<DataPiece> = Vec::new();
    let mut other: Vec<DataPiece> = Vec::new();
    let mut i: usize = 0;
    while rest.len() > 0
        invariant
            n0 == orig.len(),
            i <= orig.len(),
            i + rest@.len() == orig.len(),
            rest@ == orig.skip(i as int),
            under@ == pieces_under(orig.take(i as int), key@),
            other@ == pieces_except(orig.take(i as int), key@),
        decreases rest@.len(),
    {
        let p = rest.remove(0);
        proof {
            assert(orig.take(i + 1).drop_last() =~= orig.take(i as int));
            assert(orig.take(i + 1).last() == p);
            assert(orig.skip(i as int).skip(1) =~= orig.skip(i + 1));
        }
        if p.key == *key {
            under.push(p);
        } else {
            other.push(p);
        }
        i = i + 1;
    }
    assert(orig.take(i as int) =~= orig);
    (under, other)
}

impl FileBuilder {
    /// Merges the non-resident pieces of every stream, puts the streams in
    /// name order and hands out the file (see [`finished`]).
    pub fn finish(self) -> (f: NtfsFile)
        ensures
            exists|parts: Seq<(Option<DataStreamDescriptor>, Seq<NtfsDiagnostic>)>|
                #[trigger] finished(self, f, parts),
    {
        let ghost b = self;
        let ghost groups = key_groups(self.pieces@);
        let FileBuilder {
            reference,
            in_use,
            directory,
            is_base,
            hard_link_count,
            cluster_size,
            total_clusters: _,
            names,
            resident_streams,
            pieces,
            standard_information,
            attribute_list: _,
            has_attribute_list,
            extension_records,
            diagnostics,
        } = self;
        let mut diagnostics = diagnostics;
        let mut unsorted = resident_streams;
        let mut rest = pieces;
        let ghost mut parts: Seq<(Option<DataStreamDescriptor>, Seq<NtfsDiagnostic>)> = Seq::empty();
        while rest.len() > 0
            invariant
                key_groups(rest@) == groups.skip(parts.len() as int),
                parts.len() <= groups.len(),
                groups == key_groups(b.pieces@),
                cluster_size == b.cluster_size,
                forall|j: int|
                    0 <= j < parts.len() ==> merged(
                        groups[j].0,
                        groups[j].1,
                        b.cluster_size,
                        #[trigger] parts[j].0,
                        parts[j].1,
                    ),
                unsorted@ == b.resident_streams@ + part_streams(parts),
                diagnostics@ == b.diagnostics@ + part_diags(parts),
            decreases rest@.len(),
        {
            let key = smallest_key(&rest);
            proof {
                lemma_min_key_occurs(rest@);
                lemma_except_shorter(rest@, key@);
                let kg = key_groups(rest@);
                assert(kg =~= seq![(key@, pieces_under(rest@, key@))] + key_groups(
                    pieces_except(rest@, key@),
                ));
                assert(kg[0] == (key@, pieces_under(rest@, key@)));
                assert(kg.skip(1) =~= key_groups(pieces_except(rest@, key@)));
                assert(groups.skip(parts.len() as int)[0] == groups[parts.len() as int]);
                assert(groups.skip(parts.len() as int).skip(1) =~= groups.skip(parts.len() + 1int));
            }
            let (group, next) = split_by_key(rest, &key);
            let (stream, found) = merge_stream(&key, group, cluster_size);
            let ghost part = (stream, found@);
            let ghost old_unsorted = unsorted@;
            let ghost old_diags = diagnostics@;
            match stream {
                Some(s) => unsorted.push(s),
                None => {},
            }
            let mut found = found;
            diagnostics.append(&mut found);
            proof {
                let np = parts.push(part);
                assert(np.drop_last() =~= parts);
                assert forall|j: int| 0 <= j < np.len() implies merged(
                    groups[j].0,
                    groups[j].1,
                    b.cluster_size,
                    #[trigger] np[j].0,
                    np[j].1,
                ) by {
                    if j < parts.len() {
                        assert(np[j] == parts[j]);
                    }
                }
                assert(unsorted@ =~= b.resident_streams@ + part_streams(np));
                assert(diagnostics@ =~= b.diagnostics@ + part_diags(np));
                parts = np;
            }
            rest = next;
        }
        proof {
            if parts.len() < groups.len() {
                assert(groups.skip(parts.len() as int).len() > 0);
            }
        }
        let ghost all = unsorted@;
        let n0 = unsorted.len();
        let ghost le = |x: DataStreamDescriptor, y: DataStreamDescriptor| stream_le(x, y);
        let mut streams: Vec<DataStreamDescriptor> = Vec::new();
        let mut i: usize = 0;
        while unsorted.len() > 0
            invariant
                n0 == all.len(),
                i <= all.len(),
                i + unsorted@.len() == all.len(),
                unsorted@ == all.skip(i as int),
                le == (|x: DataStreamDescriptor, y: DataStreamDescriptor| stream_le(x, y)),
                streams@ == sort_by(all.take(i as int), le),
            decreases unsorted@.len(),
        {
            let s = unsorted.remove(0);
            proof {
                assert(all.take(i + 1).drop_last() =~= all.take(i as int));
                assert(all.take(i + 1).last() == s);
                assert(all.skip(i as int).skip(1) =~= all.skip(i + 1));
            }
            insert_stream(&mut streams, s);
            i = i + 1;
        }
        assert(all.take(i as int) =~= all);
        let ghost before = diagnostics@;
        if names.len() == 0 && !directory {
            diagnostics.push(NtfsDiagnostic::NoFileName);
        }
        let f = NtfsFile {
            reference,
            in_use,
            directory,
            is_base,
            hard_link_count,
            names,
            streams,
            standard_information,
            has_attribute_list,
            extension_records,
            diagnostics,
        };
        proof {
            assert(f.diagnostics@ =~= b.diagnostics@ + part_diags(parts) + (if b.names@.len() == 0
                && !b.directory {
                seq![NtfsDiagnostic::NoFileName]
            } else {
                Seq::empty()
            }));
            assert(finished(b, f, parts));
        }
        f
    }
}

} // verus!
