//! Following a file's attribute list into its extension records: which
//! records to read, and what to note of each.

use vstd::prelude::*;

use crate::ntfs::assemble::{FileBuilder, PendingList};
use crate::ntfs::attribute_list::AttributeListEntry;
use crate::ntfs::diagnostic::NtfsDiagnostic;
use crate::ntfs::error::{error_text, NtfsError};
use crate::ntfs::record::FileReference;
use crate::text::{decimal, push_str};

verus! {

/// Most extension records followed for one file.
pub const MAX_EXTENSION_RECORDS: usize = 4096;

/// The records named by `records`, each once in order of first appearance,
/// leaving out `base`.
pub open spec fn other_records(records: Seq<u64>, base: u64) -> Seq<u64>
    decreases records.len(),
{
    if records.len() == 0 {
        Seq::empty()
    } else {
        let prev = other_records(records.drop_last(), base);
        let r = records.last();
        if r == base || prev.contains(r) {
            prev
        } else {
            prev.push(r)
        }
    }
}

/// The record each entry points to.
pub open spec fn entry_records(entries: Seq<AttributeListEntry>) -> Seq<u64> {
    entries.map_values(|e: AttributeListEntry| e.reference.record)
}

/// The records to follow are distinct and never the base record.
pub proof fn lemma_other_records_distinct(records: Seq<u64>, base: u64)
    ensures
        other_records(records, base).no_duplicates(),
        !other_records(records, base).contains(base),
    decreases records.len(),
{
    if records.len() > 0 {
        lemma_other_records_distinct(records.drop_last(), base);
        let prev = other_records(records.drop_last(), base);
        let r = records.last();
        if !(r == base || prev.contains(r)) {
            let n = prev.push(r);
            assert forall|i: int, j: int| 0 <= i < n.len() && 0 <= j < n.len() && i != j implies n[i] != n[j] by {
                if i < prev.len() && j < prev.len() {
                } else if i == prev.len() {
                    assert(!prev.contains(r));
                    assert(n[j] == prev[j]);
                } else {
                    assert(n[i] == prev[i]);
                }
            }
            assert forall|i: int| 0 <= i < n.len() implies n[i] != base by {
                if i < prev.len() {
                    assert(n[i] == prev[i]);
                }
            }
        }
    }
}

/// Whether `a` is a prefix of `b`.
pub open spec fn is_prefix(a: Seq<u64>, b: Seq<u64>) -> bool {
    a.len() <= b.len() && b.take(a.len() as int) == a
}

proof fn lemma_other_records_grow(records: Seq<u64>, base: u64, i: int, j: int)
    requires
        0 <= i <= j <= records.len(),
    ensures
        is_prefix(other_records(records.take(i), base), other_records(records.take(j), base)),
    decreases j - i,
{
    let a = other_records(records.take(i), base);
    if i == j {
        assert(other_records(records.take(j), base).take(a.len() as int) =~= a);
    } else {
        lemma_other_records_grow(records, base, i, j - 1);
        assert(records.take(j).drop_last() =~= records.take(j - 1));
        let m = other_records(records.take(j - 1), base);
        let n = other_records(records.take(j), base);
        assert(n.take(a.len() as int) =~= m.take(a.len() as int));
    }
}

/// Whether `v` holds `x`.
fn contains_record(v: &Vec<u64>, x: u64) -> (r: bool)
    ensures
        r == v@.contains(x),
{
    let mut j: usize = 0;
    while j < v.len()
        invariant
            j <= v@.len(),
            forall|k: int| 0 <= k < j ==> v@[k] != x,
        decreases v@.len() - j,
    {
        if v[j] == x {
            assert(v@[j as int] == x);
            return true;
        }
        j = j + 1;
    }
    false
}

/// The extension records to read for a file whose base record is `base`:
/// the records its attribute list names, each once in order of first
/// appearance, not the base record, at most [`MAX_EXTENSION_RECORDS`];
/// and whether the list names more than that.
pub fn extension_records(base: FileReference, entries: &Vec<AttributeListEntry>) -> (r: (
    Vec<u64>,
    bool,
))
    ensures
        ({
            let d = other_records(entry_records(entries@), base.record);
            &&& r.0@ == (if d.len() > MAX_EXTENSION_RECORDS {
                d.take(MAX_EXTENSION_RECORDS as int)
            } else {
                d
            })
            &&& r.1 == (d.len() > MAX_EXTENSION_RECORDS)
        }),
{
    let ghost recs = entry_records(entries@);
    let mut seen: Vec<u64> = Vec::new();
    let mut over = false;
    let n = entries.len();
    let mut i: usize = 0;
    while i < n
        invariant_except_break
            seen@ == other_records(recs.take(i as int), base.record),
            seen@.len() <= MAX_EXTENSION_RECORDS,
            !over,
        invariant
            n == entries@.len(),
            recs == entry_records(entries@),
            recs.len() == n,
            i <= n,
        ensures
            over ==> seen@.len() == MAX_EXTENSION_RECORDS && exists|k: int|
                0 <= k <= n && #[trigger] other_records(recs.take(k), base.record).len()
                    > MAX_EXTENSION_RECORDS && is_prefix(
                    seen@,
                    other_records(recs.take(k), base.record),
                ),
            !over ==> seen@ == other_records(recs.take(n as int), base.record) && seen@.len()
                <= MAX_EXTENSION_RECORDS,
        decreases n - i,
    {
        let rec = entries[i].reference.record;
        proof {
            assert(recs.take(i + 1).drop_last() =~= recs.take(i as int));
            assert(recs.take(i + 1).last() == rec);
        }
        let known = rec == base.record || contains_record(&seen, rec);
        if !known {
            if seen.len() >= MAX_EXTENSION_RECORDS {
                over = true;
                proof {
                    let t = other_records(recs.take(i + 1), base.record);
                    assert(t == seen@.push(rec));
                    assert(t.take(seen@.len() as int) =~= seen@);
                }
                break;
            }
            seen.push(rec);
        }
        i = i + 1;
    }
    proof {
        assert(recs.take(n as int) =~= recs);
        let d = other_records(recs, base.record);
        if over {
            let k = choose|k: int|
                0 <= k <= n && #[trigger] other_records(recs.take(k), base.record).len()
                    > MAX_EXTENSION_RECORDS && is_prefix(
                    seen@,
                    other_records(recs.take(k), base.record),
                );
            lemma_other_records_grow(recs, base.record, k, n as int);
            let t = other_records(recs.take(k), base.record);
            assert(d.take(t.len() as int) == t);
            assert(d.take(MAX_EXTENSION_RECORDS as int) =~= t.take(MAX_EXTENSION_RECORDS as int));
        }
    }
    (seen, over)
}

/// Whether everything but the extension records and the findings is the
/// same in `a` and `b`.
pub open spec fn same_frame_except_extensions(a: FileBuilder, b: FileBuilder) -> bool {
    &&& a.reference == b.reference
    &&& a.in_use == b.in_use
    &&& a.directory == b.directory
    &&& a.is_base == b.is_base
    &&& a.hard_link_count == b.hard_link_count
    &&& a.cluster_size == b.cluster_size
    &&& a.total_clusters == b.total_clusters
    &&& a.has_attribute_list == b.has_attribute_list
    &&& a.names@ =~= b.names@
    &&& a.resident_streams@ =~= b.resident_streams@
    &&& a.pieces@ =~= b.pieces@
    &&& a.standard_information == b.standard_information
    &&& a.attribute_list == b.attribute_list
}

/// Display text of a file reference, `record-sequence`.
pub open spec fn reference_text(r: FileReference) -> Seq<char> {
    decimal(r.record as nat) + seq!['-'] + decimal(r.sequence as nat)
}

impl FileBuilder {
    /// Checks an extension record whose header names `ext_base` as its base
    /// record: it is taken (and listed) when that is the file's own base
    /// reference, otherwise noted as unavailable.
    pub fn accept_extension(&mut self, record: u64, ext_base: FileReference) -> (ok: bool)
        ensures
            ok == (ext_base == old(self).reference),
            same_frame_except_extensions(*final(self), *old(self)),
            ok ==> final(self).extension_records@ == old(self).extension_records@.push(record)
                && final(self).diagnostics@ == old(self).diagnostics@,
            !ok ==> final(self).extension_records@ == old(self).extension_records@
                && final(self).diagnostics@.drop_last() == old(self).diagnostics@
                && final(self).diagnostics@.len() == old(self).diagnostics@.len() + 1
                && (final(self).diagnostics@.last() matches NtfsDiagnostic::ExtensionRecordUnavailable {
                record: r,
                reason,
            } && r == record && reason@ == "base reference "@ + reference_text(ext_base)
                + " does not match "@ + reference_text(old(self).reference)),
    {
        if ext_base.record != self.reference.record || ext_base.sequence != self.reference.sequence {
            let mut reason = String::new();
            push_str(&mut reason, "base reference ");
            let b = ext_base.to_text();
            push_str(&mut reason, b.as_str());
            push_str(&mut reason, " does not match ");
            let own = self.reference.to_text();
            push_str(&mut reason, own.as_str());
            self.diagnostics.push(NtfsDiagnostic::ExtensionRecordUnavailable { record, reason });
            false
        } else {
            self.extension_records.push(record);
            true
        }
    }

    /// Notes an extension record that could not be read.
    pub fn extension_failed(&mut self, record: u64, e: &NtfsError)
        ensures
            same_frame_except_extensions(*final(self), *old(self)),
            final(self).extension_records@ == old(self).extension_records@,
            final(self).diagnostics@.drop_last() == old(self).diagnostics@,
            final(self).diagnostics@.len() == old(self).diagnostics@.len() + 1,
            final(self).diagnostics@.last() matches NtfsDiagnostic::ExtensionRecordUnavailable {
                record: r,
                reason,
            } && r == record && reason@ == error_text(*e),
    {
        self.diagnostics.push(
            NtfsDiagnostic::ExtensionRecordUnavailable { record, reason: e.to_text() },
        );
    }

    /// Notes that the attribute list could not be read or parsed.
    pub fn attribute_list_failed(&mut self, e: &NtfsError)
        ensures
            same_frame_except_extensions(*final(self), *old(self)),
            final(self).extension_records@ == old(self).extension_records@,
            final(self).diagnostics@.drop_last() == old(self).diagnostics@,
            final(self).diagnostics@.len() == old(self).diagnostics@.len() + 1,
            final(self).diagnostics@.last() matches NtfsDiagnostic::AttributeListIncomplete {
                reason,
            } && reason@ == error_text(*e),
    {
        self.diagnostics.push(NtfsDiagnostic::AttributeListIncomplete { reason: e.to_text() });
    }

    /// Notes that an extension record could not be read, for `reason`.
    pub fn note_extension_unavailable(&mut self, record: u64, reason: String)
        ensures
            same_frame_except_extensions(*final(self), *old(self)),
            final(self).extension_records@ == old(self).extension_records@,
            final(self).diagnostics@ == old(self).diagnostics@.push(
                NtfsDiagnostic::ExtensionRecordUnavailable { record, reason },
            ),
    {
        self.diagnostics.push(NtfsDiagnostic::ExtensionRecordUnavailable { record, reason });
    }

    /// Notes that the attribute list could not be read, for `reason`.
    pub fn note_attribute_list_incomplete(&mut self, reason: String)
        ensures
            same_frame_except_extensions(*final(self), *old(self)),
            final(self).extension_records@ == old(self).extension_records@,
            final(self).diagnostics@ == old(self).diagnostics@.push(
                NtfsDiagnostic::AttributeListIncomplete { reason },
            ),
    {
        self.diagnostics.push(NtfsDiagnostic::AttributeListIncomplete { reason });
    }

    /// Notes that the attribute list names more extension records than are
    /// followed.
    pub fn too_many_extensions(&mut self)
        ensures
            same_frame_except_extensions(*final(self), *old(self)),
            final(self).extension_records@ == old(self).extension_records@,
            final(self).diagnostics@.drop_last() == old(self).diagnostics@,
            final(self).diagnostics@.len() == old(self).diagnostics@.len() + 1,
            final(self).diagnostics@.last() matches NtfsDiagnostic::AttributeListIncomplete {
                reason,
            } && reason@ == "too many extension records"@,
    {
        let mut reason = String::new();
        push_str(&mut reason, "too many extension records");
        self.diagnostics.push(NtfsDiagnostic::AttributeListIncomplete { reason });
    }

    /// Takes the attribute list found in the base record, if any, marking
    /// the file as carrying one.
    pub fn take_attribute_list(&mut self) -> (l: Option<PendingList>)
        ensures
            l == old(self).attribute_list,
            final(self).attribute_list is None,
            final(self).has_attribute_list == (old(self).has_attribute_list || l is Some),
            final(self).reference == old(self).reference,
            final(self).in_use == old(self).in_use,
            final(self).directory == old(self).directory,
            final(self).is_base == old(self).is_base,
            final(self).hard_link_count == old(self).hard_link_count,
            final(self).cluster_size == old(self).cluster_size,
            final(self).total_clusters == old(self).total_clusters,
            final(self).names@ == old(self).names@,
            final(self).resident_streams@ == old(self).resident_streams@,
            final(self).pieces@ == old(self).pieces@,
            final(self).standard_information == old(self).standard_information,
            final(self).extension_records@ == old(self).extension_records@,
            final(self).diagnostics@ == old(self).diagnostics@,
    {
        let l = self.attribute_list.take();
        if l.is_some() {
            self.has_attribute_list = true;
        }
        l
    }
}

} // verus!
