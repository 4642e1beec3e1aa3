//! The facts a deleted exFAT entry set is judged on as a recovery
//! candidate.

use vstd::prelude::*;

use crate::evidence::{
    bare_extents, ceil_div, div_ceil, no_allocation, AllocationFacts, CandidateFacts, ExtentFacts,
    MetadataFacts, Note,
};
use crate::exfat::bitmap::{tally, AllocationBitmap};
use crate::exfat::error::ExfatError;
use crate::exfat::volume::{Reconstruction, WalkedEntry};

verus! {

/// Whether a walked entry set is a deleted file worth reporting: deleted
/// and not a directory.
pub fn exfat_is_candidate(w: &WalkedEntry) -> (b: bool)
    ensures
        b == (w.entry.deleted && w.entry.attributes.0 & 0x10 == 0),
{
    w.entry.deleted && !w.entry.is_directory()
}

/// The clusters whose allocation is looked at: the chain when known, else
/// the plain contiguous span.
pub open spec fn looked_at(r: Reconstruction) -> Seq<u32> {
    if r.chain_known {
        r.clusters@
    } else {
        r.contiguous_span@
    }
}

/// Whether the layout was inferred by skipping allocated clusters.
pub open spec fn inferred(r: Reconstruction) -> bool {
    r.assumed_contiguous && r.skipped_allocated@.len() > 0
}

/// The notes on an exFAT candidate: a damaged entry set; a path through a
/// deleted directory; then a plain contiguity assumption, or clusters that
/// could not be determined.
pub open spec fn exfat_notes(w: WalkedEntry, r: Result<Reconstruction, ExfatError>) -> Seq<Note> {
    (if !w.entry.checksum_ok {
        seq![Note::EntrySetChecksumMismatch]
    } else {
        seq![]
    }) + (if w.via_deleted_directory {
        seq![Note::ViaDeletedDirectory]
    } else {
        seq![]
    }) + match r {
        Ok(r) => if r.assumed_contiguous && !inferred(r) {
            seq![Note::AssumedContiguous]
        } else {
            seq![]
        },
        Err(_) => seq![Note::ClustersUndetermined],
    }
}

/// The layout facts of an exFAT candidate of clusters of `cs` bytes.
pub open spec fn exfat_extents_of(w: WalkedEntry, r: Result<Reconstruction, ExfatError>, cs: int) -> ExtentFacts {
    let expected = ceil_div(w.entry.data_length as int, cs) as u64;
    match r {
        Ok(r) => ExtentFacts {
            resident: false,
            complete: r.complete,
            extent_count: r.extent_count,
            total_clusters: Some(r.clusters@.len() as u64),
            expected_clusters: Some(expected),
            sparse: false,
            compressed: false,
            encrypted: false,
            chain_known: r.chain_known,
            heuristic: inferred(r),
            start_inferred: false,
            stale: false,
        },
        Err(_) => bare_extents(false, false, Some(0), Some(expected)),
    }
}

/// The allocation facts of an exFAT candidate: the bitmap (`bits`, its
/// heap's cluster count) tallies the clusters looked at; without it they
/// are all of unknown state.
pub open spec fn exfat_allocation_of(bitmap: Option<(Seq<u8>, u32)>, r: Result<Reconstruction, ExfatError>) -> AllocationFacts {
    match r {
        Ok(r) => {
            let span = looked_at(r);
            match bitmap {
                Some((bits, count)) => {
                    let t = tally(bits, count, span);
                    AllocationFacts {
                        map_available: true,
                        total: (t.0 + t.1 + t.2) as u64,
                        free: t.0 as u64,
                        allocated: t.1 as u64,
                        unknown: t.2 as u64,
                    }
                },
                None => AllocationFacts {
                    map_available: false,
                    total: span.len() as u64,
                    free: 0,
                    allocated: 0,
                    unknown: span.len() as u64,
                },
            }
        },
        Err(_) => no_allocation(bitmap is Some),
    }
}

/// The metadata facts of an exFAT candidate: the entry set is the record,
/// sound when its checksum matches.
pub open spec fn exfat_metadata_of(w: WalkedEntry) -> MetadataFacts {
    MetadataFacts {
        valid_record: w.entry.checksum_ok,
        filename_available: w.entry.name@.len() > 0,
        original_parent_available: true,
        parent_reference_valid: true,
        logical_size: Some(w.entry.data_length),
        timestamps_available: w.entry.modified is Some || w.entry.created is Some,
    }
}

/// The facts of deleted entry set `w` as a candidate, given what
/// reconstructing its clusters gave (`r`), the allocation bitmap when
/// loaded, and the cluster size.
pub fn exfat_candidate_facts(
    w: &WalkedEntry,
    r: &Result<Reconstruction, ExfatError>,
    bitmap: Option<&AllocationBitmap>,
    cluster_size: u32,
) -> (f: CandidateFacts)
    requires
        cluster_size > 0,
    ensures
        !f.from_journal,
        f.metadata == exfat_metadata_of(*w),
        f.extents == exfat_extents_of(*w, *r, cluster_size as int),
        f.allocation == exfat_allocation_of(
            match bitmap {
                Some(b) => Some((b.spec_bits(), b.spec_cluster_count())),
                None => None,
            },
            *r,
        ),
        f.notes@ == exfat_notes(*w, *r),
{
    let mut notes: Vec<Note> = Vec::new();
    if !w.entry.checksum_ok {
        notes.push(Note::EntrySetChecksumMismatch);
    }
    if w.via_deleted_directory {
        notes.push(Note::ViaDeletedDirectory);
    }
    let expected = div_ceil(w.entry.data_length, cluster_size as u64);
    let (extents, allocation) = match r {
        Ok(r) => {
            let span = if r.chain_known {
                &r.clusters
            } else {
                &r.contiguous_span
            };
            let allocation = match bitmap {
                Some(b) => {
                    let n = span.len();
                    let s = b.summarize(span.as_slice());
                    assert(s.free + s.allocated + s.unknown == n);
                    AllocationFacts {
                        map_available: true,
                        total: s.free + s.allocated + s.unknown,
                        free: s.free,
                        allocated: s.allocated,
                        unknown: s.unknown,
                    }
                },
                None => AllocationFacts {
                    map_available: false,
                    total: span.len() as u64,
                    free: 0,
                    allocated: 0,
                    unknown: span.len() as u64,
                },
            };
            let heuristic = r.assumed_contiguous && r.skipped_allocated.len() > 0;
            if r.assumed_contiguous && !heuristic {
                notes.push(Note::AssumedContiguous);
            }
            (
                ExtentFacts {
                    resident: false,
                    complete: r.complete,
                    extent_count: r.extent_count,
                    total_clusters: Some(r.clusters.len() as u64),
                    expected_clusters: Some(expected),
                    sparse: false,
                    compressed: false,
                    encrypted: false,
                    chain_known: r.chain_known,
                    heuristic,
                    start_inferred: false,
                    stale: false,
                },
                allocation,
            )
        },
        Err(_) => {
            notes.push(Note::ClustersUndetermined);
            (
                ExtentFacts {
                    resident: false,
                    complete: false,
                    extent_count: 0,
                    total_clusters: Some(0),
                    expected_clusters: Some(expected),
                    sparse: false,
                    compressed: false,
                    encrypted: false,
                    chain_known: false,
                    heuristic: false,
                    start_inferred: false,
                    stale: false,
                },
                AllocationFacts { map_available: bitmap.is_some(), total: 0, free: 0, allocated: 0, unknown: 0 },
            )
        },
    };
    let metadata = MetadataFacts {
        valid_record: w.entry.checksum_ok,
        filename_available: !w.entry.name.as_str().is_empty(),
        original_parent_available: true,
        parent_reference_valid: true,
        logical_size: Some(w.entry.data_length),
        timestamps_available: w.entry.modified.is_some() || w.entry.created.is_some(),
    };
    assert(notes@ =~= exfat_notes(*w, *r));
    CandidateFacts { from_journal: false, metadata, extents, allocation, notes }
}

} // verus!
