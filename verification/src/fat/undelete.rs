//! The facts a deleted FAT entry is judged on as a recovery candidate.

use vstd::prelude::*;

use crate::evidence::{
    bare_extents, ceil_div, div_ceil, no_allocation, AllocationFacts, CandidateFacts, ExtentFacts,
    MetadataFacts, Note,
};
use crate::fat::error::FatError;
use crate::fat::table::{FatEntry, FatTable, FatTableView};
use crate::fat::volume::{Reconstruction, WalkedEntry};

verus! {

/// Whether a walked entry is a deleted file worth reporting: deleted, and
/// neither a directory nor the volume label.
pub fn fat_is_candidate(w: &WalkedEntry) -> (b: bool)
    ensures
        b == (w.entry.deleted && w.entry.attributes.0 & 0x10 == 0 && !(w.entry.attributes.0 & 0x08
            != 0 && w.entry.attributes.0 & 0x10 == 0)),
{
    w.entry.deleted && !w.entry.attributes.is_directory() && !w.entry.attributes.is_volume_label()
}

/// How many clusters of `span` the FAT marks free.
pub open spec fn free_in(fat: FatTableView, span: Seq<u32>) -> nat
    decreases span.len(),
{
    if span.len() == 0 {
        0
    } else {
        free_in(fat, span.drop_last()) + if fat.entry(span.last() as int) == FatEntry::Free {
            1nat
        } else {
            0nat
        }
    }
}

/// The clusters whose allocation is looked at: the chain when known, else
/// the plain contiguous span.
pub open spec fn looked_at(r: Reconstruction) -> Seq<u32> {
    if r.chain_known {
        r.clusters@
    } else {
        r.contiguous_span@
    }
}

/// The notes on a FAT candidate: a lost first character (no long name)
/// or an unverified long name; a path through a deleted directory;
/// clusters that could not be determined.
pub open spec fn fat_notes(w: WalkedEntry, clusters_known: bool) -> Seq<Note> {
    (if w.entry.long_name is None {
        seq![Note::LostFirstCharacter]
    } else if w.entry.long_name_unverified {
        seq![Note::LongNameUnverified]
    } else {
        seq![]
    }) + (if w.via_deleted_directory {
        seq![Note::ViaDeletedDirectory]
    } else {
        seq![]
    }) + (if clusters_known {
        seq![]
    } else {
        seq![Note::ClustersUndetermined]
    })
}

/// The layout facts of a FAT candidate of clusters of `cs` bytes.
pub open spec fn fat_extents_of(w: WalkedEntry, r: Result<Reconstruction, FatError>, cs: int) -> ExtentFacts {
    let expected = ceil_div(w.entry.size as int, cs) as u64;
    match r {
        Ok(r) => ExtentFacts {
            resident: false,
            complete: r.complete,
            extent_count: r.extent_count,
            total_clusters: Some(r.clusters@.len() as u64),
            expected_clusters: Some(expected),
            sparse: false,
            compressed: false,
            encrypted: false,
            chain_known: r.chain_known,
            heuristic: !r.chain_known && r.skipped_allocated@.len() > 0,
            start_inferred: false,
            stale: false,
        },
        Err(_) => bare_extents(false, false, Some(0), Some(expected)),
    }
}

/// The allocation facts of a FAT candidate: the FAT is the map.
pub open spec fn fat_allocation_of(fat: FatTableView, r: Result<Reconstruction, FatError>) -> AllocationFacts {
    match r {
        Ok(r) => {
            let span = looked_at(r);
            let free = free_in(fat, span);
            AllocationFacts {
                map_available: true,
                total: span.len() as u64,
                free: free as u64,
                allocated: (span.len() - free) as u64,
                unknown: 0,
            }
        },
        Err(_) => no_allocation(true),
    }
}

/// The metadata facts of a FAT candidate: the entry is the record.
pub open spec fn fat_metadata_of(w: WalkedEntry) -> MetadataFacts {
    MetadataFacts {
        valid_record: true,
        filename_available: true,
        original_parent_available: true,
        parent_reference_valid: true,
        logical_size: Some(w.entry.size as u64),
        timestamps_available: w.entry.modified is Some || w.entry.created is Some,
    }
}

fn count_free(fat: &FatTable, span: &Vec<u32>) -> (n: u64)
    ensures
        n == free_in(fat@, span@),
        n <= span@.len(),
{
    let mut n: u64 = 0;
    let mut i: usize = 0;
    while i < span.len()
        invariant
            i <= span@.len(),
            n == free_in(fat@, span@.take(i as int)),
            n <= i,
        decreases span@.len() - i,
    {
        proof {
            assert(span@.take(i + 1).drop_last() =~= span@.take(i as int));
        }
        if fat.is_free(span[i]) {
            n = n + 1;
        }
        i = i + 1;
    }
    assert(span@.take(span@.len() as int) =~= span@);
    n
}

/// The facts of deleted entry `w` as a candidate, given what
/// reconstructing its clusters gave (`r`), the FAT, and the cluster size.
pub fn fat_candidate_facts(
    w: &WalkedEntry,
    r: &Result<Reconstruction, FatError>,
    fat: &FatTable,
    cluster_size: u32,
) -> (f: CandidateFacts)
    requires
        cluster_size > 0,
    ensures
        !f.from_journal,
        f.metadata == fat_metadata_of(*w),
        f.extents == fat_extents_of(*w, *r, cluster_size as int),
        f.allocation == fat_allocation_of(fat@, *r),
        f.notes@ == fat_notes(*w, r is Ok),
{
    let mut notes: Vec<Note> = Vec::new();
    if w.entry.long_name.is_none() {
        notes.push(Note::LostFirstCharacter);
    } else if w.entry.long_name_unverified {
        notes.push(Note::LongNameUnverified);
    }
    if w.via_deleted_directory {
        notes.push(Note::ViaDeletedDirectory);
    }
    let expected = div_ceil(w.entry.size as u64, cluster_size as u64);
    let (extents, allocation) = match r {
        Ok(r) => {
            let span = if r.chain_known {
                &r.clusters
            } else {
                &r.contiguous_span
            };
            let free = count_free(fat, span);
            let total = span.len() as u64;
            (
                ExtentFacts {
                    resident: false,
                    complete: r.complete,
                    extent_count: r.extent_count,
                    total_clusters: Some(r.clusters.len() as u64),
                    expected_clusters: Some(expected),
                    sparse: false,
                    compressed: false,
                    encrypted: false,
                    chain_known: r.chain_known,
                    heuristic: r.is_heuristic(),
                    start_inferred: false,
                    stale: false,
                },
                AllocationFacts { map_available: true, total, free, allocated: total - free, unknown: 0 },
            )
        },
        Err(_) => {
            notes.push(Note::ClustersUndetermined);
            (
                ExtentFacts {
                    resident: false,
                    complete: false,
                    extent_count: 0,
                    total_clusters: Some(0),
                    expected_clusters: Some(expected),
                    sparse: false,
                    compressed: false,
                    encrypted: false,
                    chain_known: false,
                    heuristic: false,
                    start_inferred: false,
                    stale: false,
                },
                AllocationFacts { map_available: true, total: 0, free: 0, allocated: 0, unknown: 0 },
            )
        },
    };
    let metadata = MetadataFacts {
        valid_record: true,
        filename_available: true,
        original_parent_available: true,
        parent_reference_valid: true,
        logical_size: Some(w.entry.size as u64),
        timestamps_available: w.entry.modified.is_some() || w.entry.created.is_some(),
    };
    assert(notes@ =~= fat_notes(*w, r is Ok));
    CandidateFacts { from_journal: false, metadata, extents, allocation, notes }
}

} // verus!
