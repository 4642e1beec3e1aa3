//! Deleted NTFS records as recovery candidates.

use vstd::prelude::*;

use crate::evidence::{ceil_div, div_ceil, AllocationFacts, CandidateFacts, ExtentFacts, MetadataFacts, Note};
use crate::ntfs::bitmap::{
    count_state, sat_add, ClusterAllocationMap, ClusterBitmap, ClusterState, RangeAllocation,
};
use crate::ntfs::data::{data_clusters_sum, storage_runs, DataStorage, DataStreamDescriptor};
use crate::ntfs::runlist::{data_runs, NtfsRun};
use crate::ntfs::diagnostic::NtfsDiagnostic;
use crate::ntfs::file::NtfsFile;
use crate::ntfs::filename::FileNameAttribute;
use crate::ntfs::record::FileReference;
use crate::ntfs::tree::ResolvedPath;

verus! {

/// Whether a record is a deleted file worth reporting: not in use, a base
/// record, not a directory, and with a name or a data stream left.
pub fn ntfs_is_candidate(f: &NtfsFile) -> (b: bool)
    ensures
        b == (!f.in_use && f.is_base && !f.directory && (f.names@.len() > 0 || f.streams@.len() > 0)),
{
    !f.in_use && f.is_base && !f.directory && (f.names.len() > 0 || f.streams.len() > 0)
}

/// How complete a candidate's metadata is.
#[derive(Debug, Clone, Copy, PartialEq, Eq, Structural)]
pub enum CandidateMetadataState {
    /// Name, parent, size and data stream all present.
    Complete,
    /// Name and data present but the parent is stale or the path uncertain.
    Partial,
    /// Data runs exist but no filename survived.
    Minimal,
    /// The record parsed but its attributes are damaged.
    Corrupt,
}

/// A deleted NTFS record with its surviving attributes.
#[derive(Debug, Clone, PartialEq, Eq)]
pub struct NtfsDeletedCandidate {
    /// The record.
    pub record: FileReference,
    /// Surviving names.
    pub names: Vec<FileNameAttribute>,
    /// Surviving data streams.
    pub streams: Vec<DataStreamDescriptor>,
    /// Whether the record was a directory.
    pub directory: bool,
    /// Reconstructed path.
    pub path: ResolvedPath,
    /// Metadata completeness.
    pub metadata_state: CandidateMetadataState,
    /// Findings.
    pub diagnostics: Vec<NtfsDiagnostic>,
}

/// Whether a diagnostic reports damaged attributes or runlists.
pub open spec fn is_damage(d: NtfsDiagnostic) -> bool {
    d is AttributeError || d is RunlistError
}

/// Completeness of a file's metadata: corrupt when damaged and missing a
/// name or data; complete with a name, data and a certain path; partial
/// with a name; minimal otherwise.
pub open spec fn metadata_state_of(has_name: bool, has_data: bool, damaged: bool, uncertain: bool) -> CandidateMetadataState {
    if damaged && !(has_name && has_data) {
        CandidateMetadataState::Corrupt
    } else if has_name && has_data && !uncertain {
        CandidateMetadataState::Complete
    } else if has_name {
        CandidateMetadataState::Partial
    } else {
        CandidateMetadataState::Minimal
    }
}

/// Classifies the metadata of `file` found at `path`.
pub fn metadata_state(file: &NtfsFile, path: &ResolvedPath) -> (s: CandidateMetadataState)
    ensures
        s == metadata_state_of(
            file.names@.len() > 0,
            file.streams@.len() > 0,
            exists|i: int| 0 <= i < file.diagnostics@.len() && #[trigger] is_damage(file.diagnostics@[i]),
            path.uncertain,
        ),
{
    let has_name = file.names.len() > 0;
    let has_data = file.streams.len() > 0;
    let n = file.diagnostics.len();
    let mut damaged = false;
    let mut i: usize = 0;
    while i < n
        invariant
            n == file.diagnostics@.len(),
            i <= n,
            damaged == exists|j: int| 0 <= j < i && #[trigger] is_damage(file.diagnostics@[j]),
        decreases n - i,
    {
        let d = match &file.diagnostics[i] {
            NtfsDiagnostic::AttributeError { .. } => true,
            NtfsDiagnostic::RunlistError { .. } => true,
            _ => false,
        };
        if d {
            assert(is_damage(file.diagnostics@[i as int]));
        }
        damaged = damaged || d;
        i = i + 1;
    }
    if damaged && !(has_name && has_data) {
        CandidateMetadataState::Corrupt
    } else if has_name && has_data && !path.uncertain {
        CandidateMetadataState::Complete
    } else if has_name {
        CandidateMetadataState::Partial
    } else {
        CandidateMetadataState::Minimal
    }
}

/// Whether a path diagnostic leaves the original parent unknown.
pub open spec fn parent_problem(d: NtfsDiagnostic) -> bool {
    d is ParentUnreadable || d is ParentUnnamed || d is NoFileName || d is PathLoop || d is PathDepthExceeded
}

/// The notes for the file's diagnostics from index `i` on: each but an
/// unknown attribute.
pub open spec fn file_notes(ds: Seq<NtfsDiagnostic>, n: int) -> Seq<Note>
    decreases n,
{
    if n <= 0 {
        seq![]
    } else {
        file_notes(ds, n - 1) + if ds[n - 1] is UnknownAttribute {
            seq![]
        } else {
            seq![Note::FileDiagnostic((n - 1) as usize)]
        }
    }
}

/// The notes for the first `n` path diagnostics: the first deleted parent
/// as a path through a deleted directory (once), every other one as is.
pub open spec fn path_notes(ds: Seq<NtfsDiagnostic>, n: int) -> Seq<Note>
    decreases n,
{
    if n <= 0 {
        seq![]
    } else {
        let prev = path_notes(ds, n - 1);
        prev + if ds[n - 1] is ParentDeleted {
            if prev.contains(Note::ViaDeletedDirectory) {
                seq![]
            } else {
                seq![Note::ViaDeletedDirectory]
            }
        } else {
            seq![Note::PathDiagnostic((n - 1) as usize)]
        }
    }
}

/// Clusters as counted by the allocation map over the data runs of `runs`
/// (free, allocated, unknown), saturating.
pub open spec fn runs_tally(bm: ClusterBitmap, runs: Seq<NtfsRun>) -> (u64, u64, u64)
    decreases runs.len(),
{
    if runs.len() == 0 {
        (0, 0, 0)
    } else {
        let t = runs_tally(bm, runs.drop_last());
        match runs.last() {
            NtfsRun::Data { lcn, clusters, .. } => {
                let m = |c: u64| bm.state_of(c);
                (
                    sat_add(t.0, count_state(m, lcn, clusters as nat, ClusterState::Free) as u64),
                    sat_add(t.1, count_state(m, lcn, clusters as nat, ClusterState::Allocated) as u64),
                    sat_add(t.2, count_state(m, lcn, clusters as nat, ClusterState::Unknown) as u64),
                )
            },
            _ => t,
        }
    }
}

/// The metadata facts of an NTFS candidate.
pub open spec fn ntfs_metadata_of(file: NtfsFile, path: ResolvedPath, stream: Option<DataStreamDescriptor>) -> MetadataFacts {
    let named = file.names@.len() > 0;
    MetadataFacts {
        valid_record: !exists|i: int| 0 <= i < file.diagnostics@.len() && #[trigger] file.diagnostics@[i] is AttributeError,
        filename_available: named,
        original_parent_available: named && !exists|i: int|
            0 <= i < path.diagnostics@.len() && #[trigger] parent_problem(path.diagnostics@[i]),
        parent_reference_valid: !path.uncertain,
        logical_size: match stream {
            Some(s) => Some(s.logical_size),
            None => None,
        },
        timestamps_available: file.standard_information is Some || named,
    }
}

/// The layout facts of an NTFS candidate's stream, clusters being `cl`
/// bytes: nothing without a stream.
pub open spec fn ntfs_extents_of(stream: Option<DataStreamDescriptor>, cl: int) -> ExtentFacts {
    match stream {
        None => ExtentFacts {
            resident: false,
            complete: false,
            extent_count: 0,
            total_clusters: None,
            expected_clusters: None,
            sparse: false,
            compressed: false,
            encrypted: false,
            chain_known: false,
            heuristic: false,
            start_inferred: false,
            stale: false,
        },
        Some(s) => {
            let runs = storage_runs(s.storage);
            let resident = s.storage is Resident;
            let n = data_runs(runs);
            ExtentFacts {
                resident,
                complete: match s.storage {
                    DataStorage::NonResident { complete, .. } => complete,
                    _ => true,
                },
                extent_count: (if n > u32::MAX {
                    u32::MAX as int
                } else {
                    n as int
                }) as u32,
                total_clusters: if resident {
                    None
                } else {
                    Some(data_clusters_sum(runs) as u64)
                },
                expected_clusters: match s.storage {
                    DataStorage::NonResident { allocated_size, .. } => Some(
                        vstd::math::max(ceil_div(allocated_size as int, cl), ceil_div(s.logical_size as int, cl))
                            as u64,
                    ),
                    _ => None,
                },
                sparse: (exists|i: int| 0 <= i < runs.len() && #[trigger] runs[i] is Sparse) || s.flags
                    & 0x8000u16 != 0,
                compressed: s.storage is UnsupportedCompressed,
                encrypted: s.storage is UnsupportedEncrypted,
                chain_known: true,
                heuristic: false,
                start_inferred: false,
                stale: false,
            }
        },
    }
}

/// The allocation facts of an NTFS candidate's stream: resident data has
/// no clusters; the volume bitmap tallies the data runs; without it they
/// are all of unknown state.
pub open spec fn ntfs_allocation_of(stream: Option<DataStreamDescriptor>, bitmap: Option<ClusterBitmap>) -> AllocationFacts {
    match stream {
        None => AllocationFacts { map_available: bitmap is Some, total: 0, free: 0, allocated: 0, unknown: 0 },
        Some(s) => if s.storage is Resident {
            AllocationFacts { map_available: true, total: 0, free: 0, allocated: 0, unknown: 0 }
        } else {
            let runs = storage_runs(s.storage);
            match bitmap {
                Some(bm) => {
                    let t = runs_tally(bm, runs);
                    AllocationFacts {
                        map_available: true,
                        total: sat_add(sat_add(t.0, t.1), t.2),
                        free: t.0,
                        allocated: t.1,
                        unknown: t.2,
                    }
                },
                None => {
                    let d = data_clusters_sum(runs) as u64;
                    AllocationFacts { map_available: false, total: d, free: 0, allocated: 0, unknown: d }
                },
            }
        }
    }
}

fn tally_runs(bm: &ClusterBitmap, runs: &[NtfsRun]) -> (r: RangeAllocation)
    ensures
        (r.free, r.allocated, r.unknown) == runs_tally(*bm, runs@),
{
    let mut acc = RangeAllocation::new();
    let mut i: usize = 0;
    while i < runs.len()
        invariant
            i <= runs@.len(),
            (acc.free, acc.allocated, acc.unknown) == runs_tally(*bm, runs@.take(i as int)),
        decreases runs@.len() - i,
    {
        proof {
            assert(runs@.take(i + 1).drop_last() =~= runs@.take(i as int));
        }
        match runs[i] {
            NtfsRun::Data { lcn, clusters, .. } => {
                let part = bm.summarize(lcn, clusters);
                acc.add(part);
            },
            _ => {},
        }
        i = i + 1;
    }
    assert(runs@.take(runs@.len() as int) =~= runs@);
    acc
}

/// The facts of deleted file `file`, found at `path`, as a candidate for
/// its data stream `stream` (none when it has none), given the volume's
/// cluster bitmap when loaded and its cluster size (taken as at least 1).
pub fn ntfs_evidence(
    file: &NtfsFile,
    path: &ResolvedPath,
    stream: Option<&DataStreamDescriptor>,
    bitmap: Option<&ClusterBitmap>,
    cluster_size: u32,
) -> (f: CandidateFacts)
    ensures
        !f.from_journal,
        f.metadata == ntfs_metadata_of(
            *file,
            *path,
            match stream {
                Some(s) => Some(*s),
                None => None,
            },
        ),
        f.extents == ntfs_extents_of(
            match stream {
                Some(s) => Some(*s),
                None => None,
            },
            vstd::math::max(cluster_size as int, 1),
        ),
        f.allocation == ntfs_allocation_of(
            match stream {
                Some(s) => Some(*s),
                None => None,
            },
            match bitmap {
                Some(b) => Some(*b),
                None => None,
            },
        ),
        f.notes@ == file_notes(file.diagnostics@, file.diagnostics@.len() as int) + path_notes(
            path.diagnostics@,
            path.diagnostics@.len() as int,
        ),
{
    let mut notes: Vec<Note> = Vec::new();
    let mut valid_record = true;
    let nf = file.diagnostics.len();
    let mut i: usize = 0;
    while i < nf
        invariant
            nf == file.diagnostics@.len(),
            i <= nf,
            notes@ == file_notes(file.diagnostics@, i as int),
            valid_record == !exists|j: int| 0 <= j < i && #[trigger] file.diagnostics@[j] is AttributeError,
        decreases nf - i,
    {
        match &file.diagnostics[i] {
            NtfsDiagnostic::UnknownAttribute { .. } => {},
            _ => notes.push(Note::FileDiagnostic(i)),
        }
        match &file.diagnostics[i] {
            NtfsDiagnostic::AttributeError { .. } => {
                valid_record = false;
            },
            _ => {},
        }
        proof {
            if valid_record {
                assert forall|j: int| 0 <= j < i + 1 implies !(#[trigger] file.diagnostics@[j] is AttributeError) by {}
            }
        }
        i = i + 1;
    }
    let ghost fnotes = notes@;
    let np = path.diagnostics.len();
    let mut problem = false;
    let mut pnotes: Vec<Note> = Vec::new();
    let mut j: usize = 0;
    while j < np
        invariant
            np == path.diagnostics@.len(),
            j <= np,
            pnotes@ == path_notes(path.diagnostics@, j as int),
            problem == exists|k: int| 0 <= k < j && #[trigger] parent_problem(path.diagnostics@[k]),
        decreases np - j,
    {
        let ghost prev = pnotes@;
        match &path.diagnostics[j] {
            NtfsDiagnostic::ParentDeleted { .. } => {
                let mut seen = false;
                let mut k: usize = 0;
                while k < pnotes.len()
                    invariant
                        k <= pnotes@.len(),
                        seen == exists|m: int| 0 <= m < k && pnotes@[m] == Note::ViaDeletedDirectory,
                    decreases pnotes@.len() - k,
                {
                    if pnotes[k] == Note::ViaDeletedDirectory {
                        seen = true;
                    }
                    k = k + 1;
                }
                if !seen {
                    pnotes.push(Note::ViaDeletedDirectory);
                }
                proof {
                    if seen {
                        let m = choose|m: int| 0 <= m < prev.len() && prev[m] == Note::ViaDeletedDirectory;
                        assert(prev.contains(Note::ViaDeletedDirectory));
                    } else {
                        assert(!prev.contains(Note::ViaDeletedDirectory));
                    }
                }
            },
            _ => pnotes.push(Note::PathDiagnostic(j)),
        }
        let bad = match &path.diagnostics[j] {
            NtfsDiagnostic::ParentUnreadable { .. } | NtfsDiagnostic::ParentUnnamed { .. }
            | NtfsDiagnostic::NoFileName | NtfsDiagnostic::PathLoop | NtfsDiagnostic::PathDepthExceeded => true,
            _ => false,
        };
        proof {
            assert(bad == parent_problem(path.diagnostics@[j as int]));
            if !(problem || bad) {
                assert forall|k: int| 0 <= k < j + 1 implies !#[trigger] parent_problem(path.diagnostics@[k]) by {}
            }
        }
        problem = problem || bad;
        j = j + 1;
    }
    notes.append(&mut pnotes);
    let named = file.names.len() > 0;
    let metadata = MetadataFacts {
        valid_record,
        filename_available: named,
        original_parent_available: named && !problem,
        parent_reference_valid: !path.uncertain,
        logical_size: match stream {
            Some(s) => Some(s.logical_size),
            None => None,
        },
        timestamps_available: file.standard_information.is_some() || named,
    };
    let (extents, allocation) = match stream {
        None => (
            ExtentFacts {
                resident: false,
                complete: false,
                extent_count: 0,
                total_clusters: None,
                expected_clusters: None,
                sparse: false,
                compressed: false,
                encrypted: false,
                chain_known: false,
                heuristic: false,
                start_inferred: false,
                stale: false,
            },
            AllocationFacts { map_available: bitmap.is_some(), total: 0, free: 0, allocated: 0, unknown: 0 },
        ),
        Some(s) => {
            let cl: u64 = if cluster_size == 0 {
                1
            } else {
                cluster_size as u64
            };
            let (resident, complete, compressed, encrypted, expected) = match &s.storage {
                DataStorage::Resident { .. } => (true, true, false, false, None),
                DataStorage::NonResident { complete, allocated_size, .. } => {
                    let a = div_ceil(*allocated_size, cl);
                    let b = div_ceil(s.logical_size, cl);
                    (false, *complete, false, false, Some(if a > b { a } else { b }))
                },
                DataStorage::UnsupportedCompressed { .. } => (false, true, true, false, None),
                DataStorage::UnsupportedEncrypted { .. } => (false, true, false, true, None),
            };
            let data = s.data_clusters();
            let extents = ExtentFacts {
                resident,
                complete,
                extent_count: s.extent_count(),
                total_clusters: if resident {
                    None
                } else {
                    Some(data)
                },
                expected_clusters: expected,
                sparse: s.has_sparse_runs() || s.flags & 0x8000 != 0,
                compressed,
                encrypted,
                chain_known: true,
                heuristic: false,
                start_inferred: false,
                stale: false,
            };
            let allocation = if resident {
                AllocationFacts { map_available: true, total: 0, free: 0, allocated: 0, unknown: 0 }
            } else {
                match bitmap {
                    Some(bm) => {
                        let t = tally_runs(bm, s.storage.runs());
                        AllocationFacts {
                            map_available: true,
                            total: t.total(),
                            free: t.free,
                            allocated: t.allocated,
                            unknown: t.unknown,
                        }
                    },
                    None => AllocationFacts {
                        map_available: false,
                        total: data,
                        free: 0,
                        allocated: 0,
                        unknown: data,
                    },
                }
            };
            (extents, allocation)
        },
    };
    CandidateFacts { from_journal: false, metadata, extents, allocation, notes }
}

} // verus!
