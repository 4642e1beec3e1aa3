//! The facts a deleted-file candidate is judged on: what is known of its
//! metadata, of where its content lies and of whether that space is still
//! free, with notes that explain doubts. Content examination and scoring
//! happen outside the library; these facts are what they start from.

use vstd::prelude::*;

verus! {

/// What is known of where a candidate's content lies.
#[derive(Debug, Clone, Copy, PartialEq, Eq, Structural)]
pub struct ExtentFacts {
    /// The content lives inside the metadata record.
    pub resident: bool,
    /// Every cluster or block of the content was located.
    pub complete: bool,
    /// Number of contiguous extents.
    pub extent_count: u32,
    /// Clusters or blocks located.
    pub total_clusters: Option<u64>,
    /// Clusters or blocks the size calls for.
    pub expected_clusters: Option<u64>,
    /// Holes or uninitialised ranges are part of the layout.
    pub sparse: bool,
    /// The content is compressed.
    pub compressed: bool,
    /// The content is encrypted.
    pub encrypted: bool,
    /// The layout comes from a chain, map or run list, not an assumption.
    pub chain_known: bool,
    /// The layout was inferred by skipping allocated clusters.
    pub heuristic: bool,
    /// The first cluster was inferred.
    pub start_inferred: bool,
    /// The layout may describe an older version of the file.
    pub stale: bool,
}

/// What the allocation map says of the content's clusters or blocks.
#[derive(Debug, Clone, Copy, PartialEq, Eq, Structural)]
pub struct AllocationFacts {
    /// An allocation map could be consulted.
    pub map_available: bool,
    /// Clusters or blocks looked at.
    pub total: u64,
    /// Of those, free.
    pub free: u64,
    /// Of those, allocated to something else now.
    pub allocated: u64,
    /// Of those, of unknown state.
    pub unknown: u64,
}

/// What is known of the candidate's metadata.
#[derive(Debug, Clone, Copy, PartialEq, Eq, Structural)]
pub struct MetadataFacts {
    /// The metadata record itself is sound.
    pub valid_record: bool,
    /// A file name survives.
    pub filename_available: bool,
    /// The original parent directory is known.
    pub original_parent_available: bool,
    /// The parent reference can be trusted.
    pub parent_reference_valid: bool,
    /// The size in bytes, when known.
    pub logical_size: Option<u64>,
    /// Timestamps survive.
    pub timestamps_available: bool,
}

/// A remark on a candidate.
#[derive(Debug, Clone, Copy, PartialEq, Eq, Structural)]
pub enum Note {
    /// FAT: the short name's first character was lost on deletion.
    LostFirstCharacter,
    /// FAT: the long name comes from entries whose checksum cannot be
    /// verified any more.
    LongNameUnverified,
    /// The path passes through a deleted directory.
    ViaDeletedDirectory,
    /// The clusters could not be determined.
    ClustersUndetermined,
    /// exFAT: the entry set's checksum does not match.
    EntrySetChecksumMismatch,
    /// exFAT: the FAT chain is gone and the file is assumed contiguous.
    AssumedContiguous,
    /// ext: other names referred to the inode.
    OtherNames,
    /// ext: the inode was deleted at this time.
    DeletedAt(u32),
    /// ext: the inode was reused; the layout is an earlier file's.
    Reused,
    /// ext: the layout comes from this journal transaction, with this
    /// checksum outcome.
    JournalLayout {
        /// Transaction sequence.
        sequence: u32,
        /// Checksum outcome of the logged block.
        checksum_ok: Option<bool>,
    },
    /// ext: the file was modified (at `modified`) after the journal copy
    /// (modified at `copied`) was written.
    StaleJournalCopy {
        /// Modification time of the current inode.
        modified: u32,
        /// Modification time of the journal copy.
        copied: u32,
    },
    /// ext: the deleted inode still carries its block map.
    BlockMapKept,
    /// ext: the journal shows the file was empty.
    KnownEmpty,
    /// ext: no journal copy of the inode survives.
    NoJournalCopy,
    /// ext: the file system has no journal.
    NoJournal,
    /// NTFS: the file record's diagnostic at this index.
    FileDiagnostic(usize),
    /// NTFS: the path's diagnostic at this index.
    PathDiagnostic(usize),
}

/// Whether a note is a warning rather than information.
pub open spec fn note_warns(n: Note) -> bool {
    match n {
        Note::LongNameUnverified | Note::ViaDeletedDirectory | Note::OtherNames | Note::DeletedAt(_)
        | Note::BlockMapKept | Note::KnownEmpty => false,
        Note::JournalLayout { checksum_ok, .. } => checksum_ok == Some(false),
        _ => true,
    }
}

impl Note {
    /// Whether the note is a warning rather than information.
    pub fn is_warning(&self) -> (b: bool)
        ensures
            b == note_warns(*self),
    {
        match self {
            Note::LongNameUnverified | Note::ViaDeletedDirectory | Note::OtherNames | Note::DeletedAt(_)
            | Note::BlockMapKept | Note::KnownEmpty => false,
            Note::JournalLayout { checksum_ok, .. } => match checksum_ok {
                Some(false) => true,
                _ => false,
            },
            _ => true,
        }
    }
}

/// The facts of a candidate.
#[derive(Debug, Clone)]
pub struct CandidateFacts {
    /// The layout was read from an older copy (the ext journal).
    pub from_journal: bool,
    /// Metadata.
    pub metadata: MetadataFacts,
    /// Layout.
    pub extents: ExtentFacts,
    /// Allocation.
    pub allocation: AllocationFacts,
    /// Remarks, in order.
    pub notes: Vec<Note>,
}

/// `size / cs` rounded up.
pub open spec fn ceil_div(size: int, cs: int) -> int {
    (size + cs - 1) / cs
}

/// `size / cs` rounded up, for `cs > 0`.
pub fn div_ceil(size: u64, cs: u64) -> (r: u64)
    requires
        cs > 0,
    ensures
        r == ceil_div(size as int, cs as int),
{
    let q = size / cs;
    proof {
        vstd::arithmetic::div_mod::lemma_fundamental_div_mod(size as int, cs as int);
        assert(size % cs != 0 ==> q < u64::MAX) by (nonlinear_arith)
            requires
                q == size / cs,
                cs > 0,
        ;
    }
    let r = if size % cs == 0 {
        q
    } else {
        q + 1
    };
    proof {
        let s = size as int;
        let c = cs as int;
        let m = s % c;
        assert(s == (s / c) * c + m) by (nonlinear_arith)
            requires
                s == c * (s / c) + s % c,
                m == s % c,
        ;
        if m == 0 {
            vstd::arithmetic::div_mod::lemma_fundamental_div_mod_converse(s + c - 1, c, s / c, c - 1);
        } else {
            assert(s + c - 1 == (s / c + 1) * c + (m - 1)) by (nonlinear_arith)
                requires
                    s == (s / c) * c + m,
            ;
            vstd::arithmetic::div_mod::lemma_fundamental_div_mod_converse(s + c - 1, c, s / c + 1, m - 1);
        }
    }
    r
}

/// Extent facts where nothing is known but these.
pub open spec fn bare_extents(complete: bool, chain_known: bool, total: Option<u64>, expected: Option<u64>) -> ExtentFacts {
    ExtentFacts {
        resident: false,
        complete,
        extent_count: 0,
        total_clusters: total,
        expected_clusters: expected,
        sparse: false,
        compressed: false,
        encrypted: false,
        chain_known,
        heuristic: false,
        start_inferred: false,
        stale: false,
    }
}

/// Allocation facts with nothing counted.
pub open spec fn no_allocation(map_available: bool) -> AllocationFacts {
    AllocationFacts { map_available, total: 0, free: 0, allocated: 0, unknown: 0 }
}

} // verus!
