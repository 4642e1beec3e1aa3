//! Descriptions of `$DATA` streams.

use vstd::prelude::*;

use crate::ntfs::runlist::{data_runs, extent_count, run_clusters, NtfsRun};

verus! {

/// Where a data stream's bytes live.
#[derive(Debug, Clone, PartialEq, Eq)]
pub enum DataStorage {
    /// Inside the FILE record.
    Resident {
        /// The attribute value.
        value: Vec<u8>,
    },
    /// In clusters described by a runlist.
    NonResident {
        /// Runs in VCN order.
        runs: Vec<NtfsRun>,
        /// Logical size in bytes.
        real_size: u64,
        /// Initialized size in bytes (bytes beyond read as zero).
        initialized_size: u64,
        /// Allocated size in bytes.
        allocated_size: u64,
        /// Whether every extent of the stream was found.
        complete: bool,
    },
    /// Compressed: reading is not supported.
    UnsupportedCompressed {
        /// Runs in VCN order.
        runs: Vec<NtfsRun>,
        /// Logical size in bytes.
        real_size: u64,
        /// Compression unit (log2 clusters).
        compression_unit: u8,
    },
    /// Encrypted (EFS): reading is not supported.
    UnsupportedEncrypted {
        /// Runs in VCN order.
        runs: Vec<NtfsRun>,
        /// Logical size in bytes.
        real_size: u64,
    },
}

/// The runs of a storage: none for a resident one.
pub open spec fn storage_runs(s: DataStorage) -> Seq<NtfsRun> {
    match s {
        DataStorage::Resident { .. } => Seq::empty(),
        DataStorage::NonResident { runs, .. } => runs@,
        DataStorage::UnsupportedCompressed { runs, .. } => runs@,
        DataStorage::UnsupportedEncrypted { runs, .. } => runs@,
    }
}

/// Clusters of the non-sparse runs, saturating at `u64::MAX`.
pub open spec fn data_clusters_sum(runs: Seq<NtfsRun>) -> int
    decreases runs.len(),
{
    if runs.len() == 0 {
        0
    } else {
        let prev = data_clusters_sum(runs.drop_last());
        let s = if runs.last() is Sparse {
            prev
        } else {
            prev + run_clusters(runs.last())
        };
        if s > u64::MAX {
            u64::MAX as int
        } else {
            s
        }
    }
}

impl DataStorage {
    /// The runs, empty for resident data.
    pub fn runs(&self) -> (r: &[NtfsRun])
        ensures
            r@ == storage_runs(*self),
    {
        match self {
            DataStorage::Resident { .. } => &[],
            DataStorage::NonResident { runs, .. } => runs.as_slice(),
            DataStorage::UnsupportedCompressed { runs, .. } => runs.as_slice(),
            DataStorage::UnsupportedEncrypted { runs, .. } => runs.as_slice(),
        }
    }

    /// Whether the stream can be read (resident or plain non-resident).
    pub fn is_readable(&self) -> (r: bool)
        ensures
            r == (*self is Resident || *self is NonResident),
    {
        match self {
            DataStorage::Resident { .. } => true,
            DataStorage::NonResident { .. } => true,
            _ => false,
        }
    }

    /// Whether the data is resident.
    pub fn is_resident(&self) -> (r: bool)
        ensures
            r == (*self is Resident),
    {
        match self {
            DataStorage::Resident { .. } => true,
            _ => false,
        }
    }
}

/// A data stream of a file, as found in its attributes.
#[derive(Debug, Clone, PartialEq, Eq)]
pub struct DataStreamDescriptor {
    /// Stream name (`None` for the unnamed default stream).
    pub name: Option<String>,
    /// Logical size in bytes.
    pub logical_size: u64,
    /// Storage.
    pub storage: DataStorage,
    /// Attribute flags.
    pub flags: u16,
}

impl DataStreamDescriptor {
    /// Whether this is the unnamed default stream (no name, or an empty one).
    pub fn is_unnamed(&self) -> (r: bool)
        ensures
            r == match self.name {
                None => true,
                Some(n) => n@.len() == 0,
            },
    {
        match &self.name {
            None => true,
            Some(n) => n.as_str().is_empty(),
        }
    }

    /// Number of physical extents (data runs), saturating at `u32::MAX`.
    pub fn extent_count(&self) -> (c: u32)
        ensures
            c == (if data_runs(storage_runs(self.storage)) > u32::MAX {
                u32::MAX as int
            } else {
                data_runs(storage_runs(self.storage)) as int
            }),
    {
        extent_count(self.storage.runs())
    }

    /// Clusters physically stored (non-sparse runs), saturating.
    pub fn data_clusters(&self) -> (t: u64)
        ensures
            t == data_clusters_sum(storage_runs(self.storage)),
    {
        let runs = self.storage.runs();
        let mut acc: u64 = 0;
        let mut i: usize = 0;
        let n = runs.len();
        while i < n
            invariant
                n == runs@.len(),
                runs@ == storage_runs(self.storage),
                i <= n,
                acc == data_clusters_sum(runs@.subrange(0, i as int)),
            decreases n - i,
        {
            assert(runs@.subrange(0, i + 1).drop_last() =~= runs@.subrange(0, i as int));
            if !runs[i].is_sparse() {
                acc = match acc.checked_add(runs[i].clusters()) {
                    Some(v) => v,
                    None => u64::MAX,
                };
            }
            i = i + 1;
        }
        assert(runs@.subrange(0, n as int) =~= runs@);
        acc
    }

    /// Whether any run is sparse.
    pub fn has_sparse_runs(&self) -> (b: bool)
        ensures
            b == exists|i: int|
                0 <= i < storage_runs(self.storage).len() && #[trigger] storage_runs(
                    self.storage,
                )[i] is Sparse,
    {
        let runs = self.storage.runs();
        let n = runs.len();
        let mut i: usize = 0;
        while i < n
            invariant
                n == runs@.len(),
                runs@ == storage_runs(self.storage),
                i <= n,
                forall|j: int| 0 <= j < i ==> !(#[trigger] runs@[j] is Sparse),
            decreases n - i,
        {
            if runs[i].is_sparse() {
                return true;
            }
            i = i + 1;
        }
        false
    }
}

} // verus!
