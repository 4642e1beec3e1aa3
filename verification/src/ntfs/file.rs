//! A logical file (or directory) as reconstructed from its MFT records.

use vstd::prelude::*;

use crate::ntfs::data::DataStreamDescriptor;
use crate::ntfs::diagnostic::NtfsDiagnostic;
use crate::ntfs::filename::{is_preferred, preferred_name, FileNameAttribute};
use crate::ntfs::record::FileReference;
use crate::ntfs::standard_information::StandardInformation;

verus! {

/// A file (or directory) as reconstructed from its MFT records.
#[derive(Debug, Clone, PartialEq, Eq)]
pub struct NtfsFile {
    /// Base record reference.
    pub reference: FileReference,
    /// Whether the base record is in use.
    pub in_use: bool,
    /// Whether the record describes a directory.
    pub directory: bool,
    /// Whether the record is a base record (not an extension).
    pub is_base: bool,
    /// Hard link count from the header.
    pub hard_link_count: u16,
    /// `$FILE_NAME` attributes (all namespaces).
    pub names: Vec<FileNameAttribute>,
    /// `$DATA` streams.
    pub streams: Vec<DataStreamDescriptor>,
    /// `$STANDARD_INFORMATION`, if present.
    pub standard_information: Option<StandardInformation>,
    /// Whether the record carries an `$ATTRIBUTE_LIST`.
    pub has_attribute_list: bool,
    /// Extension records that contributed attributes.
    pub extension_records: Vec<u64>,
    /// Findings made during assembly.
    pub diagnostics: Vec<NtfsDiagnostic>,
}

/// Whether a stream is the unnamed one (no name, or an empty one).
pub open spec fn stream_unnamed(s: DataStreamDescriptor) -> bool {
    match s.name {
        None => true,
        Some(n) => n@.len() == 0,
    }
}

/// Whether a stream is named `n`.
pub open spec fn stream_named(s: DataStreamDescriptor, n: Seq<char>) -> bool {
    match s.name {
        None => false,
        Some(x) => x@ == n,
    }
}

/// Whether `k` is the index of the first unnamed stream.
pub open spec fn first_unnamed(streams: Seq<DataStreamDescriptor>, k: int) -> bool {
    &&& 0 <= k < streams.len()
    &&& stream_unnamed(streams[k])
    &&& forall|j: int| 0 <= j < k ==> !stream_unnamed(#[trigger] streams[j])
}

/// Whether `k` is the index of the first stream named `n`.
pub open spec fn first_named(streams: Seq<DataStreamDescriptor>, k: int, n: Seq<char>) -> bool {
    &&& 0 <= k < streams.len()
    &&& stream_named(streams[k], n)
    &&& forall|j: int| 0 <= j < k ==> !stream_named(#[trigger] streams[j], n)
}

impl NtfsFile {
    /// Preferred display name (Win32 over DOS), if any.
    pub fn name(&self) -> (r: Option<&str>)
        ensures
            self.names@.len() == 0 ==> r is None,
            self.names@.len() > 0 ==> exists|k: int|
                is_preferred(self.names@, k) && (r matches Some(s) && s@ == self.names@[k].name@),
    {
        let p = preferred_name(self.names.as_slice());
        match p {
            Some(n) => {
                let r = Some(n.name.as_str());
                proof {
                    let k = choose|k: int| is_preferred(self.names@, k) && p == Some(&self.names@[k]);
                    assert(is_preferred(self.names@, k) && (r matches Some(s) && s@ == self.names@[k].name@));
                }
                r
            },
            None => None,
        }
    }

    /// The preferred `$FILE_NAME` attribute, if any.
    pub fn preferred_name(&self) -> (r: Option<&FileNameAttribute>)
        ensures
            self.names@.len() == 0 ==> r is None,
            self.names@.len() > 0 ==> exists|k: int|
                is_preferred(self.names@, k) && r == Some(&self.names@[k]),
    {
        preferred_name(self.names.as_slice())
    }

    /// The unnamed (default) data stream, if any: the first stream without
    /// a name or with an empty one.
    pub fn unnamed_stream(&self) -> (r: Option<&DataStreamDescriptor>)
        ensures
            match r {
                Some(s) => exists|k: int|
                    first_unnamed(self.streams@, k)
                        && s == &self.streams@[k],
                None => forall|j: int| 0 <= j < self.streams@.len() ==> !stream_unnamed(#[trigger] self.streams@[j]),
            },
    {
        let n = self.streams.len();
        let mut i: usize = 0;
        while i < n
            invariant
                n == self.streams@.len(),
                i <= n,
                forall|j: int| 0 <= j < i ==> !stream_unnamed(#[trigger] self.streams@[j]),
            decreases n - i,
        {
            if self.streams[i].is_unnamed() {
                assert(first_unnamed(self.streams@, i as int));
                return Some(&self.streams[i]);
            }
            i = i + 1;
        }
        None
    }

    /// A data stream by name: the unnamed stream for `None` or an empty
    /// name, else the first stream of that name.
    pub fn stream(&self, name: Option<&str>) -> (r: Option<&DataStreamDescriptor>)
        ensures
            match name {
                Some(n) if n@.len() > 0 => match r {
                    Some(s) => exists|k: int|
                        first_named(self.streams@, k, n@)
                            && s == &self.streams@[k],
                    None => forall|j: int|
                        0 <= j < self.streams@.len() ==> !stream_named(#[trigger] self.streams@[j], n@),
                },
                _ => match r {
                    Some(s) => exists|k: int|
                        first_unnamed(self.streams@, k)
                            && s == &self.streams@[k],
                    None => forall|j: int| 0 <= j < self.streams@.len() ==> !stream_unnamed(#[trigger] self.streams@[j]),
                },
            },
    {
        match name {
            None => self.unnamed_stream(),
            Some(n) => {
                if n.is_empty() {
                    return self.unnamed_stream();
                }
                let wanted = n.to_owned();
                let count = self.streams.len();
                let mut i: usize = 0;
                while i < count
                    invariant
                        count == self.streams@.len(),
                        i <= count,
                        wanted@ == n@,
                        n@.len() > 0,
                        name == Some(n),
                        forall|j: int|
                            0 <= j < i ==> !stream_named(#[trigger] self.streams@[j], n@),
                    decreases count - i,
                {
                    let hit = match &self.streams[i].name {
                        Some(x) => *x == wanted,
                        None => false,
                    };
                    if hit {
                        assert(first_named(self.streams@, i as int, n@));
                        return Some(&self.streams[i]);
                    }
                    i = i + 1;
                }
                None
            },
        }
    }

    /// Logical size of the unnamed stream, if any.
    pub fn size(&self) -> (r: Option<u64>)
        ensures
            match r {
                Some(v) => exists|k: int|
                    first_unnamed(self.streams@, k)
                        && v == self.streams@[k].logical_size,
                None => forall|j: int| 0 <= j < self.streams@.len() ==> !stream_unnamed(#[trigger] self.streams@[j]),
            },
    {
        match self.unnamed_stream() {
            Some(s) => Some(s.logical_size),
            None => None,
        }
    }
}

} // verus!
