//! What probing a source for a file system concludes: a confidence and the
//! observations for and against it.

use vstd::prelude::*;

verus! {

/// File systems a probe recognises.
#[derive(Debug, Clone, Copy, PartialEq, Eq, Structural)]
pub enum FileSystemType {
    /// FAT12.
    Fat12,
    /// FAT16.
    Fat16,
    /// FAT32.
    Fat32,
    /// exFAT.
    ExFat,
    /// NTFS.
    Ntfs,
    /// ext2/3/4.
    Ext,
}

/// One observation, for or against the file system.
#[derive(Debug, Clone)]
pub struct ProbeEvidence {
    /// Whether it speaks for the file system.
    pub supports: bool,
    /// What was observed.
    pub detail: String,
}

/// The outcome of probing a source for one file system.
#[derive(Debug, Clone)]
pub struct ProbeResult {
    /// The file system probed for (for FAT, the variant found).
    pub filesystem: FileSystemType,
    /// Confidence, 0 to 100.
    pub confidence: u8,
    /// The observations, in the order they were made.
    pub evidence: Vec<ProbeEvidence>,
}

/// Confidence from which a probe counts as a match.
pub const POSITIVE_CONFIDENCE: u8 = 50;

/// Whether `e` is an observation `supports` of `detail`.
pub open spec fn observed(e: ProbeEvidence, supports: bool, detail: Seq<char>) -> bool {
    e.supports == supports && e.detail@ == detail
}

/// Whether the evidence of `r` is `ev`, observation by observation: for or
/// against, and what.
pub open spec fn observations(r: ProbeResult, ev: Seq<(bool, Seq<char>)>) -> bool {
    &&& r.evidence@.len() == ev.len()
    &&& forall|i: int| 0 <= i < ev.len() ==> #[trigger] observed(r.evidence@[i], ev[i].0, ev[i].1)
}

/// Whether `r` is the plain negative answer for `fs`: no confidence and a
/// single observation against it, `detail`.
pub open spec fn is_negative(r: ProbeResult, fs: FileSystemType, detail: Seq<char>) -> bool {
    &&& r.filesystem == fs
    &&& r.confidence == 0
    &&& r.evidence@.len() == 1
    &&& observed(r.evidence@[0], false, detail)
}

impl ProbeEvidence {
    /// An observation for the file system.
    pub fn supports(detail: String) -> (e: Self)
        ensures
            observed(e, true, detail@),
    {
        ProbeEvidence { supports: true, detail }
    }

    /// An observation against the file system.
    pub fn contradicts(detail: String) -> (e: Self)
        ensures
            observed(e, false, detail@),
    {
        ProbeEvidence { supports: false, detail }
    }
}

impl ProbeResult {
    /// The plain negative answer: no confidence, one observation against.
    pub fn negative(filesystem: FileSystemType, detail: String) -> (r: Self)
        ensures
            is_negative(r, filesystem, detail@),
    {
        let mut evidence: Vec<ProbeEvidence> = Vec::new();
        evidence.push(ProbeEvidence::contradicts(detail));
        ProbeResult { filesystem, confidence: 0, evidence }
    }

    /// Whether the probe counts as a match (see [`POSITIVE_CONFIDENCE`]).
    pub fn is_positive(&self) -> (b: bool)
        ensures
            b == (self.confidence >= POSITIVE_CONFIDENCE),
    {
        self.confidence >= POSITIVE_CONFIDENCE
    }
}

} // verus!
