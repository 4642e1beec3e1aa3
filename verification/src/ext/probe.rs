//! Recognising ext2/3/4 by its superblock.

use vstd::prelude::*;

use crate::ext::error::{error_text, ExtError};
use crate::ext::superblock::{parsed_from, valid_superblock, Superblock, SUPERBLOCK_OFFSET};
use crate::probe::{is_negative, observations, FileSystemType, ProbeEvidence, ProbeResult};
use crate::text::{debug_text, decimal, push_debug, push_decimal, push_str};

verus! {

/// The ext probe.
#[derive(Debug, Default, Clone, Copy)]
pub struct ExtProbe;

/// The flavour name of a superblock (see [`Superblock::flavour`]).
pub open spec fn flavour_name(b: Superblock) -> Seq<char> {
    if b.feature_incompat & 0x40u32 != 0 || b.feature_incompat & 0x80u32 != 0 || b.feature_incompat
        & 0x200u32 != 0 {
        "ext4"@
    } else if b.feature_compat & 0x4u32 != 0 {
        "ext3"@
    } else {
        "ext2"@
    }
}

/// Whether the declared size fits a source of `source_len` bytes, with one
/// block of slack (both sides saturated to `u64`).
pub open spec fn size_fits(b: Superblock, source_len: u64) -> bool {
    let declared = b.blocks_count * b.block_size;
    let room = source_len + b.block_size;
    (if declared > u64::MAX {
        u64::MAX as int
    } else {
        declared
    }) <= (if room > u64::MAX {
        u64::MAX as int
    } else {
        room
    })
}

/// Confidence for a valid superblock: 80, plus 5 when the size fits or
/// minus 15 when not, plus 10 for a matching checksum or minus 20 for a
/// mismatch.
pub open spec fn valid_confidence(b: Superblock, source_len: u64) -> u8 {
    let c: int = if size_fits(b, source_len) {
        85
    } else {
        65
    };
    let d: int = match b.checksum_ok {
        Some(true) => c + 10,
        Some(false) => c - 20,
        None => c,
    };
    d as u8
}

/// The observations for a valid superblock.
pub open spec fn valid_evidence(b: Superblock, source_len: u64) -> Seq<(bool, Seq<char>)> {
    let head = seq![
        (true, "superblock magic 0xEF53 present"@),
        (
            true,
            flavour_name(b) + ": "@ + decimal(b.blocks_count as nat) + " blocks of "@ + decimal(
                b.block_size as nat,
            ) + " bytes, "@ + decimal(b.inodes_count as nat) + " inodes"@,
        ),
    ];
    let size = if size_fits(b, source_len) {
        seq![(true, "declared size fits the source"@)]
    } else {
        seq![(false, "declared size exceeds the source"@)]
    };
    let sums = match b.checksum_ok {
        Some(true) => seq![(true, "superblock checksum matches"@)],
        Some(false) => seq![(false, "superblock checksum does not match"@)],
        None => seq![],
    };
    let label = if b.volume_name@.len() > 0 {
        seq![(true, "volume label "@ + debug_text(b.volume_name@))]
    } else {
        seq![]
    };
    head + size + sums + label
}

/// What probing a source of `source_len` bytes finds whose superblock
/// (1024 bytes at offset 1024) is `bytes`: too short a source or an
/// invalid superblock is a plain negative; a valid one is scored by
/// [`valid_confidence`].
pub open spec fn ext_findings(r: ProbeResult, source_len: u64, bytes: Seq<u8>) -> bool {
    if source_len < SUPERBLOCK_OFFSET + 1024 {
        is_negative(r, FileSystemType::Ext, "source shorter than a superblock"@)
    } else if !valid_superblock(bytes) {
        exists|e: ExtError| e is InvalidSuperblock && #[trigger] is_negative(r, FileSystemType::Ext, error_text(e))
    } else {
        exists|b: Superblock|
            #[trigger] parsed_from(b, bytes) && r.filesystem == FileSystemType::Ext && r.confidence
                == valid_confidence(b, source_len) && observations(r, valid_evidence(b, source_len))
    }
}

impl ExtProbe {
    /// The file system this probe looks for.
    pub fn filesystem(&self) -> (t: FileSystemType)
        ensures
            t == FileSystemType::Ext,
    {
        FileSystemType::Ext
    }

    /// Probes a source of `source_len` bytes whose superblock bytes are
    /// `bytes` (ignored when the source is too short); see
    /// [`ext_findings`].
    pub fn probe(&self, source_len: u64, bytes: &[u8]) -> (r: ProbeResult)
        ensures
            ext_findings(r, source_len, bytes@),
    {
        if source_len < SUPERBLOCK_OFFSET + 1024 {
            return ProbeResult::negative(FileSystemType::Ext, "source shorter than a superblock".to_owned());
        }
        let sb = match Superblock::parse(bytes) {
            Ok(sb) => sb,
            Err(e) => {
                let r = ProbeResult::negative(FileSystemType::Ext, e.to_text());
                assert(is_negative(r, FileSystemType::Ext, error_text(e)));
                return r;
            },
        };
        let mut evidence: Vec<ProbeEvidence> = Vec::new();
        evidence.push(ProbeEvidence::supports("superblock magic 0xEF53 present".to_owned()));
        let mut t = String::new();
        push_str(&mut t, sb.flavour());
        push_str(&mut t, ": ");
        push_decimal(&mut t, sb.blocks_count);
        push_str(&mut t, " blocks of ");
        push_decimal(&mut t, sb.block_size as u64);
        push_str(&mut t, " bytes, ");
        push_decimal(&mut t, sb.inodes_count as u64);
        push_str(&mut t, " inodes");
        evidence.push(ProbeEvidence::supports(t));
        let mut confidence: u8 = 80;
        let declared = match sb.blocks_count.checked_mul(sb.block_size as u64) {
            Some(v) => v,
            None => u64::MAX,
        };
        let room = match source_len.checked_add(sb.block_size as u64) {
            Some(v) => v,
            None => u64::MAX,
        };
        if declared <= room {
            evidence.push(ProbeEvidence::supports("declared size fits the source".to_owned()));
            confidence = confidence + 5;
        } else {
            evidence.push(ProbeEvidence::contradicts("declared size exceeds the source".to_owned()));
            confidence = confidence - 15;
        }
        match sb.checksum_ok {
            Some(true) => {
                evidence.push(ProbeEvidence::supports("superblock checksum matches".to_owned()));
                confidence = confidence + 10;
            },
            Some(false) => {
                evidence.push(ProbeEvidence::contradicts("superblock checksum does not match".to_owned()));
                confidence = confidence - 20;
            },
            None => {},
        }
        if !sb.volume_name.as_str().is_empty() {
            let mut l = String::new();
            push_str(&mut l, "volume label ");
            push_debug(&mut l, sb.volume_name.as_str());
            evidence.push(ProbeEvidence::supports(l));
        }
        let r = ProbeResult { filesystem: FileSystemType::Ext, confidence, evidence };
        proof {
            let ev = valid_evidence(sb, source_len);
            assert(ev[1].1 =~= flavour_name(sb) + ": "@ + decimal(sb.blocks_count as nat) + " blocks of "@
                + decimal(sb.block_size as nat) + " bytes, "@ + decimal(sb.inodes_count as nat)
                + " inodes"@);
            assert(r.evidence@.len() == ev.len());
            assert(parsed_from(sb, bytes@));
        }
        r
    }
}

} // verus!
