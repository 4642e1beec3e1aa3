//! Recognising FAT12/16/32 by validating the BIOS Parameter Block and
//! reading the FAT's media byte.

use vstd::prelude::*;

use crate::fat::boot::{parsed_from, valid_boot, variant_label, variant_type, FatBootSector};
use crate::fat::error::{error_text, FatError};
use crate::probe::{is_negative, observations, FileSystemType, ProbeEvidence, ProbeResult};
use crate::text::{debug_text, decimal, push_debug, push_decimal, push_str};

verus! {

/// The FAT probe.
#[derive(Debug, Default, Clone, Copy)]
pub struct FatProbe;

/// `a + b`, saturated to `u64`.
pub open spec fn sat_add(a: int, b: int) -> int {
    if a + b > u64::MAX {
        u64::MAX as int
    } else {
        a + b
    }
}

/// Whether the source is long enough for the first FAT entry to be read.
pub open spec fn fat_head_readable(b: FatBootSector, source_len: u64) -> bool {
    source_len >= sat_add(b.fat_offset as int, 4)
}

/// Whether the first byte of the FAT is the media descriptor.
pub open spec fn media_matches(b: FatBootSector, fat_head: Seq<u8>) -> bool {
    fat_head.len() > 0 && fat_head[0] == b.media
}

/// Whether the declared volume (its byte length saturated to `u64`) is
/// longer than the source.
pub open spec fn too_long(b: FatBootSector, source_len: u64) -> bool {
    let n = b.total_sectors * b.bytes_per_sector;
    (if n > u64::MAX {
        u64::MAX as int
    } else {
        n
    }) > source_len
}

/// Confidence for a valid boot sector: 85; 92 when the FAT starts with
/// the media descriptor and 60 when it does not (if the source holds it);
/// at most 70 when the volume is longer than the source.
pub open spec fn valid_confidence(b: FatBootSector, source_len: u64, fat_head: Seq<u8>) -> u8 {
    let c: u8 = if fat_head_readable(b, source_len) {
        if media_matches(b, fat_head) {
            92
        } else {
            60
        }
    } else {
        85
    };
    if too_long(b, source_len) && c > 70 {
        70
    } else {
        c
    }
}

/// The observations for a valid boot sector.
pub open spec fn valid_evidence(b: FatBootSector, source_len: u64, fat_head: Seq<u8>) -> Seq<(bool, Seq<char>)> {
    let head = seq![
        (true, "BIOS Parameter Block fields are valid"@),
        (true, decimal(b.cluster_count as nat) + " data clusters imply "@ + variant_label(b.variant)),
        (true, "55 AA boot signature present"@),
    ];
    let media = if fat_head_readable(b, source_len) {
        if media_matches(b, fat_head) {
            seq![(true, "FAT[0] carries the media descriptor"@)]
        } else {
            seq![(false, "FAT[0] does not carry the media descriptor"@)]
        }
    } else {
        seq![]
    };
    let size = if too_long(b, source_len) {
        seq![(false, "declared size exceeds the source"@)]
    } else {
        seq![]
    };
    let label = if b.type_label@.len() > 0 {
        seq![(true, "type label "@ + debug_text(b.type_label@))]
    } else {
        seq![]
    };
    head + media + size + label
}

/// What probing a source of `source_len` bytes finds, whose first 512
/// bytes are `sector` and whose FAT starts with `fat_head` (four bytes
/// read at the FAT's offset when the source holds them): too short a
/// source or an invalid boot sector is a plain negative; a valid one is
/// scored by [`valid_confidence`] for the variant it declares.
pub open spec fn fat_findings(r: ProbeResult, source_len: u64, sector: Seq<u8>, fat_head: Seq<u8>) -> bool {
    if source_len < 512 {
        is_negative(r, FileSystemType::Fat32, "source shorter than a boot sector"@)
    } else if !valid_boot(sector) {
        exists|e: FatError|
            e is InvalidBootSector && #[trigger] is_negative(
                r,
                FileSystemType::Fat32,
                "not a FAT boot sector: "@ + error_text(e),
            )
    } else {
        exists|b: FatBootSector|
            #[trigger] parsed_from(b, sector) && r.filesystem == variant_type(b.variant) && r.confidence
                == valid_confidence(b, source_len, fat_head) && observations(
                r,
                valid_evidence(b, source_len, fat_head),
            )
    }
}

impl FatProbe {
    /// The file system this probe reports when nothing is found.
    pub fn filesystem(&self) -> (t: FileSystemType)
        ensures
            t == FileSystemType::Fat32,
    {
        FileSystemType::Fat32
    }

    /// Probes a source of `source_len` bytes whose first 512 bytes are
    /// `sector` (ignored when the source is shorter) and whose FAT starts
    /// with `fat_head`; see [`fat_findings`].
    pub fn probe(&self, source_len: u64, sector: &[u8], fat_head: &[u8]) -> (r: ProbeResult)
        ensures
            fat_findings(r, source_len, sector@, fat_head@),
    {
        if source_len < 512 {
            return ProbeResult::negative(FileSystemType::Fat32, "source shorter than a boot sector".to_owned());
        }
        let boot = match FatBootSector::parse(sector) {
            Ok(b) => b,
            Err(e) => {
                let mut t = String::new();
                push_str(&mut t, "not a FAT boot sector: ");
                let et = e.to_text();
                push_str(&mut t, et.as_str());
                assert(t@ =~= "not a FAT boot sector: "@ + error_text(e));
                let r = ProbeResult::negative(FileSystemType::Fat32, t);
                assert(is_negative(r, FileSystemType::Fat32, "not a FAT boot sector: "@ + error_text(e)));
                return r;
            },
        };
        let fs = boot.variant.filesystem_type();
        let mut evidence: Vec<ProbeEvidence> = Vec::new();
        evidence.push(ProbeEvidence::supports("BIOS Parameter Block fields are valid".to_owned()));
        let mut c = String::new();
        push_decimal(&mut c, boot.cluster_count as u64);
        push_str(&mut c, " data clusters imply ");
        push_str(&mut c, boot.variant.label());
        evidence.push(ProbeEvidence::supports(c));
        evidence.push(ProbeEvidence::supports("55 AA boot signature present".to_owned()));
        let mut confidence: u8 = 85;
        let end = match boot.fat_offset.checked_add(4) {
            Some(v) => v,
            None => u64::MAX,
        };
        if source_len >= end {
            if fat_head.len() > 0 && fat_head[0] == boot.media {
                evidence.push(ProbeEvidence::supports("FAT[0] carries the media descriptor".to_owned()));
                confidence = 92;
            } else {
                evidence.push(
                    ProbeEvidence::contradicts("FAT[0] does not carry the media descriptor".to_owned()),
                );
                confidence = 60;
            }
        }
        if boot.volume_bytes() > source_len {
            evidence.push(ProbeEvidence::contradicts("declared size exceeds the source".to_owned()));
            if confidence > 70 {
                confidence = 70;
            }
        }
        if !boot.type_label.as_str().is_empty() {
            let mut t = String::new();
            push_str(&mut t, "type label ");
            push_debug(&mut t, boot.type_label.as_str());
            evidence.push(ProbeEvidence::supports(t));
        }
        let r = ProbeResult { filesystem: fs, confidence, evidence };
        proof {
            let ev = valid_evidence(boot, source_len, fat_head@);
            assert(ev[1].1 =~= decimal(boot.cluster_count as nat) + " data clusters imply "@ + variant_label(boot.variant));
            assert(r.evidence@.len() == ev.len());
            assert(parsed_from(boot, sector@));
        }
        r
    }
}

} // verus!
