//! Recognising exFAT by validating the boot sector and the boot region
//! checksum.

use vstd::prelude::*;

use crate::bytes::le32;
use crate::exfat::boot::{exfat_oem, parsed_from, region_sum, valid_boot, ExfatBootSector};
use crate::exfat::error::{error_text, ExfatError};
use crate::probe::{is_negative, observations, observed, FileSystemType, ProbeEvidence, ProbeResult};
use crate::text::{decimal, push_decimal, push_str};

verus! {

/// The exFAT probe.
#[derive(Debug, Default, Clone, Copy)]
pub struct ExFatProbe;

/// Whether bytes `3..11` of `sector` hold the OEM name `EXFAT   `.
pub open spec fn oem_is_exfat(sector: Seq<u8>) -> bool {
    sector.len() >= 11 && exfat_oem(sector)
}

/// The outcome of the boot region check on `region`, the first twelve
/// sectors when they could be read.
pub open spec fn region_check(b: ExfatBootSector, region: Option<Seq<u8>>) -> Option<bool> {
    match region {
        None => None,
        Some(g) => {
            let n = 11 * b.bytes_per_sector;
            if n + 4 <= g.len() {
                Some(le32(g, n) == region_sum(g.subrange(0, n)))
            } else {
                None
            }
        },
    }
}

/// The geometry observed in a valid boot sector.
pub open spec fn geometry_text(b: ExfatBootSector) -> Seq<char> {
    "valid geometry: "@ + decimal(b.bytes_per_sector as nat) + " bytes/sector, "@ + decimal(
        b.cluster_size as nat,
    ) + " bytes/cluster, "@ + decimal(b.cluster_count as nat) + " clusters"@
}

/// Whether the declared volume (its byte length saturated to `u64`) is
/// longer than the source.
pub open spec fn too_long(b: ExfatBootSector, source_len: u64) -> bool {
    let n = b.volume_length * b.bytes_per_sector;
    (if n > u64::MAX {
        u64::MAX as int
    } else {
        n
    }) > source_len
}

/// Confidence for a valid boot sector: 90, 96 with a matching region
/// checksum, at most 75 when the volume is longer than the source.
pub open spec fn valid_confidence(b: ExfatBootSector, check: Option<bool>, source_len: u64) -> u8 {
    let c: u8 = if check == Some(true) {
        96
    } else {
        90
    };
    if too_long(b, source_len) {
        75
    } else {
        c
    }
}

/// The observations for a valid boot sector.
pub open spec fn valid_evidence(b: ExfatBootSector, check: Option<bool>, source_len: u64) -> Seq<(bool, Seq<char>)> {
    let head = seq![(true, "OEM name is EXFAT"@), (true, geometry_text(b))];
    let sums = match check {
        Some(true) => seq![(true, "boot region checksum matches"@)],
        Some(false) => seq![(false, "boot region checksum mismatch"@)],
        None => seq![],
    };
    let size = if too_long(b, source_len) {
        seq![(false, "declared volume length exceeds the source"@)]
    } else {
        seq![]
    };
    head + sums + size
}

/// What probing a source of `source_len` bytes finds, whose first 512
/// bytes are `sector` and whose first twelve sectors are `region` (when
/// they could be read): too short a source or another OEM name is a plain
/// negative; a valid boot sector is scored by [`valid_confidence`]; an
/// invalid one gives 25.
pub open spec fn exfat_findings(r: ProbeResult, source_len: u64, sector: Seq<u8>, region: Option<Seq<u8>>) -> bool {
    if source_len < 512 {
        is_negative(r, FileSystemType::ExFat, "source shorter than a boot sector"@)
    } else if !oem_is_exfat(sector) {
        is_negative(r, FileSystemType::ExFat, "OEM name is not EXFAT"@)
    } else {
        &&& r.filesystem == FileSystemType::ExFat
        &&& if valid_boot(sector) {
            exists|b: ExfatBootSector|
                #[trigger] parsed_from(b, sector) && r.confidence == valid_confidence(
                    b,
                    region_check(b, region),
                    source_len,
                ) && observations(r, valid_evidence(b, region_check(b, region), source_len))
        } else {
            &&& r.confidence == 25
            &&& r.evidence@.len() == 2
            &&& observed(r.evidence@[0], true, "OEM name is EXFAT"@)
            &&& exists|e: ExfatError|
                e is InvalidBootSector && #[trigger] observed(
                    r.evidence@[1],
                    false,
                    "boot sector fails validation: "@ + error_text(e),
                )
        }
    }
}

fn has_exfat_oem(sector: &[u8]) -> (b: bool)
    ensures
        b == oem_is_exfat(sector@),
{
    sector.len() >= 11 && sector[3] == 0x45 && sector[4] == 0x58 && sector[5] == 0x46 && sector[6]
        == 0x41 && sector[7] == 0x54 && sector[8] == 0x20 && sector[9] == 0x20 && sector[10] == 0x20
}

impl ExFatProbe {
    /// The file system this probe looks for.
    pub fn filesystem(&self) -> (t: FileSystemType)
        ensures
            t == FileSystemType::ExFat,
    {
        FileSystemType::ExFat
    }

    /// Probes a source of `source_len` bytes whose first 512 bytes are
    /// `sector` (ignored when the source is shorter) and whose first twelve
    /// sectors are `region`, `None` when they could not be read; see
    /// [`exfat_findings`].
    pub fn probe(&self, source_len: u64, sector: &[u8], region: Option<&[u8]>) -> (r: ProbeResult)
        ensures
            exfat_findings(
                r,
                source_len,
                sector@,
                match region {
                    Some(g) => Some(g@),
                    None => None,
                },
            ),
    {
        let ghost reg = match region {
            Some(g) => Some(g@),
            None => None::<Seq<u8>>,
        };
        if source_len < 512 {
            return ProbeResult::negative(FileSystemType::ExFat, "source shorter than a boot sector".to_owned());
        }
        if !has_exfat_oem(sector) {
            return ProbeResult::negative(FileSystemType::ExFat, "OEM name is not EXFAT".to_owned());
        }
        let mut evidence: Vec<ProbeEvidence> = Vec::new();
        evidence.push(ProbeEvidence::supports("OEM name is EXFAT".to_owned()));
        match ExfatBootSector::parse(sector) {
            Ok(boot) => {
                let mut g = String::new();
                push_str(&mut g, "valid geometry: ");
                push_decimal(&mut g, boot.bytes_per_sector as u64);
                push_str(&mut g, " bytes/sector, ");
                push_decimal(&mut g, boot.cluster_size as u64);
                push_str(&mut g, " bytes/cluster, ");
                push_decimal(&mut g, boot.cluster_count as u64);
                push_str(&mut g, " clusters");
                assert(g@ =~= geometry_text(boot));
                evidence.push(ProbeEvidence::supports(g));
                let mut confidence: u8 = 90;
                let check = match region {
                    Some(g) => boot.verify_region_checksum(g),
                    None => None,
                };
                assert(check == region_check(boot, reg));
                match check {
                    Some(true) => {
                        evidence.push(ProbeEvidence::supports("boot region checksum matches".to_owned()));
                        confidence = 96;
                    },
                    Some(false) => {
                        evidence.push(ProbeEvidence::contradicts("boot region checksum mismatch".to_owned()));
                    },
                    None => {},
                }
                if boot.volume_bytes() > source_len {
                    evidence.push(
                        ProbeEvidence::contradicts("declared volume length exceeds the source".to_owned()),
                    );
                    if confidence > 75 {
                        confidence = 75;
                    }
                }
                let r = ProbeResult { filesystem: FileSystemType::ExFat, confidence, evidence };
                proof {
                    let ev = valid_evidence(boot, check, source_len);
                    assert(r.evidence@.len() == ev.len());
                    assert forall|i: int| 0 <= i < ev.len() implies #[trigger] observed(
                        r.evidence@[i],
                        ev[i].0,
                        ev[i].1,
                    ) by {}
                    assert(parsed_from(boot, sector@));
                }
                r
            },
            Err(e) => {
                let mut t = String::new();
                push_str(&mut t, "boot sector fails validation: ");
                let et = e.to_text();
                push_str(&mut t, et.as_str());
                assert(t@ =~= "boot sector fails validation: "@ + error_text(e));
                evidence.push(ProbeEvidence::contradicts(t));
                let r = ProbeResult { filesystem: FileSystemType::ExFat, confidence: 25, evidence };
                assert(observed(r.evidence@[1], false, "boot sector fails validation: "@ + error_text(e)));
                r
            },
        }
    }
}

} // verus!
