//! Recognising NTFS by validating the whole boot sector, not just its OEM
//! ID.

use vstd::prelude::*;

use crate::ntfs::boot::{ntfs_oem, parsed_from, valid_boot, NtfsBootSector};
use crate::ntfs::error::{error_text, NtfsError};
use crate::probe::{is_negative, observed, FileSystemType, ProbeEvidence, ProbeResult};
use crate::text::{decimal, push_decimal, push_str};

verus! {

/// The NTFS probe.
#[derive(Debug, Default, Clone, Copy)]
pub struct NtfsProbe;

/// Whether bytes `3..11` of `sector` hold the OEM ID `NTFS    `.
pub open spec fn oem_is_ntfs(sector: Seq<u8>) -> bool {
    sector.len() >= 11 && ntfs_oem(sector)
}

/// The geometry observed in a valid boot sector.
pub open spec fn geometry_text(b: NtfsBootSector) -> Seq<char> {
    "valid geometry: "@ + decimal(b.bytes_per_sector as nat) + " bytes/sector, "@ + decimal(
        b.cluster_size as nat,
    ) + " bytes/cluster, "@ + decimal(b.mft_record_size as nat) + "-byte MFT records"@
}

/// Where the MFT lies.
pub open spec fn mft_text(b: NtfsBootSector) -> Seq<char> {
    "$MFT at LCN "@ + decimal(b.mft_lcn as nat) + " lies inside the volume"@
}

/// Whether the declared size fits the source.
pub open spec fn size_text(b: NtfsBootSector, fits: bool) -> Seq<char> {
    if fits {
        "declared size of "@ + decimal(b.total_sectors as nat) + " sectors fits the source"@
    } else {
        "declared size of "@ + decimal(b.total_sectors as nat)
            + " sectors exceeds the source (truncated image or wrong partition bounds)"@
    }
}

/// What probing a source of `source_len` bytes whose first 512 bytes are
/// `sector` finds: too short a source or another OEM ID is a plain
/// negative; a valid boot sector gives 95, or 75 when its declared size
/// does not fit the source; an invalid one gives 25.
pub open spec fn ntfs_findings(r: ProbeResult, source_len: u64, sector: Seq<u8>) -> bool {
    if source_len < 512 {
        is_negative(r, FileSystemType::Ntfs, "source shorter than a boot sector"@)
    } else if !oem_is_ntfs(sector) {
        is_negative(r, FileSystemType::Ntfs, "OEM ID is not \"NTFS    \""@)
    } else {
        &&& r.filesystem == FileSystemType::Ntfs
        &&& observed(r.evidence@[0], true, "OEM ID is \"NTFS    \""@)
        &&& if valid_boot(sector) {
            exists|b: NtfsBootSector|
                #[trigger] parsed_from(b, sector) && {
                    let fits = b.total_sectors * b.bytes_per_sector <= source_len;
                    &&& r.confidence == (if fits {
                        95u8
                    } else {
                        75u8
                    })
                    &&& r.evidence@.len() == 5
                    &&& observed(r.evidence@[1], true, geometry_text(b))
                    &&& observed(r.evidence@[2], true, "55 AA boot signature present"@)
                    &&& observed(r.evidence@[3], true, mft_text(b))
                    &&& observed(r.evidence@[4], fits, size_text(b, fits))
                }
        } else {
            &&& r.confidence == 25
            &&& r.evidence@.len() == 2
            &&& exists|e: NtfsError|
                e is InvalidBootSector && #[trigger] observed(
                    r.evidence@[1],
                    false,
                    "boot sector fails validation: "@ + error_text(e),
                )
        }
    }
}

fn has_ntfs_oem(sector: &[u8]) -> (b: bool)
    ensures
        b == oem_is_ntfs(sector@),
{
    sector.len() >= 11 && sector[3] == 0x4E && sector[4] == 0x54 && sector[5] == 0x46 && sector[6]
        == 0x53 && sector[7] == 0x20 && sector[8] == 0x20 && sector[9] == 0x20 && sector[10] == 0x20
}

impl NtfsProbe {
    /// The file system this probe looks for.
    pub fn filesystem(&self) -> (t: FileSystemType)
        ensures
            t == FileSystemType::Ntfs,
    {
        FileSystemType::Ntfs
    }

    /// Probes a source of `source_len` bytes whose first 512 bytes are
    /// `sector` (ignored when the source is shorter); see
    /// [`ntfs_findings`].
    pub fn probe(&self, source_len: u64, sector: &[u8]) -> (r: ProbeResult)
        ensures
            ntfs_findings(r, source_len, sector@),
    {
        if source_len < 512 {
            return ProbeResult::negative(FileSystemType::Ntfs, "source shorter than a boot sector".to_owned());
        }
        if !has_ntfs_oem(sector) {
            return ProbeResult::negative(FileSystemType::Ntfs, "OEM ID is not \"NTFS    \"".to_owned());
        }
        let mut evidence: Vec<ProbeEvidence> = Vec::new();
        evidence.push(ProbeEvidence::supports("OEM ID is \"NTFS    \"".to_owned()));
        match NtfsBootSector::parse(sector) {
            Ok(boot) => {
                let mut g = String::new();
                push_str(&mut g, "valid geometry: ");
                push_decimal(&mut g, boot.bytes_per_sector as u64);
                push_str(&mut g, " bytes/sector, ");
                push_decimal(&mut g, boot.cluster_size as u64);
                push_str(&mut g, " bytes/cluster, ");
                push_decimal(&mut g, boot.mft_record_size as u64);
                push_str(&mut g, "-byte MFT records");
                assert(g@ =~= geometry_text(boot));
                evidence.push(ProbeEvidence::supports(g));
                evidence.push(ProbeEvidence::supports("55 AA boot signature present".to_owned()));
                let mut m = String::new();
                push_str(&mut m, "$MFT at LCN ");
                push_decimal(&mut m, boot.mft_lcn);
                push_str(&mut m, " lies inside the volume");
                assert(m@ =~= mft_text(boot));
                evidence.push(ProbeEvidence::supports(m));
                let fits = boot.fits_in(source_len);
                let mut t = String::new();
                push_str(&mut t, "declared size of ");
                push_decimal(&mut t, boot.total_sectors);
                let confidence: u8 = if fits {
                    push_str(&mut t, " sectors fits the source");
                    assert(t@ =~= size_text(boot, fits));
                    evidence.push(ProbeEvidence::supports(t));
                    95
                } else {
                    push_str(&mut t, " sectors exceeds the source (truncated image or wrong partition bounds)");
                    assert(t@ =~= size_text(boot, fits));
                    evidence.push(ProbeEvidence::contradicts(t));
                    75
                };
                let r = ProbeResult { filesystem: FileSystemType::Ntfs, confidence, evidence };
                assert(parsed_from(boot, sector@));
                r
            },
            Err(e) => {
                let mut t = String::new();
                push_str(&mut t, "boot sector fails validation: ");
                let et = e.to_text();
                push_str(&mut t, et.as_str());
                assert(t@ =~= "boot sector fails validation: "@ + error_text(e));
                evidence.push(ProbeEvidence::contradicts(t));
                let r = ProbeResult { filesystem: FileSystemType::Ntfs, confidence: 25, evidence };
                assert(observed(r.evidence@[1], false, "boot sector fails validation: "@ + error_text(e)));
                r
            },
        }
    }
}

} // verus!
