//! NTFS boot sector (`$Boot`) parsing and validation.

use vstd::prelude::*;

use crate::bytes::{is_pow2, is_power_of_two, le16, le32, le64, pow2, pow2_u64, read_u16, read_u32, read_u64};
use crate::ntfs::error::NtfsError;
use crate::text::{ascii_chars, ascii_text};

verus! {

/// Smallest MFT/index record size accepted.
pub const MIN_RECORD_SIZE: u32 = 512;

/// Largest MFT/index record size accepted.
pub const MAX_RECORD_SIZE: u32 = 65536;

/// Largest cluster size accepted (Windows allows up to 2 MiB).
pub const MAX_CLUSTER_SIZE: u32 = 2097152;

/// Parsed and validated NTFS boot sector.
#[derive(Debug, Clone, PartialEq, Eq)]
pub struct NtfsBootSector {
    /// OEM identifier (normally `NTFS    `).
    pub oem_id: String,
    /// Bytes per sector.
    pub bytes_per_sector: u16,
    /// Sectors per cluster (decoded; may exceed 255 for large clusters).
    pub sectors_per_cluster: u32,
    /// Cluster size in bytes.
    pub cluster_size: u32,
    /// Media descriptor byte.
    pub media_descriptor: u8,
    /// Sectors before this volume on the disk (informational).
    pub hidden_sectors: u32,
    /// Total sectors in the volume (the final sector holds the backup boot
    /// sector and is not counted by Windows).
    pub total_sectors: u64,
    /// Logical cluster number of `$MFT`.
    pub mft_lcn: u64,
    /// Logical cluster number of `$MFTMirr`.
    pub mft_mirror_lcn: u64,
    /// Size of one MFT FILE record in bytes.
    pub mft_record_size: u32,
    /// Size of one index record in bytes.
    pub index_record_size: u32,
    /// Volume serial number.
    pub volume_serial: u64,
    /// Boot-sector checksum field (unused by Windows).
    pub checksum: u32,
}

/// The OEM identifier `NTFS` and four spaces at bytes `3..11`.
pub open spec fn ntfs_oem(s: Seq<u8>) -> bool {
    s[3] == 0x4E && s[4] == 0x54 && s[5] == 0x46 && s[6] == 0x53 && s[7] == 0x20 && s[8] == 0x20
        && s[9] == 0x20 && s[10] == 0x20
}

/// Sectors per cluster encoded by byte 13: values from `0x80` up encode
/// `2^(256 - value)` sectors, 0 when that does not fit 32 bits.
pub open spec fn sectors_per_cluster_of(raw: u8) -> int {
    if raw >= 0x80 {
        if 256 - raw < 32 {
            pow2((256 - raw) as nat) as int
        } else {
            0
        }
    } else {
        raw as int
    }
}

/// Record size encoded by a signed "clusters per record" byte: positive
/// values count clusters, negative values are `log2` of the size in bytes.
/// `None` when the size is not a power of two from 512 to 64 KiB.
pub open spec fn record_size_of(raw: u8, cluster_size: int) -> Option<int> {
    let size = if raw < 0x80 {
        raw * cluster_size
    } else if 256 - raw < 32 {
        pow2((256 - raw) as nat) as int
    } else {
        -1
    };
    if 512 <= size <= 65536 && is_pow2(size) {
        Some(size)
    } else {
        None
    }
}

/// Cluster size declared by a sector.
pub open spec fn cluster_size_of(s: Seq<u8>) -> int {
    sectors_per_cluster_of(s[13]) * le16(s, 11)
}

/// Whether the geometry fields (bytes 11..14) are acceptable.
pub open spec fn geometry_ok(s: Seq<u8>) -> bool {
    &&& is_pow2(le16(s, 11))
    &&& 256 <= le16(s, 11) <= 4096
    &&& sectors_per_cluster_of(s[13]) != 0
    &&& is_pow2(sectors_per_cluster_of(s[13]))
    &&& cluster_size_of(s) <= 2097152
}

/// Whether the fields that only FAT uses are zero.
pub open spec fn fat_fields_zero(s: Seq<u8>) -> bool {
    le16(s, 14) == 0 && s[16] == 0 && le16(s, 17) == 0 && le16(s, 19) == 0 && le16(s, 22) == 0
        && le32(s, 32) == 0
}

/// Whether `s` holds a valid NTFS boot sector: every check of
/// [`NtfsBootSector::parse`].
pub open spec fn valid_boot(s: Seq<u8>) -> bool {
    &&& s.len() >= 512
    &&& ntfs_oem(s)
    &&& geometry_ok(s)
    &&& fat_fields_zero(s)
    &&& le64(s, 40) != 0
    &&& le64(s, 48) < le64(s, 40) / sectors_per_cluster_of(s[13])
    &&& le64(s, 56) < le64(s, 40) / sectors_per_cluster_of(s[13])
    &&& record_size_of(s[64], cluster_size_of(s)) is Some
    &&& record_size_of(s[68], cluster_size_of(s)) is Some
    &&& le16(s, 510) == 0xAA55
}

/// The fields that [`NtfsBootSector::parse`] decodes from a valid sector.
pub open spec fn parsed_from(b: NtfsBootSector, s: Seq<u8>) -> bool {
    &&& b.oem_id@ == ascii_chars(s.subrange(3, 11))
    &&& b.bytes_per_sector == le16(s, 11)
    &&& b.sectors_per_cluster == sectors_per_cluster_of(s[13])
    &&& b.cluster_size == cluster_size_of(s)
    &&& b.media_descriptor == s[21]
    &&& b.hidden_sectors == le32(s, 28)
    &&& b.total_sectors == le64(s, 40)
    &&& b.mft_lcn == le64(s, 48)
    &&& b.mft_mirror_lcn == le64(s, 56)
    &&& b.mft_record_size == record_size_of(s[64], cluster_size_of(s))->0
    &&& b.index_record_size == record_size_of(s[68], cluster_size_of(s))->0
    &&& b.volume_serial == le64(s, 72)
    &&& b.checksum == le32(s, 80)
}

/// Decodes sectors per cluster from byte 13.
fn decode_sectors_per_cluster(raw: u8) -> (r: u64)
    ensures
        r == sectors_per_cluster_of(raw),
{
    if raw >= 0x80 {
        let shift: u32 = 256 - raw as u32;
        if shift < 32 {
            pow2_u64(shift)
        } else {
            0
        }
    } else {
        raw as u64
    }
}

/// Decodes the signed "clusters per record" byte.
fn decode_record_size(raw: u8, cluster_size: u64) -> (r: Option<u32>)
    requires
        cluster_size <= 2097152,
    ensures
        match r {
            Some(v) => record_size_of(raw, cluster_size as int) == Some(v as int),
            None => record_size_of(raw, cluster_size as int) is None,
        },
{
    let size: u64 = if raw < 0x80 {
        proof {
            assert(raw * cluster_size <= 128 * 2097152) by (nonlinear_arith)
                requires
                    raw < 128,
                    cluster_size <= 2097152,
            ;
        }
        raw as u64 * cluster_size
    } else {
        let shift: u32 = 256 - raw as u32;
        if shift < 32 {
            pow2_u64(shift)
        } else {
            return None;
        }
    };
    if 512 <= size && size <= 65536 && is_power_of_two(size) {
        Some(size as u32)
    } else {
        None
    }
}

proof fn lemma_pow2_32()
    ensures
        pow2(32) == 0x1_0000_0000,
{
    reveal_with_fuel(pow2, 33);
}

impl NtfsBootSector {
    /// Parses the first 512 bytes of a volume; fails with
    /// [`NtfsError::InvalidBootSector`] naming the first failed check.
    pub fn parse(sector: &[u8]) -> (r: Result<Self, NtfsError>)
        ensures
            match r {
                Ok(b) => valid_boot(sector@) && parsed_from(b, sector@),
                Err(e) => !valid_boot(sector@) && e is InvalidBootSector,
            },
    {
        let ghost s = sector@;
        if sector.len() < 512 {
            return Err(NtfsError::InvalidBootSector("truncated boot sector"));
        }
        if !(sector[3] == 0x4E && sector[4] == 0x54 && sector[5] == 0x46 && sector[6] == 0x53
            && sector[7] == 0x20 && sector[8] == 0x20 && sector[9] == 0x20 && sector[10] == 0x20) {
            return Err(NtfsError::InvalidBootSector("OEM ID is not \"NTFS    \""));
        }
        let bytes_per_sector = read_u16(sector, 11).unwrap();
        if !is_power_of_two(bytes_per_sector as u64) || bytes_per_sector < 256
            || bytes_per_sector > 4096 {
            return Err(
                NtfsError::InvalidBootSector("bytes per sector is not a supported power of two"),
            );
        }
        let spc = decode_sectors_per_cluster(sector[13]);
        if spc == 0 || !is_power_of_two(spc) {
            return Err(NtfsError::InvalidBootSector("sectors per cluster is invalid"));
        }
        if spc > 2097152 {
            proof {
                assert(spc * bytes_per_sector > 2097152) by (nonlinear_arith)
                    requires
                        spc > 2097152,
                        bytes_per_sector >= 256,
                ;
            }
            return Err(NtfsError::InvalidBootSector("cluster size is unreasonable"));
        }
        proof {
            assert(spc * bytes_per_sector <= 2097152 * 4096) by (nonlinear_arith)
                requires
                    spc <= 2097152,
                    bytes_per_sector <= 4096,
            ;
            assert(spc * bytes_per_sector >= spc) by (nonlinear_arith)
                requires
                    bytes_per_sector >= 256,
            ;
        }
        let cluster_size: u64 = spc * bytes_per_sector as u64;
        if cluster_size > 2097152 {
            return Err(NtfsError::InvalidBootSector("cluster size is unreasonable"));
        }
        let reserved_ok = read_u16(sector, 14).unwrap() == 0 && sector[16] == 0 && read_u16(
            sector,
            17,
        ).unwrap() == 0 && read_u16(sector, 19).unwrap() == 0 && read_u16(sector, 22).unwrap()
            == 0 && read_u32(sector, 32).unwrap() == 0;
        if !reserved_ok {
            return Err(NtfsError::InvalidBootSector("FAT-only BPB fields are not zero"));
        }
        let media_descriptor = sector[21];
        let hidden_sectors = read_u32(sector, 28).unwrap();
        let total_sectors = read_u64(sector, 40).unwrap();
        if total_sectors == 0 {
            return Err(NtfsError::InvalidBootSector("total sectors is zero"));
        }
        let mft_lcn = read_u64(sector, 48).unwrap();
        let mft_mirror_lcn = read_u64(sector, 56).unwrap();
        let total_clusters = total_sectors / spc;
        if mft_lcn >= total_clusters {
            return Err(NtfsError::InvalidBootSector("$MFT LCN is outside the volume"));
        }
        if mft_mirror_lcn >= total_clusters {
            return Err(NtfsError::InvalidBootSector("$MFTMirr LCN is outside the volume"));
        }
        let mft_record_size = match decode_record_size(sector[64], cluster_size) {
            Some(v) => v,
            None => {
                return Err(NtfsError::InvalidBootSector("MFT record size is invalid"));
            },
        };
        let index_record_size = match decode_record_size(sector[68], cluster_size) {
            Some(v) => v,
            None => {
                return Err(NtfsError::InvalidBootSector("index record size is invalid"));
            },
        };
        let volume_serial = read_u64(sector, 72).unwrap();
        let checksum = read_u32(sector, 80).unwrap();
        if read_u16(sector, 510).unwrap() != 0xAA55 {
            return Err(NtfsError::InvalidBootSector("missing 55 AA boot signature"));
        }
        proof {
            if sector[13] >= 0x80 {
                lemma_pow2_32();
                crate::bytes::lemma_pow2_mono((256 - sector[13]) as nat, 32);
            }
        }
        let oem_id = ascii_text(sector, 3, 8);
        Ok(
            NtfsBootSector {
                oem_id,
                bytes_per_sector,
                sectors_per_cluster: spc as u32,
                cluster_size: cluster_size as u32,
                media_descriptor,
                hidden_sectors,
                total_sectors,
                mft_lcn,
                mft_mirror_lcn,
                mft_record_size,
                index_record_size,
                volume_serial,
                checksum,
            },
        )
    }

    /// Total volume size in bytes as declared by the boot sector;
    /// [`NtfsError::Overflow`] when it does not fit 64 bits.
    pub fn volume_bytes(&self) -> (r: Result<u64, NtfsError>)
        ensures
            match r {
                Ok(v) => v == self.total_sectors * self.bytes_per_sector,
                Err(e) => self.total_sectors * self.bytes_per_sector > u64::MAX && e
                    == NtfsError::Overflow,
            },
    {
        match self.total_sectors.checked_mul(self.bytes_per_sector as u64) {
            Some(v) => Ok(v),
            None => Err(NtfsError::Overflow),
        }
    }

    /// Number of whole clusters in the volume.
    pub fn total_clusters(&self) -> (r: u64)
        requires
            self.sectors_per_cluster > 0,
        ensures
            r == self.total_sectors as int / self.sectors_per_cluster as int,
    {
        self.total_sectors / self.sectors_per_cluster as u64
    }

    /// Converts a logical cluster number to a volume byte offset;
    /// [`NtfsError::Overflow`] when it does not fit 64 bits.
    pub fn lcn_to_offset(&self, lcn: u64) -> (r: Result<u64, NtfsError>)
        ensures
            match r {
                Ok(v) => v == lcn * self.cluster_size,
                Err(e) => lcn * self.cluster_size > u64::MAX && e == NtfsError::Overflow,
            },
    {
        match lcn.checked_mul(self.cluster_size as u64) {
            Some(v) => Ok(v),
            None => Err(NtfsError::Overflow),
        }
    }

    /// Byte offset of `$MFT`'s first record.
    pub fn mft_offset(&self) -> (r: Result<u64, NtfsError>)
        ensures
            match r {
                Ok(v) => v == self.mft_lcn * self.cluster_size,
                Err(e) => self.mft_lcn * self.cluster_size > u64::MAX && e == NtfsError::Overflow,
            },
    {
        self.lcn_to_offset(self.mft_lcn)
    }

    /// Whether the declared volume fits inside a source of `source_len`
    /// bytes. The boot sector counts one fewer sector than the partition
    /// usually holds (the backup boot sector), so the check uses
    /// `total_sectors`.
    pub fn fits_in(&self, source_len: u64) -> (r: bool)
        ensures
            r == (self.total_sectors * self.bytes_per_sector <= source_len),
    {
        match self.volume_bytes() {
            Ok(bytes) => bytes <= source_len,
            Err(_) => false,
        }
    }
}

} // verus!
