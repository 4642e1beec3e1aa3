//! FAT boot sector / BIOS Parameter Block.

use vstd::prelude::*;

use crate::bytes::{le16, le32, read_u16, read_u32};
use crate::fat::error::FatError;
use crate::probe::FileSystemType;
use crate::text::{ascii_chars, ascii_text, ascii_text_trimmed, trimmed_len};

verus! {

/// FAT variant, decided by the number of data clusters as the
/// specification requires (never by the type label).
#[derive(Debug, Clone, Copy, PartialEq, Eq, Structural, Hash)]
pub enum FatVariant {
    /// FAT12.
    Fat12,
    /// FAT16.
    Fat16,
    /// FAT32.
    Fat32,
}

/// The label of a variant.
pub open spec fn variant_label(v: FatVariant) -> Seq<char> {
    match v {
        FatVariant::Fat12 => "FAT12"@,
        FatVariant::Fat16 => "FAT16"@,
        FatVariant::Fat32 => "FAT32"@,
    }
}

/// The file system type of a variant.
pub open spec fn variant_type(v: FatVariant) -> FileSystemType {
    match v {
        FatVariant::Fat12 => FileSystemType::Fat12,
        FatVariant::Fat16 => FileSystemType::Fat16,
        FatVariant::Fat32 => FileSystemType::Fat32,
    }
}

impl FatVariant {
    /// The corresponding [`FileSystemType`].
    pub fn filesystem_type(&self) -> (t: FileSystemType)
        ensures
            t == variant_type(*self),
    {
        match self {
            FatVariant::Fat12 => FileSystemType::Fat12,
            FatVariant::Fat16 => FileSystemType::Fat16,
            FatVariant::Fat32 => FileSystemType::Fat32,
        }
    }

    /// Label (`FAT12`, `FAT16`, `FAT32`).
    pub fn label(&self) -> (r: &'static str)
        ensures
            *self == FatVariant::Fat12 ==> r@ == "FAT12"@,
            *self == FatVariant::Fat16 ==> r@ == "FAT16"@,
            *self == FatVariant::Fat32 ==> r@ == "FAT32"@,
    {
        match self {
            FatVariant::Fat12 => "FAT12",
            FatVariant::Fat16 => "FAT16",
            FatVariant::Fat32 => "FAT32",
        }
    }
}

/// Parsed and validated boot sector.
#[derive(Debug, Clone, PartialEq, Eq)]
pub struct FatBootSector {
    /// OEM name.
    pub oem_name: String,
    /// Bytes per sector.
    pub bytes_per_sector: u16,
    /// Sectors per cluster.
    pub sectors_per_cluster: u8,
    /// Reserved sectors before the first FAT.
    pub reserved_sectors: u16,
    /// Number of FATs.
    pub fat_count: u8,
    /// Root directory entries (FAT12/16 only; zero on FAT32).
    pub root_entries: u16,
    /// Total sectors.
    pub total_sectors: u64,
    /// Media descriptor.
    pub media: u8,
    /// Sectors per FAT.
    pub sectors_per_fat: u32,
    /// Hidden sectors before the volume.
    pub hidden_sectors: u32,
    /// FAT32 root directory cluster (zero on FAT12/16).
    pub root_cluster: u32,
    /// FAT32 FSInfo sector, if any.
    pub fs_info_sector: Option<u16>,
    /// FAT32 extended flags (active FAT, mirroring).
    pub ext_flags: u16,
    /// Volume serial number.
    pub volume_serial: u32,
    /// Volume label from the BPB.
    pub volume_label: String,
    /// Filesystem type label from the BPB (informational only).
    pub type_label: String,
    /// Variant decided from the cluster count.
    pub variant: FatVariant,
    /// Number of data clusters (clusters 2..2+count).
    pub cluster_count: u32,
    /// Cluster size in bytes.
    pub cluster_size: u32,
    /// Byte offset of the first FAT.
    pub fat_offset: u64,
    /// Byte length of one FAT.
    pub fat_bytes: u64,
    /// Byte offset of the fixed root directory (FAT12/16).
    pub root_dir_offset: u64,
    /// Byte length of the fixed root directory (FAT12/16).
    pub root_dir_bytes: u64,
    /// Byte offset of cluster 2.
    pub data_offset: u64,
}

/// Whether `v` is one of the accepted sector sizes (a power of two in
/// 512..=4096).
pub open spec fn valid_sector_size(v: int) -> bool {
    v == 512 || v == 1024 || v == 2048 || v == 4096
}

/// Whether `v` is a non-zero power of two that fits a byte.
pub open spec fn byte_power_of_two(v: int) -> bool {
    v == 1 || v == 2 || v == 4 || v == 8 || v == 16 || v == 32 || v == 64 || v == 128
}

/// Total sectors: the 16-bit field, or the 32-bit one when it is zero.
pub open spec fn total_sectors_of(s: Seq<u8>) -> int {
    if le16(s, 19) != 0 {
        le16(s, 19)
    } else {
        le32(s, 32)
    }
}

/// Whether the BPB has the FAT32 layout (16-bit sectors-per-FAT is zero).
pub open spec fn fat32_layout(s: Seq<u8>) -> bool {
    le16(s, 22) == 0
}

/// Sectors per FAT.
pub open spec fn sectors_per_fat_of(s: Seq<u8>) -> int {
    if fat32_layout(s) {
        le32(s, 36)
    } else {
        le16(s, 22)
    }
}

/// Sectors occupied by the fixed root directory.
pub open spec fn root_dir_sectors_of(s: Seq<u8>) -> int {
    (le16(s, 17) * 32 + le16(s, 11) - 1) / le16(s, 11)
}

/// First sector of the data region.
pub open spec fn data_start_of(s: Seq<u8>) -> int {
    le16(s, 14) + s[16] * sectors_per_fat_of(s) + root_dir_sectors_of(s)
}

/// Number of data clusters.
pub open spec fn cluster_count_of(s: Seq<u8>) -> int {
    (total_sectors_of(s) - data_start_of(s)) / (s[13] as int)
}

/// Variant implied by the layout and the cluster count.
pub open spec fn variant_of(s: Seq<u8>) -> FatVariant {
    if fat32_layout(s) {
        FatVariant::Fat32
    } else if cluster_count_of(s) < 4085 {
        FatVariant::Fat12
    } else if cluster_count_of(s) < 65525 {
        FatVariant::Fat16
    } else {
        FatVariant::Fat32
    }
}

/// The field checks of [`FatBootSector::parse`] that do not depend on the
/// derived geometry.
pub open spec fn fields_ok(s: Seq<u8>) -> bool {
    &&& s.len() >= 512
    &&& (s[0] == 0xEB && s[2] == 0x90) || s[0] == 0xE9
    &&& valid_sector_size(le16(s, 11))
    &&& byte_power_of_two(s[13] as int)
    &&& le16(s, 14) != 0
    &&& s[16] == 1 || s[16] == 2
    &&& s[21] == 0xF0 || s[21] >= 0xF8
    &&& total_sectors_of(s) != 0
    &&& sectors_per_fat_of(s) != 0
    &&& le16(s, 510) == 0xAA55
}

/// The geometry checks of [`FatBootSector::parse`].
pub open spec fn geometry_ok(s: Seq<u8>) -> bool {
    &&& data_start_of(s) < total_sectors_of(s)
    &&& !(variant_of(s) == FatVariant::Fat32 && !fat32_layout(s))
    &&& !(variant_of(s) != FatVariant::Fat32 && le16(s, 17) == 0)
    &&& fat32_layout(s) ==> 2 <= le32(s, 44) && le32(s, 44) - 2 < cluster_count_of(s)
}

/// Whether `s` holds a valid FAT boot sector: every check of
/// [`FatBootSector::parse`].
pub open spec fn valid_boot(s: Seq<u8>) -> bool {
    fields_ok(s) && geometry_ok(s)
}

/// Offset of the serial number (the label follows four bytes later).
pub open spec fn serial_offset_of(s: Seq<u8>) -> int {
    if fat32_layout(s) {
        67
    } else {
        39
    }
}

/// The fields that [`FatBootSector::parse`] decodes from a valid sector.
pub open spec fn parsed_from(b: FatBootSector, s: Seq<u8>) -> bool {
    let bps = le16(s, 11);
    let label = serial_offset_of(s) + 4;
    &&& b.oem_name@ == ascii_chars(s.subrange(3, 11))
    &&& b.bytes_per_sector == bps
    &&& b.sectors_per_cluster == s[13]
    &&& b.reserved_sectors == le16(s, 14)
    &&& b.fat_count == s[16]
    &&& b.root_entries == le16(s, 17)
    &&& b.total_sectors == total_sectors_of(s)
    &&& b.media == s[21]
    &&& b.sectors_per_fat == sectors_per_fat_of(s)
    &&& b.hidden_sectors == le32(s, 28)
    &&& b.root_cluster == (if fat32_layout(s) { le32(s, 44) } else { 0 })
    &&& b.fs_info_sector == (if fat32_layout(s) { Some(le16(s, 48) as u16) } else { None })
    &&& b.ext_flags == (if fat32_layout(s) { le16(s, 40) } else { 0 })
    &&& b.volume_serial == le32(s, serial_offset_of(s))
    &&& b.volume_label@ == ascii_chars(
        s.subrange(label, label + trimmed_len(s.subrange(label, label + 11))),
    )
    &&& b.type_label@ == ascii_chars(
        s.subrange(label + 11, label + 11 + trimmed_len(s.subrange(label + 11, label + 19))),
    )
    &&& b.variant == variant_of(s)
    &&& b.cluster_count == cluster_count_of(s)
    &&& b.cluster_size == s[13] * bps
    &&& b.fat_offset == le16(s, 14) * bps
    &&& b.fat_bytes == sectors_per_fat_of(s) * bps
    &&& b.root_dir_offset == (le16(s, 14) + s[16] * sectors_per_fat_of(s)) * bps
    &&& b.root_dir_bytes == le16(s, 17) * 32
    &&& b.data_offset == data_start_of(s) * bps
}

fn boot_u16(sector: &[u8], off: usize) -> (r: Result<u16, FatError>)
    ensures
        match r {
            Ok(v) => off + 2 <= sector@.len() && v == le16(sector@, off as int),
            Err(e) => off + 2 > sector@.len() && e == FatError::InvalidBootSector("truncated"),
        },
{
    match read_u16(sector, off) {
        Some(v) => Ok(v),
        None => Err(FatError::InvalidBootSector("truncated")),
    }
}

fn boot_u32(sector: &[u8], off: usize) -> (r: Result<u32, FatError>)
    ensures
        match r {
            Ok(v) => off + 4 <= sector@.len() && v == le32(sector@, off as int),
            Err(e) => off + 4 > sector@.len() && e == FatError::InvalidBootSector("truncated"),
        },
{
    match read_u32(sector, off) {
        Some(v) => Ok(v),
        None => Err(FatError::InvalidBootSector("truncated")),
    }
}

fn check_fields(sector: &[u8]) -> (r: Result<(), FatError>)
    ensures
        match r {
            Ok(()) => fields_ok(sector@),
            Err(e) => !fields_ok(sector@) && e is InvalidBootSector,
        },
{
    let ghost s = sector@;
    if sector.len() < 512 {
        return Err(FatError::InvalidBootSector("truncated"));
    }
    let j0 = sector[0];
    let j2 = sector[2];
    if !((j0 == 0xEB && j2 == 0x90) || j0 == 0xE9) {
        return Err(FatError::InvalidBootSector("no x86 jump instruction"));
    }
    let bytes_per_sector = boot_u16(sector, 11)?;
    if !(bytes_per_sector == 512 || bytes_per_sector == 1024 || bytes_per_sector == 2048
        || bytes_per_sector == 4096) {
        return Err(FatError::InvalidBootSector("bytes per sector unsupported"));
    }
    let sectors_per_cluster = sector[13];
    if !(sectors_per_cluster == 1 || sectors_per_cluster == 2 || sectors_per_cluster == 4
        || sectors_per_cluster == 8 || sectors_per_cluster == 16 || sectors_per_cluster == 32
        || sectors_per_cluster == 64 || sectors_per_cluster == 128) {
        return Err(FatError::InvalidBootSector("sectors per cluster invalid"));
    }
    let reserved_sectors = boot_u16(sector, 14)?;
    if reserved_sectors == 0 {
        return Err(FatError::InvalidBootSector("reserved sector count is zero"));
    }
    let fat_count = sector[16];
    if !(fat_count == 1 || fat_count == 2) {
        return Err(FatError::InvalidBootSector("FAT count invalid"));
    }
    let total16 = boot_u16(sector, 19)?;
    let media = sector[21];
    if media != 0xF0 && media < 0xF8 {
        return Err(FatError::InvalidBootSector("media descriptor invalid"));
    }
    let spf16 = boot_u16(sector, 22)?;
    let total32 = boot_u32(sector, 32)?;
    let total_sectors: u64 = if total16 != 0 {
        total16 as u64
    } else {
        total32 as u64
    };
    if total_sectors == 0 {
        return Err(FatError::InvalidBootSector("total sectors is zero"));
    }
    let is_fat32_layout = spf16 == 0;
    let sectors_per_fat: u32 = if is_fat32_layout {
        boot_u32(sector, 36)?
    } else {
        spf16 as u32
    };
    if sectors_per_fat == 0 {
        return Err(FatError::InvalidBootSector("sectors per FAT is zero"));
    }
    let sig = boot_u16(sector, 510)?;
    if sig != 0xAA55 {
        return Err(FatError::InvalidBootSector("missing 55 AA signature"));
    }
    Ok(())
}

impl FatBootSector {
    /// Parses the first 512 bytes of a volume.
    ///
    /// Succeeds exactly when every check of [`valid_boot`] passes; any
    /// failure is reported as [`FatError::InvalidBootSector`].
    /// Parses the first 512 bytes of a volume.
    ///
    /// Succeeds exactly when every check of [`valid_boot`] passes; any
    /// failure is reported as [`FatError::InvalidBootSector`].
    #[verifier::rlimit(40)]
    pub fn parse(sector: &[u8]) -> (r: Result<Self, FatError>)
        ensures
            match r {
                Ok(b) => valid_boot(sector@) && parsed_from(b, sector@),
                Err(e) => !valid_boot(sector@) && e is InvalidBootSector,
            },
    {
        let ghost s = sector@;
        check_fields(sector)?;
        let oem_name = ascii_text(sector, 3, 8);
        let bytes_per_sector = boot_u16(sector, 11)?;
        let sectors_per_cluster = sector[13];
        let reserved_sectors = boot_u16(sector, 14)?;
        let fat_count = sector[16];
        let root_entries = boot_u16(sector, 17)?;
        let total16 = boot_u16(sector, 19)?;
        let media = sector[21];
        let spf16 = boot_u16(sector, 22)?;
        let hidden_sectors = boot_u32(sector, 28)?;
        let total32 = boot_u32(sector, 32)?;
        let total_sectors: u64 = if total16 != 0 {
            total16 as u64
        } else {
            total32 as u64
        };
        let is_fat32_layout = spf16 == 0;
        let sectors_per_fat: u32 = if is_fat32_layout {
            boot_u32(sector, 36)?
        } else {
            spf16 as u32
        };
        let bps = bytes_per_sector as u64;
        let root_dir_bytes: u64 = root_entries as u64 * 32;
        let root_dir_sectors: u64 = (root_dir_bytes + bps - 1) / bps;
        let fat_region: u64 = fat_count as u64 * sectors_per_fat as u64;
        let data_start_sector: u64 = reserved_sectors as u64 + fat_region + root_dir_sectors;
        if data_start_sector >= total_sectors {
            return Err(FatError::InvalidBootSector("data region starts beyond the volume"));
        }
        let data_sectors = total_sectors - data_start_sector;
        let cluster_count64 = data_sectors / sectors_per_cluster as u64;
        assert(cluster_count64 <= data_sectors) by (nonlinear_arith)
            requires
                cluster_count64 == data_sectors / (sectors_per_cluster as u64),
                sectors_per_cluster >= 1,
        ;
        let cluster_count = cluster_count64 as u32;
        let variant = if is_fat32_layout {
            FatVariant::Fat32
        } else if cluster_count < 4085 {
            FatVariant::Fat12
        } else if cluster_count < 65525 {
            FatVariant::Fat16
        } else {
            FatVariant::Fat32
        };
        if variant == FatVariant::Fat32 && !is_fat32_layout {
            return Err(
                FatError::InvalidBootSector(
                    "cluster count implies FAT32 but the BPB has a FAT16 layout",
                ),
            );
        }
        if variant != FatVariant::Fat32 && root_entries == 0 {
            return Err(
                FatError::InvalidBootSector("FAT12/16 volume without root directory entries"),
            );
        }
        let (root_cluster, fs_info_sector, ext_flags, serial_off, label_off) = if is_fat32_layout {
            (
                boot_u32(sector, 44)?,
                Some(boot_u16(sector, 48)?),
                boot_u16(sector, 40)?,
                67usize,
                71usize,
            )
        } else {
            (0u32, None, 0u16, 39usize, 43usize)
        };
        if is_fat32_layout && (root_cluster < 2 || root_cluster - 2 >= cluster_count) {
            return Err(FatError::InvalidBootSector("root cluster outside the volume"));
        }
        let volume_serial = boot_u32(sector, serial_off)?;
        let volume_label = ascii_text_trimmed(sector, label_off, 11);
        let type_label = ascii_text_trimmed(sector, label_off + 11, 8);
        let cluster_size = sectors_per_cluster as u32 * bytes_per_sector as u32;
        let fat_offset = reserved_sectors as u64 * bps;
        let fat_bytes = sectors_per_fat as u64 * bps;
        let root_dir_offset = fat_offset + fat_region * bps;
        assert(data_start_sector * bps <= 0x3_0000_0000u64 * 4096) by (nonlinear_arith)
            requires
                data_start_sector <= 0x3_0000_0000u64,
                bps <= 4096,
        ;
        let data_offset = data_start_sector * bps;
        proof {
            assert(fat_region * bps <= 0x2_0000_0000u64 * 4096) by (nonlinear_arith)
                requires
                    fat_region <= 0x2_0000_0000u64,
                    bps <= 4096,
            ;
        }
        let b = FatBootSector {
            oem_name,
            bytes_per_sector,
            sectors_per_cluster,
            reserved_sectors,
            fat_count,
            root_entries,
            total_sectors,
            media,
            sectors_per_fat,
            hidden_sectors,
            root_cluster,
            fs_info_sector,
            ext_flags,
            volume_serial,
            volume_label,
            type_label,
            variant,
            cluster_count,
            cluster_size,
            fat_offset,
            fat_bytes,
            root_dir_offset,
            root_dir_bytes,
            data_offset,
        };
        proof {
            assert(root_dir_offset == (le16(s, 14) + s[16] * sectors_per_fat_of(s)) * bps) by (
            nonlinear_arith)
                requires
                    root_dir_offset == fat_offset + fat_region * bps,
                    fat_offset == le16(s, 14) * bps,
                    fat_region == s[16] * sectors_per_fat_of(s),
            ;
        }
        Ok(b)
    }

    /// Whether `cluster` is a valid data cluster number.
    pub open spec fn spec_is_valid_cluster(&self, cluster: u32) -> bool {
        cluster >= 2 && cluster - 2 < self.cluster_count
    }

    /// Whether `cluster` is a valid data cluster number.
    #[verifier::when_used_as_spec(spec_is_valid_cluster)]
    pub fn is_valid_cluster(&self, cluster: u32) -> (r: bool)
        ensures
            r == self.spec_is_valid_cluster(cluster),
    {
        cluster >= 2 && cluster - 2 < self.cluster_count
    }

    /// Volume byte offset of `cluster`.
    ///
    /// Fails with [`FatError::InvalidChain`] for a cluster outside the
    /// volume and with [`FatError::Overflow`] when the offset does not fit.
    pub fn cluster_offset(&self, cluster: u32) -> (r: Result<u64, FatError>)
        ensures
            match r {
                Ok(off) => self.is_valid_cluster(cluster) && off == self.data_offset + (cluster
                    - 2) * self.cluster_size,
                Err(e) => if !self.is_valid_cluster(cluster) {
                    e is InvalidChain
                } else {
                    e == FatError::Overflow && self.data_offset + (cluster - 2) * self.cluster_size
                        > u64::MAX
                },
            },
    {
        if !self.is_valid_cluster(cluster) {
            return Err(FatError::InvalidChain("cluster is outside the volume"));
        }
        let rel = (cluster - 2) as u64;
        let cs = self.cluster_size as u64;
        assert(rel * cs <= 0xFFFF_FFFFu64 * 0xFFFF_FFFFu64) by (nonlinear_arith)
            requires
                rel <= 0xFFFF_FFFFu64,
                cs <= 0xFFFF_FFFFu64,
        ;
        let span = rel * cs;
        match self.data_offset.checked_add(span) {
            Some(v) => Ok(v),
            None => Err(FatError::Overflow),
        }
    }

    /// Total volume size in bytes as declared (saturating).
    pub fn volume_bytes(&self) -> (r: u64)
        ensures
            r == (if self.total_sectors * self.bytes_per_sector > u64::MAX {
                u64::MAX as int
            } else {
                self.total_sectors * self.bytes_per_sector
            }),
    {
        match self.total_sectors.checked_mul(self.bytes_per_sector as u64) {
            Some(v) => v,
            None => u64::MAX,
        }
    }

    /// Byte offset of FAT number `index` (0-based), saturating.
    pub fn fat_offset_of(&self, index: u8) -> (r: u64)
        ensures
            r == (if self.fat_offset + self.fat_bytes * index > u64::MAX {
                u64::MAX as int
            } else {
                self.fat_offset + self.fat_bytes * index
            }),
    {
        let span = match self.fat_bytes.checked_mul(index as u64) {
            Some(v) => v,
            None => u64::MAX,
        };
        proof {
            if self.fat_bytes * index > u64::MAX {
                assert(self.fat_offset + self.fat_bytes * index > u64::MAX);
            }
        }
        self.fat_offset.saturating_add(span)
    }

    /// Index of the active FAT: on FAT32 with mirroring disabled (bit 7 of
    /// the extended flags) the low four bits name it; otherwise FAT 0.
    pub fn active_fat(&self) -> (r: u8)
        ensures
            r == (if self.variant == FatVariant::Fat32 && (self.ext_flags / 128) % 2 == 1 {
                self.ext_flags % 16
            } else {
                0
            }),
    {
        if self.variant == FatVariant::Fat32 && (self.ext_flags / 128) % 2 == 1 {
            (self.ext_flags % 16) as u8
        } else {
            0
        }
    }
}

} // verus!
