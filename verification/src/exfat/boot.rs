//! exFAT boot sector.

use vstd::prelude::*;

use crate::bytes::{le16, le32, le64, lemma_pow2_add, pow2, pow2_u64, read_u16, read_u32, read_u64};
use crate::exfat::error::ExfatError;

verus! {

/// Parsed and validated exFAT boot sector.
#[derive(Debug, Clone, Copy, PartialEq, Eq)]
pub struct ExfatBootSector {
    /// Sectors before the volume (informational).
    pub partition_offset: u64,
    /// Volume length in sectors.
    pub volume_length: u64,
    /// FAT offset in sectors.
    pub fat_offset: u32,
    /// FAT length in sectors.
    pub fat_length: u32,
    /// Cluster heap offset in sectors.
    pub cluster_heap_offset: u32,
    /// Number of clusters in the heap.
    pub cluster_count: u32,
    /// First cluster of the root directory.
    pub root_cluster: u32,
    /// Volume serial number.
    pub volume_serial: u32,
    /// File system revision (major, minor).
    pub revision: (u8, u8),
    /// Volume flags (bit 0: second FAT active).
    pub volume_flags: u16,
    /// Bytes per sector.
    pub bytes_per_sector: u32,
    /// Sectors per cluster.
    pub sectors_per_cluster: u32,
    /// Number of FATs.
    pub fat_count: u8,
    /// Percentage of the heap in use (informational).
    pub percent_in_use: u8,
    /// Cluster size in bytes.
    pub cluster_size: u32,
    /// Byte offset of the cluster heap.
    pub heap_offset: u64,
}

/// The OEM name of an exFAT volume: `EXFAT` and three spaces.
pub open spec fn exfat_oem(s: Seq<u8>) -> bool {
    s[3] == 0x45 && s[4] == 0x58 && s[5] == 0x46 && s[6] == 0x41 && s[7] == 0x54 && s[8] == 0x20
        && s[9] == 0x20 && s[10] == 0x20
}

/// Whether bytes `11..64` are all zero.
pub open spec fn must_be_zero_ok(s: Seq<u8>) -> bool {
    forall|i: int| 11 <= i < 64 ==> s[i] == 0
}

/// Whether `s` holds a valid exFAT boot sector: every check of
/// [`ExfatBootSector::parse`].
pub open spec fn valid_boot(s: Seq<u8>) -> bool {
    &&& s.len() >= 512
    &&& exfat_oem(s)
    &&& must_be_zero_ok(s)
    &&& 9 <= s[108] <= 12
    &&& s[109] <= 25 - s[108]
    &&& 1 <= s[110] <= 2
    &&& le16(s, 510) == 0xAA55
    &&& le32(s, 80) >= 24 && le32(s, 84) != 0 && le32(s, 92) != 0 && le32(s, 88) != 0
    &&& 2 <= le32(s, 96) && le32(s, 96) - 2 < le32(s, 92)
    &&& le32(s, 88) < le64(s, 72)
}

/// The fields that [`ExfatBootSector::parse`] decodes from a valid sector.
pub open spec fn parsed_from(b: ExfatBootSector, s: Seq<u8>) -> bool {
    &&& b.partition_offset == le64(s, 64)
    &&& b.volume_length == le64(s, 72)
    &&& b.fat_offset == le32(s, 80)
    &&& b.fat_length == le32(s, 84)
    &&& b.cluster_heap_offset == le32(s, 88)
    &&& b.cluster_count == le32(s, 92)
    &&& b.root_cluster == le32(s, 96)
    &&& b.volume_serial == le32(s, 100)
    &&& b.revision == (s[105], s[104])
    &&& b.volume_flags == le16(s, 106)
    &&& b.bytes_per_sector == pow2(s[108] as nat)
    &&& b.sectors_per_cluster == pow2(s[109] as nat)
    &&& b.fat_count == s[110]
    &&& b.percent_in_use == s[112]
    &&& b.cluster_size == pow2((s[108] + s[109]) as nat)
    &&& b.heap_offset == le32(s, 88) * pow2(s[108] as nat)
}

/// A cluster is `sectors_per_cluster` sectors of `bytes_per_sector` bytes,
/// and the cluster heap starts that many sectors in.
pub proof fn lemma_cluster_geometry(b: ExfatBootSector, s: Seq<u8>)
    requires
        parsed_from(b, s),
    ensures
        b.cluster_size == b.bytes_per_sector * b.sectors_per_cluster,
        b.heap_offset == b.cluster_heap_offset * b.bytes_per_sector,
{
    lemma_pow2_add(s[108] as nat, s[109] as nat);
}

fn check_zero_region(sector: &[u8]) -> (r: bool)
    requires
        sector@.len() >= 64,
    ensures
        r == must_be_zero_ok(sector@),
{
    let mut i: usize = 11;
    while i < 64
        invariant
            sector@.len() >= 64,
            11 <= i <= 64,
            forall|j: int| 11 <= j < i ==> sector@[j] == 0,
        decreases 64 - i,
    {
        if sector[i] != 0 {
            return false;
        }
        i = i + 1;
    }
    true
}

/// Rotate-right-and-add step of the boot region checksum.
pub open spec fn rotate_add32(sum: u32, b: u8) -> u32 {
    ((sum / 2 + (sum % 2) * 0x8000_0000 + b) % 0x1_0000_0000) as u32
}

/// Boot region checksum over `s`, skipping the volume flags and the
/// percent-in-use bytes (offsets 106, 107 and 112).
pub open spec fn region_sum(s: Seq<u8>) -> u32
    decreases s.len(),
{
    if s.len() == 0 {
        0
    } else {
        let i = s.len() - 1;
        let prev = region_sum(s.drop_last());
        if i == 106 || i == 107 || i == 112 {
            prev
        } else {
            rotate_add32(prev, s[i])
        }
    }
}

impl ExfatBootSector {
    /// Parses the first 512 bytes of a volume.
    ///
    /// Succeeds exactly when every check of [`valid_boot`] passes; any
    /// failure is reported as [`ExfatError::InvalidBootSector`].
    pub fn parse(sector: &[u8]) -> (r: Result<Self, ExfatError>)
        ensures
            match r {
                Ok(b) => valid_boot(sector@) && parsed_from(b, sector@),
                Err(e) => !valid_boot(sector@) && e is InvalidBootSector,
            },
    {
        let ghost s = sector@;
        if sector.len() < 512 {
            return Err(ExfatError::InvalidBootSector("truncated"));
        }
        if !(sector[3] == 0x45 && sector[4] == 0x58 && sector[5] == 0x46 && sector[6] == 0x41
            && sector[7] == 0x54 && sector[8] == 0x20 && sector[9] == 0x20 && sector[10] == 0x20) {
            return Err(ExfatError::InvalidBootSector("OEM name is not EXFAT"));
        }
        if !check_zero_region(sector) {
            return Err(ExfatError::InvalidBootSector("must-be-zero region is not zero"));
        }
        let partition_offset = read_u64(sector, 64).unwrap();
        let volume_length = read_u64(sector, 72).unwrap();
        let fat_offset = read_u32(sector, 80).unwrap();
        let fat_length = read_u32(sector, 84).unwrap();
        let cluster_heap_offset = read_u32(sector, 88).unwrap();
        let cluster_count = read_u32(sector, 92).unwrap();
        let root_cluster = read_u32(sector, 96).unwrap();
        let volume_serial = read_u32(sector, 100).unwrap();
        let revision = (sector[105], sector[104]);
        let volume_flags = read_u16(sector, 106).unwrap();
        let bps_shift = sector[108];
        let spc_shift = sector[109];
        let fat_count = sector[110];
        let percent_in_use = sector[112];
        if !(9 <= bps_shift && bps_shift <= 12) {
            return Err(ExfatError::InvalidBootSector("bytes-per-sector shift invalid"));
        }
        if spc_shift > 25 - bps_shift {
            return Err(ExfatError::InvalidBootSector("sectors-per-cluster shift invalid"));
        }
        if !(1 <= fat_count && fat_count <= 2) {
            return Err(ExfatError::InvalidBootSector("FAT count invalid"));
        }
        if read_u16(sector, 510).unwrap() != 0xAA55 {
            return Err(ExfatError::InvalidBootSector("missing 55 AA signature"));
        }
        if fat_offset < 24 || fat_length == 0 || cluster_count == 0 || cluster_heap_offset == 0 {
            return Err(ExfatError::InvalidBootSector("region offsets are invalid"));
        }
        if root_cluster < 2 || root_cluster - 2 >= cluster_count {
            return Err(ExfatError::InvalidBootSector("root cluster outside the heap"));
        }
        let bps = pow2_u64(bps_shift as u32);
        let spc = pow2_u64(spc_shift as u32);
        let cs = pow2_u64((bps_shift + spc_shift) as u32);
        proof {
            crate::bytes::lemma_pow2_mono(bps_shift as nat, 12);
            crate::bytes::lemma_pow2_mono(spc_shift as nat, 16);
            crate::bytes::lemma_pow2_mono((bps_shift + spc_shift) as nat, 25);
            reveal_with_fuel(pow2, 26);
        }
        assert(cluster_heap_offset as u64 * bps <= 0xFFFF_FFFFu64 * 4096) by (nonlinear_arith)
            requires
                bps <= 4096,
        ;
        let heap_offset = cluster_heap_offset as u64 * bps;
        if cluster_heap_offset as u64 >= volume_length {
            return Err(ExfatError::InvalidBootSector("cluster heap starts beyond the volume"));
        }
        Ok(
            ExfatBootSector {
                partition_offset,
                volume_length,
                fat_offset,
                fat_length,
                cluster_heap_offset,
                cluster_count,
                root_cluster,
                volume_serial,
                revision,
                volume_flags,
                bytes_per_sector: bps as u32,
                sectors_per_cluster: spc as u32,
                fat_count,
                percent_in_use,
                cluster_size: cs as u32,
                heap_offset,
            },
        )
    }

    /// Whether `cluster` is a valid heap cluster number.
    pub open spec fn spec_is_valid_cluster(&self, cluster: u32) -> bool {
        cluster >= 2 && cluster - 2 < self.cluster_count
    }

    /// Whether `cluster` is a valid heap cluster number.
    #[verifier::when_used_as_spec(spec_is_valid_cluster)]
    pub fn is_valid_cluster(&self, cluster: u32) -> (r: bool)
        ensures
            r == self.spec_is_valid_cluster(cluster),
    {
        cluster >= 2 && cluster - 2 < self.cluster_count
    }

    /// Volume byte offset of `cluster`: [`ExfatError::Malformed`] outside
    /// the heap, [`ExfatError::Overflow`] when the offset does not fit.
    pub fn cluster_offset(&self, cluster: u32) -> (r: Result<u64, ExfatError>)
        ensures
            match r {
                Ok(off) => self.is_valid_cluster(cluster) && off == self.heap_offset + (cluster
                    - 2) * self.cluster_size,
                Err(e) => if !self.is_valid_cluster(cluster) {
                    e is Malformed
                } else {
                    e == ExfatError::Overflow && self.heap_offset + (cluster - 2) * self.cluster_size
                        > u64::MAX
                },
            },
    {
        if !self.is_valid_cluster(cluster) {
            return Err(ExfatError::Malformed("cluster is outside the heap"));
        }
        let rel = (cluster - 2) as u64;
        let cs = self.cluster_size as u64;
        assert(rel * cs <= 0xFFFF_FFFFu64 * 0xFFFF_FFFFu64) by (nonlinear_arith)
            requires
                rel <= 0xFFFF_FFFFu64,
                cs <= 0xFFFF_FFFFu64,
        ;
        match self.heap_offset.checked_add(rel * cs) {
            Some(v) => Ok(v),
            None => Err(ExfatError::Overflow),
        }
    }

    /// Byte offset of the active FAT: the second one when there are two and
    /// volume flag bit 0 is set.
    pub fn fat_byte_offset(&self) -> (r: u64)
        requires
            self.bytes_per_sector <= 4096,
        ensures
            r == (self.fat_offset + (if self.fat_count == 2 && self.volume_flags % 2 == 1 {
                self.fat_length as int
            } else {
                0
            })) * self.bytes_per_sector,
    {
        let active: u64 = if self.fat_count == 2 && self.volume_flags % 2 == 1 {
            1
        } else {
            0
        };
        let sectors = self.fat_offset as u64 + active * self.fat_length as u64;
        assert(sectors * (self.bytes_per_sector as u64) <= 0x2_0000_0000u64 * 4096) by (
        nonlinear_arith)
            requires
                sectors <= 0x2_0000_0000u64,
                self.bytes_per_sector <= 4096,
        ;
        sectors * self.bytes_per_sector as u64
    }

    /// Byte length of one FAT.
    pub fn fat_bytes(&self) -> (r: u64)
        ensures
            r == self.fat_length * self.bytes_per_sector,
    {
        assert(self.fat_length as u64 * self.bytes_per_sector as u64 <= 0xFFFF_FFFFu64
            * 0xFFFF_FFFFu64) by (nonlinear_arith);
        self.fat_length as u64 * self.bytes_per_sector as u64
    }

    /// Total volume size in bytes as declared (saturating).
    pub fn volume_bytes(&self) -> (r: u64)
        ensures
            r == (if self.volume_length * self.bytes_per_sector > u64::MAX {
                u64::MAX as int
            } else {
                self.volume_length * self.bytes_per_sector
            }),
    {
        match self.volume_length.checked_mul(self.bytes_per_sector as u64) {
            Some(v) => v,
            None => u64::MAX,
        }
    }

    /// Checks the boot region checksum: `region` is the first twelve
    /// sectors of the volume; the sum over the first eleven (see
    /// [`region_sum`]) must equal the `u32` at the start of the twelfth.
    /// `None` when `region` is too short.
    pub fn verify_region_checksum(&self, region: &[u8]) -> (r: Option<bool>)
        ensures
            ({
                let n = 11 * self.bytes_per_sector;
                match r {
                    Some(ok) => n + 4 <= region@.len() && ok == (le32(region@, n)
                        == region_sum(region@.subrange(0, n))),
                    None => n + 4 > region@.len(),
                }
            }),
    {
        let len = region.len();
        let n64 = 11 * (self.bytes_per_sector as u64);
        if n64 > len as u64 || len as u64 - n64 < 4 {
            return None;
        }
        let n = n64 as usize;
        let mut sum: u32 = 0;
        let mut i: usize = 0;
        while i < n
            invariant
                n + 4 <= region@.len(),
                len == region@.len(),
                i <= n,
                sum == region_sum(region@.subrange(0, i as int)),
            decreases n - i,
        {
            assert(region@.subrange(0, i + 1).drop_last() =~= region@.subrange(0, i as int));
            if !(i == 106 || i == 107 || i == 112) {
                sum = (((sum / 2 + (sum % 2) * 0x8000_0000) as u64 + region[i] as u64) % 0x1_0000_0000) as u32;
                assert(sum == rotate_add32(region_sum(region@.subrange(0, i as int)), region@[i as int]));
            }
            i = i + 1;
        }
        let stored = read_u32(region, n).unwrap();
        Some(stored == sum)
    }
}

} // verus!
