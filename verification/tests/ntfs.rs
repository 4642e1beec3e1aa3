use phoinix_fs_native::ntfs::attribute::{
    Attribute, AttributeBody, AttributeHeader, AttributeIter, AttributeType, FLAG_COMPRESSED, FLAG_SPARSE,
};
use phoinix_fs_native::ntfs::attribute_list::parse_attribute_list;
use phoinix_fs_native::ntfs::bitmap::{ClusterAllocationMap, ClusterBitmap, ClusterState, RangeAllocation};
use phoinix_fs_native::ntfs::boot::NtfsBootSector;
use phoinix_fs_native::ntfs::data::{DataStorage, DataStreamDescriptor};
use phoinix_fs_native::ntfs::error::NtfsError;
use phoinix_fs_native::ntfs::file::NtfsFile;
use phoinix_fs_native::ntfs::filename::{preferred_name, FileNameAttribute, FileNameNamespace};
use phoinix_fs_native::ntfs::fixup::apply_fixup;
use phoinix_fs_native::ntfs::record::{FileRecord, FileReference, FLAG_DIRECTORY, FLAG_IN_USE};
use phoinix_fs_native::ntfs::runlist::{decode_runlist, extent_count, total_clusters, NtfsRun};
use phoinix_fs_native::ntfs::standard_information::StandardInformation;
use phoinix_fs_native::ntfs::timestamp::NtfsTimestamp;
use phoinix_fs_native::ntfs::tree::ResolvedPath;
use phoinix_fs_native::ntfs::undelete::{metadata_state, CandidateMetadataState};
use phoinix_fs_native::ntfs::probe::NtfsProbe;
use phoinix_fs_native::probe::ProbeResult;
use phoinix_fs_native::ntfs::mft::check_record_geometry;
use phoinix_fs_native::evidence::Note;
use phoinix_fs_native::ntfs::diagnostic::NtfsDiagnostic;
use phoinix_fs_native::ntfs::undelete::ntfs_evidence;
use phoinix_fs_native::ntfs::undelete::ntfs_is_candidate;
use phoinix_fs_native::ntfs::mft::{record_zero, RecordZero};

fn resident(type_code: u32, name: Option<&str>, value: &[u8], flags: u16) -> Vec<u8> {
    let name_utf16: Vec<u8> =
        name.map(|n| n.encode_utf16().flat_map(u16::to_le_bytes).collect()).unwrap_or_default();
    let name_offset = 24usize;
    let value_offset = (name_offset + name_utf16.len()).div_ceil(8) * 8;
    let total = (value_offset + value.len()).div_ceil(8) * 8;
    let mut a = vec![0u8; total];
    a[..4].copy_from_slice(&type_code.to_le_bytes());
    a[4..8].copy_from_slice(&(total as u32).to_le_bytes());
    a[8] = 0;
    a[9] = (name_utf16.len() / 2) as u8;
    a[10..12].copy_from_slice(&(name_offset as u16).to_le_bytes());
    a[12..14].copy_from_slice(&flags.to_le_bytes());
    a[16..20].copy_from_slice(&(value.len() as u32).to_le_bytes());
    a[20..22].copy_from_slice(&(value_offset as u16).to_le_bytes());
    a[name_offset..name_offset + name_utf16.len()].copy_from_slice(&name_utf16);
    a[value_offset..value_offset + value.len()].copy_from_slice(value);
    a
}

fn non_resident(
    type_code: u32,
    name: Option<&str>,
    mapping_pairs: &[u8],
    starting_vcn: u64,
    last_vcn: u64,
    sizes: (u64, u64, u64),
    flags: u16,
) -> Vec<u8> {
    let name_utf16: Vec<u8> =
        name.map(|n| n.encode_utf16().flat_map(u16::to_le_bytes).collect()).unwrap_or_default();
    let name_offset = 64usize;
    let run_offset = (name_offset + name_utf16.len()).div_ceil(8) * 8;
    let total = (run_offset + mapping_pairs.len() + 1).div_ceil(8) * 8;
    let mut a = vec![0u8; total];
    a[..4].copy_from_slice(&type_code.to_le_bytes());
    a[4..8].copy_from_slice(&(total as u32).to_le_bytes());
    a[8] = 1;
    a[9] = (name_utf16.len() / 2) as u8;
    a[10..12].copy_from_slice(&(name_offset as u16).to_le_bytes());
    a[12..14].copy_from_slice(&flags.to_le_bytes());
    a[16..24].copy_from_slice(&starting_vcn.to_le_bytes());
    a[24..32].copy_from_slice(&last_vcn.to_le_bytes());
    a[32..34].copy_from_slice(&(run_offset as u16).to_le_bytes());
    a[40..48].copy_from_slice(&sizes.0.to_le_bytes());
    a[48..56].copy_from_slice(&sizes.1.to_le_bytes());
    a[56..64].copy_from_slice(&sizes.2.to_le_bytes());
    a[name_offset..name_offset + name_utf16.len()].copy_from_slice(&name_utf16);
    a[run_offset..run_offset + mapping_pairs.len()].copy_from_slice(mapping_pairs);
    a
}

fn attributes(parts: &[Vec<u8>]) -> Vec<u8> {
    let mut out = Vec::new();
    for p in parts {
        out.extend_from_slice(p);
    }
    out.extend_from_slice(&0xFFFF_FFFFu32.to_le_bytes());
    out.extend_from_slice(&[0, 0, 0, 0]);
    out
}

fn iter(record: &[u8]) -> Vec<Result<Attribute<'_>, NtfsError>> {
    let mut it = AttributeIter::new(1, record, 0, record.len());
    let mut out = Vec::new();
    while let Some(a) = it.next_attribute() {
        out.push(a);
    }
    out
}

fn list_entry(type_code: u32, name: &str, starting_vcn: u64, reference: FileReference, id: u16) -> Vec<u8> {
    let utf16: Vec<u8> = name.encode_utf16().flat_map(u16::to_le_bytes).collect();
    let len = (26 + utf16.len()).div_ceil(8) * 8;
    let mut e = vec![0u8; len];
    e[..4].copy_from_slice(&type_code.to_le_bytes());
    e[4..6].copy_from_slice(&(len as u16).to_le_bytes());
    e[6] = (utf16.len() / 2) as u8;
    e[7] = 26;
    e[8..16].copy_from_slice(&starting_vcn.to_le_bytes());
    e[16..24].copy_from_slice(&reference.to_raw().to_le_bytes());
    e[24..26].copy_from_slice(&id.to_le_bytes());
    e[26..26 + utf16.len()].copy_from_slice(&utf16);
    e
}

struct BootSpec {
    bytes_per_sector: u16,
    sectors_per_cluster: u8,
    total_sectors: u64,
    mft_lcn: u64,
    mft_mirror_lcn: u64,
    record_size_raw: i8,
    index_size_raw: i8,
}

impl Default for BootSpec {
    fn default() -> Self {
        Self {
            bytes_per_sector: 512,
            sectors_per_cluster: 8,
            total_sectors: 131_071,
            mft_lcn: 4,
            mft_mirror_lcn: 8191,
            record_size_raw: -10,
            index_size_raw: 1,
        }
    }
}

fn build(spec: &BootSpec) -> Vec<u8> {
    let mut s = vec![0u8; 512];
    s[0] = 0xEB;
    s[1] = 0x52;
    s[2] = 0x90;
    s[3..11].copy_from_slice(b"NTFS    ");
    s[11..13].copy_from_slice(&spec.bytes_per_sector.to_le_bytes());
    s[13] = spec.sectors_per_cluster;
    s[21] = 0xF8;
    s[24..26].copy_from_slice(&63u16.to_le_bytes());
    s[26..28].copy_from_slice(&255u16.to_le_bytes());
    s[36] = 0x80;
    s[38] = 0x80;
    s[40..48].copy_from_slice(&spec.total_sectors.to_le_bytes());
    s[48..56].copy_from_slice(&spec.mft_lcn.to_le_bytes());
    s[56..64].copy_from_slice(&spec.mft_mirror_lcn.to_le_bytes());
    s[64] = spec.record_size_raw.to_le_bytes()[0];
    s[68] = spec.index_size_raw.to_le_bytes()[0];
    s[72..80].copy_from_slice(&0x1234_5678_9ABC_DEF0u64.to_le_bytes());
    s[510] = 0x55;
    s[511] = 0xAA;
    s
}

fn file_name_value(parent: FileReference, name: &str, namespace: u8, real_size: u64, flags: u32) -> Vec<u8> {
    let utf16: Vec<u8> = name.encode_utf16().flat_map(u16::to_le_bytes).collect();
    let mut v = vec![0u8; 66 + utf16.len()];
    v[..8].copy_from_slice(&parent.to_raw().to_le_bytes());
    v[8..16].copy_from_slice(&0x01DC_0000_0000_0000u64.to_le_bytes());
    v[16..24].copy_from_slice(&0x01DC_0000_0000_0001u64.to_le_bytes());
    v[24..32].copy_from_slice(&0x01DC_0000_0000_0002u64.to_le_bytes());
    v[32..40].copy_from_slice(&0x01DC_0000_0000_0003u64.to_le_bytes());
    v[40..48].copy_from_slice(&real_size.div_ceil(4096).saturating_mul(4096).to_le_bytes());
    v[48..56].copy_from_slice(&real_size.to_le_bytes());
    v[56..60].copy_from_slice(&flags.to_le_bytes());
    v[64] = (utf16.len() / 2) as u8;
    v[65] = namespace;
    v[66..].copy_from_slice(&utf16);
    v
}

fn protect(record: &mut [u8], usa_offset: usize, stride: usize, usn: u16) {
    let sectors = record.len() / stride;
    record[4..6].copy_from_slice(&(usa_offset as u16).to_le_bytes());
    record[6..8].copy_from_slice(&((sectors + 1) as u16).to_le_bytes());
    record[usa_offset..usa_offset + 2].copy_from_slice(&usn.to_le_bytes());
    for i in 0..sectors {
        let tail = (i + 1) * stride - 2;
        let slot = usa_offset + 2 + i * 2;
        let (a, b) = (record[tail], record[tail + 1]);
        record[slot] = a;
        record[slot + 1] = b;
        record[tail..tail + 2].copy_from_slice(&usn.to_le_bytes());
    }
}

fn sample(len: usize) -> Vec<u8> {
    (0..len).map(|i| (i % 251) as u8).collect()
}

fn blank_record(number: u64, flags: u16) -> Vec<u8> {
    let mut r = vec![0u8; 1024];
    r[..4].copy_from_slice(b"FILE");
    r[0x10..0x12].copy_from_slice(&3u16.to_le_bytes());
    r[0x12..0x14].copy_from_slice(&1u16.to_le_bytes());
    r[0x14..0x16].copy_from_slice(&0x38u16.to_le_bytes());
    r[0x16..0x18].copy_from_slice(&flags.to_le_bytes());
    r[0x18..0x1C].copy_from_slice(&0x40u32.to_le_bytes());
    r[0x1C..0x20].copy_from_slice(&1024u32.to_le_bytes());
    r[0x2C..0x30].copy_from_slice(&(number as u32).to_le_bytes());
    r[0x38..0x3C].copy_from_slice(&0xFFFF_FFFFu32.to_le_bytes());
    protect(&mut r, 0x30, 512, 0x0102);
    r
}

#[test]
fn resident_and_non_resident() {
    let rec = attributes(&[
        resident(0x10, None, &[1, 2, 3, 4], 0),
        resident(0x80, Some("stream"), b"hello", 0),
        non_resident(0x80, None, &[0x11, 0x08, 0x20, 0x00], 0, 7, (32768, 30000, 30000), 0),
    ]);
    let attrs: Vec<_> = iter(&rec).into_iter().map(Result::unwrap).collect();
    assert_eq!(attrs.len(), 3);
    assert_eq!(attrs[0].header.attribute_type, AttributeType::StandardInformation);
    assert_eq!(attrs[0].resident_value(), Some(&[1, 2, 3, 4][..]));
    assert!(attrs[0].is_unnamed());
    assert_eq!(attrs[1].header.name.as_deref(), Some("stream"));
    assert_eq!(attrs[1].resident_value(), Some(&b"hello"[..]));
    assert!(!attrs[1].is_unnamed());
    let nr = attrs[2].non_resident().unwrap();
    assert_eq!(nr.last_vcn, 7);
    assert_eq!(nr.real_size, 30000);
    assert_eq!(attrs[2].offset, attrs[0].header.length as usize + attrs[1].header.length as usize);
    match &attrs[2].body {
        AttributeBody::NonResident { mapping_pairs, .. } => {
            assert_eq!(&mapping_pairs[..4], &[0x11, 0x08, 0x20, 0x00])
        }
        AttributeBody::Resident { .. } => panic!(),
    }
}

#[test]
fn unknown_attribute_is_skipped_not_fatal() {
    let rec = attributes(&[resident(0x1234, None, &[9], 0), resident(0x30, None, &[1], 0)]);
    let attrs: Vec<_> = iter(&rec).into_iter().map(Result::unwrap).collect();
    assert_eq!(attrs[0].header.attribute_type, AttributeType::Unknown(0x1234));
    assert_eq!(attrs[1].header.attribute_type, AttributeType::FileName);
}

#[test]
fn malformed_lengths_yield_one_error() {
    let mut rec = attributes(&[resident(0x10, None, &[1], 0)]);
    rec[4..8].copy_from_slice(&0u32.to_le_bytes());
    let items = iter(&rec);
    assert_eq!(items.len(), 1);
    assert!(matches!(items[0], Err(NtfsError::InvalidAttribute { .. })));

    let mut rec = attributes(&[resident(0x10, None, &[1], 0)]);
    rec[4..8].copy_from_slice(&4096u32.to_le_bytes());
    assert!(matches!(iter(&rec)[0], Err(NtfsError::InvalidAttribute { .. })));

    let mut rec = attributes(&[resident(0x10, None, &[1], 0)]);
    rec[16..20].copy_from_slice(&500u32.to_le_bytes());
    assert!(matches!(iter(&rec)[0], Err(NtfsError::InvalidAttribute { .. })));

    let rec = resident(0x10, None, &[1], 0);
    let items = iter(&rec);
    assert_eq!(items.len(), 2);
    assert!(items[0].is_ok());
    assert!(items[1].is_err());
}

#[test]
fn flags_and_type_names() {
    let h = AttributeHeader {
        attribute_type: AttributeType::Data,
        length: 24,
        non_resident: true,
        name: None,
        flags: FLAG_COMPRESSED | FLAG_SPARSE,
        id: 0,
    };
    assert!(h.is_compressed());
    assert!(h.is_sparse());
    assert!(!h.is_encrypted());
    assert_eq!(AttributeType::from_code(0x80).to_text(), "$DATA");
    assert_eq!(AttributeType::from_code(0x999).to_text(), "$UNKNOWN(0x999)");
    assert_eq!(AttributeType::Data.code(), 0x80);
}

#[test]
fn parses_entries() {
    let r0 = FileReference { record: 0, sequence: 1 };
    let r15 = FileReference { record: 15, sequence: 15 };
    let mut list = list_entry(0x10, "", 0, r0, 0);
    list.extend(list_entry(0x80, "", 0, r0, 3));
    list.extend(list_entry(0x80, "", 4096, r15, 1));
    list.extend(list_entry(0x80, "alt", 0, r0, 5));
    list.extend([0u8; 8]);
    let entries = parse_attribute_list(0, &list).unwrap();
    assert_eq!(entries.len(), 4);
    assert_eq!(entries[2].starting_vcn, 4096);
    assert_eq!(entries[2].reference, r15);
    assert_eq!(entries[3].name, "alt");
    assert_eq!(entries[3].attribute_type, AttributeType::Data);
}

#[test]
fn attribute_list_rejects_malformed() {
    let mut list = list_entry(0x80, "", 0, FileReference { record: 0, sequence: 1 }, 0);
    list[4..6].copy_from_slice(&8u16.to_le_bytes());
    assert!(parse_attribute_list(0, &list).is_err());
    let list = list_entry(0x80, "abc", 0, FileReference { record: 0, sequence: 1 }, 0);
    assert!(parse_attribute_list(0, &list[..28]).is_err());
}

#[test]
fn bit_lookup_and_summary() {
    let bm = ClusterBitmap::from_bytes(vec![0b0000_0111, 0xFF], 12);
    assert_eq!(bm.state(0), ClusterState::Allocated);
    assert_eq!(bm.state(3), ClusterState::Free);
    assert_eq!(bm.state(8), ClusterState::Allocated);
    assert_eq!(bm.state(12), ClusterState::Unknown);
    assert_eq!(bm.summarize(1, 4), RangeAllocation { free: 2, allocated: 2, unknown: 0 });
    assert_eq!(bm.summarize(10, 4), RangeAllocation { free: 0, allocated: 2, unknown: 2 });
    assert_eq!(bm.summarize(u64::MAX - 1, 4).unknown, 4);
    assert_eq!(bm.allocated_clusters(), 7);
}

#[test]
fn range_allocation_saturates() {
    let mut a = RangeAllocation { free: u64::MAX, allocated: 1, unknown: 2 };
    assert_eq!(a.total(), u64::MAX);
    a.add(RangeAllocation { free: 1, allocated: 2, unknown: 3 });
    assert_eq!(a, RangeAllocation { free: u64::MAX, allocated: 3, unknown: 5 });
}

#[test]
fn parses_valid_sector() {
    let b = NtfsBootSector::parse(&build(&BootSpec::default())).unwrap();
    assert_eq!(b.bytes_per_sector, 512);
    assert_eq!(b.sectors_per_cluster, 8);
    assert_eq!(b.cluster_size, 4096);
    assert_eq!(b.mft_record_size, 1024);
    assert_eq!(b.index_record_size, 4096);
    assert_eq!(b.mft_lcn, 4);
    assert_eq!(b.mft_offset().unwrap(), 16384);
    assert_eq!(b.total_clusters(), 16383);
    assert_eq!(b.volume_serial, 0x1234_5678_9ABC_DEF0);
    assert!(b.fits_in(131_072 * 512));
    assert!(!b.fits_in(131_070 * 512));
}

#[test]
fn positive_record_size_and_large_clusters() {
    let spec = BootSpec { record_size_raw: 1, index_size_raw: -12, sectors_per_cluster: 2, ..BootSpec::default() };
    let b = NtfsBootSector::parse(&build(&spec)).unwrap();
    assert_eq!(b.cluster_size, 1024);
    assert_eq!(b.mft_record_size, 1024);
    assert_eq!(b.index_record_size, 4096);

    let spec = BootSpec { sectors_per_cluster: 0xF1, ..BootSpec::default() };
    assert!(NtfsBootSector::parse(&build(&spec)).is_err());
    let spec = BootSpec {
        sectors_per_cluster: 0xF8,
        total_sectors: 1 << 20,
        mft_lcn: 4,
        mft_mirror_lcn: 5,
        index_size_raw: -12,
        ..BootSpec::default()
    };
    assert_eq!(NtfsBootSector::parse(&build(&spec)).unwrap().cluster_size, 131_072);
}

#[test]
fn rejects_bad_fields() {
    type Mutation = Box<dyn Fn(&mut Vec<u8>)>;
    let cases: Vec<(&str, Mutation)> = vec![
        ("oem", Box::new(|s| s[3..11].copy_from_slice(b"MSDOS5.0"))),
        ("bytes per sector", Box::new(|s| s[11..13].copy_from_slice(&513u16.to_le_bytes()))),
        ("sectors per cluster", Box::new(|s| s[13] = 3)),
        ("record size", Box::new(|s| s[64] = 0x7F)),
        ("mft outside", Box::new(|s| s[48..56].copy_from_slice(&u64::MAX.to_le_bytes()))),
        ("signature", Box::new(|s| s[510] = 0)),
        ("reserved sectors", Box::new(|s| s[14] = 1)),
        ("total zero", Box::new(|s| s[40..48].copy_from_slice(&0u64.to_le_bytes()))),
    ];
    for (name, mutate) in cases {
        let mut s = build(&BootSpec::default());
        mutate(&mut s);
        assert!(
            matches!(NtfsBootSector::parse(&s), Err(NtfsError::InvalidBootSector(_))),
            "{name} should be rejected"
        );
    }
    assert!(NtfsBootSector::parse(&build(&BootSpec::default())[..100]).is_err());
}

#[test]
fn parses_win32_dos_and_unicode_names() {
    let parent = FileReference { record: 5, sequence: 5 };
    let v = file_name_value(parent, "Ünïcödé 文件.txt", 1, 1234, 0x20);
    let fnm = FileNameAttribute::parse(7, 0, &v).unwrap();
    assert_eq!(fnm.name, "Ünïcödé 文件.txt");
    assert_eq!(fnm.namespace, FileNameNamespace::Win32);
    assert_eq!(fnm.parent, parent);
    assert_eq!(fnm.real_size, 1234);
    assert!(!fnm.is_directory());
    assert!(!fnm.name_invalid_utf16);

    let dos = FileNameAttribute::parse(7, 0, &file_name_value(parent, "UNICOD~1.TXT", 2, 1234, 0)).unwrap();
    assert_eq!(dos.namespace, FileNameNamespace::Dos);
    let names = vec![dos, fnm.clone()];
    assert_eq!(preferred_name(&names).unwrap().name, fnm.name);
}

#[test]
fn invalid_utf16_is_lossy_and_flagged() {
    let mut v = file_name_value(FileReference { record: 5, sequence: 5 }, "ab", 1, 0, 0);
    v[66..68].copy_from_slice(&[0x00, 0xD8]);
    let fnm = FileNameAttribute::parse(7, 0, &v).unwrap();
    assert!(fnm.name_invalid_utf16);
    assert!(fnm.name.contains('\u{FFFD}'));
}

#[test]
fn truncated_value_is_rejected() {
    let v = file_name_value(FileReference { record: 5, sequence: 5 }, "abc", 1, 0, 0);
    assert!(FileNameAttribute::parse(7, 0, &v[..60]).is_err());
    let mut short = v.clone();
    short[64] = 50;
    assert!(FileNameAttribute::parse(7, 0, &short).is_err());
}

#[test]
fn round_trips_1k_and_4k_records() {
    for (len, stride) in [(1024usize, 512usize), (4096, 512), (4096, 4096)] {
        let original = sample(len);
        let mut record = original.clone();
        protect(&mut record, 0x30, stride, 0x1234);
        assert_ne!(record, original);
        let info = apply_fixup(&mut record, 0x30, (len / stride + 1) as u16, stride, 7).unwrap();
        assert_eq!(info.usn, 0x1234);
        assert_eq!(info.sectors as usize, len / stride);
        assert_eq!(&record[..4], &original[..4]);
        assert_eq!(&record[8..0x30], &original[8..0x30]);
        let usa_end = 0x30 + 2 * (len / stride + 1);
        assert_eq!(&record[usa_end..], &original[usa_end..]);
    }
}

#[test]
fn detects_mismatch() {
    let mut record = sample(1024);
    protect(&mut record, 0x30, 512, 0x1234);
    record[1022] ^= 0xFF;
    assert!(matches!(
        apply_fixup(&mut record, 0x30, 3, 512, 9),
        Err(NtfsError::FixupMismatch { record: 9, sector_index: 1 })
    ));
}

#[test]
fn rejects_bad_geometry() {
    let mut record = sample(1024);
    protect(&mut record, 0x30, 512, 1);
    assert!(matches!(apply_fixup(&mut record.clone(), 0x30, 2, 512, 1), Err(NtfsError::InvalidRecord { .. })));
    assert!(matches!(apply_fixup(&mut record.clone(), 0x1FC, 3, 512, 1), Err(NtfsError::InvalidRecord { .. })));
    assert!(matches!(apply_fixup(&mut record.clone(), 0x10, 3, 512, 1), Err(NtfsError::InvalidRecord { .. })));
    assert!(matches!(apply_fixup(&mut record[..1000], 0x30, 3, 512, 1), Err(NtfsError::InvalidRecord { .. })));
}

#[test]
fn parses_header() {
    let rec = FileRecord::parse(5, blank_record(5, FLAG_IN_USE | FLAG_DIRECTORY), 512).unwrap();
    assert!(rec.header().in_use());
    assert!(rec.header().is_directory());
    assert!(rec.header().is_base());
    assert_eq!(rec.reference(), FileReference { record: 5, sequence: 3 });
    assert_eq!(rec.header().stored_record_number, Some(5));
    let mut it = rec.attributes();
    assert!(it.next_attribute().is_none());
}

#[test]
fn rejects_bad_signature_and_mismatched_number() {
    let mut r = blank_record(5, 1);
    r[..4].copy_from_slice(b"BAAD");
    assert!(matches!(FileRecord::parse(5, r, 512), Err(NtfsError::InvalidRecord { .. })));
    assert!(matches!(FileRecord::parse(6, blank_record(5, 1), 512), Err(NtfsError::InvalidRecord { .. })));
    assert!(matches!(FileRecord::parse(0, vec![0u8; 1024], 512), Err(NtfsError::InvalidRecord { .. })));
    let mut r = blank_record(5, 1);
    r[1022] ^= 1;
    assert!(matches!(FileRecord::parse(5, r, 512), Err(NtfsError::FixupMismatch { .. })));
}

#[test]
fn file_reference_packing() {
    let r = FileReference::from_raw(0x0005_0000_0000_002A);
    assert_eq!(r, FileReference { record: 42, sequence: 5 });
    assert_eq!(r.to_raw(), 0x0005_0000_0000_002A);
    assert_eq!(r.to_text(), "42-5");
}

#[test]
fn single_extent() {
    let runs = decode_runlist(&[0x11, 0x08, 0x20, 0x00], 0, 1000).unwrap();
    assert_eq!(runs, vec![NtfsRun::Data { vcn: 0, lcn: 0x20, clusters: 8 }]);
}

#[test]
fn multiple_extents_with_negative_delta() {
    let mut pairs = vec![0x21, 20, 0xE8, 0x03];
    pairs.extend_from_slice(&[0x21, 10, 0x38, 0xFF]);
    pairs.push(0);
    let runs = decode_runlist(&pairs, 0, 5000).unwrap();
    assert_eq!(
        runs,
        vec![NtfsRun::Data { vcn: 0, lcn: 1000, clusters: 20 }, NtfsRun::Data { vcn: 20, lcn: 800, clusters: 10 }]
    );
    assert_eq!(total_clusters(&runs), 30);
    assert_eq!(extent_count(&runs), 2);
}

#[test]
fn sparse_run_and_large_extent() {
    let mut pairs = vec![0x01, 5];
    pairs.extend_from_slice(&[0x33, 0x00, 0x00, 0x10, 0x00, 0x00, 0x01]);
    pairs.push(0);
    let runs = decode_runlist(&pairs, 0, 1 << 40).unwrap();
    assert_eq!(runs[0], NtfsRun::Sparse { vcn: 0, clusters: 5 });
    assert_eq!(runs[1], NtfsRun::Data { vcn: 5, lcn: 0x1_0000, clusters: 0x10_0000 });
    assert_eq!(extent_count(&runs), 1);
}

#[test]
fn runlist_rejects_malformed() {
    assert!(decode_runlist(&[0x11, 0x08], 0, 100).is_err(), "truncated");
    assert!(decode_runlist(&[0x11, 0x08, 0x20], 0, 100).is_err(), "missing terminator");
    assert!(decode_runlist(&[0x11, 0x00, 0x20, 0x00], 0, 100).is_err(), "zero length");
    assert!(decode_runlist(&[0x19, 0x08, 0x20, 0x00], 0, 100).is_err(), "bad width");
    assert!(decode_runlist(&[0x10, 0x20, 0x00], 0, 100).is_err(), "zero length width");
    assert!(decode_runlist(&[0x11, 0x08, 0xF0, 0x00], 0, 100).is_err(), "LCN underflow");
    assert!(decode_runlist(&[0x11, 0x08, 0x60, 0x00], 0, 100).is_err(), "LCN outside volume");
    assert!(
        decode_runlist(&[0x18, 0xFF, 0xFF, 0xFF, 0xFF, 0xFF, 0xFF, 0xFF, 0xFF, 0x01, 0x00], 5, u64::MAX).is_err(),
        "VCN overflow"
    );
}

#[test]
fn parses_short_and_long_forms() {
    let mut v = vec![0u8; 72];
    v[..8].copy_from_slice(&1u64.to_le_bytes());
    v[32..36].copy_from_slice(&0x20u32.to_le_bytes());
    v[52..56].copy_from_slice(&0x104u32.to_le_bytes());
    let si = StandardInformation::parse(1, 0, &v).unwrap();
    assert_eq!(si.created.raw, 1);
    assert_eq!(si.file_attributes, 0x20);
    assert_eq!(si.security_id, Some(0x104));
    let short = StandardInformation::parse(1, 0, &v[..48]).unwrap();
    assert_eq!(short.security_id, None);
    assert!(StandardInformation::parse(1, 0, &v[..30]).is_err());
}

#[test]
fn epoch_conversions() {
    let t = NtfsTimestamp::new(116_444_736_000_000_000);
    assert_eq!(t.unix_seconds(), 0);
    assert_eq!(t.to_iso8601(), "1970-01-01T00:00:00.000000Z");
    let raw = 116_444_736_000_000_000 + 1_788_525_296 * 10_000_000 + 5_000_000;
    let t = NtfsTimestamp::new(raw);
    assert_eq!(t.to_iso8601(), "2026-09-04T12:34:56.500000Z");
    assert_eq!(NtfsTimestamp::default().to_iso8601(), "-");
    let t = NtfsTimestamp::new(116_444_736_000_000_000 - 86_400 * 10_000_000);
    assert_eq!(t.to_iso8601(), "1969-12-31T00:00:00.000000Z");
}

fn stream(name: Option<&str>, size: u64, runs: Vec<NtfsRun>) -> DataStreamDescriptor {
    DataStreamDescriptor {
        name: name.map(str::to_string),
        logical_size: size,
        storage: DataStorage::NonResident {
            runs,
            real_size: size,
            initialized_size: size,
            allocated_size: size,
            complete: true,
        },
        flags: 0,
    }
}

fn file_with(names: Vec<FileNameAttribute>, streams: Vec<DataStreamDescriptor>) -> NtfsFile {
    NtfsFile {
        reference: FileReference { record: 40, sequence: 2 },
        in_use: false,
        directory: false,
        is_base: true,
        hard_link_count: 1,
        names,
        streams,
        standard_information: None,
        has_attribute_list: false,
        extension_records: Vec::new(),
        diagnostics: Vec::new(),
    }
}

#[test]
fn file_names_and_streams() {
    let parent = FileReference { record: 5, sequence: 5 };
    let dos = FileNameAttribute::parse(40, 0, &file_name_value(parent, "REPORT~1.DOC", 2, 10, 0)).unwrap();
    let long = FileNameAttribute::parse(40, 0, &file_name_value(parent, "Report final.docx", 1, 10, 0)).unwrap();
    let runs = vec![NtfsRun::Sparse { vcn: 0, clusters: 2 }, NtfsRun::Data { vcn: 2, lcn: 100, clusters: 3 }];
    let f = file_with(vec![dos, long], vec![stream(Some("ads"), 5, Vec::new()), stream(None, 9000, runs)]);
    assert_eq!(f.name(), Some("Report final.docx"));
    assert_eq!(f.size(), Some(9000));
    assert_eq!(f.stream(Some("ads")).unwrap().logical_size, 5);
    assert_eq!(f.stream(Some("")).unwrap().logical_size, 9000);
    assert!(f.stream(Some("other")).is_none());
    let unnamed = f.unnamed_stream().unwrap();
    assert!(unnamed.is_unnamed() && unnamed.has_sparse_runs());
    assert_eq!(unnamed.data_clusters(), 3);
    assert_eq!(unnamed.extent_count(), 1);
    assert!(unnamed.storage.is_readable() && !unnamed.storage.is_resident());

    let path = ResolvedPath {
        path: "\\docs\\Report final.docx".to_string(),
        uncertain: false,
        via_deleted_directory: false,
        diagnostics: Vec::new(),
    };
    assert_eq!(metadata_state(&f, &path), CandidateMetadataState::Complete);
    let anonymous = file_with(Vec::new(), Vec::new());
    assert!(anonymous.name().is_none());
    assert_eq!(metadata_state(&anonymous, &path), CandidateMetadataState::Minimal);
}

/// Probes an in-memory source as a reader of it would: the first sector is
/// read only when the source holds one.
fn probe_ntfs(data: &[u8]) -> ProbeResult {
    let sector = if data.len() >= 512 { &data[..512] } else { &data[..0] };
    NtfsProbe.probe(data.len() as u64, sector)
}

#[test]
fn strong_positive_on_valid_boot_sector() {
    let mut data = build(&BootSpec::default());
    data.resize(131_072 * 512, 0);
    let r = probe_ntfs(&data);
    assert_eq!(r.confidence, 95);
    assert!(r.evidence.iter().all(|e| e.supports));
}

#[test]
fn truncated_source_lowers_confidence() {
    let mut data = build(&BootSpec::default());
    data.resize(4096, 0);
    let r = probe_ntfs(&data);
    assert_eq!(r.confidence, 75);
    assert!(r.is_positive());
}

#[test]
fn oem_alone_is_not_enough() {
    let mut data = vec![0u8; 4096];
    data[3..11].copy_from_slice(b"NTFS    ");
    let r = probe_ntfs(&data);
    assert!(!r.is_positive());
    assert!(r.evidence.iter().any(|e| !e.supports));
    assert!(!probe_ntfs(&vec![0u8; 4096]).is_positive());
}

#[test]
fn ntfs_probe_evidence_texts() {
    let mut data = build(&BootSpec::default());
    data.resize(131_072 * 512, 0);
    let r = probe_ntfs(&data);
    let texts: Vec<&str> = r.evidence.iter().map(|e| e.detail.as_str()).collect();
    assert_eq!(
        texts,
        vec![
            "OEM ID is \"NTFS    \"",
            "valid geometry: 512 bytes/sector, 4096 bytes/cluster, 1024-byte MFT records",
            "55 AA boot signature present",
            "$MFT at LCN 4 lies inside the volume",
            "declared size of 131071 sectors fits the source",
        ]
    );
    let short = probe_ntfs(&data[..100]);
    assert_eq!(short.confidence, 0);
    assert_eq!(short.evidence[0].detail, "source shorter than a boot sector");
    let mut bad = data[..4096].to_vec();
    bad[510] = 0;
    let r = probe_ntfs(&bad);
    assert_eq!(r.confidence, 25);
    assert!(r.evidence[1].detail.starts_with("boot sector fails validation: invalid NTFS boot sector: "));
}

#[test]
fn every_known_type_prints_its_name() {
    for code in [0x10u32, 0x20, 0x30, 0x40, 0x50, 0x60, 0x70, 0x80, 0x90, 0xA0, 0xB0, 0xC0, 0xD0, 0xE0, 0x100] {
        let t = AttributeType::from_code(code);
        assert_eq!(t.to_text(), t.name());
        assert_eq!(t.code(), code);
    }
    assert_eq!(AttributeType::from_code(0x90).name(), "$INDEX_ROOT");
    assert_eq!(AttributeType::from_code(0xA0).name(), "$INDEX_ALLOCATION");
    assert_eq!(AttributeType::from_code(0x100).name(), "$LOGGED_UTILITY_STREAM");
    assert_eq!(AttributeType::from_code(0x999).name(), "$UNKNOWN");
}

#[test]
fn mft_record_geometry_check() {
    assert!(check_record_geometry(1024, 512).is_ok());
    assert!(matches!(check_record_geometry(0, 512), Err(NtfsError::InvalidBootSector(_))));
    assert!(check_record_geometry(1024, 2).is_err());
}

#[test]
fn ntfs_evidence_counts_runs_and_notes_diagnostics() {
    let parent = FileReference { record: 5, sequence: 5 };
    let long = FileNameAttribute::parse(40, 0, &file_name_value(parent, "a.txt", 1, 10, 0)).unwrap();
    let runs = vec![NtfsRun::Sparse { vcn: 0, clusters: 2 }, NtfsRun::Data { vcn: 2, lcn: 8, clusters: 4 }];
    let mut f = file_with(vec![long], vec![stream(None, 6 * 4096, runs)]);
    f.diagnostics.push(NtfsDiagnostic::UnknownAttribute { code: 0x999 });
    f.diagnostics.push(NtfsDiagnostic::NameInvalidUtf16);
    let path = ResolvedPath {
        path: "\\old\\a.txt".to_string(),
        uncertain: true,
        via_deleted_directory: true,
        diagnostics: vec![
            NtfsDiagnostic::ParentDeleted { parent: 5 },
            NtfsDiagnostic::ParentDeleted { parent: 5 },
            NtfsDiagnostic::PathLoop,
        ],
    };
    // Clusters 8 and 9 allocated, 10 and 11 free.
    let bm = ClusterBitmap::from_bytes(vec![0, 0b0000_0011], 64);
    let e = ntfs_evidence(&f, &path, f.streams.first(), Some(&bm), 4096);
    assert_eq!((e.allocation.total, e.allocation.free, e.allocation.allocated), (4, 2, 2));
    assert_eq!(e.extents.total_clusters, Some(4));
    assert_eq!(e.extents.expected_clusters, Some(6));
    assert!(e.extents.sparse && e.extents.complete && e.extents.chain_known);
    assert_eq!(e.notes, vec![Note::FileDiagnostic(1), Note::ViaDeletedDirectory, Note::PathDiagnostic(2)]);
    assert!(e.metadata.valid_record && e.metadata.filename_available);
    assert!(!e.metadata.original_parent_available && !e.metadata.parent_reference_valid);
    let none = ntfs_evidence(&f, &path, None, None, 4096);
    assert_eq!(none.metadata.logical_size, None);
    assert!(!none.allocation.map_available && !none.extents.chain_known);
}

#[test]
fn ntfs_candidates_are_deleted_base_files() {
    let parent = FileReference { record: 5, sequence: 5 };
    let name = FileNameAttribute::parse(40, 0, &file_name_value(parent, "a.txt", 1, 10, 0)).unwrap();
    let f = file_with(vec![name], Vec::new());
    assert!(ntfs_is_candidate(&f));
    assert!(!ntfs_is_candidate(&NtfsFile { in_use: true, ..f.clone() }));
    assert!(!ntfs_is_candidate(&NtfsFile { is_base: false, ..f.clone() }));
    assert!(!ntfs_is_candidate(&NtfsFile { directory: true, ..f.clone() }));
    assert!(!ntfs_is_candidate(&file_with(Vec::new(), Vec::new())));
}

#[test]
fn record_zero_falls_back_to_the_mirror() {
    let good = || FileRecord::parse(0, blank_record(0, FLAG_IN_USE), 512);
    let bad = || FileRecord::parse(0, vec![0u8; 1024], 512);
    assert!(matches!(record_zero(good(), None), RecordZero::Found { used_mirror: false, .. }));
    assert!(matches!(record_zero(bad(), None), RecordZero::ReadMirror));
    assert!(matches!(record_zero(bad(), Some(good())), RecordZero::Found { used_mirror: true, .. }));
    assert!(matches!(record_zero(bad(), Some(bad())), RecordZero::Unreadable { .. }));
}
