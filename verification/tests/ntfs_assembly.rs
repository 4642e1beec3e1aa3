use phoinix_fs_native::ntfs::assemble::{DataPiece, FileBuilder, PendingList};
use phoinix_fs_native::ntfs::attribute::AttributeType;
use phoinix_fs_native::ntfs::attribute_list::AttributeListEntry;
use phoinix_fs_native::ntfs::data::{DataStorage, DataStreamDescriptor};
use phoinix_fs_native::ntfs::diagnostic::NtfsDiagnostic;
use phoinix_fs_native::ntfs::error::NtfsError;
use phoinix_fs_native::ntfs::extensions::{extension_records, MAX_EXTENSION_RECORDS};
use phoinix_fs_native::ntfs::finish::text_le_exec;
use phoinix_fs_native::ntfs::mft::{
    check_mft_list_len, mft_extension_pieces, mft_extension_runs, scan_record_zero, MftGeometry,
    MAX_MFT_ATTRIBUTE_LIST_BYTES,
};
use phoinix_fs_native::ntfs::record::{FileRecord, FileReference};
use phoinix_fs_native::ntfs::runlist::NtfsRun;

fn resident(type_code: u32, name: Option<&str>, value: &[u8]) -> Vec<u8> {
    let name_utf16: Vec<u8> =
        name.map(|n| n.encode_utf16().flat_map(u16::to_le_bytes).collect()).unwrap_or_default();
    let name_offset = 24usize;
    let value_offset = (name_offset + name_utf16.len()).div_ceil(8) * 8;
    let total = (value_offset + value.len()).div_ceil(8) * 8;
    let mut a = vec![0u8; total];
    a[..4].copy_from_slice(&type_code.to_le_bytes());
    a[4..8].copy_from_slice(&(total as u32).to_le_bytes());
    a[9] = (name_utf16.len() / 2) as u8;
    a[10..12].copy_from_slice(&(name_offset as u16).to_le_bytes());
    a[16..20].copy_from_slice(&(value.len() as u32).to_le_bytes());
    a[20..22].copy_from_slice(&(value_offset as u16).to_le_bytes());
    a[name_offset..name_offset + name_utf16.len()].copy_from_slice(&name_utf16);
    a[value_offset..value_offset + value.len()].copy_from_slice(value);
    a
}

fn non_resident(name: Option<&str>, pairs: &[u8], starting_vcn: u64, last_vcn: u64, size: u64) -> Vec<u8> {
    let name_utf16: Vec<u8> =
        name.map(|n| n.encode_utf16().flat_map(u16::to_le_bytes).collect()).unwrap_or_default();
    let name_offset = 64usize;
    let run_offset = (name_offset + name_utf16.len()).div_ceil(8) * 8;
    let total = (run_offset + pairs.len() + 1).div_ceil(8) * 8;
    let mut a = vec![0u8; total];
    a[..4].copy_from_slice(&0x80u32.to_le_bytes());
    a[4..8].copy_from_slice(&(total as u32).to_le_bytes());
    a[8] = 1;
    a[9] = (name_utf16.len() / 2) as u8;
    a[10..12].copy_from_slice(&(name_offset as u16).to_le_bytes());
    a[16..24].copy_from_slice(&starting_vcn.to_le_bytes());
    a[24..32].copy_from_slice(&last_vcn.to_le_bytes());
    a[32..34].copy_from_slice(&(run_offset as u16).to_le_bytes());
    a[40..48].copy_from_slice(&size.to_le_bytes());
    a[48..56].copy_from_slice(&size.to_le_bytes());
    a[56..64].copy_from_slice(&size.to_le_bytes());
    a[name_offset..name_offset + name_utf16.len()].copy_from_slice(&name_utf16);
    a[run_offset..run_offset + pairs.len()].copy_from_slice(pairs);
    a
}

fn protect(record: &mut [u8], usa_offset: usize, stride: usize, usn: u16) {
    let sectors = record.len() / stride;
    record[4..6].copy_from_slice(&(usa_offset as u16).to_le_bytes());
    record[6..8].copy_from_slice(&((sectors + 1) as u16).to_le_bytes());
    record[usa_offset..usa_offset + 2].copy_from_slice(&usn.to_le_bytes());
    for i in 0..sectors {
        let tail = (i + 1) * stride - 2;
        let slot = usa_offset + 2 + i * 2;
        let (a, b) = (record[tail], record[tail + 1]);
        record[slot] = a;
        record[slot + 1] = b;
        record[tail..tail + 2].copy_from_slice(&usn.to_le_bytes());
    }
}

/// A fixed-up record holding `attrs` (then the end marker).
fn record_with(number: u64, base: FileReference, attrs: &[Vec<u8>]) -> FileRecord {
    let mut r = vec![0u8; 1024];
    r[..4].copy_from_slice(b"FILE");
    r[0x10..0x12].copy_from_slice(&3u16.to_le_bytes());
    r[0x12..0x14].copy_from_slice(&1u16.to_le_bytes());
    r[0x14..0x16].copy_from_slice(&0x38u16.to_le_bytes());
    r[0x16..0x18].copy_from_slice(&1u16.to_le_bytes());
    r[0x1C..0x20].copy_from_slice(&1024u32.to_le_bytes());
    r[0x20..0x28].copy_from_slice(&base.to_raw().to_le_bytes());
    r[0x2C..0x30].copy_from_slice(&(number as u32).to_le_bytes());
    let mut pos = 0x38usize;
    for a in attrs {
        r[pos..pos + a.len()].copy_from_slice(a);
        pos += a.len();
    }
    r[pos..pos + 4].copy_from_slice(&0xFFFF_FFFFu32.to_le_bytes());
    r[0x18..0x1C].copy_from_slice(&((pos + 8) as u32).to_le_bytes());
    protect(&mut r, 0x30, 512, 0x0102);
    FileRecord::parse(number, r, 512).unwrap()
}

fn base_ref() -> FileReference {
    FileReference { record: 0, sequence: 0 }
}

fn builder(names_known: bool) -> FileBuilder {
    let _ = names_known;
    FileBuilder::new(FileReference { record: 40, sequence: 3 }, true, false, true, 1, 4096, 1000)
}

fn piece(key: &str, starting_vcn: u64, runs: Vec<NtfsRun>, last_vcn: u64, allocated: u64) -> DataPiece {
    DataPiece {
        key: key.to_string(),
        starting_vcn,
        runs,
        real_size: allocated,
        initialized_size: allocated,
        allocated_size: allocated,
        last_vcn,
        flags: 0,
        compression_unit: 0,
        runlist_error: None,
    }
}

fn entry(type_code: AttributeType, name: &str, starting_vcn: u64, record: u64) -> AttributeListEntry {
    AttributeListEntry {
        attribute_type: type_code,
        name: name.to_string(),
        starting_vcn,
        reference: FileReference { record, sequence: 1 },
        attribute_id: 0,
    }
}

#[test]
fn finish_merges_each_stream_and_orders_by_name() {
    let mut b = builder(false);
    b.resident_streams.push(DataStreamDescriptor {
        name: Some("zeta".to_string()),
        logical_size: 3,
        storage: DataStorage::Resident { value: vec![1, 2, 3] },
        flags: 0,
    });
    // Pieces of "alpha" arrive out of order; the unnamed stream has one.
    b.pieces.push(piece("alpha", 2, vec![NtfsRun::Data { vcn: 2, lcn: 50, clusters: 2 }], 3, 0));
    b.pieces.push(piece("", 0, vec![NtfsRun::Data { vcn: 0, lcn: 10, clusters: 1 }], 0, 4096));
    b.pieces.push(piece("alpha", 0, vec![NtfsRun::Data { vcn: 0, lcn: 40, clusters: 2 }], 1, 16384));
    // "beta" has no piece at VCN 0.
    b.pieces.push(piece("beta", 5, vec![NtfsRun::Sparse { vcn: 5, clusters: 1 }], 5, 0));
    let f = b.finish();
    let names: Vec<Option<&str>> = f.streams.iter().map(|s| s.name.as_deref()).collect();
    assert_eq!(names, vec![None, Some("alpha"), Some("zeta")]);
    match &f.streams[1].storage {
        DataStorage::NonResident { runs, complete, .. } => {
            assert_eq!(runs.len(), 2);
            assert_eq!(runs[0].vcn(), 0);
            assert_eq!(runs[1].vcn(), 2);
            assert!(*complete);
        }
        _ => panic!("alpha should be non-resident"),
    }
    assert_eq!(f.streams[1].logical_size, 16384);
    assert_eq!(
        f.diagnostics,
        vec![
            NtfsDiagnostic::RunlistIncomplete {
                name: Some("beta".to_string()),
                covered_clusters: 0,
                expected_clusters: 0,
            },
            NtfsDiagnostic::NoFileName,
        ]
    );
    assert_eq!(f.reference, FileReference { record: 40, sequence: 3 });
}

#[test]
fn directories_need_no_name() {
    let b = FileBuilder::new(FileReference { record: 5, sequence: 5 }, true, true, true, 1, 4096, 10);
    let f = b.finish();
    assert!(f.diagnostics.is_empty());
    assert!(f.streams.is_empty());
}

#[test]
fn text_order_is_by_code_point() {
    assert!(text_le_exec("", "a"));
    assert!(text_le_exec("ab", "ab"));
    assert!(text_le_exec("ab", "abc"));
    assert!(!text_le_exec("abc", "ab"));
    assert!(text_le_exec("Zebra", "apple"));
    assert!(!text_le_exec("é", "z"));
}

#[test]
fn consume_record_takes_every_attribute() {
    let mut si = vec![0u8; 48];
    si[32..36].copy_from_slice(&0x20u32.to_le_bytes());
    let rec = record_with(
        40,
        base_ref(),
        &[resident(0x10, None, &si), resident(0x80, Some("notes"), b"hi"), resident(0x1234, None, &[0; 8])],
    );
    let mut b = builder(true);
    b.consume_record(&rec);
    assert!(b.standard_information.is_some());
    assert_eq!(b.resident_streams.len(), 1);
    assert_eq!(b.diagnostics, vec![NtfsDiagnostic::UnknownAttribute { code: 0x1234 }]);
    let f = b.finish();
    assert_eq!(f.streams[0].name.as_deref(), Some("notes"));
}

#[test]
fn consume_record_notes_a_malformed_attribute() {
    let mut bad = resident(0x80, None, b"x");
    bad[4..8].copy_from_slice(&3u32.to_le_bytes());
    let rec = record_with(40, base_ref(), &[bad]);
    let mut b = builder(true);
    b.consume_record(&rec);
    assert_eq!(b.diagnostics.len(), 1);
    assert!(matches!(b.diagnostics[0], NtfsDiagnostic::AttributeError { offset: 0x38, .. }));
}

#[test]
fn extension_records_skip_base_and_repeats() {
    let base = FileReference { record: 40, sequence: 3 };
    let entries = vec![
        entry(AttributeType::StandardInformation, "", 0, 40),
        entry(AttributeType::Data, "", 0, 77),
        entry(AttributeType::Data, "", 100, 77),
        entry(AttributeType::Data, "", 200, 90),
    ];
    assert_eq!(extension_records(base, &entries), (vec![77, 90], false));
}

#[test]
fn extension_records_are_capped() {
    let base = FileReference { record: 1, sequence: 1 };
    let entries: Vec<AttributeListEntry> =
        (0..(MAX_EXTENSION_RECORDS as u64 + 2)).map(|i| entry(AttributeType::Data, "", i, 100 + i)).collect();
    let (records, over) = extension_records(base, &entries);
    assert!(over);
    assert_eq!(records.len(), MAX_EXTENSION_RECORDS);
    assert_eq!(records[0], 100);
    assert_eq!(*records.last().unwrap(), 100 + MAX_EXTENSION_RECORDS as u64 - 1);
}

#[test]
fn extension_with_another_base_is_refused() {
    let mut b = builder(true);
    assert!(!b.accept_extension(77, FileReference { record: 8, sequence: 2 }));
    assert_eq!(
        b.diagnostics,
        vec![NtfsDiagnostic::ExtensionRecordUnavailable {
            record: 77,
            reason: "base reference 8-2 does not match 40-3".to_string(),
        }]
    );
    assert!(b.accept_extension(78, FileReference { record: 40, sequence: 3 }));
    assert_eq!(b.extension_records, vec![78]);
    b.too_many_extensions();
    b.extension_failed(79, &NtfsError::NoSuchRecord(79));
    assert_eq!(b.diagnostics.len(), 3);
    assert!(matches!(
        &b.diagnostics[1],
        NtfsDiagnostic::AttributeListIncomplete { reason } if reason == "too many extension records"
    ));
}

#[test]
fn taking_the_attribute_list_marks_the_file() {
    let mut b = builder(true);
    assert!(b.take_attribute_list().is_none());
    assert!(!b.has_attribute_list);
    b.attribute_list = Some(PendingList::Resident(vec![1, 2]));
    assert_eq!(b.take_attribute_list(), Some(PendingList::Resident(vec![1, 2])));
    assert!(b.has_attribute_list);
    assert!(b.attribute_list.is_none());
}

#[test]
fn record_zero_gives_runs_sizes_and_list() {
    let rec = record_with(
        0,
        base_ref(),
        &[
            resident(0x20, None, &[9, 9, 9, 9]),
            non_resident(None, &[0x11, 0x04, 0x10], 0, 3, 4096),
            non_resident(Some("$Bitmap"), &[0x11, 0x01, 0x30], 0, 0, 8),
        ],
    );
    let z = scan_record_zero(&rec, 1000).unwrap();
    assert_eq!(z.runs, vec![NtfsRun::Data { vcn: 0, lcn: 16, clusters: 4 }]);
    assert_eq!((z.real_size, z.initialized_size), (4096, 4096));
    assert_eq!(z.attribute_list, Some(PendingList::Resident(vec![9, 9, 9, 9])));
}

#[test]
fn record_zero_failures() {
    let resident_data = record_with(0, base_ref(), &[resident(0x80, None, b"abc")]);
    assert_eq!(
        scan_record_zero(&resident_data, 1000).unwrap_err(),
        NtfsError::InvalidRecord { record: 0, reason: "$MFT $DATA is resident" }
    );
    let no_data = record_with(0, base_ref(), &[resident(0x10, None, &[0; 48])]);
    assert_eq!(
        scan_record_zero(&no_data, 1000).unwrap_err(),
        NtfsError::InvalidRecord { record: 0, reason: "$MFT has no unnamed $DATA runs" }
    );
    let past_volume = record_with(0, base_ref(), &[non_resident(None, &[0x11, 0x04, 0x10], 0, 3, 4096)]);
    assert!(matches!(scan_record_zero(&past_volume, 8), Err(NtfsError::InvalidRunlist(_))));
}

#[test]
fn mft_extension_pieces_and_runs() {
    let entries = vec![
        entry(AttributeType::Data, "", 0, 0),
        entry(AttributeType::Data, "", 4, 25),
        entry(AttributeType::Data, "$Bad", 0, 26),
        entry(AttributeType::FileName, "", 0, 27),
    ];
    assert_eq!(mft_extension_pieces(&entries), vec![(25, 4)]);
    let ext = record_with(25, base_ref(), &[non_resident(None, &[0x11, 0x02, 0x40], 4, 5, 0)]);
    let mut runs = vec![NtfsRun::Data { vcn: 0, lcn: 16, clusters: 4 }];
    mft_extension_runs(&ext, 25, 4, 1000, &mut runs).unwrap();
    assert_eq!(runs[1], NtfsRun::Data { vcn: 4, lcn: 64, clusters: 2 });
    let foreign = record_with(26, FileReference { record: 9, sequence: 1 }, &[]);
    let mut none = Vec::new();
    assert_eq!(
        mft_extension_runs(&foreign, 26, 4, 1000, &mut none),
        Err(NtfsError::InvalidRecord {
            record: 26,
            reason: "$MFT extension record does not reference record 0",
        })
    );
}

#[test]
fn mft_geometry_and_limits() {
    let g = MftGeometry::new(1024, 512, 10 * 1024 + 5, false);
    assert_eq!(g.record_count(), 10);
    assert_eq!(g.record_offset(3), Ok(3072));
    assert_eq!(g.record_offset(10), Err(NtfsError::NoSuchRecord(10)));
    assert!(check_mft_list_len(MAX_MFT_ATTRIBUTE_LIST_BYTES).is_ok());
    assert!(matches!(check_mft_list_len(MAX_MFT_ATTRIBUTE_LIST_BYTES + 1), Err(NtfsError::Unsupported(_))));
}
