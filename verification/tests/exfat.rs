use phoinix_fs_native::calendar::iso8601_utc;
use phoinix_fs_native::exfat::bitmap::{AllocationBitmap, ClusterState, RangeAllocation};
use phoinix_fs_native::exfat::boot::ExfatBootSector;
use phoinix_fs_native::exfat::dir::{entry_set_checksum, parse_directory, SpecialEntry, ENTRY_SIZE};
use phoinix_fs_native::exfat::table::{ExfatTable, END_OF_CHAIN};
use phoinix_fs_native::exfat::volume::ExfatVolume;
use phoinix_fs_native::exfat::walk::{directory_from_clusters, directory_reads, DirectoryRead, ExfatWalk};
use phoinix_fs_native::exfat::error::ExfatError;
use phoinix_fs_native::exfat::probe::ExFatProbe;
use phoinix_fs_native::evidence::Note;
use phoinix_fs_native::exfat::undelete::exfat_candidate_facts;
use phoinix_fs_native::exfat::volume::WalkedEntry;
use phoinix_fs_native::exfat::undelete::exfat_is_candidate;

fn boot(volume_sectors: u64, cluster_count: u32, spc_shift: u8) -> Vec<u8> {
    let mut s = vec![0u8; 512];
    s[0] = 0xEB;
    s[1] = 0x76;
    s[2] = 0x90;
    s[3..11].copy_from_slice(b"EXFAT   ");
    s[72..80].copy_from_slice(&volume_sectors.to_le_bytes());
    s[80..84].copy_from_slice(&2048u32.to_le_bytes());
    s[84..88].copy_from_slice(&128u32.to_le_bytes());
    s[88..92].copy_from_slice(&4096u32.to_le_bytes());
    s[92..96].copy_from_slice(&cluster_count.to_le_bytes());
    s[96..100].copy_from_slice(&5u32.to_le_bytes());
    s[100..104].copy_from_slice(&0xDEAD_BEEFu32.to_le_bytes());
    s[104] = 0;
    s[105] = 1;
    s[108] = 9;
    s[109] = spc_shift;
    s[110] = 1;
    s[510] = 0x55;
    s[511] = 0xAA;
    s
}

fn file_set(name: &str, attributes: u16, flags: u8, first_cluster: u32, length: u64, deleted: bool) -> Vec<u8> {
    let units: Vec<u16> = name.encode_utf16().collect();
    let name_entries = units.len().div_ceil(15).max(1);
    let secondary = 1 + name_entries;
    let mut set = vec![0u8; ENTRY_SIZE * (1 + secondary)];
    set[0] = 0x85;
    set[1] = secondary as u8;
    set[4..6].copy_from_slice(&attributes.to_le_bytes());
    let ts: u32 = ((46u32 << 9 | 9 << 5 | 5) << 16) | (1 << 11 | 38 << 5);
    set[8..12].copy_from_slice(&ts.to_le_bytes());
    set[12..16].copy_from_slice(&ts.to_le_bytes());
    set[16..20].copy_from_slice(&ts.to_le_bytes());
    let s = &mut set[ENTRY_SIZE..2 * ENTRY_SIZE];
    s[0] = 0xC0;
    s[1] = flags;
    s[3] = units.len() as u8;
    s[8..16].copy_from_slice(&length.to_le_bytes());
    s[20..24].copy_from_slice(&first_cluster.to_le_bytes());
    s[24..32].copy_from_slice(&length.to_le_bytes());
    for (i, chunk) in units.chunks(15).enumerate() {
        let e = &mut set[(2 + i) * ENTRY_SIZE..(3 + i) * ENTRY_SIZE];
        e[0] = 0xC1;
        for (j, u) in chunk.iter().enumerate() {
            e[2 + j * 2..4 + j * 2].copy_from_slice(&u.to_le_bytes());
        }
    }
    let checksum = entry_set_checksum(&set, false);
    set[2..4].copy_from_slice(&checksum.to_le_bytes());
    if deleted {
        for i in 0..=secondary {
            set[i * ENTRY_SIZE] &= 0x7F;
        }
    }
    set
}

fn set32(b: &mut [u8], c: usize, v: u32) {
    b[c * 4..c * 4 + 4].copy_from_slice(&v.to_le_bytes());
}

#[test]
fn bits() {
    let bm = AllocationBitmap::from_bytes(vec![0b0000_0101], 8);
    assert_eq!(bm.state(2), ClusterState::Allocated);
    assert_eq!(bm.state(3), ClusterState::Free);
    assert_eq!(bm.state(4), ClusterState::Allocated);
    assert_eq!(bm.state(20), ClusterState::Unknown);
    assert_eq!(
        bm.summarize(&[2, 3, 4, 20]),
        RangeAllocation { free: 1, allocated: 2, unknown: 1 }
    );
    assert_eq!(bm.allocated_clusters(), 2);
}

#[test]
fn parses_geometry() {
    let b = ExfatBootSector::parse(&boot(131_072, 15_872, 3)).unwrap();
    assert_eq!(b.bytes_per_sector, 512);
    assert_eq!(b.cluster_size, 4096);
    assert_eq!(b.heap_offset, 4096 * 512);
    assert_eq!(b.cluster_offset(2).unwrap(), b.heap_offset);
    assert_eq!(b.cluster_offset(5).unwrap(), b.heap_offset + 3 * 4096);
    assert!(b.cluster_offset(1).is_err());
    assert_eq!(b.fat_byte_offset(), 2048 * 512);
    assert_eq!(b.revision, (1, 0));
}

#[test]
fn exfat_boot_rejects_bad_sectors() {
    let mut s = boot(131_072, 15_872, 3);
    s[108] = 13;
    assert!(ExfatBootSector::parse(&s).is_err());
    let mut s = boot(131_072, 15_872, 3);
    s[20] = 1;
    assert!(ExfatBootSector::parse(&s).is_err());
    let mut s = boot(131_072, 15_872, 3);
    s[96..100].copy_from_slice(&1u32.to_le_bytes());
    assert!(ExfatBootSector::parse(&s).is_err());
    assert!(ExfatBootSector::parse(&vec![0u8; 512]).is_err());
}

#[test]
fn parses_sets_and_deleted_sets() {
    let mut dir = Vec::new();
    let mut label = vec![0u8; 32];
    label[0] = 0x83;
    label[1] = 3;
    label[2..8].copy_from_slice(&[b'V', 0, b'O', 0, b'L', 0]);
    dir.extend(label);
    let mut bm = vec![0u8; 32];
    bm[0] = 0x81;
    bm[20..24].copy_from_slice(&2u32.to_le_bytes());
    bm[24..32].copy_from_slice(&1984u64.to_le_bytes());
    dir.extend(bm);
    dir.extend(file_set("docs", 0x10, 0x03, 6, 4096, false));
    dir.extend(file_set("a very long file name that spans entries.txt", 0x20, 0x03, 13, 4, true));
    dir.extend(vec![0u8; 32]);
    let d = parse_directory(&dir, 5000);
    assert_eq!(d.specials.len(), 2);
    assert_eq!(d.specials[0], SpecialEntry::Label("VOL".into()));
    assert_eq!(d.entries.len(), 2);
    assert_eq!(d.entries[0].name, "docs");
    assert!(d.entries[0].is_directory());
    assert!(d.entries[0].checksum_ok);
    assert!(d.entries[0].flags.no_fat_chain());
    assert_eq!(d.entries[0].entry_offset, 5064);
    let del = &d.entries[1];
    assert!(del.deleted);
    assert!(del.checksum_ok, "deleted set checksum verified with in-use bits restored");
    assert_eq!(del.name, "a very long file name that spans entries.txt");
    assert_eq!(del.first_cluster, 13);
    assert_eq!(del.data_length, 4);
    assert_eq!(
        del.modified.map(|s| iso8601_utc(s, 0)).as_deref(),
        Some("2026-09-05T01:38:00.000000Z")
    );
}

#[test]
fn corrupt_checksum_is_flagged_not_fatal() {
    let mut set = file_set("x.bin", 0x20, 0x03, 9, 10, false);
    set[40] ^= 0xFF;
    let d = parse_directory(&set, 0);
    assert_eq!(d.entries.len(), 1);
    assert!(!d.entries[0].checksum_ok);
}

#[test]
fn chains() {
    let mut bytes = vec![0u8; 4 * 16];
    set32(&mut bytes, 2, 7);
    set32(&mut bytes, 7, 3);
    set32(&mut bytes, 3, END_OF_CHAIN);
    set32(&mut bytes, 4, 4);
    let t = ExfatTable::from_bytes(bytes, 14);
    assert_eq!(t.chain(2, 100).unwrap(), vec![2, 7, 3]);
    assert_eq!(t.chain(2, 2).unwrap(), vec![2, 7]);
    assert!(t.chain(4, 100).is_err());
    assert!(t.chain(5, 100).is_err(), "free entry");
}

#[test]
fn entry_set_checksum_ignores_its_own_field() {
    let set = file_set("a.txt", 0x20, 0x03, 9, 10, false);
    let mut other = set.clone();
    other[2] ^= 0xFF;
    other[3] ^= 0x55;
    assert_eq!(entry_set_checksum(&set, false), entry_set_checksum(&other, false));
    let stored = u16::from_le_bytes([set[2], set[3]]);
    assert_eq!(entry_set_checksum(&set, false), stored);
}

fn volume(fat: Vec<u8>, bitmap: Option<Vec<u8>>) -> ExfatVolume {
    let b = ExfatBootSector::parse(&boot(131_072, 15_872, 3)).unwrap();
    let t = ExfatTable::from_bytes(fat, b.cluster_count);
    let bm = bitmap.map(|bits| AllocationBitmap::from_bytes(bits, b.cluster_count));
    ExfatVolume::from_parts(b, t, bm, Some("VOL".to_string()), Some(true))
}

fn entry(flags: u8, first: u32, length: u64, deleted: bool) -> phoinix_fs_native::exfat::dir::EntrySet {
    let mut dir = file_set("f.bin", 0x20, flags, first, length, deleted);
    dir.extend(vec![0u8; 32]);
    parse_directory(&dir, 0).entries.remove(0)
}

#[test]
fn reconstruct_no_fat_chain_is_contiguous() {
    let v = volume(vec![0u8; 4 * 64], None);
    let r = v.reconstruct(&entry(0x03, 10, 3 * 4096 + 1, false)).unwrap();
    assert_eq!(r.clusters, vec![10, 11, 12, 13]);
    assert!(r.chain_known && !r.assumed_contiguous && r.complete);
    assert_eq!(r.extent_count, 1);
    assert_eq!(v.label(), Some("VOL"));
    assert_eq!(v.boot_checksum_ok(), Some(true));
}

#[test]
fn reconstruct_uses_a_chain_of_the_needed_length() {
    let mut fat = vec![0u8; 4 * 64];
    set32(&mut fat, 10, 12);
    set32(&mut fat, 12, END_OF_CHAIN);
    let v = volume(fat, None);
    let r = v.reconstruct(&entry(0x01, 10, 2 * 4096, false)).unwrap();
    assert_eq!(r.clusters, vec![10, 12]);
    assert!(r.chain_known);
    assert_eq!(r.extent_count, 2);
}

#[test]
fn reconstruct_skips_allocated_clusters_without_a_chain() {
    // Cluster 11 (bit 9) is allocated to another file.
    let mut bits = vec![0u8; 64];
    bits[1] = 0b0000_0010;
    let v = volume(vec![0u8; 4 * 64], Some(bits));
    let r = v.reconstruct(&entry(0x01, 10, 3 * 4096, true)).unwrap();
    assert!(!r.chain_known && r.assumed_contiguous);
    assert_eq!(r.clusters, vec![10, 12, 13]);
    assert_eq!(r.skipped_allocated, vec![11]);
    assert_eq!(r.contiguous_span, vec![10, 11, 12]);
    assert!(r.complete);
    assert!(v.reconstruct(&entry(0x01, 1, 10, true)).is_err());
}

#[test]
fn exfat_extents_merge_adjacent_clusters() {
    let v = volume(vec![0u8; 4 * 64], None);
    let heap = v.boot().heap_offset;
    let e = v.extents(&[2, 3, 7], 2 * 4096 + 1).unwrap();
    assert_eq!(e.len(), 2);
    assert_eq!((e[0].offset, e[0].length), (heap, 8192));
    assert_eq!((e[1].offset, e[1].length), (heap + 5 * 4096, 1));
}

#[test]
fn directory_reads_give_cluster_offsets_and_the_first_error() {
    let v = volume(vec![0u8; 4 * 64], None);
    let heap = v.boot().heap_offset;
    let (offs, err) = directory_reads(v.boot(), &[2, 5]);
    assert_eq!(offs, vec![heap, heap + 3 * 4096]);
    assert!(err.is_none());
    let (offs, err) = directory_reads(v.boot(), &[3, 1, 4]);
    assert_eq!(offs, vec![heap + 4096]);
    assert!(matches!(err, Some(ExfatError::Malformed(_))));
}

#[test]
fn directory_clusters_are_parsed_up_to_the_end_marker() {
    let cs = 128usize;
    let mut first = file_set("a.txt", 0x20, 0x03, 10, 5, false);
    first.resize(cs, 0xFF);
    // The first cluster is full (no end marker); the second ends the
    // directory; the third is never parsed.
    let first_len = first.len();
    assert_eq!(first_len, cs);
    let mut second = file_set("b", 0x10, 0x03, 11, 4096, true);
    second.resize(cs, 0);
    let mut third = file_set("c", 0x20, 0x03, 12, 1, false);
    third.resize(cs, 0);
    let mut data = first.clone();
    data.extend_from_slice(&second);
    data.extend_from_slice(&third);
    let dir = directory_from_clusters(&data, cs, &[4096, 8192, 12288]).unwrap();
    let names: Vec<&str> = dir.entries.iter().map(|e| e.name.as_str()).collect();
    assert_eq!(names, vec!["a.txt", "b"]);
    assert_eq!(dir.entries[0].entry_offset, 4096);
    assert_eq!(dir.entries[1].entry_offset, 8192);
    assert!(dir.entries[1].deleted);
    assert!(matches!(directory_from_clusters(&[], cs, &[]), Err(ExfatError::Malformed(_))));
}

#[test]
fn exfat_walk_lists_paths_and_enters_directories_once() {
    let b = ExfatBootSector::parse(&boot(131_072, 15_872, 3)).unwrap();
    let mut walk = ExfatWalk::new(5);
    let root = walk.next_read().unwrap();
    assert_eq!(root, DirectoryRead { first_cluster: 5, no_fat_chain: false, length: None });
    let mut sets = file_set("docs", 0x10, 0x03, 9, 4096, false);
    sets.extend(file_set("gone", 0x10, 0x03, 11, 4096, true));
    sets.extend(file_set("note.txt", 0x20, 0x03, 20, 10, false));
    sets.extend(file_set("loop", 0x10, 0x03, 5, 4096, false));
    sets.extend(vec![0u8; 32]);
    walk.give(&b, Some(parse_directory(&sets, 0).entries));
    // Directories are taken last queued first: "gone" before "docs".
    let next = walk.next_read().unwrap();
    assert_eq!(next, DirectoryRead { first_cluster: 11, no_fat_chain: true, length: Some(4096) });
    let mut inner = file_set("old.jpg", 0x20, 0x03, 30, 100, true);
    inner.extend(vec![0u8; 32]);
    walk.give(&b, Some(parse_directory(&inner, 0).entries));
    let next = walk.next_read().unwrap();
    assert_eq!(next.first_cluster, 9);
    walk.give(&b, None);
    // The root's cluster was entered already: "loop" is not read again.
    assert!(walk.next_read().is_none());
    let out = walk.finish();
    let paths: Vec<&str> = out.iter().map(|w| w.path.as_str()).collect();
    assert_eq!(paths, vec!["\\docs", "\\gone", "\\note.txt", "\\loop", "\\gone\\old.jpg"]);
    assert!(out[4].via_deleted_directory);
    assert!(!out[1].via_deleted_directory);
}

/// The boot region of a volume whose boot sector is `sector`, with a
/// correct checksum in the twelfth sector.
fn boot_region(sector: &[u8]) -> Vec<u8> {
    let mut region = vec![0u8; 512 * 12];
    region[..512].copy_from_slice(sector);
    let mut sum: u32 = 0;
    for (i, b) in region.iter().take(512 * 11).enumerate() {
        if i == 106 || i == 107 || i == 112 {
            continue;
        }
        sum = sum.rotate_right(1).wrapping_add(u32::from(*b));
    }
    for k in 0..128 {
        region[512 * 11 + 4 * k..512 * 11 + 4 * k + 4].copy_from_slice(&sum.to_le_bytes());
    }
    region
}

#[test]
fn exfat_probe_scores_checksum_and_size() {
    let sector = boot(131_072, 15_872, 3);
    let len = 131_072u64 * 512;
    let r = ExFatProbe.probe(len, &sector, None);
    assert_eq!(r.confidence, 90);
    let texts: Vec<&str> = r.evidence.iter().map(|e| e.detail.as_str()).collect();
    assert_eq!(texts, vec!["OEM name is EXFAT", "valid geometry: 512 bytes/sector, 4096 bytes/cluster, 15872 clusters"]);
    let region = boot_region(&sector);
    let r = ExFatProbe.probe(len, &sector, Some(&region));
    assert_eq!(r.confidence, 96);
    assert_eq!(r.evidence[2].detail, "boot region checksum matches");
    let mut broken = region.clone();
    broken[200] ^= 1;
    let r = ExFatProbe.probe(len, &sector, Some(&broken));
    assert_eq!(r.confidence, 90);
    assert!(!r.evidence[2].supports);
    let r = ExFatProbe.probe(4096, &sector, Some(&region));
    assert_eq!(r.confidence, 75);
    assert_eq!(r.evidence[3].detail, "declared volume length exceeds the source");
    assert!(r.is_positive());
}

#[test]
fn exfat_probe_negatives() {
    let r = ExFatProbe.probe(100, &[], None);
    assert_eq!((r.confidence, r.evidence.len()), (0, 1));
    assert_eq!(r.evidence[0].detail, "source shorter than a boot sector");
    let r = ExFatProbe.probe(4096, &[0u8; 512], None);
    assert_eq!(r.evidence[0].detail, "OEM name is not EXFAT");
    let mut sector = boot(131_072, 15_872, 3);
    sector[510] = 0;
    let r = ExFatProbe.probe(4096, &sector, None);
    assert_eq!(r.confidence, 25);
    assert!(!r.is_positive());
    assert!(r.evidence[1].detail.starts_with("boot sector fails validation: invalid exFAT boot sector: "));
}

#[test]
fn chain_with_no_room_is_empty() {
    let mut fat = vec![0u8; 4 * 64];
    set32(&mut fat, 10, 12);
    set32(&mut fat, 12, END_OF_CHAIN);
    let t = ExfatTable::from_bytes(fat, 14);
    assert_eq!(t.chain(10, 0), Ok(vec![]));
    assert_eq!(t.chain(10, 1), Ok(vec![10]));
    assert_eq!(t.chain(10, 5), Ok(vec![10, 12]));
}

#[test]
fn chain_refuses_a_first_cluster_outside_the_heap_even_with_no_room() {
    let t = ExfatTable::from_bytes(vec![0u8; 4 * 64], 14);
    assert!(matches!(t.chain(0, 0), Err(ExfatError::Malformed(_))));
    assert!(matches!(t.chain(16, 0), Err(ExfatError::Malformed(_))));
    assert_eq!(t.chain(15, 0), Ok(vec![]));
}

#[test]
fn exfat_candidate_facts_use_the_bitmap() {
    let mut bits = vec![0u8; 64];
    bits[1] = 0b0000_0010;
    let v = volume(vec![0u8; 4 * 64], Some(bits));
    let e = entry(0x01, 10, 3 * 4096, true);
    let w = WalkedEntry { path: "\\f.bin".to_string(), entry: e.clone(), via_deleted_directory: false };
    let r = v.reconstruct(&e);
    let f = exfat_candidate_facts(&w, &r, v.bitmap(), v.cluster_size());
    // No chain: the contiguous span 10, 11, 12 is looked at; 11 is in use.
    assert_eq!((f.allocation.total, f.allocation.free, f.allocation.allocated), (3, 2, 1));
    assert!(f.extents.heuristic);
    assert!(f.notes.is_empty());
    let plain = volume(vec![0u8; 4 * 64], None);
    let r = plain.reconstruct(&e);
    let f = exfat_candidate_facts(&w, &r, plain.bitmap(), plain.cluster_size());
    assert_eq!(f.notes, vec![Note::AssumedContiguous]);
    assert!(!f.allocation.map_available);
    assert_eq!(f.allocation.unknown, 3);
}

#[test]
fn exfat_candidates_are_deleted_files() {
    let w = |e| WalkedEntry { path: "\\f.bin".to_string(), entry: e, via_deleted_directory: false };
    assert!(exfat_is_candidate(&w(entry(0x01, 10, 10, true))));
    assert!(!exfat_is_candidate(&w(entry(0x01, 10, 10, false))));
    let mut dir = entry(0x01, 10, 10, true);
    dir.attributes.0 = 0x10;
    assert!(!exfat_is_candidate(&w(dir)));
}
