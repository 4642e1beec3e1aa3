use phoinix_fs_native::calendar::iso8601_utc;
use phoinix_fs_native::fat::boot::{FatBootSector, FatVariant};
use phoinix_fs_native::fat::dir::{parse_directory, short_name_checksum, DirEntry};
use phoinix_fs_native::fat::table::{FatEntry, FatTable};
use phoinix_fs_native::fat::volume::{block_ends_directory, count_extents, FatVolume};
use phoinix_fs_native::fat::walk::{FatWalk, WalkStep};
use phoinix_fs_native::fat::probe::FatProbe;
use phoinix_fs_native::probe::FileSystemType;
use phoinix_fs_native::evidence::Note;
use phoinix_fs_native::fat::undelete::fat_candidate_facts;
use phoinix_fs_native::fat::volume::WalkedEntry;
use phoinix_fs_native::fat::undelete::fat_is_candidate;

fn fat32(total_sectors: u32, spc: u8, spf: u32) -> Vec<u8> {
    let mut s = vec![0u8; 512];
    s[0] = 0xEB;
    s[1] = 0x58;
    s[2] = 0x90;
    s[3..11].copy_from_slice(b"mkfs.fat");
    s[11..13].copy_from_slice(&512u16.to_le_bytes());
    s[13] = spc;
    s[14..16].copy_from_slice(&32u16.to_le_bytes());
    s[16] = 2;
    s[21] = 0xF8;
    s[32..36].copy_from_slice(&total_sectors.to_le_bytes());
    s[36..40].copy_from_slice(&spf.to_le_bytes());
    s[44..48].copy_from_slice(&2u32.to_le_bytes());
    s[48..50].copy_from_slice(&1u16.to_le_bytes());
    s[67..71].copy_from_slice(&0x1234_5678u32.to_le_bytes());
    s[71..82].copy_from_slice(b"TESTVOL    ");
    s[82..90].copy_from_slice(b"FAT32   ");
    s[510] = 0x55;
    s[511] = 0xAA;
    s
}

fn fat16(total_sectors: u16, spc: u8, spf: u16, root_entries: u16) -> Vec<u8> {
    let mut s = vec![0u8; 512];
    s[0] = 0xEB;
    s[1] = 0x3C;
    s[2] = 0x90;
    s[3..11].copy_from_slice(b"mkfs.fat");
    s[11..13].copy_from_slice(&512u16.to_le_bytes());
    s[13] = spc;
    s[14..16].copy_from_slice(&1u16.to_le_bytes());
    s[16] = 2;
    s[17..19].copy_from_slice(&root_entries.to_le_bytes());
    s[19..21].copy_from_slice(&total_sectors.to_le_bytes());
    s[21] = 0xF8;
    s[22..24].copy_from_slice(&spf.to_le_bytes());
    s[39..43].copy_from_slice(&0xABCD_EF01u32.to_le_bytes());
    s[43..54].copy_from_slice(b"SIXTEEN    ");
    s[54..62].copy_from_slice(b"FAT16   ");
    s[510] = 0x55;
    s[511] = 0xAA;
    s
}

fn short(name: &[u8; 11], attr: u8, cluster: u32, size: u32) -> Vec<u8> {
    let mut e = vec![0u8; 32];
    e[..11].copy_from_slice(name);
    e[11] = attr;
    e[16..18].copy_from_slice(&((46 << 9) | (9 << 5) | 5u16).to_le_bytes());
    e[24..26].copy_from_slice(&((46 << 9) | (9 << 5) | 5u16).to_le_bytes());
    e[22..24].copy_from_slice(&((1u16 << 11) | (38 << 5)).to_le_bytes());
    e[20..22].copy_from_slice(&((cluster >> 16) as u16).to_le_bytes());
    e[26..28].copy_from_slice(&(cluster as u16).to_le_bytes());
    e[28..32].copy_from_slice(&size.to_le_bytes());
    e
}

fn lfn(name: &str, short_raw: &[u8; 11]) -> Vec<u8> {
    let units: Vec<u16> = name.encode_utf16().collect();
    let chunks: Vec<&[u16]> = units.chunks(13).collect();
    let checksum = short_name_checksum(short_raw);
    let mut out = Vec::new();
    for (i, chunk) in chunks.iter().enumerate().rev() {
        let mut e = vec![0u8; 32];
        let seq = (i + 1) as u8 | if i + 1 == chunks.len() { 0x40 } else { 0 };
        e[0] = seq;
        e[11] = 0x0F;
        e[13] = checksum;
        let mut padded: Vec<u16> = chunk.to_vec();
        if padded.len() < 13 {
            padded.push(0);
            while padded.len() < 13 {
                padded.push(0xFFFF);
            }
        }
        let positions = [1usize, 3, 5, 7, 9, 14, 16, 18, 20, 22, 24, 28, 30];
        for (u, pos) in padded.iter().zip(positions) {
            e[pos..pos + 2].copy_from_slice(&u.to_le_bytes());
        }
        out.extend(e);
    }
    out
}

fn set32(b: &mut [u8], c: usize, v: u32) {
    b[c * 4..c * 4 + 4].copy_from_slice(&v.to_le_bytes());
}

#[test]
fn parses_fat32_and_fat16_geometry() {
    let b = FatBootSector::parse(&fat32(131_072, 8, 128)).unwrap();
    assert_eq!(b.variant, FatVariant::Fat32);
    assert_eq!(b.cluster_size, 4096);
    assert_eq!(b.fat_offset, 32 * 512);
    assert_eq!(b.data_offset, (32 + 2 * 128) * 512);
    assert_eq!(b.cluster_count, (131_072 - 32 - 256) / 8);
    assert_eq!(b.volume_label, "TESTVOL");
    assert_eq!(b.cluster_offset(2).unwrap(), b.data_offset);
    assert!(b.cluster_offset(1).is_err());
    assert!(b.cluster_offset(b.cluster_count + 2).is_err());

    let b = FatBootSector::parse(&fat16(65_000, 4, 64, 512)).unwrap();
    assert_eq!(b.variant, FatVariant::Fat16);
    assert_eq!(b.root_dir_offset, (1 + 128) * 512);
    assert_eq!(b.root_dir_bytes, 512 * 32);
    assert_eq!(b.data_offset, (1 + 128 + 32) * 512);

    let b = FatBootSector::parse(&fat16(8_000, 2, 8, 512)).unwrap();
    assert_eq!(b.variant, FatVariant::Fat12);
}

#[test]
fn boot_rejects_bad_sectors() {
    let mut s = fat32(131_072, 8, 128);
    s[13] = 3;
    assert!(FatBootSector::parse(&s).is_err());
    let mut s = fat32(131_072, 8, 128);
    s[510] = 0;
    assert!(FatBootSector::parse(&s).is_err());
    let mut s = fat32(131_072, 8, 128);
    s[44..48].copy_from_slice(&0u32.to_le_bytes());
    assert!(FatBootSector::parse(&s).is_err());
    assert!(FatBootSector::parse(&vec![0u8; 512]).is_err());
    assert!(FatBootSector::parse(&fat32(131_072, 8, 128)[..100]).is_err());
}

#[test]
fn parses_short_long_and_deleted_entries() {
    let mut dir = Vec::new();
    dir.extend(short(b"HELLO   TXT", 0x20, 5, 100));
    let raw = *b"ALONGN~1TXT";
    dir.extend(lfn("A long name with spaces.txt", &raw));
    dir.extend(short(&raw, 0x20, 9, 19));
    let raw2 = *b"BIGFILE BIN";
    let mut del_lfn = lfn("BigFile.bin", &raw2);
    del_lfn[0] = 0xE5;
    dir.extend(del_lfn);
    let mut del = short(&raw2, 0x20, 4, 20000);
    del[0] = 0xE5;
    dir.extend(del);
    dir.extend(vec![0u8; 32]);
    let entries = parse_directory(&dir, 1000);
    assert_eq!(entries.len(), 3);
    assert_eq!(entries[0].short_name, "HELLO.TXT");
    assert_eq!(entries[0].entry_offset, 1000);
    assert_eq!(
        entries[0].modified.map(|s| iso8601_utc(s, 0)).as_deref(),
        Some("2026-09-05T01:38:00.000000Z")
    );
    assert_eq!(entries[1].long_name.as_deref(), Some("A long name with spaces.txt"));
    assert!(!entries[1].long_name_unverified);
    assert_eq!(entries[1].first_cluster, 9);
    assert!(entries[2].deleted);
    assert_eq!(entries[2].short_name, "?IGFILE.BIN");
    assert_eq!(entries[2].long_name.as_deref(), Some("BigFile.bin"));
    assert!(entries[2].long_name_unverified);
    assert_eq!(entries[2].size, 20000);
    assert_eq!(entries[2].first_cluster, 4);
}

#[test]
fn mismatched_lfn_checksum_is_dropped() {
    let mut dir = Vec::new();
    dir.extend(lfn("Orphan.txt", b"OTHER   TXT"));
    dir.extend(short(b"REAL    TXT", 0x20, 2, 1));
    let entries = parse_directory(&dir, 0);
    assert_eq!(entries.len(), 1);
    assert!(entries[0].long_name.is_none());
}

#[test]
fn checksum_matches_reference() {
    assert_eq!(short_name_checksum(b"ALONGN~1TXT"), short_name_checksum(b"ALONGN~1TXT"));
    assert_ne!(short_name_checksum(b"ALONGN~1TXT"), short_name_checksum(b"ALONGN~2TXT"));
}

#[test]
fn fat12_packing() {
    let entries: [u32; 5] = [0xFF8, 0xFFF, 3, 0xFFF, 0];
    let mut bytes = vec![0u8; 9];
    for (i, e) in entries.iter().enumerate() {
        let off = i + i / 2;
        let mut pair = u16::from_le_bytes([bytes[off], bytes[off + 1]]);
        if i & 1 == 1 {
            pair = (pair & 0x000F) | ((*e as u16) << 4);
        } else {
            pair = (pair & 0xF000) | (*e as u16 & 0x0FFF);
        }
        bytes[off..off + 2].copy_from_slice(&pair.to_le_bytes());
    }
    let t = FatTable::from_bytes(FatVariant::Fat12, 10, bytes);
    assert_eq!(t.entry(2), FatEntry::Next(3));
    assert_eq!(t.entry(3), FatEntry::EndOfChain);
    assert_eq!(t.entry(4), FatEntry::Free);
    assert_eq!(t.chain(2).unwrap(), vec![2, 3]);
}

#[test]
fn fat32_chain_and_errors() {
    let mut bytes = vec![0u8; 4 * 16];
    set32(&mut bytes, 2, 5);
    set32(&mut bytes, 5, 3);
    set32(&mut bytes, 3, 0x0FFF_FFFF);
    set32(&mut bytes, 6, 6);
    set32(&mut bytes, 7, 0x0FFF_FFF7);
    set32(&mut bytes, 8, 9);
    let t = FatTable::from_bytes(FatVariant::Fat32, 14, bytes);
    assert_eq!(t.chain(2).unwrap(), vec![2, 5, 3]);
    assert!(t.chain(6).is_err());
    assert_eq!(t.entry(7), FatEntry::Bad);
    assert!(t.chain(8).is_err(), "chain into a free cluster");
    assert!(t.chain(100).is_err());
    assert!(t.is_free(4));
    assert_eq!(t.free_clusters(), 14 - 6);
}

#[test]
fn short_name_checksum_known_value() {
    // Rotate-right-and-add over the 11 bytes of "HELLO   TXT".
    let mut sum: u8 = 0;
    for b in b"HELLO   TXT" {
        sum = (((sum & 1) << 7) | (sum >> 1)).wrapping_add(*b);
    }
    assert_eq!(short_name_checksum(b"HELLO   TXT"), sum);
}

#[test]
fn count_extents_counts_runs() {
    assert_eq!(count_extents(&[]), 0);
    assert_eq!(count_extents(&[5, 6, 7]), 1);
    assert_eq!(count_extents(&[5, 6, 9, 10, 2]), 3);
}

fn small_volume(fat_bytes: Vec<u8>) -> FatVolume {
    let boot = FatBootSector::parse(&fat32(131_072, 8, 128)).unwrap();
    let fat = FatTable::from_bytes(FatVariant::Fat32, boot.cluster_count, fat_bytes);
    FatVolume::from_parts(boot, fat)
}

fn file_entry(first: u32, size: u32, deleted: bool) -> DirEntry {
    let mut dir = short(b"DATA    BIN", 0x20, first, size);
    if deleted {
        dir[0] = 0xE5;
    }
    dir.extend(vec![0u8; 32]);
    parse_directory(&dir, 0).remove(0)
}

#[test]
fn reconstruct_follows_an_intact_chain() {
    let mut bytes = vec![0u8; 4 * 64];
    set32(&mut bytes, 10, 11);
    set32(&mut bytes, 11, 20);
    set32(&mut bytes, 20, 0x0FFF_FFFF);
    let v = small_volume(bytes);
    let r = v.reconstruct(&file_entry(10, 3 * 4096, false)).unwrap();
    assert!(r.chain_known);
    assert_eq!(r.clusters, vec![10, 11, 20]);
    assert_eq!(r.extent_count, 2);
    assert!(r.complete);
    assert!(!r.is_heuristic());
}

#[test]
fn reconstruct_skips_allocated_clusters_of_a_deleted_file() {
    let mut bytes = vec![0u8; 4 * 64];
    set32(&mut bytes, 11, 0x0FFF_FFFF);
    let v = small_volume(bytes);
    let r = v.reconstruct(&file_entry(10, 3 * 4096, true)).unwrap();
    assert!(!r.chain_known);
    assert_eq!(r.clusters, vec![10, 12, 13]);
    assert_eq!(r.skipped_allocated, vec![11]);
    assert_eq!(r.contiguous_span, vec![10, 11, 12]);
    assert!(r.is_heuristic());
    assert!(r.complete);
    let none = v.reconstruct(&file_entry(1, 10, true));
    assert!(none.is_err());
    let empty = v.reconstruct(&file_entry(0, 0, true)).unwrap();
    assert!(empty.clusters.is_empty() && empty.complete);
}

#[test]
fn extents_merge_adjacent_clusters() {
    let v = small_volume(vec![0u8; 4 * 64]);
    let data = v.boot().data_offset;
    let e = v.extents(&[2, 3, 5], 4096 * 2 + 10).unwrap();
    assert_eq!(e.len(), 2);
    assert_eq!(e[0].offset, data);
    assert_eq!(e[0].length, 8192);
    assert_eq!(e[1].offset, data + 3 * 4096);
    assert_eq!(e[1].length, 10);
    assert!(v.extents(&[1], 10).is_err());
}

fn entries(raw: &[Vec<u8>]) -> Vec<DirEntry> {
    let mut bytes: Vec<u8> = raw.concat();
    bytes.extend(vec![0u8; 32]);
    parse_directory(&bytes, 0)
}

#[test]
fn walk_lists_entries_and_enters_directories_once() {
    let boot = FatBootSector::parse(&fat32(131_072, 8, 128)).unwrap();
    let mut deleted_dir = short(b"OLD        ", 0x10, 9, 0);
    deleted_dir[0] = 0xE5;
    let root = entries(&[
        short(b"VOLUME     ", 0x08, 0, 0),
        short(b"DOCS       ", 0x10, 5, 0),
        short(b"A       TXT", 0x20, 7, 10),
        deleted_dir,
    ]);
    let mut w = FatWalk::new(root);
    let mut reads = Vec::new();
    loop {
        match w.step(&boot) {
            WalkStep::Done => break,
            WalkStep::Read { cluster, deleted } => {
                reads.push((cluster, deleted));
                let children = match cluster {
                    5 => entries(&[
                        short(b".          ", 0x10, 5, 0),
                        short(b"B       TXT", 0x20, 8, 1),
                        short(b"DOCS       ", 0x10, 5, 0),
                    ]),
                    _ => entries(&[short(b"C       TXT", 0x20, 12, 1)]),
                };
                w.give(Some(children));
            }
            _ => {}
        }
    }
    assert_eq!(reads, vec![(5, false), (9, true)]);
    let listed: Vec<(String, bool)> =
        w.finish().into_iter().map(|e| (e.path, e.via_deleted_directory)).collect();
    let names: Vec<&str> = listed.iter().map(|(p, _)| p.as_str()).collect();
    assert!(names.contains(&"\\DOCS") && names.contains(&"\\A.TXT"));
    assert!(listed.contains(&("\\DOCS\\B.TXT".to_string(), false)));
    // The directory entry pointing back at DOCS is listed but not entered again.
    assert!(listed.contains(&("\\DOCS\\DOCS".to_string(), false)));
    // Entries of a deleted directory are marked as such.
    assert!(listed.iter().any(|(p, via)| p.ends_with("\\C.TXT") && *via));
    assert!(!names.iter().any(|p| p.contains("VOLUME")));
}

#[test]
fn directory_end_markers() {
    let mut buf = vec![1u8; 64];
    assert!(!block_ends_directory(&buf));
    buf[32] = 0;
    assert!(block_ends_directory(&buf));
    assert!(!block_ends_directory(&[0u8; 31]));
}

#[test]
fn fat_probe_reads_the_media_byte() {
    let sector = fat32(131_072, 8, 128);
    let b = FatBootSector::parse(&sector).unwrap();
    let len = 131_072u64 * 512;
    let r = FatProbe.probe(len, &sector, &[b.media, 0xFF, 0xFF, 0x0F]);
    assert_eq!(r.filesystem, FileSystemType::Fat32);
    assert_eq!(r.confidence, 92);
    assert_eq!(r.evidence[1].detail, format!("{} data clusters imply FAT32", b.cluster_count));
    assert_eq!(r.evidence[3].detail, "FAT[0] carries the media descriptor");
    let r = FatProbe.probe(len, &sector, &[0, 0, 0, 0]);
    assert_eq!(r.confidence, 60);
    assert!(!r.evidence[3].supports);
    // A source too short for the FAT: no media check, and the size
    // observation lowers the score.
    let r = FatProbe.probe(1024, &sector, &[]);
    assert_eq!(r.confidence, 70);
    assert_eq!(r.evidence[3].detail, "declared size exceeds the source");
    assert_eq!(r.evidence.last().unwrap().detail, format!("type label {:?}", b.type_label));
}

#[test]
fn fat_probe_negatives() {
    let r = FatProbe.probe(511, &[], &[]);
    assert_eq!(r.confidence, 0);
    assert_eq!(r.evidence[0].detail, "source shorter than a boot sector");
    let r = FatProbe.probe(4096, &[0u8; 512], &[]);
    assert_eq!(r.confidence, 0);
    assert!(r.evidence[0].detail.starts_with("not a FAT boot sector: invalid FAT boot sector: "));
    assert_eq!(FatProbe.filesystem(), FileSystemType::Fat32);
}

#[test]
fn fat_candidate_facts_tally_the_span() {
    let mut bytes = vec![0u8; 4 * 64];
    set32(&mut bytes, 11, 0x0FFF_FFFF);
    let v = small_volume(bytes);
    let e = file_entry(10, 3 * 4096, true);
    let w = WalkedEntry { path: "\\?ATA.BIN".to_string(), entry: e.clone(), via_deleted_directory: true };
    let r = v.reconstruct(&e);
    let f = fat_candidate_facts(&w, &r, v.fat(), v.cluster_size());
    // The span 10, 11, 12 holds one allocated cluster.
    assert_eq!((f.allocation.total, f.allocation.free, f.allocation.allocated), (3, 2, 1));
    assert!(f.extents.heuristic && !f.extents.chain_known && f.extents.complete);
    assert_eq!(f.extents.expected_clusters, Some(3));
    assert_eq!(f.metadata.logical_size, Some(3 * 4096));
    assert_eq!(f.notes, vec![Note::LostFirstCharacter, Note::ViaDeletedDirectory]);
    let bad = v.reconstruct(&file_entry(1, 10, true));
    let w2 = WalkedEntry { path: "\\x".to_string(), entry: file_entry(1, 10, true), via_deleted_directory: false };
    let f = fat_candidate_facts(&w2, &bad, v.fat(), v.cluster_size());
    assert_eq!(f.notes, vec![Note::LostFirstCharacter, Note::ClustersUndetermined]);
    assert_eq!((f.extents.total_clusters, f.extents.expected_clusters), (Some(0), Some(1)));
    assert!(!f.extents.complete);
}

#[test]
fn fat_candidates_are_deleted_files() {
    let w = |e: DirEntry| WalkedEntry { path: "\\x".to_string(), entry: e, via_deleted_directory: false };
    assert!(fat_is_candidate(&w(file_entry(10, 10, true))));
    assert!(!fat_is_candidate(&w(file_entry(10, 10, false))));
    let mut dir = file_entry(10, 0, true);
    dir.attributes.0 = 0x10;
    assert!(!fat_is_candidate(&w(dir)));
    let mut label = file_entry(10, 0, true);
    label.attributes.0 = 0x08;
    assert!(!fat_is_candidate(&w(label)));
}
