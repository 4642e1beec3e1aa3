use phoinix_fs_native::ext::dir::DirEntry;
use phoinix_fs_native::ext::discover::{
    assemble_deleted, assemble_plan, candidates_in_chunk, directory_layout_in_place, group_scan_range,
    inode_is_candidate, journal_copy_accepted, keep_deleted, known_empty_of, names_deleted_object, AssemblePlan,
    ScanRange,
};
use phoinix_fs_native::ext::error::ExtError;
use phoinix_fs_native::ext::extent::Run;
use phoinix_fs_native::ext::group::GroupDescriptor;
use phoinix_fs_native::ext::inode::Inode;
use phoinix_fs_native::ext::journal::LoggedBlock;
use phoinix_fs_native::ext::journal_index::JournalIndex;
use phoinix_fs_native::ext::superblock::Superblock;
use phoinix_fs_native::ext::undelete::{mapped_blocks, DeletedInode};
use phoinix_fs_native::ext::volume::{Layout, LayoutSource, WalkedEntry};

fn superblock(inodes_count: u32, inodes_per_group: u32) -> Superblock {
    let mut s = vec![0u8; 1024];
    s[0..4].copy_from_slice(&inodes_count.to_le_bytes());
    s[4..8].copy_from_slice(&8192u32.to_le_bytes());
    s[20..24].copy_from_slice(&0u32.to_le_bytes());
    s[24..28].copy_from_slice(&2u32.to_le_bytes());
    s[32..36].copy_from_slice(&8192u32.to_le_bytes());
    s[40..44].copy_from_slice(&inodes_per_group.to_le_bytes());
    s[56..58].copy_from_slice(&0xEF53u16.to_le_bytes());
    s[76..80].copy_from_slice(&1u32.to_le_bytes());
    s[84..88].copy_from_slice(&11u32.to_le_bytes());
    s[88..90].copy_from_slice(&256u16.to_le_bytes());
    s[96..100].copy_from_slice(&0x2u32.to_le_bytes());
    Superblock::parse(&s).unwrap()
}

fn group(flags: u16, itable_unused: u16) -> GroupDescriptor {
    let mut d = vec![0u8; 32];
    d[8..12].copy_from_slice(&100u32.to_le_bytes());
    d[18..20].copy_from_slice(&flags.to_le_bytes());
    d[28..30].copy_from_slice(&itable_unused.to_le_bytes());
    GroupDescriptor::parse(&d, 32).unwrap()
}

fn inode_bytes(mode: u16, links: u16, dtime: u32, generation: u32, mapped: bool) -> Vec<u8> {
    let mut b = vec![0u8; 256];
    b[0..2].copy_from_slice(&mode.to_le_bytes());
    b[4..8].copy_from_slice(&(if mapped { 4096u32 } else { 0 }).to_le_bytes());
    b[20..24].copy_from_slice(&dtime.to_le_bytes());
    b[26..28].copy_from_slice(&links.to_le_bytes());
    b[100..104].copy_from_slice(&generation.to_le_bytes());
    if mapped {
        b[40..44].copy_from_slice(&500u32.to_le_bytes());
    }
    b
}

fn inode(number: u32, mode: u16, links: u16, dtime: u32, generation: u32, mapped: bool) -> Inode {
    Inode::parse(number, &inode_bytes(mode, links, dtime, generation, mapped), &superblock(2048, 1024)).unwrap()
}

fn walked(inode: u32, ft: Option<u8>, deleted: bool, via: bool) -> WalkedEntry {
    WalkedEntry {
        path: "/x".to_string(),
        entry: DirEntry { inode, name: "x".to_string(), file_type: ft, deleted, offset: 0, alive_in: None },
        parent: 2,
        via_deleted_directory: via,
    }
}

fn journal_layout(i: Inode) -> Layout {
    Layout {
        runs: vec![Run { logical: 0, physical: Some(500), count: 1, uninitialized: false }],
        size: 4096,
        source: LayoutSource::Journal { sequence: 9, checksum_ok: None },
        inline: None,
        inode: i,
    }
}

fn logged(sequence: u32, journal_block: u64) -> LoggedBlock {
    LoggedBlock { sequence, journal_block, checksum_ok: None, escaped: false }
}

#[test]
fn deleted_entries_name_deleted_objects() {
    assert!(names_deleted_object(&walked(12, Some(1), true, false)));
    assert!(names_deleted_object(&walked(12, Some(1), false, true)));
    assert!(!names_deleted_object(&walked(12, Some(1), false, false)));
    assert!(!names_deleted_object(&walked(0, Some(1), true, false)));
    assert!(!names_deleted_object(&walked(12, Some(2), true, false)));
}

#[test]
fn table_inodes_that_are_candidates() {
    let sb = superblock(2048, 1024);
    // Deleted regular file past the reserved inodes.
    assert!(inode_is_candidate(&inode(12, 0x81A4, 1, 5, 0, false), 12, &sb));
    // Unlinked but with a mode.
    assert!(inode_is_candidate(&inode(12, 0x81A4, 0, 0, 0, false), 12, &sb));
    // Reserved inode, live inode, deleted directory.
    assert!(!inode_is_candidate(&inode(8, 0x81A4, 1, 5, 0, false), 8, &sb));
    assert!(!inode_is_candidate(&inode(12, 0x81A4, 1, 0, 0, false), 12, &sb));
    assert!(!inode_is_candidate(&inode(12, 0x41ED, 1, 5, 0, false), 12, &sb));
    // A cleared inode with a deletion time.
    assert!(inode_is_candidate(&inode(12, 0, 0, 5, 0, false), 12, &sb));
}

#[test]
fn group_scan_ranges() {
    let sb = superblock(2048, 1024);
    assert_eq!(group_scan_range(1, &group(0, 24), &sb), Ok(Some(ScanRange { first: 1025, used: 1000 })));
    assert_eq!(group_scan_range(0, &group(0, 5000), &sb), Ok(Some(ScanRange { first: 1, used: 0 })));
    assert_eq!(group_scan_range(0, &group(1, 0), &sb), Ok(None));
    assert_eq!(group_scan_range(5_000_000, &group(0, 0), &sb), Err(ExtError::Overflow));
}

#[test]
fn chunk_scan_keeps_deleted_files_up_to_the_inode_count() {
    let sb = superblock(14, 1024);
    let mut chunk = Vec::new();
    chunk.extend(inode_bytes(0x81A4, 0, 7, 0, false)); // 11: deleted file
    chunk.extend(inode_bytes(0x81A4, 1, 0, 0, false)); // 12: live
    chunk.extend(inode_bytes(0x41ED, 0, 7, 0, false)); // 13: deleted directory
    chunk.extend(inode_bytes(0, 0, 7, 0, false)); // 14: cleared
    chunk.extend(inode_bytes(0x81A4, 0, 7, 0, false)); // 15: past the count
    assert_eq!(candidates_in_chunk(&chunk, 11, &sb), Ok(vec![11, 14]));
    // Numbers below the first ordinary inode are passed over.
    assert_eq!(candidates_in_chunk(&chunk, 9, &sb), Ok(vec![12, 13]));
}

#[test]
fn assemble_plans() {
    let gone_with_map = inode(12, 0x81A4, 0, 5, 3, true);
    assert_eq!(assemble_plan(&gone_with_map, false), AssemblePlan::OwnLayout);
    let gone_cleared = inode(12, 0x81A4, 0, 5, 3, false);
    assert_eq!(assemble_plan(&gone_cleared, false), AssemblePlan::JournalSameGeneration(3));
    let unused = inode(12, 0, 0, 0, 0, false);
    assert_eq!(assemble_plan(&unused, false), AssemblePlan::Skip);
    assert_eq!(assemble_plan(&unused, true), AssemblePlan::AnyJournal);
    let alive = inode(12, 0x81A4, 1, 0, 4, true);
    assert_eq!(assemble_plan(&alive, false), AssemblePlan::Skip);
    assert_eq!(assemble_plan(&alive, true), AssemblePlan::JournalOtherGeneration(4));
    let old = inode(12, 0x81A4, 1, 0, 3, true);
    assert!(journal_copy_accepted(AssemblePlan::JournalSameGeneration(3), &old));
    assert!(!journal_copy_accepted(AssemblePlan::JournalOtherGeneration(3), &old));
    assert!(journal_copy_accepted(AssemblePlan::AnyJournal, &old));
    assert!(!journal_copy_accepted(AssemblePlan::OwnLayout, &old));
    assert!(directory_layout_in_place(&alive));
    assert!(!directory_layout_in_place(&gone_with_map));
}

#[test]
fn journal_shows_a_file_was_empty() {
    let empty = inode(12, 0x81A4, 1, 0, 3, false);
    let full = inode(12, 0x81A4, 1, 0, 3, true);
    let other = inode(12, 0x81A4, 1, 0, 4, false);
    let gone = inode(12, 0x81A4, 0, 9, 3, false);
    // The newest copy showing generation 3 alive decides.
    assert!(known_empty_of(&[(logged(9, 1), gone.clone()), (logged(8, 2), empty.clone()), (logged(7, 3), full.clone())], 3));
    assert!(!known_empty_of(&[(logged(9, 1), full), (logged(8, 2), empty.clone())], 3));
    assert!(!known_empty_of(&[(logged(9, 1), other)], 3));
    assert!(!known_empty_of(&[], 3));
}

#[test]
fn assembled_objects() {
    let current = inode(12, 0x81A4, 0, 5, 3, false);
    // A cleared regular inode with no journal copy, known empty.
    let d = assemble_deleted(12, current.clone(), AssemblePlan::JournalSameGeneration(3), None, Vec::new(), true)
        .unwrap();
    assert!(d.known_empty && !d.reused && d.layout.is_none());
    assert!(keep_deleted(&d, false));
    // A live inode whose journal holds no earlier file.
    let alive = inode(12, 0x81A4, 1, 0, 4, true);
    assert!(assemble_deleted(12, alive.clone(), AssemblePlan::JournalOtherGeneration(4), None, vec![walked(12, Some(1), true, false)], true).is_none());
    // ... and one that does: the object is the earlier file.
    let old = inode(12, 0x81A4, 1, 0, 3, true);
    let d = assemble_deleted(
        12,
        alive,
        AssemblePlan::JournalOtherGeneration(4),
        Some(journal_layout(old)),
        vec![walked(12, Some(1), true, false)],
        true,
    )
    .unwrap();
    assert!(d.reused && !d.known_empty);
    // A cleared inode (mode 0) is kept only when a deleted entry names it.
    let unused = inode(12, 0, 0, 0, 0, false);
    assert!(assemble_deleted(12, unused.clone(), AssemblePlan::AnyJournal, None, Vec::new(), false).is_none());
    assert!(assemble_deleted(12, unused, AssemblePlan::AnyJournal, None, vec![walked(12, None, true, false)], false).is_some());
    // A deleted directory is no file.
    let dir = inode(12, 0x41ED, 0, 5, 3, true);
    assert!(assemble_deleted(12, dir, AssemblePlan::OwnLayout, None, Vec::new(), false).is_none());
    let plain = DeletedInode { number: 12, current: Some(current), layout: None, names: Vec::new(), reused: false, known_empty: false };
    assert!(keep_deleted(&plain, true));
}

#[test]
fn mapped_blocks_of_a_layout() {
    let i = inode(12, 0x81A4, 0, 5, 3, true);
    let l = Layout {
        runs: vec![
            Run { logical: 0, physical: Some(500), count: 2, uninitialized: false },
            Run { logical: 2, physical: None, count: 3, uninitialized: false },
            Run { logical: 5, physical: Some(u64::MAX), count: 2, uninitialized: false },
        ],
        size: 7 * 4096,
        source: LayoutSource::Inode,
        inline: None,
        inode: i.clone(),
    };
    assert_eq!(mapped_blocks(&l), vec![500, 501, u64::MAX, u64::MAX]);
    let inline = Layout { inline: Some(vec![1, 2]), ..l };
    assert_eq!(mapped_blocks(&inline), Vec::<u64>::new());
}

#[test]
fn journal_index_keeps_copies_newest_first() {
    let mut index = JournalIndex::new(100);
    assert_eq!(index.len(), 0);
    index.add(7, logged(5, 10));
    index.add(7, logged(9, 20));
    index.add(7, logged(5, 30));
    index.add(8, logged(1, 40));
    assert_eq!(index.copies(7), &[logged(9, 20), logged(5, 10), logged(5, 30)]);
    assert_eq!(index.copies(8), &[logged(1, 40)]);
    assert_eq!(index.copies(9), &[]);
    assert_eq!(index.len(), 2);
}
