use phoinix_fs_native::ext::dir::DirEntry;
use phoinix_fs_native::ext::error::ExtError;
use phoinix_fs_native::ext::extent::Run;
use phoinix_fs_native::ext::group::GroupDescriptor;
use phoinix_fs_native::ext::inode::Inode;
use phoinix_fs_native::ext::superblock::Superblock;
use phoinix_fs_native::ext::versions::merge_directory_versions;
use phoinix_fs_native::ext::volume::{
    journal_copy_usable, DirBlock, ExtVolume, Layout, LayoutSource, MAX_DIRECTORY_BYTES,
};
use phoinix_fs_native::extent::Extent;

fn superblock(log_block: u32, inodes_per_group: u32) -> Vec<u8> {
    let mut s = vec![0u8; 1024];
    s[0..4].copy_from_slice(&2048u32.to_le_bytes());
    s[4..8].copy_from_slice(&8192u32.to_le_bytes());
    s[20..24].copy_from_slice(&(if log_block == 0 { 1u32 } else { 0 }).to_le_bytes());
    s[24..28].copy_from_slice(&log_block.to_le_bytes());
    s[32..36].copy_from_slice(&8192u32.to_le_bytes());
    s[40..44].copy_from_slice(&inodes_per_group.to_le_bytes());
    s[56..58].copy_from_slice(&0xEF53u16.to_le_bytes());
    s[76..80].copy_from_slice(&1u32.to_le_bytes());
    s[84..88].copy_from_slice(&11u32.to_le_bytes());
    s[88..90].copy_from_slice(&256u16.to_le_bytes());
    s[96..100].copy_from_slice(&0x2u32.to_le_bytes());
    s
}

fn group(inode_table: u32, flags: u16) -> GroupDescriptor {
    let mut d = vec![0u8; 32];
    d[8..12].copy_from_slice(&inode_table.to_le_bytes());
    d[18..20].copy_from_slice(&flags.to_le_bytes());
    GroupDescriptor::parse(&d, 32).unwrap()
}

fn volume() -> ExtVolume {
    let sb = Superblock::parse(&superblock(2, 1024)).unwrap();
    ExtVolume::from_parts(sb, vec![group(100, 0), group(300, 1)])
}

fn inode_bytes(mode: u16, links: u16, dtime: u32, flags: u32, size: u32) -> Vec<u8> {
    let mut b = vec![0u8; 256];
    b[0..2].copy_from_slice(&mode.to_le_bytes());
    b[4..8].copy_from_slice(&size.to_le_bytes());
    b[20..24].copy_from_slice(&dtime.to_le_bytes());
    b[26..28].copy_from_slice(&links.to_le_bytes());
    b[32..36].copy_from_slice(&flags.to_le_bytes());
    b[40..42].copy_from_slice(&0xF30Au16.to_le_bytes());
    b[42..44].copy_from_slice(&1u16.to_le_bytes());
    b
}

fn layout(runs: Vec<Run>, size: u64, inode: Inode) -> Layout {
    Layout { runs, size, source: LayoutSource::Inode, inline: None, inode }
}

fn data(logical: u64, physical: u64, count: u64) -> Run {
    Run { logical, physical: Some(physical), count, uninitialized: false }
}

fn entry(inode: u32, name: &str, deleted: bool) -> DirEntry {
    DirEntry { inode, name: name.to_string(), file_type: Some(1), deleted, offset: 0, alive_in: None }
}

#[test]
fn inode_locations() {
    let v = volume();
    // Inode 1 is the first of group 0: inode table block 100, 4096-byte blocks.
    assert_eq!(v.inode_location(1), Ok((100 * 4096, 100)));
    // Inode 17 is 16 inodes (4096 bytes) into the table: the next block.
    assert_eq!(v.inode_location(17), Ok((100 * 4096 + 4096, 101)));
    // Inode 1025 is the first of group 1.
    assert_eq!(v.inode_location(1025), Ok((300 * 4096, 300)));
    assert_eq!(v.inode_location(0), Err(ExtError::InodeOutOfRange(0)));
    assert_eq!(v.inode_location(2049), Err(ExtError::InodeOutOfRange(2049)));
    // Inode 2048 would be in group 1 of 2 and exists; a volume with one
    // group has no room for it.
    let sb = Superblock::parse(&superblock(2, 1024)).unwrap();
    let one = ExtVolume::from_parts(sb, vec![group(100, 0)]);
    assert_eq!(one.inode_location(2048), Err(ExtError::InodeOutOfRange(2048)));
}

#[test]
fn listed_inodes_skip_uninitialized_groups() {
    let v = volume();
    assert!(v.inode_listed(1));
    assert!(v.inode_listed(1024));
    assert!(!v.inode_listed(1025));
    assert!(!v.inode_listed(0));
    assert!(!v.inode_listed(4000));
}

#[test]
fn inodes_from_journal_block_copies() {
    let v = volume();
    let mut block = vec![0u8; 4096];
    // Inode 18 is the second inode of the second table block.
    block[256..512].copy_from_slice(&inode_bytes(0x81A4, 1, 0, 0x8_0000, 777));
    let i = v.inode_from_block(18, &block).unwrap();
    assert_eq!(i.size, 777);
    assert!(v.inode_from_block(0, &block).is_none());
    assert!(v.inode_from_block(18, &block[..300]).is_none());
}

#[test]
fn usable_journal_copies() {
    let sb = Superblock::parse(&superblock(2, 1024)).unwrap();
    let live = Inode::parse(12, &inode_bytes(0x81A4, 1, 0, 0x8_0000, 10), &sb).unwrap();
    assert!(journal_copy_usable(&live));
    let deleted = Inode::parse(12, &inode_bytes(0x81A4, 1, 99, 0x8_0000, 10), &sb).unwrap();
    assert!(!journal_copy_usable(&deleted));
    let empty = Inode::parse(12, &inode_bytes(0x81A4, 1, 0, 0x8_0000, 0), &sb).unwrap();
    assert!(!journal_copy_usable(&empty));
    let empty_dir = Inode::parse(12, &inode_bytes(0x41ED, 2, 0, 0x8_0000, 0), &sb).unwrap();
    assert!(journal_copy_usable(&empty_dir));
}

#[test]
fn extents_holes_and_completeness() {
    let v = volume();
    let sb = Superblock::parse(&superblock(2, 1024)).unwrap();
    let map_inode = Inode::parse(12, &inode_bytes(0x81A4, 1, 0, 0, 10_000), &sb).unwrap();
    let runs = vec![
        data(0, 500, 1),
        Run { logical: 1, physical: None, count: 1, uninitialized: false },
        data(2, 900, 5),
    ];
    let l = layout(runs.clone(), 10_000, map_inode.clone());
    assert_eq!(
        v.extents_of(&l),
        vec![Extent { offset: 500 * 4096, length: 4096 }, Extent { offset: 900 * 4096, length: 10_000 - 8192 }]
    );
    assert!(v.layout_complete(&l));
    let gappy = layout(vec![data(0, 500, 1), data(2, 900, 1)], 10_000, map_inode.clone());
    assert!(!v.layout_complete(&gappy));
    let dense = v.dense_runs(&gappy);
    assert_eq!(dense.len(), 3);
    assert_eq!(dense[1], Run { logical: 1, physical: None, count: 1, uninitialized: false });
    let short = layout(vec![data(0, 500, 1)], 10_000, map_inode);
    let dense = v.dense_runs(&short);
    assert_eq!(dense[1], Run { logical: 1, physical: None, count: 2, uninitialized: false });
}

#[test]
fn directory_blocks_are_planned_up_to_the_size() {
    let v = volume();
    let sb = Superblock::parse(&superblock(2, 1024)).unwrap();
    let indexed = Inode::parse(2, &inode_bytes(0x41ED, 2, 0, 0x1000, 8192), &sb).unwrap();
    let l = layout(vec![data(0, 40, 5)], 8192, indexed.clone());
    assert_eq!(
        v.directory_blocks(&l).unwrap(),
        vec![
            DirBlock { block: 40, offset: 40 * 4096, indexed_root: true },
            DirBlock { block: 41, offset: 41 * 4096, indexed_root: false },
        ]
    );
    let holed = layout(
        vec![Run { logical: 0, physical: None, count: 1, uninitialized: false }, data(1, 40, 1)],
        8192,
        indexed.clone(),
    );
    assert_eq!(v.directory_blocks(&holed).unwrap(), vec![DirBlock { block: 40, offset: 40 * 4096, indexed_root: false }]);
    let huge = layout(vec![data(0, u64::MAX / 2, 1)], 4096, indexed);
    assert_eq!(v.directory_blocks(&huge), Err(ExtError::Overflow));
    assert_eq!(MAX_DIRECTORY_BYTES, 256 * 1024 * 1024);
}

#[test]
fn journal_copies_add_deleted_entries_and_live_ranges() {
    let current = vec![entry(11, "a.txt", false), entry(12, "b.txt", true)];
    let copies = vec![
        (7u32, vec![entry(2, ".", false), entry(11, "a.txt", false), entry(13, "old.txt", false)]),
        (9u32, vec![entry(11, "a.txt", false), entry(13, "old.txt", true)]),
    ];
    let merged = merge_directory_versions(current, &copies);
    assert_eq!(merged.len(), 3);
    assert_eq!(merged[0].alive_in, Some((7, 9)));
    assert_eq!(merged[1].alive_in, None);
    assert_eq!(merged[2].name, "old.txt");
    assert!(merged[2].deleted);
    assert_eq!(merged[2].alive_in, Some((7, 7)));
}
