use phoinix_fs_native::ext::dir::DirEntry;
use phoinix_fs_native::ext::error::ExtError;
use phoinix_fs_native::ext::extent::Run;
use phoinix_fs_native::ext::inode::Inode;
use phoinix_fs_native::ext::journal::extents_from_runs;
use phoinix_fs_native::ext::layout::{sort_runs, BlockMapWalk, ExtentWalk, MapStep};
use phoinix_fs_native::ext::superblock::Superblock;
use phoinix_fs_native::ext::volume::{
    checked_descriptor, groups_to_read, inline_layout, mapped_layout, Layout, LayoutSource,
};
use phoinix_fs_native::ext::walk::{ExtStep, ExtWalk, ROOT_INODE};
use phoinix_fs_native::extent::Extent;
use phoinix_fs_native::evidence::Note;
use phoinix_fs_native::ext::bitmap::BlockState;
use phoinix_fs_native::ext::group::GroupDescriptor;
use phoinix_fs_native::ext::undelete::{ext_candidate_facts, DeletedInode};
use phoinix_fs_native::ext::volume::ExtVolume;

fn superblock() -> Superblock {
    let mut s = vec![0u8; 1024];
    s[0..4].copy_from_slice(&2048u32.to_le_bytes());
    s[4..8].copy_from_slice(&8192u32.to_le_bytes());
    s[24..28].copy_from_slice(&2u32.to_le_bytes());
    s[32..36].copy_from_slice(&8192u32.to_le_bytes());
    s[40..44].copy_from_slice(&1024u32.to_le_bytes());
    s[56..58].copy_from_slice(&0xEF53u16.to_le_bytes());
    s[76..80].copy_from_slice(&1u32.to_le_bytes());
    s[84..88].copy_from_slice(&11u32.to_le_bytes());
    s[88..90].copy_from_slice(&256u16.to_le_bytes());
    s[96..100].copy_from_slice(&0x2u32.to_le_bytes());
    Superblock::parse(&s).unwrap()
}

/// An extent node header followed by entries.
fn node(depth: u16, entries: &[[u8; 12]]) -> Vec<u8> {
    let mut n = vec![0u8; 12];
    n[0..2].copy_from_slice(&0xF30Au16.to_le_bytes());
    n[2..4].copy_from_slice(&(entries.len() as u16).to_le_bytes());
    n[4..6].copy_from_slice(&4u16.to_le_bytes());
    n[6..8].copy_from_slice(&depth.to_le_bytes());
    for e in entries {
        n.extend_from_slice(e);
    }
    n
}

fn leaf(logical: u32, len: u16, physical: u32) -> [u8; 12] {
    let mut e = [0u8; 12];
    e[0..4].copy_from_slice(&logical.to_le_bytes());
    e[4..6].copy_from_slice(&len.to_le_bytes());
    e[8..12].copy_from_slice(&physical.to_le_bytes());
    e
}

fn index(logical: u32, child: u32) -> [u8; 12] {
    let mut e = [0u8; 12];
    e[0..4].copy_from_slice(&logical.to_le_bytes());
    e[4..8].copy_from_slice(&child.to_le_bytes());
    e
}

fn run(logical: u64, physical: Option<u64>, count: u64) -> Run {
    Run { logical, physical, count, uninitialized: false }
}

#[test]
fn extent_tree_is_walked_depth_first_and_sorted() {
    // The root indexes two leaves; the second holds the earlier blocks.
    let root = node(1, &[index(0, 500), index(100, 600)]);
    let mut w = ExtentWalk::new(&root, 8192).unwrap();
    assert_eq!(w.next_read(), Ok(Some(500)));
    w.give(&node(0, &[leaf(100, 10, 1000)])).unwrap();
    assert_eq!(w.next_read(), Ok(Some(600)));
    w.give(&node(0, &[leaf(0, 4, 2000), leaf(4, 0, 9), leaf(20, 32768 + 2, 3000)])).unwrap();
    assert_eq!(w.next_read(), Ok(None));
    let runs = w.finish();
    assert_eq!(
        runs,
        vec![
            run(0, Some(2000), 4),
            Run { logical: 20, physical: Some(3000), count: 2, uninitialized: true },
            run(100, Some(1000), 10),
        ]
    );
}

#[test]
fn extent_tree_errors() {
    // A cycle: both entries point at the same block.
    let root = node(1, &[index(0, 500), index(100, 500)]);
    let mut w = ExtentWalk::new(&root, 8192).unwrap();
    assert_eq!(w.next_read(), Ok(Some(500)));
    w.give(&node(0, &[leaf(0, 1, 7)])).unwrap();
    assert!(matches!(w.next_read(), Err(ExtError::Malformed { .. })));
    // A leaf past the volume, and a missing header.
    assert!(ExtentWalk::new(&node(0, &[leaf(0, 1, 9000)]), 8192).is_err());
    assert!(ExtentWalk::new(&[0u8; 60], 8192).is_err());
    // A root leaf needs no reads.
    let mut w = ExtentWalk::new(&node(0, &[leaf(0, 3, 42)]), 8192).unwrap();
    assert_eq!(w.next_read(), Ok(None));
    assert_eq!(w.finish(), vec![run(0, Some(42), 3)]);
}

#[test]
fn sort_runs_keeps_equal_starts_in_order() {
    let a = run(5, Some(1), 1);
    let b = run(0, Some(2), 1);
    let c = run(5, Some(3), 1);
    assert_eq!(sort_runs(vec![a, b, c]), vec![b, a, c]);
}

fn i_block(pointers: &[(usize, u32)]) -> Vec<u8> {
    let mut b = vec![0u8; 60];
    for (slot, p) in pointers {
        b[slot * 4..slot * 4 + 4].copy_from_slice(&p.to_le_bytes());
    }
    b
}

/// Runs the walk, serving pointer blocks from `blocks`.
fn walk_map(w: &mut BlockMapWalk, blocks: &[(u64, Vec<u8>)]) -> Result<Vec<u64>, ExtError> {
    let mut reads = Vec::new();
    loop {
        match w.step()? {
            MapStep::Done => return Ok(reads),
            MapStep::Read(b) => {
                reads.push(b);
                let data = blocks.iter().find(|(n, _)| *n == b).map(|(_, d)| d.clone()).unwrap();
                w.give(data);
            }
            MapStep::Waiting | MapStep::Continued => {}
        }
    }
}

#[test]
fn block_map_merges_direct_and_indirect_blocks() {
    // 16 blocks of 1024 bytes: 12 direct (a hole at 3), then 4 through the
    // indirect block 50.
    let mut direct: Vec<(usize, u32)> = (0..12).map(|i| (i, 100 + i as u32)).collect();
    direct[3].1 = 0;
    direct.push((12, 50));
    let mut ind = vec![0u8; 1024];
    for (i, p) in [112u32, 113, 0, 200].iter().enumerate() {
        ind[i * 4..i * 4 + 4].copy_from_slice(&p.to_le_bytes());
    }
    let mut w = BlockMapWalk::new(&i_block(&direct), 16 * 1024, 1024, 8192);
    assert_eq!(walk_map(&mut w, &[(50, ind)]), Ok(vec![50]));
    assert_eq!(
        w.finish(),
        vec![
            run(0, Some(100), 3),
            run(3, None, 1),
            run(4, Some(104), 10),
            run(14, None, 1),
            run(15, Some(200), 1),
        ]
    );
}

#[test]
fn block_map_holes_and_errors() {
    // A file of 300 blocks with no indirect block: the level is one hole,
    // cut at the file's end.
    let mut w = BlockMapWalk::new(&i_block(&[(0, 7)]), 300 * 1024, 1024, 8192);
    assert_eq!(walk_map(&mut w, &[]), Ok(vec![]));
    assert_eq!(w.finish(), vec![run(0, Some(7), 1), run(1, None, 11), run(12, None, 256), run(268, None, 32)]);
    // A pointer past the volume.
    let mut w = BlockMapWalk::new(&i_block(&[(0, 9000)]), 1024, 1024, 8192);
    assert!(matches!(walk_map(&mut w, &[]), Err(ExtError::Malformed { .. })));
    // An indirect block pointing at itself.
    let mut ind = vec![0u8; 1024];
    ind[0..4].copy_from_slice(&60u32.to_le_bytes());
    let mut w = BlockMapWalk::new(&i_block(&[(13, 60)]), 400 * 1024, 1024, 8192);
    assert!(matches!(walk_map(&mut w, &[(60, ind)]), Err(ExtError::Malformed { .. })));
}

#[test]
fn journal_extents_skip_holes_and_saturate() {
    let runs = vec![run(0, Some(10), 2), run(2, None, 5), run(7, Some(u64::MAX), 1)];
    assert_eq!(
        extents_from_runs(&runs, 4096),
        vec![Extent { offset: 40960, length: 8192 }, Extent { offset: u64::MAX, length: 4096 }]
    );
}

#[test]
fn group_descriptor_checks() {
    let sb = superblock();
    assert_eq!(groups_to_read(&sb), Ok(1));
    let mut d = vec![0u8; 32];
    d[8..12].copy_from_slice(&100u32.to_le_bytes());
    assert_eq!(checked_descriptor(&sb, &d).unwrap().inode_table, 100);
    d[8..12].copy_from_slice(&9000u32.to_le_bytes());
    assert!(matches!(checked_descriptor(&sb, &d), Err(ExtError::Malformed { .. })));
    assert!(checked_descriptor(&sb, &d[..20]).is_err());
}

fn inode(mode: u16, flags: u32, size: u32, i_block: &[u8]) -> Inode {
    let mut b = vec![0u8; 256];
    b[0..2].copy_from_slice(&mode.to_le_bytes());
    b[4..8].copy_from_slice(&size.to_le_bytes());
    b[26..28].copy_from_slice(&1u16.to_le_bytes());
    b[32..36].copy_from_slice(&flags.to_le_bytes());
    b[40..40 + i_block.len()].copy_from_slice(i_block);
    Inode::parse(12, &b, &superblock()).unwrap()
}

#[test]
fn inline_and_mapped_layouts() {
    let ino = inode(0x81A4, 0x1000_0000, 5, b"hello world");
    let l = inline_layout(ino).unwrap();
    assert_eq!(l.inline.as_deref(), Some(&b"hello"[..]));
    assert_eq!(l.source, LayoutSource::Inline);
    assert!(l.runs.is_empty());
    assert!(inline_layout(inode(0x81A4, 0, 5, &[])).is_none());
    let m = mapped_layout(inode(0x81A4, 0, 4096, &[]), vec![run(0, Some(9), 1)]);
    assert_eq!(m.runs, vec![run(0, Some(9), 1)]);
    assert_eq!((m.size, m.source, m.inline.is_none()), (4096, LayoutSource::Inode, true));
}

fn dir_entry(inode: u32, name: &str, file_type: Option<u8>, deleted: bool) -> DirEntry {
    DirEntry { inode, name: name.to_string(), file_type, deleted, offset: 0, alive_in: None }
}

fn dir_layout(number: u32) -> Layout {
    mapped_layout(inode(0x41ED, 0, 1024, &[]), vec![run(0, Some(u64::from(number)), 1)])
}

#[test]
fn ext_walk_enters_live_and_deleted_directories() {
    let mut w = ExtWalk::new(dir_layout(2));
    let s = w.step();
    assert!(matches!(s, ExtStep::ReadDirectory(_)));
    let s = w.give_entries(Some(vec![
        dir_entry(2, ".", Some(2), false),
        dir_entry(2, "..", Some(2), false),
        dir_entry(12, "docs", Some(2), false),
        dir_entry(13, "gone", None, true),
        dir_entry(14, "a.txt", Some(1), false),
    ]));
    assert!(matches!(s, ExtStep::Continued));
    // "." and ".." are passed over; "docs" is a directory to enter.
    assert!(matches!(w.step(), ExtStep::Continued));
    assert!(matches!(w.step(), ExtStep::Continued));
    assert!(matches!(w.step(), ExtStep::NeedInode(12)));
    assert!(matches!(w.step(), ExtStep::Waiting));
    let s = w.give_inode(Some(inode(0x41ED, 0, 1024, &[])));
    let ExtStep::NeedLayout { inode: i, resolved } = s else { panic!("a layout is needed") };
    assert!(!resolved);
    assert!(matches!(w.give_layout(Some(mapped_layout(i, vec![run(0, Some(70), 1)]))), ExtStep::Continued));
    // "gone" has no type: its inode tells; a deleted directory needs a
    // layout from older copies.
    assert!(matches!(w.step(), ExtStep::NeedInode(13)));
    let mut deleted_dir = vec![0u8; 256];
    deleted_dir[0..2].copy_from_slice(&0x41EDu16.to_le_bytes());
    deleted_dir[20..24].copy_from_slice(&5u32.to_le_bytes());
    let gone = Inode::parse(13, &deleted_dir, &superblock()).unwrap();
    assert!(matches!(w.give_inode(Some(gone.clone())), ExtStep::NeedInode(13)));
    let s = w.give_inode(Some(gone));
    let ExtStep::NeedLayout { resolved, .. } = s else { panic!("a layout is needed") };
    assert!(resolved);
    // No layout could be found: the entry is listed, nothing is queued.
    assert!(matches!(w.give_layout(None), ExtStep::Continued));
    assert!(matches!(w.step(), ExtStep::Continued));
    // Root done; "docs" is read next.
    assert!(matches!(w.step(), ExtStep::Continued));
    let ExtStep::ReadDirectory(l) = w.step() else { panic!("a directory is read") };
    assert_eq!(l.runs, vec![run(0, Some(70), 1)]);
    w.give_entries(Some(vec![dir_entry(ROOT_INODE, "up", Some(2), false)]));
    // The root was entered already: listed, not entered again.
    assert!(matches!(w.step(), ExtStep::Continued));
    assert!(matches!(w.step(), ExtStep::Continued));
    assert!(matches!(w.step(), ExtStep::Done));
    let out = w.finish();
    let paths: Vec<(&str, u32, bool)> =
        out.iter().map(|e| (e.path.as_str(), e.parent, e.via_deleted_directory)).collect();
    assert_eq!(
        paths,
        vec![("/docs", 2, false), ("/gone", 2, false), ("/a.txt", 2, false), ("/docs/up", 12, false)]
    );
}

#[test]
fn ext_candidate_facts_follow_the_layout_source() {
    let mut g = vec![0u8; 32];
    g[8..12].copy_from_slice(&100u32.to_le_bytes());
    let volume = ExtVolume::from_parts(superblock(), vec![GroupDescriptor::parse(&g, 32).unwrap()]);
    // A deleted inode (dtime 7) whose block map survives: two mapped
    // blocks, one hole.
    let mut raw = vec![0u8; 256];
    raw[0..2].copy_from_slice(&0x81A4u16.to_le_bytes());
    raw[4..8].copy_from_slice(&(3 * 4096u32).to_le_bytes());
    raw[20..24].copy_from_slice(&7u32.to_le_bytes());
    let current = Inode::parse(12, &raw, &superblock()).unwrap();
    let layout = mapped_layout(current.clone(), vec![run(0, Some(500), 2), run(2, None, 1)]);
    let d = DeletedInode {
        number: 12,
        current: Some(current),
        layout: Some(layout),
        names: Vec::new(),
        reused: false,
        known_empty: false,
    };
    let f = ext_candidate_facts(&d, &volume, true, &[BlockState::Free, BlockState::Allocated]);
    assert_eq!(f.notes, vec![Note::DeletedAt(7), Note::BlockMapKept]);
    assert!(!f.from_journal);
    assert_eq!((f.allocation.total, f.allocation.free, f.allocation.allocated), (2, 1, 1));
    assert_eq!((f.extents.total_clusters, f.extents.expected_clusters, f.extents.extent_count), (Some(2), Some(3), 1));
    assert!(f.extents.sparse);
    assert_eq!(f.metadata.logical_size, Some(3 * 4096));
    assert!(!f.metadata.filename_available);
    // Without a layout and without a journal.
    let bare = DeletedInode { layout: None, ..d.clone() };
    let f = ext_candidate_facts(&bare, &volume, false, &[]);
    assert_eq!(f.notes, vec![Note::DeletedAt(7), Note::NoJournal]);
    assert_eq!(f.extents.expected_clusters, Some(3));
    assert_eq!(f.allocation.total, 0);
}
