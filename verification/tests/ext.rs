use phoinix_fs_native::ext::bitmap::{bit, BlockBitmaps, BlockState};
use phoinix_fs_native::ext::crc32c::{checksum, update};
use phoinix_fs_native::ext::dir::parse_block;
use phoinix_fs_native::ext::extent::{decode_node, hole_run, push_block, span_of_level, ExtentNode, Run};
use phoinix_fs_native::ext::group::GroupDescriptor;
use phoinix_fs_native::ext::inode::{Inode, InodeKind};
use phoinix_fs_native::ext::journal::{
    classify_block, decode_descriptor, insert_newest_first, parse_header, tag_checksum_ok, unescape,
    JournalBlock, JournalWalk, LoggedBlock, MAGIC,
};
use phoinix_fs_native::ext::superblock::Superblock;
use phoinix_fs_native::ext::probe::ExtProbe;

fn dir_entry(inode: u32, rec_len: u16, name: &str, ft: u8) -> Vec<u8> {
    let mut v = inode.to_le_bytes().to_vec();
    v.extend_from_slice(&rec_len.to_le_bytes());
    v.push(name.len() as u8);
    v.push(ft);
    v.extend_from_slice(name.as_bytes());
    while v.len() % 4 != 0 {
        v.push(0);
    }
    v
}

fn superblock(log_block: u32, incompat: u32, ro_compat: u32) -> Vec<u8> {
    let mut s = vec![0u8; 1024];
    s[0..4].copy_from_slice(&2048u32.to_le_bytes());
    s[4..8].copy_from_slice(&8192u32.to_le_bytes());
    s[12..16].copy_from_slice(&100u32.to_le_bytes());
    s[20..24].copy_from_slice(&(if log_block == 0 { 1u32 } else { 0 }).to_le_bytes());
    s[24..28].copy_from_slice(&log_block.to_le_bytes());
    s[32..36].copy_from_slice(&8192u32.to_le_bytes());
    s[40..44].copy_from_slice(&2048u32.to_le_bytes());
    s[56..58].copy_from_slice(&0xEF53u16.to_le_bytes());
    s[76..80].copy_from_slice(&1u32.to_le_bytes());
    s[84..88].copy_from_slice(&11u32.to_le_bytes());
    s[88..90].copy_from_slice(&256u16.to_le_bytes());
    s[92..96].copy_from_slice(&4u32.to_le_bytes());
    s[96..100].copy_from_slice(&incompat.to_le_bytes());
    s[100..104].copy_from_slice(&ro_compat.to_le_bytes());
    for i in 0..16 {
        s[104 + i] = i as u8;
    }
    s[120..124].copy_from_slice(b"data");
    s
}

#[test]
fn check_value() {
    assert_eq!(checksum(b"123456789"), 0xE306_9283);
    assert_eq!(checksum(b""), 0);
}

#[test]
fn crc32c_update_is_incremental() {
    let whole = update(!0, b"hello world");
    let part = update(update(!0, b"hello "), b"world");
    assert_eq!(whole, part);
}

#[test]
fn finds_live_and_hidden_entries() {
    let mut block = Vec::new();
    block.extend(dir_entry(2, 12, ".", 2));
    block.extend(dir_entry(2, 12, "..", 2));
    let keep = dir_entry(12, 16, "keep.txt", 1);
    let gone = dir_entry(13, 16, "gone.bin", 1);
    let mut merged = keep.clone();
    merged[4..6].copy_from_slice(&((4096 - 24) as u16).to_le_bytes());
    block.extend(merged);
    block.extend(gone);
    block.resize(4096, 0);
    let entries = parse_block(&block, 0, true, false, 100);
    let names: Vec<(&str, bool, u32)> =
        entries.iter().map(|e| (e.name.as_str(), e.deleted, e.inode)).collect();
    assert_eq!(
        names,
        vec![(".", false, 2), ("..", false, 2), ("keep.txt", false, 12), ("gone.bin", true, 13)]
    );
    let mut junk = block.clone();
    for b in &mut junk[40..60] {
        *b = 0xFF;
    }
    let entries = parse_block(&junk, 0, true, false, 100);
    assert!(entries.iter().all(|e| !e.deleted));
}

#[test]
fn dot_entries_and_htree_nodes() {
    let mut block = Vec::new();
    block.extend(dir_entry(2, 12, ".", 2));
    block.extend(dir_entry(2, 4096 - 12, "..", 2));
    block.resize(4096, 0);
    let entries = parse_block(&block, 8192, true, false, 100);
    assert_eq!(entries.len(), 2);
    assert!(entries[0].is_dot() && entries[1].is_dot());
    assert!(entries[1].is_directory());
    assert_eq!(entries[1].offset, 8192 + 12);
    let mut node = vec![0u8; 1024];
    node[4..6].copy_from_slice(&1024u16.to_le_bytes());
    assert!(parse_block(&node, 0, true, true, 100).is_empty());
}

#[test]
fn parses_superblock_geometry() {
    let sb = Superblock::parse(&superblock(2, 0x40 | 0x2, 0x1)).unwrap();
    assert_eq!(sb.block_size, 4096);
    assert_eq!(sb.blocks_count, 8192);
    assert_eq!(sb.inode_size, 256);
    assert_eq!(sb.volume_name, "data");
    assert_eq!(sb.flavour(), "ext4");
    assert_eq!(sb.group_count(), 1);
    assert_eq!(sb.desc_size, 32);
    assert_eq!(sb.checksum_ok, None);
    assert_eq!(sb.csum_seed, update(!0, &sb.uuid));
    assert_eq!(sb.block_offset(3).unwrap(), 3 * 4096);
    assert!(sb.block_offset(u64::MAX).is_err());
    assert!(sb.group_has_super(0) && sb.group_has_super(1) && sb.group_has_super(3));
    assert!(sb.group_has_super(25) && sb.group_has_super(49));
    assert!(!sb.group_has_super(2) && !sb.group_has_super(15));
    assert_eq!(sb.descriptor_location(3), (1, 96));
    let ext3 = Superblock::parse(&superblock(0, 0x2, 0)).unwrap();
    assert_eq!(ext3.flavour(), "ext3");
    assert_eq!(ext3.block_size, 1024);
    assert!(ext3.group_has_super(2));
}

#[test]
fn rejects_bad_superblocks() {
    let mut s = superblock(2, 0, 0);
    s[56] = 0;
    assert!(Superblock::parse(&s).is_err());
    assert!(Superblock::parse(&superblock(7, 0, 0)).is_err());
    let mut s = superblock(2, 0, 0);
    s[88..90].copy_from_slice(&200u16.to_le_bytes());
    assert!(Superblock::parse(&s).is_err());
    assert!(Superblock::parse(&superblock(2, 0, 0)[..512]).is_err());
}

#[test]
fn metadata_checksum_is_verified() {
    let mut s = superblock(2, 0, 0x400);
    let crc = update(!0, &s[..0x3FC]);
    s[0x3FC..0x400].copy_from_slice(&crc.to_le_bytes());
    let sb = Superblock::parse(&s).unwrap();
    assert!(sb.metadata_csum());
    assert_eq!(sb.checksum_ok, Some(true));
    s[0x3FC] ^= 1;
    assert_eq!(Superblock::parse(&s).unwrap().checksum_ok, Some(false));
}

#[test]
fn group_descriptors_and_bitmaps() {
    let mut d = vec![0u8; 64];
    d[0..4].copy_from_slice(&100u32.to_le_bytes());
    d[32..36].copy_from_slice(&1u32.to_le_bytes());
    d[18..20].copy_from_slice(&2u16.to_le_bytes());
    let g = GroupDescriptor::parse(&d, 64).unwrap();
    assert_eq!(g.block_bitmap, 100 + (1u64 << 32));
    assert!(g.block_uninit() && !g.inode_uninit());
    let narrow = GroupDescriptor::parse(&d, 32).unwrap();
    assert_eq!(narrow.block_bitmap, 100);
    assert!(GroupDescriptor::parse(&d[..20], 32).is_none());

    assert_eq!(bit(&[0b0000_0100], 2), Some(true));
    assert_eq!(bit(&[0b0000_0100], 3), Some(false));
    assert_eq!(bit(&[0], 8), None);

    let sb = Superblock::parse(&superblock(2, 0, 0)).unwrap();
    let mut plain = d.clone();
    plain[18] = 0;
    let maps = BlockBitmaps::new(vec![GroupDescriptor::parse(&plain, 32).unwrap()]);
    assert_eq!(maps.bitmap_block(0), Some(100));
    assert_eq!(maps.state_with(&sb, 9, Some(&[0b0000_0010, 0b10])), BlockState::Allocated);
    assert_eq!(maps.state_with(&sb, 8, Some(&[0b0000_0010, 0b10])), BlockState::Free);
    assert_eq!(maps.state_with(&sb, 9, None), BlockState::Unknown);
    assert_eq!(maps.state_with(&sb, 9000, None), BlockState::Unknown);
}

fn inode_bytes(mode: u16, links: u16, dtime: u32, flags: u32) -> Vec<u8> {
    let mut b = vec![0u8; 256];
    b[0..2].copy_from_slice(&mode.to_le_bytes());
    b[4..8].copy_from_slice(&5000u32.to_le_bytes());
    b[20..24].copy_from_slice(&dtime.to_le_bytes());
    b[26..28].copy_from_slice(&links.to_le_bytes());
    b[32..36].copy_from_slice(&flags.to_le_bytes());
    b[40..42].copy_from_slice(&0xF30Au16.to_le_bytes());
    b[42..44].copy_from_slice(&1u16.to_le_bytes());
    b[100..104].copy_from_slice(&7u32.to_le_bytes());
    b[128..130].copy_from_slice(&32u16.to_le_bytes());
    b[144..148].copy_from_slice(&1_700_000_000u32.to_le_bytes());
    b
}

#[test]
fn parses_inodes() {
    let sb = Superblock::parse(&superblock(2, 0x40, 0)).unwrap();
    let i = Inode::parse(12, &inode_bytes(0x81A4, 0, 1234, 0x8_0000), &sb).unwrap();
    assert_eq!(i.kind(), InodeKind::Regular);
    assert_eq!(i.size, 5000);
    assert!(i.is_deleted());
    assert!(i.uses_extents() && !i.inline_data());
    assert!(i.has_layout());
    assert_eq!(i.generation, 7);
    assert_eq!(i.crtime, Some(1_700_000_000));
    assert_eq!(i.checksum_ok, None);
    let d = Inode::parse(2, &inode_bytes(0x41ED, 2, 0, 0), &sb).unwrap();
    assert_eq!(d.kind(), InodeKind::Directory);
    assert!(!d.is_deleted());
    assert!(Inode::parse(1, &[0u8; 100], &sb).is_none());
}

#[test]
fn extent_nodes_decode_runs_and_children() {
    let mut leaf = vec![0u8; 60];
    leaf[0..2].copy_from_slice(&0xF30Au16.to_le_bytes());
    leaf[2..4].copy_from_slice(&2u16.to_le_bytes());
    leaf[4..6].copy_from_slice(&4u16.to_le_bytes());
    leaf[12..16].copy_from_slice(&0u32.to_le_bytes());
    leaf[16..18].copy_from_slice(&8u16.to_le_bytes());
    leaf[20..24].copy_from_slice(&500u32.to_le_bytes());
    leaf[24..28].copy_from_slice(&8u32.to_le_bytes());
    leaf[28..30].copy_from_slice(&(32768u16 + 3).to_le_bytes());
    leaf[32..36].copy_from_slice(&900u32.to_le_bytes());
    match decode_node(&leaf, 0, 10_000).unwrap() {
        ExtentNode::Leaf(runs) => {
            assert_eq!(runs.len(), 2);
            assert_eq!(runs[0], Run { logical: 0, physical: Some(500), count: 8, uninitialized: false });
            assert_eq!(runs[1], Run { logical: 8, physical: Some(900), count: 3, uninitialized: true });
        }
        ExtentNode::Index(_) => panic!("leaf expected"),
    }
    assert!(decode_node(&leaf, 0, 600).is_err());
    let mut index = vec![0u8; 60];
    index[0..2].copy_from_slice(&0xF30Au16.to_le_bytes());
    index[2..4].copy_from_slice(&1u16.to_le_bytes());
    index[4..6].copy_from_slice(&4u16.to_le_bytes());
    index[6..8].copy_from_slice(&1u16.to_le_bytes());
    index[16..20].copy_from_slice(&77u32.to_le_bytes());
    match decode_node(&index, 0, 10_000).unwrap() {
        ExtentNode::Index(children) => assert_eq!(children, vec![77]),
        ExtentNode::Leaf(_) => panic!("index expected"),
    }
    assert!(decode_node(&index, 6, 10_000).is_err());
    leaf[0] = 0;
    assert!(decode_node(&leaf, 0, 10_000).is_err());
}

#[test]
fn block_map_runs_merge() {
    let mut out: Vec<Run> = Vec::new();
    push_block(&mut out, 0, 100, 1000).unwrap();
    push_block(&mut out, 1, 101, 1000).unwrap();
    push_block(&mut out, 2, 0, 1000).unwrap();
    push_block(&mut out, 3, 0, 1000).unwrap();
    push_block(&mut out, 4, 300, 1000).unwrap();
    assert_eq!(out.len(), 3);
    assert_eq!(out[0], Run { logical: 0, physical: Some(100), count: 2, uninitialized: false });
    assert_eq!(out[1], Run { logical: 2, physical: None, count: 2, uninitialized: false });
    assert!(push_block(&mut out, 5, 5000, 1000).is_err());
    assert_eq!(out.len(), 3);
    assert_eq!(span_of_level(1024, 2), 1024 * 1024);
    assert_eq!(span_of_level(u64::MAX, 3), u64::MAX);
    assert_eq!(hole_run(10, 1024, 100).count, 90);
}

fn journal_header(incompat: u32) -> Vec<u8> {
    let mut h = vec![0u8; 1024];
    h[0..4].copy_from_slice(&MAGIC.to_be_bytes());
    h[4..8].copy_from_slice(&4u32.to_be_bytes());
    h[12..16].copy_from_slice(&4096u32.to_be_bytes());
    h[16..20].copy_from_slice(&1024u32.to_be_bytes());
    h[20..24].copy_from_slice(&1u32.to_be_bytes());
    h[24..28].copy_from_slice(&77u32.to_be_bytes());
    h[40..44].copy_from_slice(&incompat.to_be_bytes());
    for i in 0..16 {
        h[48 + i] = 0x10 + i as u8;
    }
    h
}

#[test]
fn journal_header_and_descriptors() {
    let h = parse_header(&journal_header(0x10), &[0u8; 16]).unwrap();
    assert_eq!(h.info.block_size, 4096);
    assert_eq!(h.info.sequence, 77);
    assert_eq!(h.tag_size, 16);
    assert_eq!(h.csum_seed, update(!0, &journal_header(0x10)[48..64]));
    assert_eq!(parse_header(&journal_header(0), &[0u8; 16]).unwrap().tag_size, 8);
    let mut bad = journal_header(0);
    bad[12..16].copy_from_slice(&3000u32.to_be_bytes());
    assert!(parse_header(&bad, &[0u8; 16]).is_err());

    let mut d = vec![0u8; 4096];
    d[0..4].copy_from_slice(&MAGIC.to_be_bytes());
    d[4..8].copy_from_slice(&1u32.to_be_bytes());
    d[8..12].copy_from_slice(&9u32.to_be_bytes());
    // Tag 1: block 500, no same-uuid flag (a UUID follows).
    d[12..16].copy_from_slice(&500u32.to_be_bytes());
    // Tag 2 after 8 + 16 bytes: block 600, same uuid and last, escaped.
    d[36..40].copy_from_slice(&600u32.to_be_bytes());
    d[42..44].copy_from_slice(&(2u16 | 8 | 1).to_be_bytes());
    assert_eq!(classify_block(&d), JournalBlock::Descriptor { sequence: 9 });
    let (tags, next) = decode_descriptor(&d, 10, 100, 0, 8);
    assert_eq!(tags.len(), 2);
    assert_eq!((tags[0].fs_block, tags[0].journal_block), (500, 11));
    assert_eq!((tags[1].fs_block, tags[1].journal_block, tags[1].escaped), (600, 12, true));
    assert_eq!(next, 13);
    let (tags, next) = decode_descriptor(&d, 10, 12, 0, 8);
    assert_eq!(tags.len(), 1);
    assert_eq!(next, 12);
    assert_eq!(classify_block(&[0u8; 16]), JournalBlock::Foreign);
}

#[test]
fn journal_walk_and_copies() {
    let mut w = JournalWalk::new(0, 5);
    assert_eq!(w.block_to_read(), Some(1));
    w.after_block(JournalBlock::Descriptor { sequence: 3 }, 4);
    assert_eq!(w.block_to_read(), Some(4));
    w.after_block(JournalBlock::Commit, 0);
    assert_eq!(w.block_to_read(), None);
    assert_eq!((w.descriptors, w.commits, w.visited), (1, 1, 2));

    let c = |sequence| LoggedBlock { sequence, journal_block: 0, checksum_ok: None, escaped: false };
    let mut copies = Vec::new();
    insert_newest_first(&mut copies, c(3));
    insert_newest_first(&mut copies, c(7));
    insert_newest_first(&mut copies, c(5));
    insert_newest_first(&mut copies, c(7));
    let seqs: Vec<u32> = copies.iter().map(|c| c.sequence).collect();
    assert_eq!(seqs, vec![7, 7, 5, 3]);

    let mut data = vec![0u8; 8];
    unescape(&mut data, true);
    assert_eq!(&data[..4], &MAGIC.to_be_bytes());
    let copy = vec![1u8, 2, 3];
    let full = update(update(5, &9u32.to_be_bytes()), &copy);
    assert!(tag_checksum_ok(5, 9, &copy, full, true));
    assert!(tag_checksum_ok(5, 9, &copy, full & 0xFFFF, false));
    assert!(!tag_checksum_ok(5, 9, &copy, full ^ 1, true));
}

#[test]
fn ext_probe_scores_size_and_checksum() {
    let sb = superblock(2, 0x40, 0);
    let parsed = Superblock::parse(&sb).unwrap();
    let declared = parsed.blocks_count * u64::from(parsed.block_size);
    let r = ExtProbe.probe(declared, &sb);
    let fits_and_sum = match parsed.checksum_ok {
        Some(true) => 95,
        Some(false) => 65,
        None => 85,
    };
    assert_eq!(r.confidence, fits_and_sum);
    assert_eq!(r.evidence[0].detail, "superblock magic 0xEF53 present");
    assert_eq!(
        r.evidence[1].detail,
        format!("ext4: {} blocks of {} bytes, {} inodes", parsed.blocks_count, parsed.block_size, parsed.inodes_count)
    );
    assert_eq!(r.evidence[2].detail, "declared size fits the source");
    let r = ExtProbe.probe(4096, &sb);
    assert_eq!(r.evidence[2].detail, "declared size exceeds the source");
    assert_eq!(r.confidence, fits_and_sum - 20);
}

#[test]
fn ext_probe_negatives() {
    let r = ExtProbe.probe(2047, &[], );
    assert_eq!(r.evidence[0].detail, "source shorter than a superblock");
    let r = ExtProbe.probe(1 << 20, &[0u8; 1024]);
    assert_eq!(r.confidence, 0);
    assert!(r.evidence[0].detail.starts_with("invalid superblock: "));
}
