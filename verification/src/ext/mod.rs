//! ext2/ext3/ext4: superblock, group descriptors, inodes, extent trees and
//! block maps, directory blocks, bitmaps, the jbd2 journal and CRC-32C.

pub mod bitmap;
pub mod crc32c;
pub mod dir;
pub mod discover;
pub mod error;
pub mod extent;
pub mod group;
pub mod inode;
pub mod journal;
pub mod journal_index;
pub mod layout;
pub mod probe;
pub mod superblock;
pub mod undelete;
pub mod versions;
pub mod volume;
pub mod walk;
