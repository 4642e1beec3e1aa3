//! FAT12/FAT16/FAT32: boot sector, allocation table, directory entries and
//! the reconstruction of deleted files' clusters.
//!
//! FAT keeps very little about a deleted file: the directory entry survives
//! with its first byte replaced by `0xE5`, still carrying the size, the
//! first cluster and the timestamps, but the cluster chain is cleared. Two
//! reconstructions are therefore distinguished: *contiguous* (consecutive
//! free clusters from the first one) and *heuristic* (clusters now
//! allocated to other files are skipped).

pub mod boot;
pub mod dir;
pub mod error;
pub mod probe;
pub mod table;
pub mod undelete;
pub mod volume;
pub mod walk;
