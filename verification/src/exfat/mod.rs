//! exFAT: boot region, allocation bitmap, FAT and directory entry sets.
//!
//! exFAT has its own boot region, an allocation bitmap, directory *entry
//! sets* (File + Stream Extension + File Name entries) and a `NoFatChain`
//! flag that makes most files contiguous without any FAT chain. Deletion
//! clears bit 7 of every entry's type byte and the bitmap bits, so the
//! layout of a contiguous file survives intact.

pub mod bitmap;
pub mod boot;
pub mod dir;
pub mod error;
pub mod probe;
pub mod table;
pub mod undelete;
pub mod volume;
pub mod walk;
