//! Native readers for FAT12/16/32, exFAT, ext2/3/4 and NTFS on-disk
//! structures, with the device model they are read from.

pub mod bytes;
pub mod text;
pub mod fat;
pub mod calendar;
pub mod device;
pub mod exfat;
pub mod ext;
pub mod evidence;
pub mod extent;
pub mod ntfs;
pub mod probe;
