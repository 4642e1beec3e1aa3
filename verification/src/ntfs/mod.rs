//! NTFS: boot sector, FILE records with their update sequence fixup,
//! attributes and attribute lists, runlists, `$FILE_NAME` and
//! `$STANDARD_INFORMATION`, data streams, the cluster bitmap, timestamps,
//! files, paths and deleted candidates.

pub mod assemble;
pub mod attribute;
pub mod attribute_list;
pub mod bitmap;
pub mod boot;
pub mod data;
pub mod diagnostic;
pub mod error;
pub mod extensions;
pub mod finish;
pub mod file;
pub mod filename;
pub mod fixup;
pub mod mft;
pub mod probe;
pub mod record;
pub mod runlist;
pub mod standard_information;
pub mod stream;
pub mod timestamp;
pub mod tree;
pub mod undelete;
pub mod volume;
