# phoinix_fs_native

Readers for FAT12/16/32, exFAT, ext2/3/4 and NTFS on-disk structures, with
the facts their deleted files are judged on, written in Verus.

## Layout

- `src/` is the library. Every function in it is verified by Verus against
  its `requires`/`ensures` contract:
  - `bytes`, `text`, `calendar`, `extent`: little- and big-endian fields,
    text decoding and formatting, dates, byte extents.
  - `fat`, `exfat`, `ext`, `ntfs`: boot sectors and superblocks, allocation
    tables and bitmaps, directory entries, inodes and MFT records, extent
    trees, block maps, run lists, journals, file reconstruction, and the
    walks of directory trees (as state machines: each step says what must
    be read next and is handed the bytes).
  - `probe`: what probing a source for each file system concludes.
  - `evidence` and each file system's `undelete`: which entries are
    deleted-file candidates and the facts (layout, allocation, metadata,
    notes) each is judged on; `ext::discover` joins inode tables, deleted
    directory entries and journal copies per inode number, and
    `ext::journal_index` keeps each block's journal copies newest first.
  - `device`: device identities and names, Linux and Windows paths.
- `tests/` exercises the library on concrete bytes.
- `app/` is ordinary Rust around the library: it reads sources (files,
  block devices, `/sys`), drives the library's state machines with what it
  reads, and words the candidates' notes. Verus does not see it.

## What is proved, and what is trusted

Contracts state results over mathematical models (`Seq`, `int`, spec
functions of the on-disk formats). Laws that span calls are public proof
functions (for example that a file reference survives encoding and
decoding, that day numbers and calendar dates convert both ways, that a stream's read plan serves each byte from the cluster its
run maps, that the block map walk keeps its runs covering the mapped
blocks in order).

The trusted items are few wrappers over `std` string functions and
`uuid::Uuid::new_v5`; each states only what its documentation gives.
Content examination and scoring of candidates use floating point and are
not part of the library.
