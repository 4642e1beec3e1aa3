//! Byte extents of a file's data on the volume.

use vstd::prelude::*;

verus! {

/// A contiguous byte range of the volume.
#[derive(Debug, Clone, Copy, PartialEq, Eq, Structural)]
pub struct Extent {
    /// Volume byte offset.
    pub offset: u64,
    /// Length in bytes.
    pub length: u64,
}

/// Appends the range `(offset, length)` to `v`, merging it into the last
/// extent when it starts where that one ends.
pub open spec fn push_merged(v: Seq<Extent>, offset: u64, length: u64) -> Seq<Extent> {
    if v.len() > 0 && v.last().offset + v.last().length == offset && v.last().length + length
        <= u64::MAX {
        v.drop_last().push(Extent { offset: v.last().offset, length: (v.last().length + length) as u64 })
    } else {
        v.push(Extent { offset, length })
    }
}

/// Appends `(offset, length)` to `out`, merging with the last extent when
/// they are adjacent.
pub fn push_extent(out: &mut Vec<Extent>, offset: u64, length: u64)
    ensures
        final(out)@ == push_merged(old(out)@, offset, length),
{
    let n = out.len();
    if n > 0 {
        let last = out[n - 1];
        let adjacent = match last.offset.checked_add(last.length) {
            Some(end) => end == offset,
            None => false,
        };
        if adjacent {
            match last.length.checked_add(length) {
                Some(total) => {
                    out.set(n - 1, Extent { offset: last.offset, length: total });
                    assert(out@ =~= push_merged(old(out)@, offset, length));
                    return;
                },
                None => {},
            }
        }
    }
    out.push(Extent { offset, length });
}

} // verus!
