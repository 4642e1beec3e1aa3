//! `$ATTRIBUTE_LIST` parsing.

use vstd::prelude::*;

use crate::bytes::{le16, le32, le64, read_u16, read_u32, read_u64};
use crate::ntfs::attribute::{slice_to_vec_range, type_of, AttributeType};
use crate::ntfs::error::NtfsError;
use crate::ntfs::record::FileReference;
use crate::text::{string_from_utf16_lossy, units_le, utf16_lossy, utf16_units};

verus! {

/// One entry of an attribute list.
#[derive(Debug, Clone, PartialEq, Eq)]
pub struct AttributeListEntry {
    /// Attribute type.
    pub attribute_type: AttributeType,
    /// Attribute name (empty for unnamed).
    pub name: String,
    /// First VCN held by this piece (non-resident attributes split across
    /// records).
    pub starting_vcn: u64,
    /// Record holding the attribute.
    pub reference: FileReference,
    /// Attribute identifier inside that record.
    pub attribute_id: u16,
}

/// What the list holds at `pos`.
pub enum ListStep {
    /// The list ends here (end marker or zero padding).
    End,
    /// A malformed entry.
    Bad,
    /// A well-formed entry whose successor starts at the given offset.
    Entry(int),
}

/// Whether every byte of `b` from `pos` is zero.
pub open spec fn zero_from(b: Seq<u8>, pos: int) -> bool {
    forall|i: int| pos <= i < b.len() ==> b[i] == 0
}

/// Classifies the entry at `pos` (`pos < b.len()`): fewer than 26 bytes
/// left are padding when zero; type 0 with length 0 ends the list; a length
/// that is under 26, not a multiple of 8 or past the list, or a name past
/// the entry, is malformed.
pub open spec fn list_step(b: Seq<u8>, pos: int) -> ListStep {
    let length = le16(b, pos + 4);
    let nl = b[pos + 6] as int;
    let no = b[pos + 7] as int;
    if b.len() - pos < 26 {
        if zero_from(b, pos) {
            ListStep::End
        } else {
            ListStep::Bad
        }
    } else if le32(b, pos) == 0 && length == 0 {
        ListStep::End
    } else if length < 26 || length % 8 != 0 || pos + length > b.len() {
        ListStep::Bad
    } else if nl != 0 && no + 2 * nl > length {
        ListStep::Bad
    } else {
        ListStep::Entry(pos + length)
    }
}

/// Offsets of the entries from `pos` on, `None` when one is malformed.
pub open spec fn entry_offsets(b: Seq<u8>, pos: int) -> Option<Seq<int>>
    decreases b.len() - pos,
{
    if pos < 0 || pos >= b.len() {
        Some(Seq::empty())
    } else {
        match list_step(b, pos) {
            ListStep::End => Some(Seq::empty()),
            ListStep::Bad => None,
            ListStep::Entry(end) => if end > pos {
                match entry_offsets(b, end) {
                    Some(rest) => Some(seq![pos] + rest),
                    None => None,
                }
            } else {
                None
            },
        }
    }
}

/// Whether `e` is the entry decoded at `pos` of `b`.
pub open spec fn entry_matches(e: AttributeListEntry, b: Seq<u8>, pos: int) -> bool {
    let nl = b[pos + 6] as int;
    let start = pos + b[pos + 7] as int;
    &&& e.attribute_type == type_of(le32(b, pos) as u32)
    &&& e.name@ == (if nl == 0 {
        Seq::empty()
    } else {
        utf16_lossy(utf16_units(b.subrange(start, start + 2 * nl)))
    })
    &&& e.starting_vcn == le64(b, pos + 8)
    &&& e.reference.record == le64(b, pos + 16) % 0x1_0000_0000_0000
    &&& e.reference.sequence == le64(b, pos + 16) / 0x1_0000_0000_0000
    &&& e.attribute_id == le16(b, pos + 24)
}

proof fn lemma_offsets_step(b: Seq<u8>, pos: int, end: int)
    requires
        0 <= pos < b.len(),
        list_step(b, pos) == ListStep::Entry(end),
        end > pos,
    ensures
        entry_offsets(b, pos) == (match entry_offsets(b, end) {
            Some(rest) => Some(seq![pos] + rest),
            None => None::<Seq<int>>,
        }),
{
}

/// Decodes the entry at `pos`, which [`list_step`] found well formed.
fn decode_entry(bytes: &[u8], pos: usize) -> (e: AttributeListEntry)
    requires
        pos + 26 <= bytes@.len(),
        list_step(bytes@, pos as int) is Entry,
    ensures
        entry_matches(e, bytes@, pos as int),
{
    let _blen = bytes.len();
    let name_length = bytes[pos + 6] as usize;
    let name_offset = bytes[pos + 7] as usize;
    let name = if name_length == 0 {
        String::new()
    } else {
        let start = pos + name_offset;
        let raw = slice_to_vec_range(bytes, start, start + 2 * name_length);
        let units = units_le(raw.as_slice());
        string_from_utf16_lossy(units.as_slice())
    };
    AttributeListEntry {
        attribute_type: AttributeType::from_code(read_u32(bytes, pos).unwrap()),
        name,
        starting_vcn: read_u64(bytes, pos + 8).unwrap(),
        reference: FileReference::from_raw(read_u64(bytes, pos + 16).unwrap()),
        attribute_id: read_u16(bytes, pos + 24).unwrap(),
    }
}

/// Parses the bytes of an attribute list; fails with
/// [`NtfsError::InvalidAttribute`] for a malformed entry.
pub fn parse_attribute_list(record: u64, bytes: &[u8]) -> (r: Result<
    Vec<AttributeListEntry>,
    NtfsError,
>)
    ensures
        match r {
            Ok(v) => entry_offsets(bytes@, 0) matches Some(offs) && v@.len() == offs.len() && (
            forall|i: int| 0 <= i < v@.len() ==> entry_matches(#[trigger] v@[i], bytes@, offs[i])),
            Err(e) => entry_offsets(bytes@, 0) is None && (e matches NtfsError::InvalidAttribute {
                record: r2,
                ..
            } && r2 == record),
        },
{
    let ghost b = bytes@;
    let blen = bytes.len();
    let mut entries: Vec<AttributeListEntry> = Vec::new();
    let mut pos: usize = 0;
    let ghost mut seen: Seq<int> = Seq::empty();
    while pos < blen
        invariant_except_break
            blen == b.len(),
            b == bytes@,
            pos <= blen,
            entries@.len() == seen.len(),
            forall|i: int| 0 <= i < seen.len() ==> entry_matches(#[trigger] entries@[i], b, seen[i]),
            entry_offsets(b, 0) == (match entry_offsets(b, pos as int) {
                Some(rest) => Some(seen + rest),
                None => None::<Seq<int>>,
            }),
        ensures
            entries@.len() == seen.len(),
            forall|i: int| 0 <= i < seen.len() ==> entry_matches(#[trigger] entries@[i], b, seen[i]),
            entry_offsets(b, 0) == Some(seen),
        decreases blen - pos,
    {
        if blen - pos < 26 {
            let mut k = pos;
            while k < blen
                invariant
                    pos <= k <= blen,
                    blen == b.len(),
                    b == bytes@,
                    forall|i: int| pos <= i < k ==> b[i] == 0,
                    blen - pos < 26,
                    entry_offsets(b, 0) == (match entry_offsets(b, pos as int) {
                        Some(rest) => Some(seen + rest),
                        None => None::<Seq<int>>,
                    }),
                decreases blen - k,
            {
                if bytes[k] != 0 {
                    return Err(
                        NtfsError::InvalidAttribute {
                            record,
                            offset: pos,
                            reason: "$ATTRIBUTE_LIST: truncated entry",
                        },
                    );
                }
                k = k + 1;
            }
            assert(seen + Seq::<int>::empty() =~= seen);
            break;
        }
        let type_code = read_u32(bytes, pos).unwrap();
        let length = read_u16(bytes, pos + 4).unwrap() as usize;
        if type_code == 0 && length == 0 {
            assert(seen + Seq::<int>::empty() =~= seen);
            break;
        }
        if length < 26 || length % 8 != 0 {
            return Err(
                NtfsError::InvalidAttribute {
                    record,
                    offset: pos,
                    reason: "$ATTRIBUTE_LIST: entry length invalid",
                },
            );
        }
        if length > blen - pos {
            return Err(
                NtfsError::InvalidAttribute {
                    record,
                    offset: pos,
                    reason: "$ATTRIBUTE_LIST: entry extends beyond the list",
                },
            );
        }
        let end = pos + length;
        let name_length = bytes[pos + 6] as usize;
        let name_offset = bytes[pos + 7] as usize;
        if name_length != 0 && name_offset + 2 * name_length > length {
            return Err(
                NtfsError::InvalidAttribute {
                    record,
                    offset: pos,
                    reason: "$ATTRIBUTE_LIST: name extends beyond entry",
                },
            );
        }
        let entry = decode_entry(bytes, pos);
        proof {
            lemma_offsets_step(b, pos as int, end as int);
            assert(seen.push(pos as int) + entry_offsets(b, end as int)->0 =~= seen + (seq![pos as int]
                + entry_offsets(b, end as int)->0)) by {
                if entry_offsets(b, end as int) is Some {
                }
            }
            seen = seen.push(pos as int);
        }
        entries.push(entry);
        pos = end;
    }
    proof {
        if pos >= blen {
            assert(seen + Seq::<int>::empty() =~= seen);
        }
    }
    Ok(entries)
}

} // verus!
