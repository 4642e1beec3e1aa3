//! Attribute headers, resident and non-resident bodies.

use vstd::prelude::*;

use crate::bytes::{le16, le32, le64, read_u16, read_u32, read_u64};
use crate::ntfs::error::NtfsError;
use crate::text::{hex, push_hex, push_str, string_from_utf16_lossy, units_le, utf16_lossy, utf16_units};

verus! {

/// End-of-attributes marker.
pub const END_MARKER: u32 = 0xFFFF_FFFF;

/// Attribute flag: compressed (compression unit in the non-resident header).
pub const FLAG_COMPRESSED: u16 = 0x0001;

/// Mask of compression-method bits.
pub const FLAG_COMPRESSION_MASK: u16 = 0x00FF;

/// Attribute flag: encrypted (EFS).
pub const FLAG_ENCRYPTED: u16 = 0x4000;

/// Attribute flag: sparse.
pub const FLAG_SPARSE: u16 = 0x8000;

/// NTFS attribute type codes.
#[derive(Debug, Clone, Copy, PartialEq, Eq, Hash, Structural)]
#[non_exhaustive]
pub enum AttributeType {
    /// `$STANDARD_INFORMATION`.
    StandardInformation,
    /// `$ATTRIBUTE_LIST`.
    AttributeList,
    /// `$FILE_NAME`.
    FileName,
    /// `$OBJECT_ID`.
    ObjectId,
    /// `$SECURITY_DESCRIPTOR`.
    SecurityDescriptor,
    /// `$VOLUME_NAME`.
    VolumeName,
    /// `$VOLUME_INFORMATION`.
    VolumeInformation,
    /// `$DATA`.
    Data,
    /// `$INDEX_ROOT`.
    IndexRoot,
    /// `$INDEX_ALLOCATION`.
    IndexAllocation,
    /// `$BITMAP`.
    Bitmap,
    /// `$REPARSE_POINT`.
    ReparsePoint,
    /// `$EA_INFORMATION`.
    EaInformation,
    /// `$EA`.
    Ea,
    /// `$LOGGED_UTILITY_STREAM`.
    LoggedUtilityStream,
    /// Anything else.
    Unknown(u32),
}

/// The attribute type of a type code.
pub open spec fn type_of(code: u32) -> AttributeType {
    if code == 0x10 {
        AttributeType::StandardInformation
    } else if code == 0x20 {
        AttributeType::AttributeList
    } else if code == 0x30 {
        AttributeType::FileName
    } else if code == 0x40 {
        AttributeType::ObjectId
    } else if code == 0x50 {
        AttributeType::SecurityDescriptor
    } else if code == 0x60 {
        AttributeType::VolumeName
    } else if code == 0x70 {
        AttributeType::VolumeInformation
    } else if code == 0x80 {
        AttributeType::Data
    } else if code == 0x90 {
        AttributeType::IndexRoot
    } else if code == 0xA0 {
        AttributeType::IndexAllocation
    } else if code == 0xB0 {
        AttributeType::Bitmap
    } else if code == 0xC0 {
        AttributeType::ReparsePoint
    } else if code == 0xD0 {
        AttributeType::EaInformation
    } else if code == 0xE0 {
        AttributeType::Ea
    } else if code == 0x100 {
        AttributeType::LoggedUtilityStream
    } else {
        AttributeType::Unknown(code)
    }
}

/// The type code of an attribute type.
pub open spec fn code_of(t: AttributeType) -> u32 {
    match t {
        AttributeType::StandardInformation => 0x10,
        AttributeType::AttributeList => 0x20,
        AttributeType::FileName => 0x30,
        AttributeType::ObjectId => 0x40,
        AttributeType::SecurityDescriptor => 0x50,
        AttributeType::VolumeName => 0x60,
        AttributeType::VolumeInformation => 0x70,
        AttributeType::Data => 0x80,
        AttributeType::IndexRoot => 0x90,
        AttributeType::IndexAllocation => 0xA0,
        AttributeType::Bitmap => 0xB0,
        AttributeType::ReparsePoint => 0xC0,
        AttributeType::EaInformation => 0xD0,
        AttributeType::Ea => 0xE0,
        AttributeType::LoggedUtilityStream => 0x100,
        AttributeType::Unknown(c) => c,
    }
}

/// The canonical name of an attribute type.
pub open spec fn name_of(t: AttributeType) -> Seq<char> {
    match t {
        AttributeType::StandardInformation => "$STANDARD_INFORMATION"@,
        AttributeType::AttributeList => "$ATTRIBUTE_LIST"@,
        AttributeType::FileName => "$FILE_NAME"@,
        AttributeType::ObjectId => "$OBJECT_ID"@,
        AttributeType::SecurityDescriptor => "$SECURITY_DESCRIPTOR"@,
        AttributeType::VolumeName => "$VOLUME_NAME"@,
        AttributeType::VolumeInformation => "$VOLUME_INFORMATION"@,
        AttributeType::Data => "$DATA"@,
        AttributeType::IndexRoot => "$INDEX_ROOT"@,
        AttributeType::IndexAllocation => "$INDEX_ALLOCATION"@,
        AttributeType::Bitmap => "$BITMAP"@,
        AttributeType::ReparsePoint => "$REPARSE_POINT"@,
        AttributeType::EaInformation => "$EA_INFORMATION"@,
        AttributeType::Ea => "$EA"@,
        AttributeType::LoggedUtilityStream => "$LOGGED_UTILITY_STREAM"@,
        AttributeType::Unknown(_) => "$UNKNOWN"@,
    }
}

/// The display text of an attribute type: its name, or `$UNKNOWN(0x…)`
/// with the code in lowercase hexadecimal.
pub open spec fn text_of(t: AttributeType) -> Seq<char> {
    match t {
        AttributeType::Unknown(c) => "$UNKNOWN(0x"@ + hex(c as nat) + ")"@,
        _ => name_of(t),
    }
}

impl AttributeType {
    /// Decodes a type code.
    pub fn from_code(code: u32) -> (t: Self)
        ensures
            t == type_of(code),
    {
        match code {
            0x10 => AttributeType::StandardInformation,
            0x20 => AttributeType::AttributeList,
            0x30 => AttributeType::FileName,
            0x40 => AttributeType::ObjectId,
            0x50 => AttributeType::SecurityDescriptor,
            0x60 => AttributeType::VolumeName,
            0x70 => AttributeType::VolumeInformation,
            0x80 => AttributeType::Data,
            0x90 => AttributeType::IndexRoot,
            0xA0 => AttributeType::IndexAllocation,
            0xB0 => AttributeType::Bitmap,
            0xC0 => AttributeType::ReparsePoint,
            0xD0 => AttributeType::EaInformation,
            0xE0 => AttributeType::Ea,
            0x100 => AttributeType::LoggedUtilityStream,
            other => AttributeType::Unknown(other),
        }
    }

    /// The numeric type code.
    pub fn code(&self) -> (c: u32)
        ensures
            c == code_of(*self),
    {
        match self {
            AttributeType::StandardInformation => 0x10,
            AttributeType::AttributeList => 0x20,
            AttributeType::FileName => 0x30,
            AttributeType::ObjectId => 0x40,
            AttributeType::SecurityDescriptor => 0x50,
            AttributeType::VolumeName => 0x60,
            AttributeType::VolumeInformation => 0x70,
            AttributeType::Data => 0x80,
            AttributeType::IndexRoot => 0x90,
            AttributeType::IndexAllocation => 0xA0,
            AttributeType::Bitmap => 0xB0,
            AttributeType::ReparsePoint => 0xC0,
            AttributeType::EaInformation => 0xD0,
            AttributeType::Ea => 0xE0,
            AttributeType::LoggedUtilityStream => 0x100,
            AttributeType::Unknown(c) => *c,
        }
    }

    /// Canonical name (`$DATA`, …; `$UNKNOWN` for other codes).
    pub fn name(&self) -> (n: &'static str)
        ensures
            n@ == name_of(*self),
    {
        match self {
            AttributeType::StandardInformation => "$STANDARD_INFORMATION",
            AttributeType::AttributeList => "$ATTRIBUTE_LIST",
            AttributeType::FileName => "$FILE_NAME",
            AttributeType::ObjectId => "$OBJECT_ID",
            AttributeType::SecurityDescriptor => "$SECURITY_DESCRIPTOR",
            AttributeType::VolumeName => "$VOLUME_NAME",
            AttributeType::VolumeInformation => "$VOLUME_INFORMATION",
            AttributeType::Data => "$DATA",
            AttributeType::IndexRoot => "$INDEX_ROOT",
            AttributeType::IndexAllocation => "$INDEX_ALLOCATION",
            AttributeType::Bitmap => "$BITMAP",
            AttributeType::ReparsePoint => "$REPARSE_POINT",
            AttributeType::EaInformation => "$EA_INFORMATION",
            AttributeType::Ea => "$EA",
            AttributeType::LoggedUtilityStream => "$LOGGED_UTILITY_STREAM",
            AttributeType::Unknown(_) => "$UNKNOWN",
        }
    }

    /// Display text: the canonical name, or `$UNKNOWN(0x…)` with the code
    /// in lowercase hexadecimal.
    pub fn to_text(&self) -> (s: String)
        ensures
            s@ == text_of(*self),
    {
        match self {
            AttributeType::Unknown(c) => {
                let mut s = "$UNKNOWN(0x".to_owned();
                push_hex(&mut s, *c as u64);
                push_str(&mut s, ")");
                s
            },
            other => other.name().to_owned(),
        }
    }
}

/// Common attribute header.
#[derive(Debug, Clone, PartialEq, Eq)]
pub struct AttributeHeader {
    /// Type.
    pub attribute_type: AttributeType,
    /// Total length of the attribute inside the record.
    pub length: u32,
    /// Whether the value is stored outside the record.
    pub non_resident: bool,
    /// Attribute name, or `None` when no name is present.
    pub name: Option<String>,
    /// Raw flags.
    pub flags: u16,
    /// Attribute identifier within the record.
    pub id: u16,
}

impl AttributeHeader {
    /// Whether one of the compression-method bits is set.
    pub fn is_compressed(&self) -> (r: bool)
        ensures
            r == (self.flags & 0x00FF != 0),
    {
        self.flags & FLAG_COMPRESSION_MASK != 0
    }

    /// Whether the encrypted flag is set.
    pub fn is_encrypted(&self) -> (r: bool)
        ensures
            r == (self.flags & 0x4000 != 0),
    {
        self.flags & FLAG_ENCRYPTED != 0
    }

    /// Whether the sparse flag is set.
    pub fn is_sparse(&self) -> (r: bool)
        ensures
            r == (self.flags & 0x8000 != 0),
    {
        self.flags & FLAG_SPARSE != 0
    }
}

/// Non-resident attribute header fields.
#[derive(Debug, Clone, Copy, PartialEq, Eq, Structural)]
pub struct NonResidentHeader {
    /// First VCN covered by this attribute (non-zero in extension records).
    pub starting_vcn: u64,
    /// Last VCN covered.
    pub last_vcn: u64,
    /// Offset of the mapping pairs inside the attribute.
    pub runlist_offset: u16,
    /// Compression unit exponent (0 when not compressed).
    pub compression_unit: u8,
    /// Allocated size in bytes (only valid when `starting_vcn == 0`).
    pub allocated_size: u64,
    /// Real (logical) size in bytes.
    pub real_size: u64,
    /// Initialised size in bytes; data beyond it reads as zero.
    pub initialized_size: u64,
}

/// Attribute body.
#[derive(Debug, Clone, PartialEq, Eq)]
pub enum AttributeBody<'a> {
    /// Value stored inside the record.
    Resident {
        /// The value bytes.
        value: &'a [u8],
        /// Resident flags (bit 0: indexed).
        flags: u8,
    },
    /// Value stored in clusters described by a runlist.
    NonResident {
        /// Header fields.
        header: NonResidentHeader,
        /// Raw mapping pairs (up to the end of the attribute).
        mapping_pairs: &'a [u8],
    },
}

/// One attribute of a FILE record.
#[derive(Debug, Clone, PartialEq, Eq)]
pub struct Attribute<'a> {
    /// Byte offset of the attribute inside the record.
    pub offset: usize,
    /// Header.
    pub header: AttributeHeader,
    /// Body.
    pub body: AttributeBody<'a>,
}

/// Whether the name of an attribute is absent or empty.
pub open spec fn unnamed(name: Option<String>) -> bool {
    match name {
        None => true,
        Some(n) => n@.len() == 0,
    }
}

/// The name text of the attribute at `off`, when it has one.
pub open spec fn attr_name(rec: Seq<u8>, off: int) -> Seq<char> {
    let nl = rec[off + 9] as int;
    let no = le16(rec, off + 10);
    utf16_lossy(utf16_units(rec.subrange(off + no, off + no + 2 * nl)))
}

/// Whether the attribute at `off` of `rec` is well formed within `limit`:
/// a length that is a multiple of 8 and at least 24, inside both the record
/// and `limit`; a name inside the attribute; for a non-resident attribute a
/// 64-byte header, a runlist offset in `64..=length` and a VCN range that
/// does not run backwards (unless unallocated); for a resident one a value
/// at or after offset 24 inside the attribute.
pub open spec fn attr_ok(rec: Seq<u8>, off: int, limit: int) -> bool {
    let length = le32(rec, off + 4);
    let nl = rec[off + 9] as int;
    let no = le16(rec, off + 10);
    &&& off + 8 <= rec.len()
    &&& length >= 24 && length % 8 == 0
    &&& off + length <= limit && off + length <= rec.len()
    &&& nl == 0 || no + 2 * nl <= length
    &&& if rec[off + 8] != 0 {
        let ro = le16(rec, off + 32);
        let start = le64(rec, off + 16);
        let last = le64(rec, off + 24);
        &&& length >= 64
        &&& 64 <= ro <= length
        &&& !(last < start && !(last == 0 && start == 0) && le64(rec, off + 40) != 0)
    } else {
        let vl = le32(rec, off + 16);
        let vo = le16(rec, off + 20);
        vo >= 24 && vo + vl <= length
    }
}

/// Whether `a` is the attribute decoded from offset `off` of `rec`.
pub open spec fn attr_matches(a: Attribute, rec: Seq<u8>, off: int) -> bool {
    let length = le32(rec, off + 4);
    &&& a.offset == off
    &&& a.header.attribute_type == type_of(le32(rec, off) as u32)
    &&& a.header.length == length
    &&& a.header.non_resident == (rec[off + 8] != 0)
    &&& a.header.flags == le16(rec, off + 12)
    &&& a.header.id == le16(rec, off + 14)
    &&& (if rec[off + 9] == 0 {
        a.header.name is None
    } else {
        a.header.name is Some && a.header.name.unwrap()@ == attr_name(rec, off)
    })
    &&& if rec[off + 8] != 0 {
        let ro = le16(rec, off + 32);
        a.body matches AttributeBody::NonResident { header, mapping_pairs } && header
            == NonResidentHeader {
            starting_vcn: le64(rec, off + 16) as u64,
            last_vcn: le64(rec, off + 24) as u64,
            runlist_offset: ro as u16,
            compression_unit: rec[off + 34],
            allocated_size: le64(rec, off + 40) as u64,
            real_size: le64(rec, off + 48) as u64,
            initialized_size: le64(rec, off + 56) as u64,
        } && mapping_pairs@ == rec.subrange(off + ro, off + length)
    } else {
        let vl = le32(rec, off + 16);
        let vo = le16(rec, off + 20);
        a.body matches AttributeBody::Resident { value, flags } && flags == rec[off + 22]
            && value@ == rec.subrange(off + vo, off + vo + vl)
    }
}

impl<'a> Attribute<'a> {
    /// The resident value, if the attribute is resident.
    pub fn resident_value(&self) -> (v: Option<&'a [u8]>)
        ensures
            match self.body {
                AttributeBody::Resident { value, .. } => v == Some(value),
                AttributeBody::NonResident { .. } => v is None,
            },
    {
        match &self.body {
            AttributeBody::Resident { value, .. } => Some(*value),
            AttributeBody::NonResident { .. } => None,
        }
    }

    /// The non-resident header, if the attribute is non-resident.
    pub fn non_resident(&self) -> (h: Option<&NonResidentHeader>)
        ensures
            match self.body {
                AttributeBody::NonResident { header, .. } => h == Some(&header),
                AttributeBody::Resident { .. } => h is None,
            },
    {
        match &self.body {
            AttributeBody::NonResident { header, .. } => Some(header),
            AttributeBody::Resident { .. } => None,
        }
    }

    /// Whether this is the unnamed (default) stream of its type.
    pub fn is_unnamed(&self) -> (r: bool)
        ensures
            r == unnamed(self.header.name),
    {
        match &self.header.name {
            None => true,
            Some(n) => n.as_str().is_empty(),
        }
    }

    /// Parses one attribute at `offset` of `record`.
    ///
    /// Returns `Ok(None)` at the end marker, the attribute when it is well
    /// formed ([`attr_ok`]), and [`NtfsError::InvalidAttribute`] otherwise.
    pub fn parse(record_number: u64, record: &'a [u8], offset: usize, limit: usize) -> (r: Result<
        Option<Self>,
        NtfsError,
    >)
        ensures
            ({
                let rec = record@;
                let off = offset as int;
                match r {
                    Ok(None) => off + 4 <= rec.len() && le32(rec, off) == END_MARKER,
                    Ok(Some(a)) => off + 4 <= rec.len() && le32(rec, off) != END_MARKER && attr_ok(
                        rec,
                        off,
                        limit as int,
                    ) && attr_matches(a, rec, off),
                    Err(NtfsError::InvalidAttribute { record: num, offset: o, .. }) => num
                        == record_number && o == offset && !(off + 4 <= rec.len() && le32(rec, off)
                        == END_MARKER) && !attr_ok(rec, off, limit as int),
                    Err(_) => false,
                }
            }),
    {
        let ghost rec = record@;
        let len = record.len();
        let type_code = match read_u32(record, offset) {
            Some(t) => t,
            None => return Err(
                NtfsError::InvalidAttribute {
                    record: record_number,
                    offset,
                    reason: "truncated before type",
                },
            ),
        };
        if type_code == END_MARKER {
            return Ok(None);
        }
        let length = match read_u32(record, offset + 4) {
            Some(l) => l,
            None => return Err(
                NtfsError::InvalidAttribute {
                    record: record_number,
                    offset,
                    reason: "truncated before length",
                },
            ),
        };
        if length < 24 || length % 8 != 0 {
            return Err(
                NtfsError::InvalidAttribute { record: record_number, offset, reason: "length is invalid" },
            );
        }
        let length_usize = length as usize;
        if length_usize > limit || offset > limit - length_usize || offset + length_usize > len {
            return Err(
                NtfsError::InvalidAttribute {
                    record: record_number,
                    offset,
                    reason: "attribute extends beyond the record",
                },
            );
        }
        let non_resident = record[offset + 8] != 0;
        let name_length = record[offset + 9] as usize;
        let name_offset = read_u16(record, offset + 10).unwrap() as usize;
        let flags = read_u16(record, offset + 12).unwrap();
        let id = read_u16(record, offset + 14).unwrap();
        let name = if name_length == 0 {
            None
        } else {
            if name_offset + 2 * name_length > length_usize {
                return Err(
                    NtfsError::InvalidAttribute {
                        record: record_number,
                        offset,
                        reason: "name extends beyond the attribute",
                    },
                );
            }
            let start = offset + name_offset;
            let raw = slice_to_vec_range(record, start, start + 2 * name_length);
            let units = units_le(raw.as_slice());
            Some(string_from_utf16_lossy(units.as_slice()))
        };
        let header = AttributeHeader {
            attribute_type: AttributeType::from_code(type_code),
            length,
            non_resident,
            name,
            flags,
            id,
        };
        let body = if non_resident {
            if length < 64 {
                return Err(
                    NtfsError::InvalidAttribute {
                        record: record_number,
                        offset,
                        reason: "non-resident attribute shorter than its header",
                    },
                );
            }
            let nr = NonResidentHeader {
                starting_vcn: read_u64(record, offset + 16).unwrap(),
                last_vcn: read_u64(record, offset + 24).unwrap(),
                runlist_offset: read_u16(record, offset + 32).unwrap(),
                compression_unit: record[offset + 34],
                allocated_size: read_u64(record, offset + 40).unwrap(),
                real_size: read_u64(record, offset + 48).unwrap(),
                initialized_size: read_u64(record, offset + 56).unwrap(),
            };
            let ro = nr.runlist_offset as usize;
            if ro < 64 || ro > length_usize {
                return Err(
                    NtfsError::InvalidAttribute {
                        record: record_number,
                        offset,
                        reason: "runlist offset is outside the attribute",
                    },
                );
            }
            if nr.last_vcn < nr.starting_vcn && !(nr.last_vcn == 0 && nr.starting_vcn == 0)
                && nr.allocated_size != 0 {
                return Err(
                    NtfsError::InvalidAttribute {
                        record: record_number,
                        offset,
                        reason: "last VCN precedes starting VCN",
                    },
                );
            }
            let mapping_pairs = vstd::slice::slice_subrange(record, offset + ro, offset + length_usize);
            AttributeBody::NonResident { header: nr, mapping_pairs }
        } else {
            let value_length = read_u32(record, offset + 16).unwrap() as usize;
            let value_offset = read_u16(record, offset + 20).unwrap() as usize;
            let resident_flags = record[offset + 22];
            if value_offset < 24 || value_length > length_usize || value_offset > length_usize
                - value_length {
                return Err(
                    NtfsError::InvalidAttribute {
                        record: record_number,
                        offset,
                        reason: "resident value lies outside the attribute",
                    },
                );
            }
            let value = vstd::slice::slice_subrange(
                record,
                offset + value_offset,
                offset + value_offset + value_length,
            );
            AttributeBody::Resident { value, flags: resident_flags }
        };
        Ok(Some(Attribute { offset, header, body }))
    }
}

/// Copies `bytes[start..end]`.
pub fn slice_to_vec_range(bytes: &[u8], start: usize, end: usize) -> (v: Vec<u8>)
    requires
        start <= end <= bytes@.len(),
    ensures
        v@ == bytes@.subrange(start as int, end as int),
{
    let mut v: Vec<u8> = Vec::new();
    let mut i = start;
    while i < end
        invariant
            start <= i <= end,
            end <= bytes@.len(),
            v@ =~= bytes@.subrange(start as int, i as int),
        decreases end - i,
    {
        v.push(bytes[i]);
        i = i + 1;
    }
    v
}

/// Where attribute iteration over `rec` with limit `limit` must find the
/// four bytes of the end marker: before `limit + 4` and the record end.
pub open spec fn attr_room(rec: Seq<u8>, limit: int) -> int {
    if rec.len() < limit + 4 {
        rec.len() as int
    } else {
        limit + 4
    }
}

/// Whether iteration at `pos` yields the well-formed attribute `a`.
pub open spec fn attr_step(rec: Seq<u8>, pos: int, limit: int, a: Attribute) -> bool {
    &&& pos + 4 <= attr_room(rec, limit)
    &&& le32(rec, pos) != END_MARKER
    &&& attr_ok(rec, pos, limit)
    &&& attr_matches(a, rec, pos)
}

/// The position after the attributes among `items`, starting at `start`.
pub open spec fn walk_end<'a>(start: int, items: Seq<Result<Attribute<'a>, NtfsError>>) -> int
    decreases items.len(),
{
    if items.len() == 0 {
        start
    } else {
        walk_end(start, items.drop_last()) + match items.last() {
            Ok(a) => a.header.length as int,
            Err(_) => 0int,
        }
    }
}

/// Whether `items` are well-formed attributes, one after another from
/// `start`.
pub open spec fn walk_steps<'a>(
    rec: Seq<u8>,
    start: int,
    limit: int,
    items: Seq<Result<Attribute<'a>, NtfsError>>,
) -> bool
    decreases items.len(),
{
    if items.len() == 0 {
        true
    } else {
        &&& walk_steps(rec, start, limit, items.drop_last())
        &&& items.last() matches Ok(a)
        &&& attr_step(rec, walk_end(start, items.drop_last()), limit, a)
    }
}

/// Whether `items` are, in order, all that iterating the attributes of
/// `rec` from `start` with limit `limit` yields: well-formed attributes one
/// after another, then either the end marker or one error, where the end
/// marker does not fit or the attribute there is malformed.
pub open spec fn walked<'a>(
    rec: Seq<u8>,
    start: int,
    limit: int,
    items: Seq<Result<Attribute<'a>, NtfsError>>,
) -> bool {
    if items.len() > 0 && items.last() is Err {
        let pos = walk_end(start, items.drop_last());
        &&& walk_steps(rec, start, limit, items.drop_last())
        &&& if pos + 4 > attr_room(rec, limit) {
            items.last() matches Err(NtfsError::InvalidAttribute { .. })
        } else {
            le32(rec, pos) != END_MARKER && !attr_ok(rec, pos, limit)
        }
    } else {
        let pos = walk_end(start, items);
        &&& walk_steps(rec, start, limit, items)
        &&& pos + 4 <= attr_room(rec, limit)
        &&& le32(rec, pos) == END_MARKER
    }
}

/// Iterator over the attributes of a record.
///
/// A malformed attribute yields one error and then ends the iteration, so
/// that the caller keeps whatever it parsed before the damage.
#[derive(Debug, Clone)]
pub struct AttributeIter<'a> {
    record_number: u64,
    record: &'a [u8],
    pos: usize,
    limit: usize,
    done: bool,
}

impl<'a> AttributeIter<'a> {
    /// The record bytes.
    pub closed spec fn spec_record(&self) -> Seq<u8> {
        self.record@
    }

    /// The position of the next attribute.
    pub closed spec fn spec_pos(&self) -> usize {
        self.pos
    }

    /// The limit attributes must end before.
    pub closed spec fn spec_limit(&self) -> usize {
        self.limit
    }

    /// Whether the iteration has ended.
    pub closed spec fn spec_done(&self) -> bool {
        self.done
    }

    /// The record number reported in errors.
    pub closed spec fn spec_record_number(&self) -> u64 {
        self.record_number
    }

    /// Creates an iterator starting at `first_offset` and stopping at
    /// `limit`.
    pub fn new(record_number: u64, record: &'a [u8], first_offset: usize, limit: usize) -> (it: Self)
        ensures
            it.spec_record() == record@,
            it.spec_pos() == first_offset,
            it.spec_limit() == limit,
            !it.spec_done(),
            it.spec_record_number() == record_number,
    {
        AttributeIter { record_number, record, pos: first_offset, limit, done: false }
    }

    /// The next attribute: `None` after the end marker or an error; an
    /// error (ending the iteration) when the four bytes of the end marker
    /// do not fit before the record end or `limit + 4`, or the attribute is
    /// malformed; otherwise the attribute, the position moving past it.
    pub fn next_attribute(&mut self) -> (r: Option<Result<Attribute<'a>, NtfsError>>)
        ensures
            final(self).spec_record() == old(self).spec_record(),
            final(self).spec_limit() == old(self).spec_limit(),
            final(self).spec_record_number() == old(self).spec_record_number(),
            ({
                let rec = old(self).spec_record();
                let pos = old(self).spec_pos() as int;
                let limit = old(self).spec_limit() as int;
                let room = if rec.len() < limit + 4 {
                    rec.len() as int
                } else {
                    limit + 4
                };
                if old(self).spec_done() {
                    r is None && final(self).spec_done()
                } else if pos + 4 > room {
                    final(self).spec_done() && r matches Some(Err(NtfsError::InvalidAttribute { .. }))
                } else {
                    match r {
                        None => final(self).spec_done() && le32(rec, pos) == END_MARKER,
                        Some(Ok(a)) => !final(self).spec_done() && le32(rec, pos) != END_MARKER
                            && attr_ok(rec, pos, limit) && attr_matches(a, rec, pos)
                            && final(self).spec_pos() == pos + a.header.length,
                        Some(Err(_)) => final(self).spec_done() && !attr_ok(rec, pos, limit)
                            && le32(rec, pos) != END_MARKER,
                    }
                }
            }),
    {
        if self.done {
            return None;
        }
        let len = self.record.len();
        let room = if self.limit > usize::MAX - 4 || len < self.limit + 4 {
            len
        } else {
            self.limit + 4
        };
        if self.pos > room || room - self.pos < 4 {
            self.done = true;
            return Some(
                Err(
                    NtfsError::InvalidAttribute {
                        record: self.record_number,
                        offset: self.pos,
                        reason: "end marker missing",
                    },
                ),
            );
        }
        match Attribute::parse(self.record_number, self.record, self.pos, self.limit) {
            Ok(Some(attr)) => {
                self.pos = self.pos + attr.header.length as usize;
                Some(Ok(attr))
            },
            Ok(None) => {
                self.done = true;
                None
            },
            Err(e) => {
                self.done = true;
                Some(Err(e))
            },
        }
    }
}

} // verus!
