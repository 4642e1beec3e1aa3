//! MFT FILE records.

use vstd::prelude::*;

use crate::bytes::{le16, le32, le64, read_u16, read_u32, read_u64};
use crate::ntfs::attribute::AttributeIter;
use crate::ntfs::error::NtfsError;
use crate::ntfs::fixup::{apply_fixup, first_mismatch, fixup_geometry_ok, restored};
use crate::text::{decimal, push_char, push_decimal};

verus! {

/// Reference to an MFT record: 48-bit record number plus 16-bit sequence.
#[derive(Debug, Clone, Copy, PartialEq, Eq, Hash, Structural)]
pub struct FileReference {
    /// Record number.
    pub record: u64,
    /// Sequence number of the record at the time the reference was made.
    pub sequence: u16,
}

/// `2^48`.
pub const RECORD_SPAN: u64 = 0x1_0000_0000_0000;

impl FileReference {
    /// Decodes the packed 64-bit on-disk form: the low 48 bits are the
    /// record number, the high 16 bits the sequence.
    pub fn from_raw(raw: u64) -> (r: Self)
        ensures
            r.record == raw % 0x1_0000_0000_0000,
            r.sequence == raw / 0x1_0000_0000_0000,
    {
        FileReference { record: raw % RECORD_SPAN, sequence: (raw / RECORD_SPAN) as u16 }
    }

    /// The packed 64-bit form.
    pub fn to_raw(self) -> (r: u64)
        ensures
            r == self.sequence * 0x1_0000_0000_0000 + self.record % 0x1_0000_0000_0000,
    {
        (self.sequence as u64) * RECORD_SPAN + self.record % RECORD_SPAN
    }

    /// Display text `record-sequence`.
    pub fn to_text(&self) -> (s: String)
        ensures
            s@ == decimal(self.record as nat) + seq!['-'] + decimal(self.sequence as nat),
    {
        let mut s = String::new();
        push_decimal(&mut s, self.record);
        push_char(&mut s, '-');
        push_decimal(&mut s, self.sequence as u64);
        s
    }
}

/// Decoding a packed reference and packing it again gives the same 64 bits;
/// packing a reference whose record number fits in 48 bits and decoding it
/// gives the same reference.
pub proof fn lemma_reference_round_trip(raw: u64, r: FileReference)
    ensures
        (raw / 0x1_0000_0000_0000) * 0x1_0000_0000_0000 + (raw % 0x1_0000_0000_0000) % 0x1_0000_0000_0000
            == raw,
        r.record < 0x1_0000_0000_0000 ==> ({
            let packed = r.sequence * 0x1_0000_0000_0000 + r.record % 0x1_0000_0000_0000;
            &&& packed % 0x1_0000_0000_0000 == r.record
            &&& packed / 0x1_0000_0000_0000 == r.sequence
        }),
{
    let m: int = 0x1_0000_0000_0000;
    let x = raw as int;
    vstd::arithmetic::div_mod::lemma_fundamental_div_mod(x, m);
    assert((x % m) % m == x % m) by {
        vstd::arithmetic::div_mod::lemma_mod_twice(x, m);
    }
    assert((x / m) * m == m * (x / m)) by (nonlinear_arith);
    if r.record < m {
        let packed = (r.sequence as int) * m + (r.record as int);
        vstd::arithmetic::div_mod::lemma_fundamental_div_mod_converse_mod(
            packed,
            m,
            r.sequence as int,
            r.record as int,
        );
        vstd::arithmetic::div_mod::lemma_fundamental_div_mod_converse_div(
            packed,
            m,
            r.sequence as int,
            r.record as int,
        );
        assert((r.record as int) % m == r.record as int) by {
            vstd::arithmetic::div_mod::lemma_small_mod(r.record as nat, m as nat);
        }
        assert((r.sequence as int) * m == m * (r.sequence as int)) by (nonlinear_arith);
    }
}

/// Record flag: the record is in use.
pub const FLAG_IN_USE: u16 = 0x0001;

/// Record flag: the record describes a directory.
pub const FLAG_DIRECTORY: u16 = 0x0002;

/// Header of a FILE record (after fixup).
#[derive(Debug, Clone, Copy, PartialEq, Eq, Structural)]
pub struct FileRecordHeader {
    /// `$LogFile` sequence number.
    pub log_sequence_number: u64,
    /// Sequence number; incremented each time the record is reused.
    pub sequence_number: u16,
    /// Hard link count.
    pub hard_link_count: u16,
    /// Offset of the first attribute.
    pub first_attribute_offset: u16,
    /// Raw flags.
    pub flags: u16,
    /// Bytes of the record in use.
    pub used_size: u32,
    /// Allocated size of the record.
    pub allocated_size: u32,
    /// Base record for extension records (zero for base records).
    pub base_reference: FileReference,
    /// Next attribute identifier to assign.
    pub next_attribute_id: u16,
    /// Record number stored in the header (NTFS 3.1+), if present.
    pub stored_record_number: Option<u32>,
}

impl FileRecordHeader {
    /// Whether the record is in use (not deleted).
    pub fn in_use(&self) -> (r: bool)
        ensures
            r == (self.flags & 0x0001 != 0),
    {
        self.flags & FLAG_IN_USE != 0
    }

    /// Whether the record is a directory.
    pub fn is_directory(&self) -> (r: bool)
        ensures
            r == (self.flags & 0x0002 != 0),
    {
        self.flags & FLAG_DIRECTORY != 0
    }

    /// Whether this is a base record rather than an extension.
    pub fn is_base(&self) -> (r: bool)
        ensures
            r == (self.base_reference.record == 0 && self.base_reference.sequence == 0),
    {
        self.base_reference.record == 0 && self.base_reference.sequence == 0
    }
}

/// A fixed-up FILE record ready for attribute parsing.
#[derive(Debug, Clone)]
pub struct FileRecord {
    number: u64,
    header: FileRecordHeader,
    data: Vec<u8>,
}

/// Whether `s` starts with the `FILE` signature.
pub open spec fn file_signature(s: Seq<u8>) -> bool {
    s.len() >= 4 && s[0] == 0x46 && s[1] == 0x49 && s[2] == 0x4C && s[3] == 0x45
}

/// The header decoded from the fixed-up record `d`.
pub open spec fn header_of(d: Seq<u8>) -> FileRecordHeader {
    FileRecordHeader {
        log_sequence_number: le64(d, 8) as u64,
        sequence_number: le16(d, 0x10) as u16,
        hard_link_count: le16(d, 0x12) as u16,
        first_attribute_offset: le16(d, 0x14) as u16,
        flags: le16(d, 0x16) as u16,
        used_size: le32(d, 0x18) as u32,
        allocated_size: le32(d, 0x1C) as u32,
        base_reference: FileReference {
            record: (le64(d, 0x20) % 0x1_0000_0000_0000) as u64,
            sequence: (le64(d, 0x20) / 0x1_0000_0000_0000) as u16,
        },
        next_attribute_id: le16(d, 0x28) as u16,
        stored_record_number: if le16(d, 4) >= 0x30 {
            Some(le32(d, 0x2C) as u32)
        } else {
            None
        },
    }
}

/// Whether the header of the fixed-up record `d` is consistent: the used
/// size fits the record and covers the header, the first attribute follows
/// the update sequence array, and a stored record number equals `number`.
pub open spec fn header_consistent(d: Seq<u8>, number: u64) -> bool {
    let h = header_of(d);
    &&& d.len() <= u32::MAX
    &&& h.used_size <= d.len()
    &&& h.used_size >= h.first_attribute_offset
    &&& h.first_attribute_offset >= le16(d, 4) + 2 * le16(d, 6)
    &&& h.stored_record_number matches Some(n) ==> n == number
}

impl FileRecord {
    /// MFT record number.
    pub closed spec fn spec_number(&self) -> u64 {
        self.number
    }

    /// The header.
    pub closed spec fn spec_header(&self) -> FileRecordHeader {
        self.header
    }

    /// The fixed-up bytes.
    pub closed spec fn spec_data(&self) -> Seq<u8> {
        self.data@
    }

    /// Parses a raw record as read from the MFT: the signature must be
    /// `FILE`, the update sequence fixup must succeed (with `stride`, the
    /// volume's bytes-per-sector) and the header must be consistent
    /// ([`header_consistent`]).
    ///
    /// Fails with [`NtfsError::FixupMismatch`] when a sector tail does not
    /// carry the USN, and with [`NtfsError::InvalidRecord`] for every other
    /// defect.
    pub fn parse(number: u64, data: Vec<u8>, stride: usize) -> (r: Result<Self, NtfsError>)
        ensures
            ({
                let d = data@;
                let uo = le16(d, 4);
                let uc = le16(d, 6);
                let n = (d.len() as int) / (stride as int);
                let fixed = restored(d, uo, stride as int, n);
                match r {
                    Ok(rec) => file_signature(d) && d.len() >= 8 && fixup_geometry_ok(
                        d.len() as int,
                        uo,
                        uc,
                        stride as int,
                    ) && first_mismatch(d, uo, stride as int, 0, n) == n && rec.spec_data() == fixed
                        && header_consistent(fixed, number) && rec.spec_header() == header_of(fixed)
                        && rec.spec_number() == number,
                    Err(NtfsError::FixupMismatch { record, .. }) => record == number && file_signature(d)
                        && fixup_geometry_ok(d.len() as int, uo, uc, stride as int) && first_mismatch(
                        d,
                        uo,
                        stride as int,
                        0,
                        n,
                    ) < n,
                    Err(NtfsError::InvalidRecord { record, .. }) => record == number && !(file_signature(
                        d,
                    ) && d.len() >= 8 && fixup_geometry_ok(d.len() as int, uo, uc, stride as int)
                        && first_mismatch(d, uo, stride as int, 0, n) == n && header_consistent(
                        fixed,
                        number,
                    )),
                    Err(_) => false,
                }
            }),
    {
        let ghost d0 = data@;
        let mut data = data;
        if data.len() < 4 {
            return Err(NtfsError::InvalidRecord { record: number, reason: "record shorter than a header" });
        }
        if !(data[0] == 0x46 && data[1] == 0x49 && data[2] == 0x4C && data[3] == 0x45) {
            return Err(NtfsError::InvalidRecord { record: number, reason: "bad signature" });
        }
        let usa_offset = match read_u16(data.as_slice(), 4) {
            Some(v) => v,
            None => return Err(NtfsError::InvalidRecord { record: number, reason: "truncated" }),
        };
        let usa_count = match read_u16(data.as_slice(), 6) {
            Some(v) => v,
            None => return Err(NtfsError::InvalidRecord { record: number, reason: "truncated" }),
        };
        let fix = apply_fixup(data.as_mut_slice(), usa_offset, usa_count, stride, number);
        match fix {
            Ok(_) => {},
            Err(e) => return Err(e),
        }
        let ghost fixed = data@;
        proof {
            assert(stride >= 4);
            let nn = (d0.len() as int) / (stride as int);
            assert(nn * stride <= d0.len()) by (nonlinear_arith)
                requires
                    nn == (d0.len() as int) / (stride as int),
                    stride >= 4,
            ;
            lemma_restored_keeps_header(d0, usa_offset as int, stride as int, (d0.len() as int) / (stride as int));
        }
        let len = data.len();
        let ds = data.as_slice();
        let header = FileRecordHeader {
            log_sequence_number: read_u64(ds, 8).unwrap(),
            sequence_number: read_u16(ds, 0x10).unwrap(),
            hard_link_count: read_u16(ds, 0x12).unwrap(),
            first_attribute_offset: read_u16(ds, 0x14).unwrap(),
            flags: read_u16(ds, 0x16).unwrap(),
            used_size: read_u32(ds, 0x18).unwrap(),
            allocated_size: read_u32(ds, 0x1C).unwrap(),
            base_reference: FileReference::from_raw(read_u64(ds, 0x20).unwrap()),
            next_attribute_id: read_u16(ds, 0x28).unwrap(),
            stored_record_number: if usa_offset >= 0x30 {
                read_u32(ds, 0x2C)
            } else {
                None
            },
        };
        assert(header == header_of(fixed));
        if len > u32::MAX as usize {
            return Err(NtfsError::InvalidRecord { record: number, reason: "record too large" });
        }
        if header.used_size as usize > len || header.used_size < header.first_attribute_offset as u32 {
            return Err(
                NtfsError::InvalidRecord {
                    record: number,
                    reason: "used size is inconsistent with record size",
                },
            );
        }
        if (header.first_attribute_offset as usize) < usa_offset as usize + 2 * usa_count as usize {
            return Err(
                NtfsError::InvalidRecord {
                    record: number,
                    reason: "first attribute overlaps the update sequence array",
                },
            );
        }
        match header.stored_record_number {
            Some(stored) => {
                if stored as u64 != number {
                    return Err(
                        NtfsError::InvalidRecord {
                            record: number,
                            reason: "header record number does not match position",
                        },
                    );
                }
            },
            None => {},
        }
        Ok(FileRecord { number, header, data })
    }

    /// MFT record number.
    pub fn number(&self) -> (n: u64)
        ensures
            n == self.spec_number(),
    {
        self.number
    }

    /// The header.
    pub fn header(&self) -> (h: &FileRecordHeader)
        ensures
            *h == self.spec_header(),
    {
        &self.header
    }

    /// Reference to this record (number plus current sequence).
    pub fn reference(&self) -> (r: FileReference)
        ensures
            r == (FileReference { record: self.spec_number(), sequence: self.spec_header().sequence_number }),
    {
        FileReference { record: self.number, sequence: self.header.sequence_number }
    }

    /// The fixed-up bytes.
    pub fn data(&self) -> (d: &[u8])
        ensures
            d@ == self.spec_data(),
    {
        self.data.as_slice()
    }

    /// Iterates the attributes from the first attribute offset up to the
    /// used size.
    pub fn attributes(&self) -> (it: AttributeIter<'_>)
        ensures
            it.spec_record() == self.spec_data(),
            it.spec_pos() == self.spec_header().first_attribute_offset,
            it.spec_limit() == self.spec_header().used_size,
            !it.spec_done(),
            it.spec_record_number() == self.spec_number(),
    {
        AttributeIter::new(
            self.number,
            self.data.as_slice(),
            self.header.first_attribute_offset as usize,
            self.header.used_size as usize,
        )
    }
}

/// The fixup leaves the first eight bytes (signature and array position)
/// unchanged.
proof fn lemma_restored_keeps_header(old: Seq<u8>, usa_offset: int, stride: int, k: int)
    requires
        stride >= 4,
        k * stride <= old.len(),
        old.len() >= 8,
        usa_offset + 2 * (k + 1) <= stride,
        usa_offset >= 0x2A,
        k >= 0,
    ensures
        restored(old, usa_offset, stride, k).len() == old.len(),
        forall|j: int| 0 <= j < 8 ==> #[trigger] restored(old, usa_offset, stride, k)[j] == old[j],
    decreases k,
{
    if k > 0 {
        assert((k - 1) * stride <= old.len() && crate::ntfs::fixup::tail(k - 1, stride) >= stride - 2
            && crate::ntfs::fixup::tail(k - 1, stride) + 1 < old.len()) by (nonlinear_arith)
            requires
                k * stride <= old.len(),
                k > 0,
                stride >= 4,
        ;
        lemma_restored_keeps_header(old, usa_offset, stride, k - 1);
    }
}

} // verus!
