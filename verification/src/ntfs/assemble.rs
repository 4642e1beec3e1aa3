//! Assembly of a logical file from one base record and its extensions.
//!
//! Records are read one after another; what each attribute contributes to
//! the file, and how the pieces of a non-resident stream are merged at the
//! end, are decided here.

use vstd::prelude::*;

use crate::ntfs::attribute::{unnamed, walk_end, walk_steps, walked, Attribute, AttributeBody, AttributeType};
use crate::ntfs::data::{DataStorage, DataStreamDescriptor};
use crate::ntfs::diagnostic::NtfsDiagnostic;
use crate::ntfs::error::{error_text, NtfsError};
use crate::ntfs::filename::{file_name_matches, file_name_ok, FileNameAttribute};
use crate::ntfs::record::{FileRecord, FileReference};
use crate::ntfs::runlist::{decode_runlist, runs_from, NtfsRun};
use crate::ntfs::standard_information::{si_of, StandardInformation};

verus! {

/// A non-resident `$DATA` piece before merging.
#[derive(Debug, Clone, PartialEq, Eq)]
pub struct DataPiece {
    /// Stream name, empty for the unnamed stream.
    pub key: String,
    /// First VCN held by the piece.
    pub starting_vcn: u64,
    /// Decoded runs (empty when the runlist was invalid).
    pub runs: Vec<NtfsRun>,
    /// Real size recorded in the piece.
    pub real_size: u64,
    /// Initialized size recorded in the piece.
    pub initialized_size: u64,
    /// Allocated size recorded in the piece.
    pub allocated_size: u64,
    /// Last VCN held by the piece.
    pub last_vcn: u64,
    /// Attribute flags.
    pub flags: u16,
    /// Compression unit.
    pub compression_unit: u8,
    /// Why the runlist could not be decoded, if it could not.
    pub runlist_error: Option<NtfsError>,
}

/// An `$ATTRIBUTE_LIST` waiting to be read.
#[derive(Debug, Clone, PartialEq, Eq)]
pub enum PendingList {
    /// The list bytes, resident in the record.
    Resident(Vec<u8>),
    /// The list's runs and length.
    NonResident(Vec<NtfsRun>, u64),
}

/// The file being assembled.
#[derive(Debug, Clone)]
pub struct FileBuilder {
    /// Base record reference.
    pub reference: FileReference,
    /// Whether the base record is in use.
    pub in_use: bool,
    /// Whether the record describes a directory.
    pub directory: bool,
    /// Whether the record is a base record.
    pub is_base: bool,
    /// Hard link count.
    pub hard_link_count: u16,
    /// Cluster size of the volume.
    pub cluster_size: u32,
    /// Clusters of the volume.
    pub total_clusters: u64,
    /// Distinct `$FILE_NAME` attributes, in order of appearance.
    pub names: Vec<FileNameAttribute>,
    /// Resident `$DATA` streams.
    pub resident_streams: Vec<DataStreamDescriptor>,
    /// Non-resident `$DATA` pieces, in order of appearance.
    pub pieces: Vec<DataPiece>,
    /// `$STANDARD_INFORMATION`, the first one found.
    pub standard_information: Option<StandardInformation>,
    /// The `$ATTRIBUTE_LIST`, the first one found, until it is read.
    pub attribute_list: Option<PendingList>,
    /// Whether the record carries an `$ATTRIBUTE_LIST`.
    pub has_attribute_list: bool,
    /// Extension records that contributed attributes.
    pub extension_records: Vec<u64>,
    /// Findings.
    pub diagnostics: Vec<NtfsDiagnostic>,
}

/// Whether two `$FILE_NAME` attributes are equal (names by their text).
pub open spec fn same_file_name(a: FileNameAttribute, b: FileNameAttribute) -> bool {
    &&& a.parent == b.parent
    &&& a.name@ == b.name@
    &&& a.namespace == b.namespace
    &&& a.created == b.created
    &&& a.modified == b.modified
    &&& a.mft_modified == b.mft_modified
    &&& a.accessed == b.accessed
    &&& a.allocated_size == b.allocated_size
    &&& a.real_size == b.real_size
    &&& a.flags == b.flags
    &&& a.reparse_value == b.reparse_value
    &&& a.name_invalid_utf16 == b.name_invalid_utf16
}

/// The name under which a `$DATA` attribute named `name` is kept: its name
/// when not empty.
pub open spec fn stream_key(name: Option<String>) -> Seq<char> {
    match name {
        Some(n) => n@,
        None => Seq::empty(),
    }
}

/// Whether a resident stream is already kept under the name `key`.
pub open spec fn has_resident(streams: Seq<DataStreamDescriptor>, key: Seq<char>) -> bool {
    exists|i: int| 0 <= i < streams.len() && #[trigger] stream_key(streams[i].name) == key
}

/// Whether a non-resident piece is kept under `key` (with `vcn` as its
/// first VCN, when given).
pub open spec fn has_piece(pieces: Seq<DataPiece>, key: Seq<char>, vcn: Option<u64>) -> bool {
    exists|i: int|
        0 <= i < pieces.len() && #[trigger] pieces[i].key@ == key && match vcn {
            Some(v) => pieces[i].starting_vcn == v,
            None => true,
        }
}

/// Whether `d` reports a malformed attribute at `offset`.
pub open spec fn attribute_error_at(d: NtfsDiagnostic, offset: usize) -> bool {
    d matches NtfsDiagnostic::AttributeError { offset: o, .. } && o == offset
}

/// Whether only the fields of the builder that `consume_attribute` may
/// change in one branch differ (the rest stays as it was).
pub open spec fn same_frame(a: FileBuilder, b: FileBuilder) -> bool {
    &&& a.reference == b.reference
    &&& a.in_use == b.in_use
    &&& a.directory == b.directory
    &&& a.is_base == b.is_base
    &&& a.hard_link_count == b.hard_link_count
    &&& a.cluster_size == b.cluster_size
    &&& a.total_clusters == b.total_clusters
    &&& a.has_attribute_list == b.has_attribute_list
    &&& a.extension_records@ == b.extension_records@
}

/// A copy of the bytes `v`.
pub(crate) fn copy_bytes(v: &[u8]) -> (r: Vec<u8>)
    ensures
        r@ == v@,
{
    crate::ntfs::attribute::slice_to_vec_range(v, 0, v.len())
}

fn key_of(name: &Option<String>) -> (k: String)
    ensures
        k@ == stream_key(*name),
{
    match name {
        Some(n) => n.clone(),
        None => String::new(),
    }
}

fn copy_name(name: &Option<String>) -> (r: Option<String>)
    ensures
        match (r, *name) {
            (Some(a), Some(b)) => a@ == b@,
            (None, None) => true,
            _ => false,
        },
{
    match name {
        Some(n) => Some(n.clone()),
        None => None,
    }
}

/// Whether the builder `b1` is `b0` after taking what the attribute `attr`
/// of record `record_number` contributes (see
/// [`FileBuilder::consume_attribute`]).
pub open spec fn consumed(b0: FileBuilder, b1: FileBuilder, record_number: u64, attr: Attribute) -> bool {
    &&& same_frame(b1, b0)
    &&& match attr.header.attribute_type {
        AttributeType::StandardInformation => {
            &&& b1.names@ =~= b0.names@
            &&& b1.resident_streams@ =~= b0.resident_streams@
            &&& b1.pieces@ =~= b0.pieces@
            &&& b1.attribute_list == b0.attribute_list
            &&& match (attr.body, b0.standard_information) {
                (AttributeBody::Resident { value, .. }, None) => if value@.len() >= 36 {
                    b1.standard_information == Some(si_of(value@))
                        && b1.diagnostics@ =~= b0.diagnostics@
                } else {
                    b1.standard_information is None && b1.diagnostics@.len()
                        == b0.diagnostics@.len() + 1 && b1.diagnostics@.drop_last()
                        =~= b0.diagnostics@ && attribute_error_at(
                        b1.diagnostics@.last(),
                        attr.offset,
                    )
                },
                _ => b1.standard_information == b0.standard_information
                    && b1.diagnostics@ =~= b0.diagnostics@,
            }
        },
        AttributeType::FileName => {
            &&& b1.resident_streams@ =~= b0.resident_streams@
            &&& b1.pieces@ =~= b0.pieces@
            &&& b1.standard_information == b0.standard_information
            &&& b1.attribute_list == b0.attribute_list
            &&& match attr.body {
                AttributeBody::Resident { value, .. } => if file_name_ok(value@) {
                    exists|f: FileNameAttribute|
                        #[trigger] file_name_matches(f, value@) && (if exists|i: int|
                            0 <= i < b0.names@.len() && #[trigger] same_file_name(
                                b0.names@[i],
                                f,
                            ) {
                            b1.names@ =~= b0.names@
                        } else {
                            b1.names@.len() == b0.names@.len() + 1
                                && b1.names@.drop_last() =~= b0.names@
                                && same_file_name(b1.names@.last(), f)
                        }) && b1.diagnostics@ =~= (if f.name_invalid_utf16 {
                            b0.diagnostics@.push(NtfsDiagnostic::NameInvalidUtf16)
                        } else {
                            b0.diagnostics@
                        })
                } else {
                    b1.names@ =~= b0.names@ && b1.diagnostics@.len()
                        == b0.diagnostics@.len() + 1 && b1.diagnostics@.drop_last()
                        =~= b0.diagnostics@ && attribute_error_at(
                        b1.diagnostics@.last(),
                        attr.offset,
                    )
                },
                AttributeBody::NonResident { .. } => b1.names@ =~= b0.names@
                    && b1.diagnostics@ =~= b0.diagnostics@,
            }
        },
        AttributeType::AttributeList => {
            &&& b1.names@ =~= b0.names@
            &&& b1.resident_streams@ =~= b0.resident_streams@
            &&& b1.pieces@ =~= b0.pieces@
            &&& b1.standard_information == b0.standard_information
            &&& if b0.attribute_list is Some {
                b1.attribute_list == b0.attribute_list
                    && b1.diagnostics@ =~= b0.diagnostics@
            } else {
                match attr.body {
                    AttributeBody::Resident { value, .. } => (b1.attribute_list
                        matches Some(PendingList::Resident(v)) && v@ =~= value@)
                        && b1.diagnostics@ =~= b0.diagnostics@,
                    AttributeBody::NonResident { header, mapping_pairs } => match runs_from(
                        mapping_pairs@,
                        0,
                        header.starting_vcn as int,
                        0,
                        b0.total_clusters as int,
                    ) {
                        Some(runs) => (b1.attribute_list matches Some(
                            PendingList::NonResident(r, len),
                        ) && r@ =~= runs && len == header.real_size)
                            && b1.diagnostics@ =~= b0.diagnostics@,
                        None => b1.attribute_list is None
                            && b1.diagnostics@.len() == b0.diagnostics@.len() + 1
                            && b1.diagnostics@.drop_last() =~= b0.diagnostics@
                            && b1.diagnostics@.last() is AttributeListIncomplete,
                    },
                }
            }
        },
        AttributeType::Data => {
            &&& b1.names@ =~= b0.names@
            &&& b1.standard_information == b0.standard_information
            &&& b1.attribute_list == b0.attribute_list
            &&& b1.diagnostics@ =~= b0.diagnostics@
            &&& match attr.body {
                AttributeBody::Resident { value, .. } => {
                    &&& b1.pieces@ =~= b0.pieces@
                    &&& if has_resident(
                        b0.resident_streams@,
                        stream_key(attr.header.name),
                    ) || has_piece(b0.pieces@, stream_key(attr.header.name), None) {
                        b1.resident_streams@ =~= b0.resident_streams@
                    } else {
                        let s = b1.resident_streams@.last();
                        &&& b1.resident_streams@.len() == b0.resident_streams@.len() + 1
                        &&& b1.resident_streams@.drop_last() =~= b0.resident_streams@
                        &&& stream_key(s.name) =~= stream_key(attr.header.name)
                        &&& (s.name is None <==> unnamed(attr.header.name))
                        &&& s.logical_size == value@.len()
                        &&& (s.storage matches DataStorage::Resident { value: v } && v@ =~= value@)
                        &&& s.flags == attr.header.flags
                    }
                },
                AttributeBody::NonResident { header, mapping_pairs } => {
                    &&& b1.resident_streams@ =~= b0.resident_streams@
                    &&& if has_piece(
                        b0.pieces@,
                        stream_key(attr.header.name),
                        Some(header.starting_vcn),
                    ) {
                        b1.pieces@ =~= b0.pieces@
                    } else {
                        let p = b1.pieces@.last();
                        let decoded = runs_from(
                            mapping_pairs@,
                            0,
                            header.starting_vcn as int,
                            0,
                            b0.total_clusters as int,
                        );
                        &&& b1.pieces@.len() == b0.pieces@.len() + 1
                        &&& b1.pieces@.drop_last() =~= b0.pieces@
                        &&& p.key@ =~= stream_key(attr.header.name)
                        &&& p.starting_vcn == header.starting_vcn
                        &&& p.real_size == header.real_size
                        &&& p.initialized_size == header.initialized_size
                        &&& p.allocated_size == header.allocated_size
                        &&& p.last_vcn == header.last_vcn
                        &&& p.flags == attr.header.flags
                        &&& p.compression_unit == header.compression_unit
                        &&& match decoded {
                            Some(runs) => p.runs@ =~= runs && p.runlist_error is None,
                            None => p.runs@.len() == 0 && (p.runlist_error matches Some(e)
                                && e is InvalidRunlist),
                        }
                    }
                },
            }
        },
        AttributeType::Unknown(code) => {
            &&& b1.names@ =~= b0.names@
            &&& b1.resident_streams@ =~= b0.resident_streams@
            &&& b1.pieces@ =~= b0.pieces@
            &&& b1.standard_information == b0.standard_information
            &&& b1.attribute_list == b0.attribute_list
            &&& b1.diagnostics@ =~= b0.diagnostics@.push(
                NtfsDiagnostic::UnknownAttribute { code },
            )
        },
        _ => {
            &&& b1.names@ =~= b0.names@
            &&& b1.resident_streams@ =~= b0.resident_streams@
            &&& b1.pieces@ =~= b0.pieces@
            &&& b1.standard_information == b0.standard_information
            &&& b1.attribute_list == b0.attribute_list
            &&& b1.diagnostics@ =~= b0.diagnostics@
        },
    }
}

/// Whether the builder `b1` is `b0` with the malformed attribute `e` noted
/// (see [`FileBuilder::attribute_failed`]).
pub open spec fn failed(b0: FileBuilder, b1: FileBuilder, e: NtfsError) -> bool {
    &&& b1.diagnostics@.len() == b0.diagnostics@.len() + 1
    &&& b1.diagnostics@.drop_last() =~= b0.diagnostics@
    &&& (b1.diagnostics@.last() matches NtfsDiagnostic::AttributeError { offset, reason }
        && offset == (match e {
        NtfsError::InvalidAttribute { offset, .. } => offset,
        _ => 0,
    }) && reason@ =~= error_text(e))
    &&& same_frame(b1, b0)
    &&& b1.names@ =~= b0.names@
    &&& b1.resident_streams@ =~= b0.resident_streams@
    &&& b1.pieces@ =~= b0.pieces@
    &&& b1.standard_information == b0.standard_information
    &&& b1.attribute_list == b0.attribute_list
}

/// Whether the builders `steps` lead from one to the next through `items`:
/// each attribute taken, each error noted.
pub open spec fn consumed_items<'a>(
    steps: Seq<FileBuilder>,
    items: Seq<Result<Attribute<'a>, NtfsError>>,
    record_number: u64,
) -> bool {
    &&& steps.len() == items.len() + 1
    &&& forall|i: int|
        #![trigger items[i]]
        0 <= i < items.len() ==> match items[i] {
            Ok(a) => consumed(steps[i], steps[i + 1], record_number, a),
            Err(e) => failed(steps[i], steps[i + 1], e),
        }
}

/// Whether `b1` is `b0` after taking, in order, every attribute of
/// `record`: `items` is what iterating them yields, `steps` the builders
/// from `b0` to `b1`.
pub open spec fn record_consumed<'a>(
    b0: FileBuilder,
    b1: FileBuilder,
    record: FileRecord,
    items: Seq<Result<Attribute<'a>, NtfsError>>,
    steps: Seq<FileBuilder>,
) -> bool {
    &&& walked(
        record.spec_data(),
        record.spec_header().first_attribute_offset as int,
        record.spec_header().used_size as int,
        items,
    )
    &&& consumed_items(steps, items, record.spec_number())
    &&& steps[0] == b0
    &&& steps.last() == b1
}

impl FileBuilder {
    /// A builder for the file whose base record has the given header facts.
    pub fn new(
        reference: FileReference,
        in_use: bool,
        directory: bool,
        is_base: bool,
        hard_link_count: u16,
        cluster_size: u32,
        total_clusters: u64,
    ) -> (b: Self)
        ensures
            b.reference == reference && b.in_use == in_use && b.directory == directory
                && b.is_base == is_base && b.hard_link_count == hard_link_count,
            b.cluster_size == cluster_size && b.total_clusters == total_clusters,
            b.names@.len() == 0 && b.resident_streams@.len() == 0 && b.pieces@.len() == 0,
            b.standard_information is None && b.attribute_list is None && !b.has_attribute_list,
            b.extension_records@.len() == 0 && b.diagnostics@.len() == 0,
    {
        FileBuilder {
            reference,
            in_use,
            directory,
            is_base,
            hard_link_count,
            cluster_size,
            total_clusters,
            names: Vec::new(),
            resident_streams: Vec::new(),
            pieces: Vec::new(),
            standard_information: None,
            attribute_list: None,
            has_attribute_list: false,
            extension_records: Vec::new(),
            diagnostics: Vec::new(),
        }
    }

    /// Takes every attribute of `record` in order; a malformed attribute is
    /// noted and ends the record.
    pub fn consume_record<'r>(&mut self, record: &'r FileRecord)
        ensures
            exists|items: Seq<Result<Attribute<'r>, NtfsError>>, steps: Seq<FileBuilder>|
                #[trigger] record_consumed(*old(self), *final(self), *record, items, steps),
    {
        let mut it = record.attributes();
        let ghost rec = record.spec_data();
        let ghost start = record.spec_header().first_attribute_offset as int;
        let ghost limit = record.spec_header().used_size as int;
        let ghost b0 = *self;
        let ghost mut items: Seq<Result<Attribute<'r>, NtfsError>> = Seq::empty();
        let ghost mut steps: Seq<FileBuilder> = seq![*self];
        let number = record.number();
        loop
            invariant_except_break
                !it.spec_done(),
                it.spec_pos() == walk_end(start, items),
                walk_steps(rec, start, limit, items),
            invariant
                it.spec_record() == rec,
                it.spec_limit() as int == limit,
                it.spec_record_number() == record.spec_number(),
                number == record.spec_number(),
                rec == record.spec_data(),
                start == record.spec_header().first_attribute_offset as int,
                limit == record.spec_header().used_size as int,
                consumed_items(steps, items, record.spec_number()),
                steps[0] == b0,
                steps.last() == *self,
            ensures
                walked(rec, start, limit, items),
            decreases (if it.spec_pos() <= rec.len() {
                rec.len() - it.spec_pos()
            } else {
                0
            }),
        {
            let ghost pre = *self;
            let ghost pos = it.spec_pos() as int;
            match it.next_attribute() {
                None => {
                    break;
                },
                Some(Ok(a)) => {
                    self.consume_attribute(number, &a);
                    proof {
                        let ni = items.push(Ok(a));
                        let ns = steps.push(*self);
                        assert(ni.drop_last() =~= items);
                        assert forall|i: int| 0 <= i < ni.len() implies match #[trigger] ni[i] {
                            Ok(x) => consumed(ns[i], ns[i + 1], record.spec_number(), x),
                            Err(e) => failed(ns[i], ns[i + 1], e),
                        } by {
                            if i < items.len() {
                                assert(ni[i] == items[i]);
                                assert(ns[i] == steps[i]);
                                assert(ns[i + 1] == steps[i + 1]);
                            }
                        }
                        items = ni;
                        steps = ns;
                    }
                },
                Some(Err(e)) => {
                    self.attribute_failed(&e);
                    proof {
                        let ni = items.push(Err(e));
                        let ns = steps.push(*self);
                        assert(ni.drop_last() =~= items);
                        assert forall|i: int| 0 <= i < ni.len() implies match #[trigger] ni[i] {
                            Ok(x) => consumed(ns[i], ns[i + 1], record.spec_number(), x),
                            Err(e) => failed(ns[i], ns[i + 1], e),
                        } by {
                            if i < items.len() {
                                assert(ni[i] == items[i]);
                                assert(ns[i] == steps[i]);
                                assert(ns[i + 1] == steps[i + 1]);
                            }
                        }
                        items = ni;
                        steps = ns;
                    }
                    break;
                },
            }
        }
        proof {
            assert(record_consumed(b0, *self, *record, items, steps));
        }
    }

    /// Records an attribute that could not be parsed: its offset (when the
    /// error names one) and the error's message.
    pub fn attribute_failed(&mut self, e: &NtfsError)
        ensures
            failed(*old(self), *final(self), *e),
    {
        let offset = match e {
            NtfsError::InvalidAttribute { offset, .. } => *offset,
            _ => 0,
        };
        self.diagnostics.push(NtfsDiagnostic::AttributeError { offset, reason: e.to_text() });
    }

    /// Takes what one attribute of record `record_number` contributes:
    ///
    /// * the first `$STANDARD_INFORMATION` (resident);
    /// * every distinct resident `$FILE_NAME`, noting names that were not
    ///   valid UTF-16;
    /// * the first `$ATTRIBUTE_LIST` (its bytes, or its runs and length);
    /// * a resident `$DATA` stream whose name is not yet kept, or a
    ///   non-resident piece not yet kept for its name and first VCN;
    /// * a note for each attribute type that is not interpreted.
    ///
    /// Values that do not parse become diagnostics.
    pub fn consume_attribute(&mut self, record_number: u64, attr: &Attribute)
        ensures
            consumed(*old(self), *final(self), record_number, *attr),
    {
        match attr.header.attribute_type {
            AttributeType::StandardInformation => {
                if let AttributeBody::Resident { value, .. } = &attr.body {
                    if self.standard_information.is_none() {
                        match StandardInformation::parse(record_number, attr.offset, value) {
                            Ok(si) => self.standard_information = Some(si),
                            Err(e) => self.diagnostics.push(
                                NtfsDiagnostic::AttributeError {
                                    offset: attr.offset,
                                    reason: e.to_text(),
                                },
                            ),
                        }
                    }
                }
            },
            AttributeType::FileName => {
                if let AttributeBody::Resident { value, .. } = &attr.body {
                    match FileNameAttribute::parse(record_number, attr.offset, value) {
                        Ok(fnm) => {
                            if fnm.name_invalid_utf16 {
                                self.diagnostics.push(NtfsDiagnostic::NameInvalidUtf16);
                            }
                            let seen = self.knows_name(&fnm);
                            if !seen {
                                self.names.push(fnm);
                            }
                            proof {
                                assert(file_name_matches(fnm, value@));
                                if !seen {
                                    assert(same_file_name(self.names@.last(), fnm));
                                }
                            }
                        },
                        Err(e) => self.diagnostics.push(
                            NtfsDiagnostic::AttributeError { offset: attr.offset, reason: e.to_text() },
                        ),
                    }
                }
            },
            AttributeType::AttributeList => {
                if self.attribute_list.is_none() {
                    match &attr.body {
                        AttributeBody::Resident { value, .. } => {
                            self.attribute_list = Some(PendingList::Resident(copy_bytes(value)));
                        },
                        AttributeBody::NonResident { header, mapping_pairs } => {
                            match decode_runlist(mapping_pairs, header.starting_vcn, self.total_clusters) {
                                Ok(runs) => {
                                    self.attribute_list = Some(
                                        PendingList::NonResident(runs, header.real_size),
                                    );
                                },
                                Err(e) => {
                                    self.diagnostics.push(
                                        NtfsDiagnostic::AttributeListIncomplete { reason: e.to_text() },
                                    );
                                },
                            }
                        },
                    }
                }
            },
            AttributeType::Data => {
                match &attr.body {
                    AttributeBody::Resident { value, .. } => {
                        let key = key_of(&attr.header.name);
                        if self.has_resident_named(&key) || self.has_piece_named(&key, None) {
                            return;
                        }
                        let name = if attr.is_unnamed() {
                            None
                        } else {
                            copy_name(&attr.header.name)
                        };
                        self.resident_streams.push(
                            DataStreamDescriptor {
                                name,
                                logical_size: value.len() as u64,
                                storage: DataStorage::Resident { value: copy_bytes(value) },
                                flags: attr.header.flags,
                            },
                        );
                    },
                    AttributeBody::NonResident { header, mapping_pairs } => {
                        let key = key_of(&attr.header.name);
                        if self.has_piece_named(&key, Some(header.starting_vcn)) {
                            return;
                        }
                        let (runs, runlist_error) = match decode_runlist(
                            mapping_pairs,
                            header.starting_vcn,
                            self.total_clusters,
                        ) {
                            Ok(runs) => (runs, None),
                            Err(e) => (Vec::new(), Some(e)),
                        };
                        self.pieces.push(
                            DataPiece {
                                key,
                                starting_vcn: header.starting_vcn,
                                runs,
                                real_size: header.real_size,
                                initialized_size: header.initialized_size,
                                allocated_size: header.allocated_size,
                                last_vcn: header.last_vcn,
                                flags: attr.header.flags,
                                compression_unit: header.compression_unit,
                                runlist_error,
                            },
                        );
                    },
                }
            },
            AttributeType::Unknown(code) => {
                self.diagnostics.push(NtfsDiagnostic::UnknownAttribute { code });
            },
            _ => {},
        }
    }

    /// Whether a `$FILE_NAME` equal to `f` is already kept.
    fn knows_name(&self, f: &FileNameAttribute) -> (r: bool)
        ensures
            r == exists|i: int| 0 <= i < self.names@.len() && #[trigger] same_file_name(self.names@[i], *f),
    {
        let n = self.names.len();
        let mut i: usize = 0;
        while i < n
            invariant
                n == self.names@.len(),
                i <= n,
                forall|j: int| 0 <= j < i ==> !#[trigger] same_file_name(self.names@[j], *f),
            decreases n - i,
        {
            let g = &self.names[i];
            if g.parent == f.parent && g.name == f.name && g.namespace == f.namespace && g.created
                == f.created && g.modified == f.modified && g.mft_modified == f.mft_modified
                && g.accessed == f.accessed && g.allocated_size == f.allocated_size && g.real_size
                == f.real_size && g.flags == f.flags && g.reparse_value == f.reparse_value
                && g.name_invalid_utf16 == f.name_invalid_utf16 {
                assert(same_file_name(self.names@[i as int], *f));
                return true;
            }
            i = i + 1;
        }
        false
    }

    /// Whether a resident stream is kept under `key`.
    fn has_resident_named(&self, key: &String) -> (r: bool)
        ensures
            r == has_resident(self.resident_streams@, key@),
    {
        let n = self.resident_streams.len();
        let mut i: usize = 0;
        while i < n
            invariant
                n == self.resident_streams@.len(),
                i <= n,
                forall|j: int| 0 <= j < i ==> #[trigger] stream_key(self.resident_streams@[j].name) != key@,
            decreases n - i,
        {
            let k = key_of(&self.resident_streams[i].name);
            if k == *key {
                assert(stream_key(self.resident_streams@[i as int].name) == key@);
                return true;
            }
            i = i + 1;
        }
        false
    }

    /// Whether a piece is kept under `key` (with first VCN `vcn`, when
    /// given).
    fn has_piece_named(&self, key: &String, vcn: Option<u64>) -> (r: bool)
        ensures
            r == has_piece(self.pieces@, key@, vcn),
    {
        let n = self.pieces.len();
        let mut i: usize = 0;
        while i < n
            invariant
                n == self.pieces@.len(),
                i <= n,
                forall|j: int|
                    0 <= j < i ==> !(#[trigger] self.pieces@[j].key@ == key@ && match vcn {
                        Some(v) => self.pieces@[j].starting_vcn == v,
                        None => true,
                    }),
            decreases n - i,
        {
            let p = &self.pieces[i];
            let vcn_ok = match vcn {
                Some(v) => p.starting_vcn == v,
                None => true,
            };
            if p.key == *key && vcn_ok {
                return true;
            }
            i = i + 1;
        }
        false
    }
}

/// `s` with `x` inserted after the last element `y` with `le(y, x)` found
/// scanning from the end (for sorted `s`: after every element not above
/// `x`, before the first above it).
pub open spec fn insert_by<T>(s: Seq<T>, x: T, le: spec_fn(T, T) -> bool) -> Seq<T>
    decreases s.len(),
{
    if s.len() == 0 {
        seq![x]
    } else if le(s.last(), x) {
        s.push(x)
    } else {
        insert_by(s.drop_last(), x, le).push(s.last())
    }
}

/// Stable insertion sort of `s` by `le`.
pub open spec fn sort_by<T>(s: Seq<T>, le: spec_fn(T, T) -> bool) -> Seq<T>
    decreases s.len(),
{
    if s.len() == 0 {
        Seq::empty()
    } else {
        insert_by(sort_by(s.drop_last(), le), s.last(), le)
    }
}

/// Order of runs by first VCN.
pub open spec fn run_le(a: NtfsRun, b: NtfsRun) -> bool {
    crate::ntfs::runlist::run_vcn(a) <= crate::ntfs::runlist::run_vcn(b)
}

/// Order of pieces by first VCN.
pub open spec fn piece_le(a: DataPiece, b: DataPiece) -> bool {
    a.starting_vcn <= b.starting_vcn
}

/// Inserting `x` by `le` into `s` places it at `k` when `k` is the first
/// position from which no element is below `x` (scanning from the end).
pub proof fn lemma_insert_at<T>(s: Seq<T>, x: T, le: spec_fn(T, T) -> bool, k: int)
    requires
        0 <= k <= s.len(),
        forall|j: int| k <= j < s.len() ==> !le(#[trigger] s[j], x),
        k > 0 ==> le(s[k - 1], x),
    ensures
        insert_by(s, x, le) == s.take(k).push(x) + s.skip(k),
    decreases s.len() - k,
{
    if k == s.len() {
        if s.len() > 0 {
            assert(le(s.last(), x));
        }
        assert(s.take(k).push(x) + s.skip(k) =~= s.push(x));
    } else {
        assert(!le(s.last(), x));
        let t = s.drop_last();
        assert forall|j: int| k <= j < t.len() implies !le(#[trigger] t[j], x) by {
            assert(t[j] == s[j]);
        }
        if k > 0 {
            assert(t[k - 1] == s[k - 1]);
        }
        lemma_insert_at(t, x, le, k);
        assert(t.take(k).push(x) + t.skip(k) + seq![s.last()] =~= s.take(k).push(x) + s.skip(k));
    }
}

/// Inserts a run into runs kept in VCN order (after the runs not above it).
pub(crate) fn insert_run(out: &mut Vec<NtfsRun>, x: NtfsRun)
    ensures
        final(out)@ == insert_by(old(out)@, x, |a: NtfsRun, b: NtfsRun| run_le(a, b)),
{
    let ghost le = |a: NtfsRun, b: NtfsRun| run_le(a, b);
    let mut k = out.len();
    while k > 0 && out[k - 1].vcn() > x.vcn()
        invariant
            k <= out@.len(),
            out@ == old(out)@,
            le == (|a: NtfsRun, b: NtfsRun| run_le(a, b)),
            forall|j: int| k <= j < out@.len() ==> !le(#[trigger] out@[j], x),
        decreases k,
    {
        k = k - 1;
    }
    proof {
        lemma_insert_at(out@, x, le, k as int);
    }
    out.insert(k, x);
    assert(out@ =~= old(out)@.take(k as int).push(x) + old(out)@.skip(k as int));
}

/// Inserts a piece into pieces kept in order of first VCN.
fn insert_piece(out: &mut Vec<DataPiece>, x: DataPiece)
    ensures
        final(out)@ == insert_by(old(out)@, x, |a: DataPiece, b: DataPiece| piece_le(a, b)),
{
    let ghost le = |a: DataPiece, b: DataPiece| piece_le(a, b);
    let mut k = out.len();
    while k > 0 && out[k - 1].starting_vcn > x.starting_vcn
        invariant
            k <= out@.len(),
            out@ == old(out)@,
            le == (|a: DataPiece, b: DataPiece| piece_le(a, b)),
            forall|j: int| k <= j < out@.len() ==> !le(#[trigger] out@[j], x),
        decreases k,
    {
        k = k - 1;
    }
    proof {
        lemma_insert_at(out@, x, le, k as int);
    }
    let ghost xv = x;
    out.insert(k, x);
    assert(out@ =~= old(out)@.take(k as int).push(xv) + old(out)@.skip(k as int));
}

/// Whether `le` orders any two values one way or the other, transitively.
pub open spec fn total_preorder<T>(le: spec_fn(T, T) -> bool) -> bool {
    &&& forall|a: T, b: T| #[trigger] le(a, b) || le(b, a)
    &&& forall|a: T, b: T, c: T| #[trigger] le(a, b) && #[trigger] le(b, c) ==> le(a, c)
}

/// Whether `s` is in order by `le`.
pub open spec fn sorted_by<T>(s: Seq<T>, le: spec_fn(T, T) -> bool) -> bool {
    forall|i: int, j: int| 0 <= i < j < s.len() ==> le(#[trigger] s[i], #[trigger] s[j])
}

/// Inserting keeps the elements: one more, each of `s` or `x`.
pub proof fn lemma_insert_by_elements<T>(s: Seq<T>, x: T, le: spec_fn(T, T) -> bool)
    ensures
        insert_by(s, x, le).len() == s.len() + 1,
        forall|a: int|
            0 <= a < s.len() + 1 ==> #[trigger] insert_by(s, x, le)[a] == x || exists|w: int|
                0 <= w < s.len() && s[w] == insert_by(s, x, le)[a],
    decreases s.len(),
{
    if s.len() > 0 && !le(s.last(), x) {
        let t = s.drop_last();
        lemma_insert_by_elements(t, x, le);
        let u = insert_by(t, x, le);
        assert(insert_by(s, x, le) == u.push(s.last()));
        assert forall|a: int| 0 <= a < s.len() + 1 implies #[trigger] insert_by(s, x, le)[a] == x
            || exists|w: int| 0 <= w < s.len() && s[w] == insert_by(s, x, le)[a] by {
            if a == s.len() {
                assert(s[s.len() - 1] == insert_by(s, x, le)[a]);
            } else {
                assert(insert_by(s, x, le)[a] == u[a]);
                if u[a] != x {
                    let w = choose|w: int| 0 <= w < t.len() && t[w] == u[a];
                    assert(s[w] == t[w]);
                }
            }
        }
    } else if s.len() > 0 {
        assert(insert_by(s, x, le) == s.push(x));
        assert forall|a: int| 0 <= a < s.len() + 1 implies #[trigger] insert_by(s, x, le)[a] == x
            || exists|w: int| 0 <= w < s.len() && s[w] == insert_by(s, x, le)[a] by {
            if a < s.len() {
                assert(s[a] == insert_by(s, x, le)[a]);
            }
        }
    }
}

/// Inserting into a sorted sequence keeps it sorted.
pub proof fn lemma_insert_by_sorted<T>(s: Seq<T>, x: T, le: spec_fn(T, T) -> bool)
    requires
        total_preorder(le),
        sorted_by(s, le),
    ensures
        sorted_by(insert_by(s, x, le), le),
    decreases s.len(),
{
    let r = insert_by(s, x, le);
    if s.len() == 0 {
    } else if le(s.last(), x) {
        assert(r == s.push(x));
        assert forall|i: int, j: int| 0 <= i < j < r.len() implies le(#[trigger] r[i], #[trigger] r[j]) by {
            if j == s.len() {
                if i < s.len() - 1 {
                    assert(le(s[i], s[s.len() - 1]));
                }
                assert(le(r[i], s.last()) && le(s.last(), x));
            } else {
                assert(r[i] == s[i] && r[j] == s[j]);
            }
        }
    } else {
        let t = s.drop_last();
        assert(sorted_by(t, le)) by {
            assert forall|i: int, j: int| 0 <= i < j < t.len() implies le(#[trigger] t[i], #[trigger] t[j]) by {
                assert(t[i] == s[i] && t[j] == s[j]);
            }
        }
        lemma_insert_by_sorted(t, x, le);
        lemma_insert_by_elements(t, x, le);
        let u = insert_by(t, x, le);
        assert(r == u.push(s.last()));
        assert(le(x, s.last()));
        assert forall|i: int, j: int| 0 <= i < j < r.len() implies le(#[trigger] r[i], #[trigger] r[j]) by {
            if j == r.len() - 1 {
                assert(r[i] == u[i]);
                assert(r[j] == s.last());
                if u[i] != x {
                    let w = choose|w: int| 0 <= w < t.len() && t[w] == u[i];
                    assert(le(s[w], s[s.len() - 1]));
                }
            } else {
                assert(r[i] == u[i] && r[j] == u[j]);
            }
        }
    }
}

/// Sorting by a total preorder yields a sequence in order.
pub proof fn lemma_sort_by_sorted<T>(s: Seq<T>, le: spec_fn(T, T) -> bool)
    requires
        total_preorder(le),
    ensures
        sorted_by(sort_by(s, le), le),
        sort_by(s, le).len() == s.len(),
    decreases s.len(),
{
    if s.len() > 0 {
        lemma_sort_by_sorted(s.drop_last(), le);
        lemma_insert_by_sorted(sort_by(s.drop_last(), le), s.last(), le);
        lemma_insert_by_elements(sort_by(s.drop_last(), le), s.last(), le);
    }
}

/// The runs of a merged stream are in VCN order.
pub proof fn lemma_merged_runs_in_order(
    key: Seq<char>,
    ps: Seq<DataPiece>,
    cluster_size: u32,
    stream: Option<DataStreamDescriptor>,
    ds: Seq<NtfsDiagnostic>,
)
    requires
        merged(key, ps, cluster_size, stream, ds),
        stream is Some,
    ensures
        sorted_by(
            crate::ntfs::data::storage_runs(stream->Some_0.storage),
            |a: NtfsRun, b: NtfsRun| run_le(a, b),
        ),
{
    let le = |a: NtfsRun, b: NtfsRun| run_le(a, b);
    let sorted = sort_by(ps, |a: DataPiece, b: DataPiece| piece_le(a, b));
    lemma_sort_by_sorted(all_runs(sorted), le);
}

/// The runs of `ps`, piece after piece.
pub open spec fn all_runs(ps: Seq<DataPiece>) -> Seq<NtfsRun>
    decreases ps.len(),
{
    if ps.len() == 0 {
        Seq::empty()
    } else {
        all_runs(ps.drop_last()) + ps.last().runs@
    }
}

/// Walking `runs` in order: whether each starts where the previous ended
/// (the first at VCN 0), and the end of the last one (0 for none).
pub open spec fn run_walk(runs: Seq<NtfsRun>) -> (bool, u64)
    decreases runs.len(),
{
    if runs.len() == 0 {
        (true, 0)
    } else {
        let prev = run_walk(runs.drop_last());
        let r = runs.last();
        let end = if crate::ntfs::runlist::run_vcn(r) + crate::ntfs::runlist::run_clusters(r)
            > u64::MAX {
            u64::MAX
        } else {
            (crate::ntfs::runlist::run_vcn(r) + crate::ntfs::runlist::run_clusters(r)) as u64
        };
        (prev.0 && crate::ntfs::runlist::run_vcn(r) == prev.1, end)
    }
}

/// Whether `ds` are the runlist errors of `ps`, in order, for the stream
/// named `name`.
pub open spec fn runlist_error_diags(ds: Seq<NtfsDiagnostic>, ps: Seq<DataPiece>, name: Option<Seq<char>>) -> bool
    decreases ps.len(),
{
    if ps.len() == 0 {
        ds.len() == 0
    } else {
        match ps.last().runlist_error {
            None => runlist_error_diags(ds, ps.drop_last(), name),
            Some(e) => ds.len() > 0 && (ds.last() matches NtfsDiagnostic::RunlistError { name: n, reason }
                && opt_text(n) == name && reason@ == error_text(e)) && runlist_error_diags(
                ds.drop_last(),
                ps.drop_last(),
                name,
            ),
        }
    }
}

/// The text of an optional name.
pub open spec fn opt_text(n: Option<String>) -> Option<Seq<char>> {
    match n {
        Some(s) => Some(s@),
        None => None,
    }
}

/// Whether any piece of `ps` failed to decode its runlist.
pub open spec fn any_runlist_error(ps: Seq<DataPiece>) -> bool {
    exists|i: int| 0 <= i < ps.len() && #[trigger] ps[i].runlist_error is Some
}

/// Clusters the pieces `ps` (sorted, not empty) should cover: past the
/// last VCN of the last piece, or the allocated size in clusters of
/// `cluster` bytes, whichever is more.
pub open spec fn expected_clusters(ps: Seq<DataPiece>, allocated: u64, cluster: int) -> int {
    let by_vcn = if ps.len() == 0 {
        0
    } else if ps.last().last_vcn == u64::MAX {
        u64::MAX as int
    } else {
        ps.last().last_vcn + 1
    };
    vstd::math::max(by_vcn, (allocated + cluster - 1) / cluster)
}

/// Whether `(stream, ds)` is what the pieces `ps` of the stream kept under
/// `key` merge into, with clusters of `cluster_size` bytes: nothing but a
/// note when no piece starts at VCN 0; otherwise the stream described by
/// that piece, holding the runs of all pieces in VCN order, complete when
/// every runlist decoded, the runs are contiguous from VCN 0 and cover the
/// expected clusters; compressed and encrypted streams are marked
/// unsupported.
pub open spec fn merged(
    key: Seq<char>,
    ps: Seq<DataPiece>,
    cluster_size: u32,
    stream: Option<DataStreamDescriptor>,
    ds: Seq<NtfsDiagnostic>,
) -> bool {
    let sorted = sort_by(ps, |a: DataPiece, b: DataPiece| piece_le(a, b));
    let name = if key.len() == 0 {
        None
    } else {
        Some(key)
    };
    if sorted.len() == 0 || sorted[0].starting_vcn != 0 {
        stream is None && ds.len() == 1 && (ds[0] matches NtfsDiagnostic::RunlistIncomplete {
            name: n,
            covered_clusters: c,
            expected_clusters: x,
        } && opt_text(n) == name && c == 0 && x == 0)
    } else {
        let head = sorted[0];
        let runs = sort_by(all_runs(sorted), |a: NtfsRun, b: NtfsRun| run_le(a, b));
        let walk = run_walk(runs);
        let cluster = if cluster_size == 0 {
            1
        } else {
            cluster_size as int
        };
        let expected = expected_clusters(sorted, head.allocated_size, cluster);
        let short = walk.1 < expected;
        let complete = !any_runlist_error(sorted) && walk.0 && !short;
        let n_err = ds.len() - (if short {
            1int
        } else {
            0int
        }) - (if head.flags & 0xFFu16 != 0 || head.flags & 0x4000u16 != 0 {
            1int
        } else {
            0int
        });
        &&& 0 <= n_err
        &&& runlist_error_diags(ds.take(n_err), sorted, name)
        &&& (short ==> (ds[n_err] matches NtfsDiagnostic::RunlistIncomplete {
            name: n,
            covered_clusters: c,
            expected_clusters: x,
        } && opt_text(n) == name && c == walk.1 && x == expected))
        &&& stream matches Some(s)
        &&& opt_text(s.name) == name
        &&& s.logical_size == head.real_size
        &&& s.flags == head.flags
        &&& if head.flags & 0xFFu16 != 0 {
            &&& (ds.last() matches NtfsDiagnostic::CompressedStream { name: n } && opt_text(n) == name)
            &&& (s.storage matches DataStorage::UnsupportedCompressed { runs: r, real_size, compression_unit }
                && r@ == runs && real_size == head.real_size && compression_unit == head.compression_unit)
        } else if head.flags & 0x4000u16 != 0 {
            &&& (ds.last() matches NtfsDiagnostic::EncryptedStream { name: n } && opt_text(n) == name)
            &&& (s.storage matches DataStorage::UnsupportedEncrypted { runs: r, real_size } && r@ == runs
                && real_size == head.real_size)
        } else {
            s.storage matches DataStorage::NonResident {
                runs: r,
                real_size,
                initialized_size,
                allocated_size,
                complete: c,
            } && r@ == runs && real_size == head.real_size && initialized_size
                == head.initialized_size && allocated_size == head.allocated_size && c == complete
        }
    }
}

/// The stream name for the key `key`: none for the empty key.
fn name_of_key(key: &String) -> (n: Option<String>)
    ensures
        opt_text(n) == (if key@.len() == 0 {
            None
        } else {
            Some(key@)
        }),
{
    if key.as_str().is_empty() {
        None
    } else {
        Some(key.clone())
    }
}

/// Walks runs in order (see [`run_walk`]).
fn walk_runs(runs: &Vec<NtfsRun>) -> (r: (bool, u64))
    ensures
        r == run_walk(runs@),
{
    let mut contiguous = true;
    let mut expected: u64 = 0;
    let n = runs.len();
    let mut i: usize = 0;
    while i < n
        invariant
            n == runs@.len(),
            i <= n,
            (contiguous, expected) == run_walk(runs@.take(i as int)),
        decreases n - i,
    {
        assert(runs@.take(i + 1).drop_last() =~= runs@.take(i as int));
        if runs[i].vcn() != expected {
            contiguous = false;
        }
        expected = runs[i].end_vcn();
        i = i + 1;
    }
    assert(runs@.take(n as int) =~= runs@);
    (contiguous, expected)
}

/// Merges the pieces of the stream kept under `key` (see [`merged`]).
pub fn merge_stream(key: &String, pieces: Vec<DataPiece>, cluster_size: u32) -> (r: (
    Option<DataStreamDescriptor>,
    Vec<NtfsDiagnostic>,
))
    ensures
        merged(key@, pieces@, cluster_size, r.0, r.1@),
{
    let ghost orig = pieces@;
    let ghost ple = |a: DataPiece, b: DataPiece| piece_le(a, b);
    let ghost rle = |a: NtfsRun, b: NtfsRun| run_le(a, b);
    let mut rest = pieces;
    let n0 = rest.len();
    let mut sorted: Vec<DataPiece> = Vec::new();
    let mut i: usize = 0;
    while rest.len() > 0
        invariant
            n0 == orig.len(),
            i <= orig.len(),
            i + rest@.len() == orig.len(),
            rest@ == orig.skip(i as int),
            ple == (|a: DataPiece, b: DataPiece| piece_le(a, b)),
            sorted@ == sort_by(orig.take(i as int), ple),
        decreases rest@.len(),
    {
        let p = rest.remove(0);
        proof {
            assert(orig.take(i + 1).drop_last() =~= orig.take(i as int));
            assert(orig.take(i + 1).last() == p);
        }
        insert_piece(&mut sorted, p);
        proof {
            assert(orig.skip(i as int).skip(1) =~= orig.skip(i + 1));
        }
        i = i + 1;
    }
    assert(orig.take(i as int) =~= orig);
    let name = name_of_key(key);
    let ghost gname = opt_text(name);
    if sorted.len() == 0 || sorted[0].starting_vcn != 0 {
        let d = NtfsDiagnostic::RunlistIncomplete { name, covered_clusters: 0, expected_clusters: 0 };
        let ds = vec![d];
        return (None, ds);
    }
    let real_size = sorted[0].real_size;
    let initialized_size = sorted[0].initialized_size;
    let allocated_size = sorted[0].allocated_size;
    let flags = sorted[0].flags;
    let cu = sorted[0].compression_unit;
    let mut diags: Vec<NtfsDiagnostic> = Vec::new();
    let mut runs: Vec<NtfsRun> = Vec::new();
    let mut errors = false;
    let np = sorted.len();
    let mut k: usize = 0;
    while k < np
        invariant
            np == sorted@.len(),
            k <= np,
            rle == (|a: NtfsRun, b: NtfsRun| run_le(a, b)),
            runs@ == sort_by(all_runs(sorted@.take(k as int)), rle),
            runlist_error_diags(diags@, sorted@.take(k as int), gname),
            gname == opt_text(name),
            gname == (if key@.len() == 0 {
                None
            } else {
                Some(key@)
            }),
            errors == any_runlist_error(sorted@.take(k as int)),
        decreases np - k,
    {
        let ghost before = all_runs(sorted@.take(k as int));
        assert(sorted@.take(k + 1).drop_last() =~= sorted@.take(k as int));
        let pr = &sorted[k].runs;
        let nr = pr.len();
        let mut j: usize = 0;
        while j < nr
            invariant
                nr == pr@.len(),
                j <= nr,
                rle == (|a: NtfsRun, b: NtfsRun| run_le(a, b)),
                runs@ == sort_by(before + pr@.take(j as int), rle),
            decreases nr - j,
        {
            proof {
                assert((before + pr@.take(j + 1)).drop_last() =~= before + pr@.take(j as int));
                assert((before + pr@.take(j + 1)).last() == pr@[j as int]);
            }
            insert_run(&mut runs, pr[j]);
            j = j + 1;
        }
        assert(before + pr@.take(nr as int) =~= all_runs(sorted@.take(k + 1)));
        let ghost old_diags = diags@;
        match &sorted[k].runlist_error {
            Some(e) => {
                let n = name_of_key(key);
                let reason = e.to_text();
                diags.push(NtfsDiagnostic::RunlistError { name: n, reason });
                errors = true;
                proof {
                    let t = sorted@.take(k + 1);
                    assert(diags@.drop_last() =~= old_diags);
                    assert(t.drop_last() =~= sorted@.take(k as int));
                    assert(t.last().runlist_error == Some(*e));
                    assert(diags@.last() == NtfsDiagnostic::RunlistError { name: n, reason });
                    assert(runlist_error_diags(diags@, t, gname));
                }
            },
            None => {},
        }
        proof {
            let t = sorted@.take(k + 1);
            assert(t.last() == sorted@[k as int]);
            assert(t.drop_last() =~= sorted@.take(k as int));
            if t.last().runlist_error is None {
                assert(diags@ == old_diags);
                assert(runlist_error_diags(diags@, t, gname));
            } else {
                assert(runlist_error_diags(diags@.drop_last(), t.drop_last(), gname));
                assert(runlist_error_diags(diags@, t, gname));
            }
            if errors {
                assert(t[k as int].runlist_error is Some || any_runlist_error(sorted@.take(k as int)));
                if any_runlist_error(sorted@.take(k as int)) {
                    let w = choose|w: int| 0 <= w < k && #[trigger] sorted@.take(k as int)[w].runlist_error is Some;
                    assert(t[w] == sorted@.take(k as int)[w]);
                }
            } else {
                assert forall|w: int| 0 <= w < t.len() implies !(#[trigger] t[w].runlist_error is Some) by {
                    if w < k {
                        assert(t[w] == sorted@.take(k as int)[w]);
                    }
                }
            }
        }
        k = k + 1;
    }
    assert(sorted@.take(np as int) =~= sorted@);
    let (contiguous, covered) = walk_runs(&runs);
    let cluster: u64 = if cluster_size == 0 {
        1
    } else {
        cluster_size as u64
    };
    proof {
        assert(allocated_size % cluster != 0 ==> allocated_size / cluster < u64::MAX) by (nonlinear_arith)
            requires
                cluster >= 1,
        ;
    }
    let by_alloc = allocated_size / cluster + if allocated_size % cluster != 0 {
        1
    } else {
        0
    };
    proof {
        assert(by_alloc == (allocated_size + cluster - 1) / (cluster as int)) by (nonlinear_arith)
            requires
                cluster >= 1,
                by_alloc == allocated_size / cluster + if allocated_size % cluster != 0 {
                    1int
                } else {
                    0int
                },
        ;
    }
    let last = sorted[np - 1].last_vcn;
    let by_vcn: u64 = if last == u64::MAX {
        u64::MAX
    } else {
        last + 1
    };
    let expected = if by_vcn > by_alloc {
        by_vcn
    } else {
        by_alloc
    };
    let ghost n_err = diags@.len();
    let ghost diags_loop = diags@;
    let ghost runs_s = runs@;
    let short = covered < expected;
    if short {
        let n = name_of_key(key);
        diags.push(
            NtfsDiagnostic::RunlistIncomplete { name: n, covered_clusters: covered, expected_clusters: expected },
        );
    }
    let complete = !errors && contiguous && !short;
    let storage = if flags & 0x00FF != 0 {
        let n = name_of_key(key);
        diags.push(NtfsDiagnostic::CompressedStream { name: n });
        DataStorage::UnsupportedCompressed { runs, real_size, compression_unit: cu }
    } else if flags & 0x4000 != 0 {
        let n = name_of_key(key);
        diags.push(NtfsDiagnostic::EncryptedStream { name: n });
        DataStorage::UnsupportedEncrypted { runs, real_size }
    } else {
        DataStorage::NonResident { runs, real_size, initialized_size, allocated_size, complete }
    };
    let r = (Some(DataStreamDescriptor { name, logical_size: real_size, storage, flags }), diags);
    proof {
        let sorted_s = sort_by(orig, ple);
        assert(sorted@ == sorted_s);
        let ds = r.1@;
        let flagged = flags & 0xFFu16 != 0 || flags & 0x4000u16 != 0;
        assert(ds.take(n_err as int) =~= diags_loop);
        assert(runlist_error_diags(ds.take(n_err as int), sorted_s, gname));
        assert(runs_s == sort_by(all_runs(sorted_s), rle));
        assert(n_err == ds.len() - (if short { 1int } else { 0int }) - (if flagged { 1int } else { 0int }));
    }
    r
}

} // verus!
