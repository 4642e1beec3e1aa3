//! What `$MFT` record 0 and the extension records it names say of the MFT
//! itself: its runs, sizes and attribute list; and where each record lies.

use vstd::prelude::*;

use crate::ntfs::assemble::{copy_bytes, PendingList};
use crate::ntfs::attribute::{unnamed, walk_end, walk_steps, walked, Attribute, AttributeBody, AttributeType};
use crate::ntfs::attribute_list::AttributeListEntry;
use crate::ntfs::error::NtfsError;
use crate::ntfs::record::FileRecord;
use crate::ntfs::runlist::{decode_runlist, runs_from, NtfsRun};

verus! {

/// Record number of `$MFT`.
pub const MFT_RECORD: u64 = 0;

/// Record number of `$MFTMirr`.
pub const MFT_MIRROR_RECORD: u64 = 1;

/// Record number of `$Volume`.
pub const VOLUME_RECORD: u64 = 3;

/// Record number of the root directory.
pub const ROOT_RECORD: u64 = 5;

/// Record number of `$Bitmap`.
pub const BITMAP_RECORD: u64 = 6;

/// Largest `$MFT` attribute list read, in bytes.
pub const MAX_MFT_ATTRIBUTE_LIST_BYTES: u64 = 16 * 1024 * 1024;

/// What record 0 of `$MFT` says of the MFT.
#[derive(Debug)]
pub struct MftRecordZero {
    /// Runs of the unnamed `$DATA` pieces held in record 0, in order.
    pub runs: Vec<NtfsRun>,
    /// Real size of the MFT (from the piece starting at VCN 0).
    pub real_size: u64,
    /// Initialized size of the MFT (from the piece starting at VCN 0).
    pub initialized_size: u64,
    /// The last `$ATTRIBUTE_LIST` of record 0: its bytes, or its runs and
    /// length.
    pub attribute_list: Option<PendingList>,
}

/// The mapping pairs decoded by the runlist decoder for a non-resident
/// attribute, when they decode.
pub open spec fn decoded(a: Attribute, total_clusters: u64) -> Option<Seq<NtfsRun>> {
    match a.body {
        AttributeBody::NonResident { header, mapping_pairs } => runs_from(
            mapping_pairs@,
            0,
            header.starting_vcn as int,
            0,
            total_clusters as int,
        ),
        AttributeBody::Resident { .. } => None,
    }
}

/// Whether `a` is an unnamed `$DATA` attribute.
pub open spec fn unnamed_data(a: Attribute) -> bool {
    a.header.attribute_type == AttributeType::Data && unnamed(a.header.name)
}

/// Whether taking `a` fails the scan of record 0: an unnamed `$DATA` that is
/// resident or whose runlist does not decode, or an `$ATTRIBUTE_LIST` whose
/// runlist does not decode.
pub open spec fn zero_item_fails(a: Attribute, total_clusters: u64) -> bool {
    ||| unnamed_data(a) && (a.body is Resident || decoded(a, total_clusters) is None)
    ||| a.header.attribute_type == AttributeType::AttributeList && a.body is NonResident && decoded(
        a,
        total_clusters,
    ) is None
}

/// Whether some item of `items` is an error or fails the scan of record 0.
pub open spec fn zero_fails<'a>(items: Seq<Result<Attribute<'a>, NtfsError>>, total_clusters: u64) -> bool {
    exists|i: int|
        0 <= i < items.len() && match #[trigger] items[i] {
            Ok(a) => zero_item_fails(a, total_clusters),
            Err(_) => true,
        }
}

/// The runs of the unnamed non-resident `$DATA` attributes of `items`, in
/// order.
pub open spec fn zero_runs<'a>(items: Seq<Result<Attribute<'a>, NtfsError>>, total_clusters: u64) -> Seq<
    NtfsRun,
>
    decreases items.len(),
{
    if items.len() == 0 {
        Seq::empty()
    } else {
        let prev = zero_runs(items.drop_last(), total_clusters);
        match items.last() {
            Ok(a) => if unnamed_data(a) {
                match decoded(a, total_clusters) {
                    Some(r) => prev + r,
                    None => prev,
                }
            } else {
                prev
            },
            Err(_) => prev,
        }
    }
}

/// Real and initialized size of the last unnamed non-resident `$DATA`
/// attribute of `items` starting at VCN 0; zero when there is none.
pub open spec fn zero_sizes<'a>(items: Seq<Result<Attribute<'a>, NtfsError>>) -> (u64, u64)
    decreases items.len(),
{
    if items.len() == 0 {
        (0, 0)
    } else {
        match items.last() {
            Ok(a) => if unnamed_data(a) {
                match a.body {
                    AttributeBody::NonResident { header, .. } => if header.starting_vcn == 0 {
                        (header.real_size, header.initialized_size)
                    } else {
                        zero_sizes(items.drop_last())
                    },
                    _ => zero_sizes(items.drop_last()),
                }
            } else {
                zero_sizes(items.drop_last())
            },
            Err(_) => zero_sizes(items.drop_last()),
        }
    }
}

/// The last `$ATTRIBUTE_LIST` attribute of `items`, if any.
pub open spec fn zero_list<'a>(items: Seq<Result<Attribute<'a>, NtfsError>>) -> Option<Attribute<'a>>
    decreases items.len(),
{
    if items.len() == 0 {
        None
    } else {
        match items.last() {
            Ok(a) => if a.header.attribute_type == AttributeType::AttributeList {
                Some(a)
            } else {
                zero_list(items.drop_last())
            },
            Err(_) => zero_list(items.drop_last()),
        }
    }
}

/// Whether `l` is what the list attribute `a` gives: its bytes, or its
/// runs and real size.
pub open spec fn list_from(l: PendingList, a: Attribute, total_clusters: u64) -> bool {
    match a.body {
        AttributeBody::Resident { value, .. } => l matches PendingList::Resident(v) && v@ == value@,
        AttributeBody::NonResident { header, .. } => l matches PendingList::NonResident(r, len)
            && Some(r@) == decoded(a, total_clusters) && len == header.real_size,
    }
}

/// The index of the first item of `items` that is an error or fails the
/// scan, when `zero_fails(items)`.
pub open spec fn first_failure<'a>(items: Seq<Result<Attribute<'a>, NtfsError>>, total_clusters: u64, k: int) -> bool {
    &&& 0 <= k < items.len()
    &&& match items[k] {
        Ok(a) => zero_item_fails(a, total_clusters),
        Err(_) => true,
    }
    &&& !zero_fails(items.take(k), total_clusters)
}

/// Whether `e` is the error the scan of record 0 stops with at the failing
/// item `item`.
pub open spec fn zero_error<'a>(item: Result<Attribute<'a>, NtfsError>, e: NtfsError) -> bool {
    match item {
        Err(x) => e == x,
        Ok(a) => if unnamed_data(a) && a.body is Resident {
            e == NtfsError::InvalidRecord { record: 0, reason: "$MFT $DATA is resident" }
        } else {
            e is InvalidRunlist
        },
    }
}

/// Whether `r` is what scanning the attributes `items` of record 0 gives:
/// the first error or failing attribute stops the scan with its error;
/// otherwise the unnamed `$DATA` runs in order (an error when there are
/// none), the sizes of the piece at VCN 0 and the last attribute list.
pub open spec fn zero_scanned<'a>(
    items: Seq<Result<Attribute<'a>, NtfsError>>,
    total_clusters: u64,
    r: Result<MftRecordZero, NtfsError>,
) -> bool {
    if zero_fails(items, total_clusters) {
        exists|k: int|
            #[trigger] first_failure(items, total_clusters, k) && (r matches Err(e) && zero_error(
                items[k],
                e,
            ))
    } else if zero_runs(items, total_clusters).len() == 0 {
        r == Err::<MftRecordZero, NtfsError>(
            NtfsError::InvalidRecord { record: 0, reason: "$MFT has no unnamed $DATA runs" },
        )
    } else {
        r matches Ok(z) && z.runs@ == zero_runs(items, total_clusters) && (z.real_size, z.initialized_size)
            == zero_sizes(items) && match zero_list(items) {
            None => z.attribute_list is None,
            Some(a) => z.attribute_list matches Some(l) && list_from(l, a, total_clusters),
        }
    }
}

/// Whether `items` is what the scan of record 0 reads of the attributes
/// of `rec` from `start` (limit `limit`): all of them, or those up to the
/// first one that fails the scan.
pub open spec fn zero_read<'a>(
    rec: Seq<u8>,
    start: int,
    limit: int,
    items: Seq<Result<Attribute<'a>, NtfsError>>,
    total_clusters: u64,
) -> bool {
    ||| walked(rec, start, limit, items)
    ||| walk_steps(rec, start, limit, items) && items.len() > 0 && (items.last() matches Ok(a)
        && zero_item_fails(a, total_clusters))
}

/// Reads record 0 of `$MFT` (see [`zero_scanned`]): its unnamed `$DATA`
/// runs, the MFT sizes and its attribute list.
pub fn scan_record_zero<'r>(record0: &'r FileRecord, total_clusters: u64) -> (r: Result<
    MftRecordZero,
    NtfsError,
>)
    ensures
        exists|items: Seq<Result<Attribute<'r>, NtfsError>>|
            #[trigger] zero_read(
                record0.spec_data(),
                record0.spec_header().first_attribute_offset as int,
                record0.spec_header().used_size as int,
                items,
                total_clusters,
            ) && zero_scanned(items, total_clusters, r),
{
    let mut it = record0.attributes();
    let ghost rec = record0.spec_data();
    let ghost start = record0.spec_header().first_attribute_offset as int;
    let ghost limit = record0.spec_header().used_size as int;
    let ghost mut items: Seq<Result<Attribute<'r>, NtfsError>> = Seq::empty();
    let mut runs: Vec<NtfsRun> = Vec::new();
    let mut real_size: u64 = 0;
    let mut initialized_size: u64 = 0;
    let mut attribute_list: Option<PendingList> = None;
    loop
        invariant_except_break
            !it.spec_done(),
            it.spec_pos() == walk_end(start, items),
        invariant
            walk_steps(rec, start, limit, items),
            it.spec_record() == rec,
            it.spec_limit() as int == limit,
            rec == record0.spec_data(),
            start == record0.spec_header().first_attribute_offset as int,
            limit == record0.spec_header().used_size as int,
            !zero_fails(items, total_clusters),
            runs@ == zero_runs(items, total_clusters),
            (real_size, initialized_size) == zero_sizes(items),
            match zero_list(items) {
                None => attribute_list is None,
                Some(a) => attribute_list matches Some(l) && list_from(l, a, total_clusters),
            },
        ensures
            walked(rec, start, limit, items),
        decreases (if it.spec_pos() <= rec.len() {
            rec.len() - it.spec_pos()
        } else {
            0
        }),
    {
        let ghost pos = it.spec_pos() as int;
        let item = it.next_attribute();
        match item {
            None => {
                break;
            },
            Some(Err(e)) => {
                proof {
                    let ni = items.push(Err(e));
                    assert(ni.drop_last() =~= items);
                    assert(ni.take(items.len() as int) =~= items);
                    assert(first_failure(ni, total_clusters, items.len() as int));
                    assert(walked(rec, start, limit, ni));
                    assert(zero_read(rec, start, limit, ni, total_clusters));
                    assert(zero_scanned(ni, total_clusters, Err(e)));
                }
                return Err(e);
            },
            Some(Ok(a)) => {
                let ghost ni = items.push(Ok(a));
                proof {
                    assert(ni.drop_last() =~= items);
                    assert(ni.take(items.len() as int) =~= items);
                    assert(walk_steps(rec, start, limit, ni));
                }
                if a.header.attribute_type == AttributeType::Data && a.is_unnamed() {
                    match &a.body {
                        AttributeBody::NonResident { header, mapping_pairs } => {
                            match decode_runlist(mapping_pairs, header.starting_vcn, total_clusters) {
                                Ok(r) => {
                                    let mut r = r;
                                    runs.append(&mut r);
                                    if header.starting_vcn == 0 {
                                        real_size = header.real_size;
                                        initialized_size = header.initialized_size;
                                    }
                                },
                                Err(e) => {
                                    proof {
                                        assert(first_failure(ni, total_clusters, items.len() as int));
                                        assert(zero_read(rec, start, limit, ni, total_clusters));
                                        assert(zero_scanned(ni, total_clusters, Err(e)));
                                    }
                                    return Err(e);
                                },
                            }
                        },
                        AttributeBody::Resident { .. } => {
                            let e = NtfsError::InvalidRecord { record: 0, reason: "$MFT $DATA is resident" };
                            proof {
                                assert(first_failure(ni, total_clusters, items.len() as int));
                                assert(zero_read(rec, start, limit, ni, total_clusters));
                                assert(zero_scanned(ni, total_clusters, Err(e)));
                            }
                            return Err(e);
                        },
                    }
                } else if a.header.attribute_type == AttributeType::AttributeList {
                    match &a.body {
                        AttributeBody::Resident { value, .. } => {
                            attribute_list = Some(PendingList::Resident(copy_bytes(value)));
                        },
                        AttributeBody::NonResident { header, mapping_pairs } => {
                            match decode_runlist(mapping_pairs, header.starting_vcn, total_clusters) {
                                Ok(r) => {
                                    attribute_list = Some(PendingList::NonResident(r, header.real_size));
                                },
                                Err(e) => {
                                    proof {
                                        assert(first_failure(ni, total_clusters, items.len() as int));
                                        assert(zero_read(rec, start, limit, ni, total_clusters));
                                        assert(zero_scanned(ni, total_clusters, Err(e)));
                                    }
                                    return Err(e);
                                },
                            }
                        },
                    }
                }
                proof {
                    assert forall|i: int| 0 <= i < ni.len() implies !match #[trigger] ni[i] {
                        Ok(x) => zero_item_fails(x, total_clusters),
                        Err(_) => true,
                    } by {
                        if i < items.len() {
                            assert(ni[i] == items[i]);
                        }
                    }
                    items = ni;
                }
            },
        }
    }
    proof {
        assert(zero_read(rec, start, limit, items, total_clusters));
    }
    if runs.len() == 0 {
        let r = Err(NtfsError::InvalidRecord { record: 0, reason: "$MFT has no unnamed $DATA runs" });
        assert(zero_scanned(items, total_clusters, r));
        return r;
    }
    let r = Ok(MftRecordZero { runs, real_size, initialized_size, attribute_list });
    assert(zero_scanned(items, total_clusters, r));
    r
}

/// The pieces of `$MFT` held in extension records, as named by its
/// attribute list: the unnamed `$DATA` entries outside record 0, as
/// (record, first VCN), in order.
pub open spec fn mft_pieces(entries: Seq<AttributeListEntry>) -> Seq<(u64, u64)>
    decreases entries.len(),
{
    if entries.len() == 0 {
        Seq::empty()
    } else {
        let prev = mft_pieces(entries.drop_last());
        let e = entries.last();
        if e.attribute_type == AttributeType::Data && e.name@.len() == 0 && e.reference.record != 0 {
            prev.push((e.reference.record, e.starting_vcn))
        } else {
            prev
        }
    }
}

/// The extension pieces of `$MFT` its attribute list names (see
/// [`mft_pieces`]).
pub fn mft_extension_pieces(entries: &Vec<AttributeListEntry>) -> (r: Vec<(u64, u64)>)
    ensures
        r@ == mft_pieces(entries@),
{
    let mut out: Vec<(u64, u64)> = Vec::new();
    let n = entries.len();
    let mut i: usize = 0;
    while i < n
        invariant
            n == entries@.len(),
            i <= n,
            out@ == mft_pieces(entries@.take(i as int)),
        decreases n - i,
    {
        assert(entries@.take(i + 1).drop_last() =~= entries@.take(i as int));
        let e = &entries[i];
        if e.attribute_type == AttributeType::Data && e.name.as_str().is_empty() && e.reference.record
            != 0 {
            out.push((e.reference.record, e.starting_vcn));
        }
        i = i + 1;
    }
    assert(entries@.take(n as int) =~= entries@);
    out
}

/// Whether `a` is the unnamed non-resident `$DATA` piece starting at `vcn`.
pub open spec fn piece_at(a: Attribute, vcn: u64) -> bool {
    unnamed_data(a) && match a.body {
        AttributeBody::NonResident { header, .. } => header.starting_vcn == vcn,
        AttributeBody::Resident { .. } => false,
    }
}

/// Whether some item of `items` is an error or the piece at `vcn` with a
/// runlist that does not decode.
pub open spec fn piece_fails<'a>(items: Seq<Result<Attribute<'a>, NtfsError>>, vcn: u64, total_clusters: u64) -> bool {
    exists|i: int|
        0 <= i < items.len() && match #[trigger] items[i] {
            Ok(a) => piece_at(a, vcn) && decoded(a, total_clusters) is None,
            Err(_) => true,
        }
}

/// The runs of the pieces at `vcn` among `items`, in order.
pub open spec fn piece_runs<'a>(items: Seq<Result<Attribute<'a>, NtfsError>>, vcn: u64, total_clusters: u64) -> Seq<
    NtfsRun,
>
    decreases items.len(),
{
    if items.len() == 0 {
        Seq::empty()
    } else {
        let prev = piece_runs(items.drop_last(), vcn, total_clusters);
        match items.last() {
            Ok(a) => if piece_at(a, vcn) {
                match decoded(a, total_clusters) {
                    Some(r) => prev + r,
                    None => prev,
                }
            } else {
                prev
            },
            Err(_) => prev,
        }
    }
}

/// Whether `items` is what reading an extension record of `$MFT` for the
/// piece at `vcn` reads of the attributes of `rec`: all of them, or those
/// up to the piece whose runlist does not decode; and whether `r` is the
/// outcome: the error that stopped the reading, if any.
pub open spec fn piece_scanned<'a>(
    rec: Seq<u8>,
    start: int,
    limit: int,
    items: Seq<Result<Attribute<'a>, NtfsError>>,
    vcn: u64,
    total_clusters: u64,
    r: Result<(), NtfsError>,
) -> bool {
    let stopped = items.len() > 0 && match items.last() {
        Err(_) => true,
        Ok(a) => piece_at(a, vcn) && decoded(a, total_clusters) is None,
    };
    if stopped {
        &&& !piece_fails(items.drop_last(), vcn, total_clusters)
        &&& (walked(rec, start, limit, items) || walk_steps(rec, start, limit, items))
        &&& r matches Err(e)
        &&& match items.last() {
            Err(x) => e == x,
            Ok(_) => e is InvalidRunlist,
        }
    } else {
        &&& !piece_fails(items, vcn, total_clusters)
        &&& walked(rec, start, limit, items)
        &&& r is Ok
    }
}

/// Appends to `runs` the runs of the `$MFT` piece starting at `vcn` held in
/// `ext`, the extension record numbered `record`: an error when `ext` does
/// not name record 0 as its base, or an attribute is malformed, or the
/// piece's runlist does not decode.
pub fn mft_extension_runs<'r>(
    ext: &'r FileRecord,
    record: u64,
    vcn: u64,
    total_clusters: u64,
    runs: &mut Vec<NtfsRun>,
) -> (r: Result<(), NtfsError>)
    ensures
        ext.spec_header().base_reference.record != MFT_RECORD ==> r == Err::<(), NtfsError>(
            NtfsError::InvalidRecord {
                record,
                reason: "$MFT extension record does not reference record 0",
            },
        ) && final(runs)@ == old(runs)@,
        ext.spec_header().base_reference.record == MFT_RECORD ==> exists|
            items: Seq<Result<Attribute<'r>, NtfsError>>,
        |
            #[trigger] piece_scanned(
                ext.spec_data(),
                ext.spec_header().first_attribute_offset as int,
                ext.spec_header().used_size as int,
                items,
                vcn,
                total_clusters,
                r,
            ) && final(runs)@ == old(runs)@ + piece_runs(items, vcn, total_clusters),
{
    if ext.header().base_reference.record != MFT_RECORD {
        return Err(
            NtfsError::InvalidRecord {
                record,
                reason: "$MFT extension record does not reference record 0",
            },
        );
    }
    let mut it = ext.attributes();
    let ghost rec = ext.spec_data();
    let ghost start = ext.spec_header().first_attribute_offset as int;
    let ghost limit = ext.spec_header().used_size as int;
    let ghost before = runs@;
    let ghost mut items: Seq<Result<Attribute<'r>, NtfsError>> = Seq::empty();
    loop
        invariant_except_break
            !it.spec_done(),
            it.spec_pos() == walk_end(start, items),
        invariant
            walk_steps(rec, start, limit, items),
            it.spec_record() == rec,
            it.spec_limit() as int == limit,
            rec == ext.spec_data(),
            start == ext.spec_header().first_attribute_offset as int,
            limit == ext.spec_header().used_size as int,
            !piece_fails(items, vcn, total_clusters),
            runs@ == before + piece_runs(items, vcn, total_clusters),
            ext.spec_header().base_reference.record == MFT_RECORD,
            before == old(runs)@,
        ensures
            walked(rec, start, limit, items),
        decreases (if it.spec_pos() <= rec.len() {
            rec.len() - it.spec_pos()
        } else {
            0
        }),
    {
        let item = it.next_attribute();
        match item {
            None => {
                break;
            },
            Some(Err(e)) => {
                proof {
                    let ni = items.push(Err(e));
                    assert(ni.drop_last() =~= items);
                    assert(walked(rec, start, limit, ni));
                    assert(runs@ =~= before + piece_runs(ni, vcn, total_clusters));
                    assert(piece_scanned(rec, start, limit, ni, vcn, total_clusters, Err(e)));
                }
                return Err(e);
            },
            Some(Ok(a)) => {
                let ghost ni = items.push(Ok(a));
                proof {
                    assert(ni.drop_last() =~= items);
                    assert(walk_steps(rec, start, limit, ni));
                }
                if a.header.attribute_type == AttributeType::Data && a.is_unnamed() {
                    if let AttributeBody::NonResident { header, mapping_pairs } = &a.body {
                        if header.starting_vcn == vcn {
                            match decode_runlist(mapping_pairs, header.starting_vcn, total_clusters) {
                                Ok(r) => {
                                    let mut r = r;
                                    runs.append(&mut r);
                                },
                                Err(e) => {
                                    proof {
                                        assert(runs@ =~= before + piece_runs(ni, vcn, total_clusters));
                                        assert(piece_scanned(
                                            rec,
                                            start,
                                            limit,
                                            ni,
                                            vcn,
                                            total_clusters,
                                            Err(e),
                                        ));
                                    }
                                    return Err(e);
                                },
                            }
                        }
                    }
                }
                proof {
                    assert forall|i: int| 0 <= i < ni.len() implies !match #[trigger] ni[i] {
                        Ok(x) => piece_at(x, vcn) && decoded(x, total_clusters) is None,
                        Err(_) => true,
                    } by {
                        if i < items.len() {
                            assert(ni[i] == items[i]);
                        }
                    }
                    assert(runs@ =~= before + piece_runs(ni, vcn, total_clusters));
                    items = ni;
                }
            },
        }
    }
    proof {
        assert(piece_scanned(rec, start, limit, items, vcn, total_clusters, Ok(())));
    }
    Ok(())
}

/// Refuses a `$MFT` attribute list longer than
/// [`MAX_MFT_ATTRIBUTE_LIST_BYTES`].
pub fn check_mft_list_len(len: u64) -> (r: Result<(), NtfsError>)
    ensures
        len <= MAX_MFT_ATTRIBUTE_LIST_BYTES ==> r is Ok,
        len > MAX_MFT_ATTRIBUTE_LIST_BYTES ==> r == Err::<(), NtfsError>(
            NtfsError::Unsupported("$MFT attribute list is unreasonably large"),
        ),
{
    if len > MAX_MFT_ATTRIBUTE_LIST_BYTES {
        Err(NtfsError::Unsupported("$MFT attribute list is unreasonably large"))
    } else {
        Ok(())
    }
}

/// Where the MFT's records lie: `record_count` records of `record_size`
/// bytes, read through the MFT stream.
#[derive(Debug, Clone, Copy, PartialEq, Eq, Structural)]
pub struct MftGeometry {
    /// Size of one record in bytes.
    pub record_size: u32,
    /// Bytes per sector (the update sequence stride).
    pub stride: usize,
    /// Number of records.
    pub record_count: u64,
    /// Whether record 0 had to be taken from `$MFTMirr`.
    pub used_mirror: bool,
}

/// Checks the record geometry the boot sector declares: records need a
/// size and sectors room for their update sequence number (at least 4
/// bytes); [`NtfsError::InvalidBootSector`] otherwise.
pub fn check_record_geometry(record_size: u32, stride: usize) -> (r: Result<(), NtfsError>)
    ensures
        r is Ok <==> record_size > 0 && stride >= 4,
        r matches Err(e) ==> e is InvalidBootSector,
{
    if record_size == 0 || stride < 4 {
        return Err(NtfsError::InvalidBootSector("MFT record size"));
    }
    Ok(())
}

/// Where record 0 of `$MFT` comes from.
#[derive(Debug)]
pub enum RecordZero {
    /// A record that parsed: the primary copy, else the `$MFTMirr` one.
    Found {
        /// The record.
        record: FileRecord,
        /// It is the `$MFTMirr` copy.
        used_mirror: bool,
    },
    /// The primary copy failed: the `$MFTMirr` copy is to be read.
    ReadMirror,
    /// Neither copy parsed.
    Unreadable {
        /// Why the primary copy failed.
        primary: NtfsError,
        /// Why the `$MFTMirr` copy failed.
        mirror: NtfsError,
    },
}

/// Picks record 0 of `$MFT` from the parse of its primary copy and, once
/// that failed, of its `$MFTMirr` copy (`mirror`, `None` until read): the
/// primary when it parsed; else the mirror is asked for; else the mirror
/// when it parsed; else both errors.
pub fn record_zero(primary: Result<FileRecord, NtfsError>, mirror: Option<Result<FileRecord, NtfsError>>) -> (r:
    RecordZero)
    ensures
        match primary {
            Ok(p) => r == RecordZero::Found { record: p, used_mirror: false },
            Err(pe) => match mirror {
                None => r is ReadMirror,
                Some(Ok(m)) => r == RecordZero::Found { record: m, used_mirror: true },
                Some(Err(me)) => r == RecordZero::Unreadable { primary: pe, mirror: me },
            },
        },
{
    match primary {
        Ok(p) => RecordZero::Found { record: p, used_mirror: false },
        Err(pe) => match mirror {
            None => RecordZero::ReadMirror,
            Some(Ok(m)) => RecordZero::Found { record: m, used_mirror: true },
            Some(Err(me)) => RecordZero::Unreadable { primary: pe, mirror: me },
        },
    }
}

impl MftGeometry {
    /// The geometry of an MFT of `real_size` bytes in records of
    /// `record_size` bytes.
    pub fn new(record_size: u32, stride: usize, real_size: u64, used_mirror: bool) -> (g: Self)
        requires
            record_size > 0,
        ensures
            g.record_size == record_size,
            g.stride == stride,
            g.record_count == real_size / (record_size as u64),
            g.used_mirror == used_mirror,
    {
        MftGeometry { record_size, stride, record_count: real_size / (record_size as u64), used_mirror }
    }

    /// Number of records in the MFT.
    pub fn record_count(&self) -> (n: u64)
        ensures
            n == self.record_count,
    {
        self.record_count
    }

    /// Size of one record in bytes.
    pub fn record_size(&self) -> (n: u32)
        ensures
            n == self.record_size,
    {
        self.record_size
    }

    /// Byte offset of record `number` in the MFT stream: an error beyond
    /// the last record, or when the offset does not fit in 64 bits.
    pub fn record_offset(&self, number: u64) -> (r: Result<u64, NtfsError>)
        ensures
            number >= self.record_count ==> r == Err::<u64, NtfsError>(NtfsError::NoSuchRecord(number)),
            number < self.record_count && number * self.record_size <= u64::MAX ==> r == Ok::<u64, NtfsError>(
                (number * self.record_size) as u64,
            ),
            number < self.record_count && number * self.record_size > u64::MAX ==> r == Err::<u64, NtfsError>(
                NtfsError::Overflow,
            ),
    {
        if number >= self.record_count {
            return Err(NtfsError::NoSuchRecord(number));
        }
        match number.checked_mul(self.record_size as u64) {
            Some(o) => Ok(o),
            None => Err(NtfsError::Overflow),
        }
    }
}

} // verus!
