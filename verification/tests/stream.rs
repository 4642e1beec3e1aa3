use phoinix_fs_native::ntfs::error::NtfsError;
use phoinix_fs_native::ntfs::runlist::NtfsRun;
use phoinix_fs_native::ntfs::stream::{add_signed, NtfsDataStream, ReadPiece, SeekTarget, StreamCursor};

/// Serves a read plan from the stream's resident value or from `volume`.
fn serve(s: &NtfsDataStream, volume: &[u8], plan: &[ReadPiece], buf: &mut [u8]) -> usize {
    let mut done = 0usize;
    for piece in plan {
        match *piece {
            ReadPiece::Zero(n) => {
                buf[done..done + n].fill(0);
                done += n;
            }
            ReadPiece::Resident { start, len } => {
                let value = s.resident_value().unwrap();
                buf[done..done + len].copy_from_slice(&value[start..start + len]);
                done += len;
            }
            ReadPiece::Volume { offset, len } => {
                let o = offset as usize;
                buf[done..done + len].copy_from_slice(&volume[o..o + len]);
                done += len;
            }
        }
    }
    done
}

fn read_at(s: &NtfsDataStream, volume: &[u8], offset: u64, buf: &mut [u8]) -> Result<usize, NtfsError> {
    let plan = s.read_plan(offset, buf.len())?;
    Ok(serve(s, volume, &plan, buf))
}

fn read_exact_at(s: &NtfsDataStream, volume: &[u8], offset: u64, buf: &mut [u8]) -> Result<(), NtfsError> {
    let n = read_at(s, volume, offset, buf)?;
    assert_eq!(n, buf.len(), "short read");
    Ok(())
}

fn read_all(s: &NtfsDataStream, volume: &[u8], limit: u64) -> Result<Vec<u8>, NtfsError> {
    let n = s.read_all_len(limit)?;
    let mut out = vec![0u8; n];
    read_exact_at(s, volume, 0, &mut out)?;
    Ok(out)
}

fn volume() -> Vec<u8> {
    (0..64 * 1024u32).map(|i| (i % 253) as u8).collect()
}

#[test]
fn resident_stream() {
    let s = NtfsDataStream::resident(b"hello world".to_vec());
    let mut buf = [0u8; 5];
    assert_eq!(read_at(&s, &[], 6, &mut buf).unwrap(), 5);
    assert_eq!(&buf, b"world");
    assert_eq!(read_at(&s, &[], 11, &mut buf).unwrap(), 0);
    assert_eq!(read_all(&s, &[], 1024).unwrap(), b"hello world");
    assert!(read_all(&s, &[], 4).is_err());
}

#[test]
fn fragmented_stream_follows_logical_order() {
    let data = volume();
    // cluster 1024 bytes: VCN 0..2 at LCN 10, VCN 2..3 at LCN 3 (backwards), sparse VCN 3..4, VCN 4..5 at LCN 20
    let runs = vec![
        NtfsRun::Data { vcn: 0, lcn: 10, clusters: 2 },
        NtfsRun::Data { vcn: 2, lcn: 3, clusters: 1 },
        NtfsRun::Sparse { vcn: 3, clusters: 1 },
        NtfsRun::Data { vcn: 4, lcn: 20, clusters: 1 },
    ];
    let s = NtfsDataStream::non_resident(1024, runs, 4600, 4600);
    let all = read_all(&s, &data, 1 << 20).unwrap();
    assert_eq!(all.len(), 4600);
    assert_eq!(&all[..2048], &data[10 * 1024..12 * 1024]);
    assert_eq!(&all[2048..3072], &data[3 * 1024..4 * 1024]);
    assert!(all[3072..4096].iter().all(|b| *b == 0));
    assert_eq!(&all[4096..4600], &data[20 * 1024..20 * 1024 + 504]);
    // Reads that straddle run boundaries.
    let mut buf = [0u8; 100];
    assert_eq!(read_at(&s, &data, 2000, &mut buf).unwrap(), 100);
    assert_eq!(&buf[..48], &data[10 * 1024 + 2000..12 * 1024]);
    assert_eq!(&buf[48..], &data[3 * 1024..3 * 1024 + 52]);
    // Padding beyond the logical size is never exposed.
    assert_eq!(read_at(&s, &data, 4599, &mut buf).unwrap(), 1);
}

#[test]
fn initialized_size_and_gaps() {
    let data = volume();
    let runs = vec![
        NtfsRun::Data { vcn: 0, lcn: 5, clusters: 2 },
        NtfsRun::Data { vcn: 3, lcn: 9, clusters: 1 },
    ];
    let s = NtfsDataStream::non_resident(1024, runs, 4096, 1500);
    let mut buf = vec![0u8; 2048];
    read_exact_at(&s, &data, 0, &mut buf).unwrap();
    assert_eq!(&buf[..1500], &data[5 * 1024..5 * 1024 + 1500]);
    assert!(buf[1500..].iter().all(|b| *b == 0));
    assert!(matches!(read_at(&s, &data, 2048, &mut buf), Err(NtfsError::MissingExtent { vcn: 2 })));
}

/// Reads from the cursor until the stream ends.
fn read_to_end(c: &mut StreamCursor, out: &mut Vec<u8>) {
    loop {
        let mut buf = [0u8; 3];
        let plan = c.read_plan(buf.len()).unwrap();
        let n = serve(c.stream(), &[], &plan, &mut buf);
        if n == 0 {
            break;
        }
        out.extend_from_slice(&buf[..n]);
        c.advance(n);
    }
}

#[test]
fn cursor_read_and_seek() {
    let s = NtfsDataStream::resident((0..=255u8).collect());
    let mut c = StreamCursor::new(s);
    c.seek(SeekTarget::End(-4)).unwrap();
    let mut buf = Vec::new();
    read_to_end(&mut c, &mut buf);
    assert_eq!(buf, vec![252, 253, 254, 255]);
    assert_eq!(c.seek(SeekTarget::Start(10)).unwrap(), 10);
    let mut two = [0u8; 2];
    let plan = c.read_plan(2).unwrap();
    assert_eq!(serve(c.stream(), &[], &plan, &mut two), 2);
    c.advance(2);
    assert_eq!(two, [10, 11]);
    assert!(c.seek(SeekTarget::Current(-100)).is_none());
    assert_eq!(c.position(), 12);
}

#[test]
fn plan_splits_at_initialized_size() {
    let runs = vec![NtfsRun::Data { vcn: 0, lcn: 5, clusters: 2 }];
    let s = NtfsDataStream::non_resident(1024, runs, 2048, 1500);
    let plan = s.read_plan(1000, 1048).unwrap();
    assert_eq!(
        plan,
        vec![ReadPiece::Volume { offset: 5 * 1024 + 1000, len: 500 }, ReadPiece::Zero(548)]
    );
}

#[test]
fn runs_are_put_in_vcn_order() {
    let runs = vec![
        NtfsRun::Data { vcn: 2, lcn: 30, clusters: 1 },
        NtfsRun::Data { vcn: 0, lcn: 10, clusters: 2 },
    ];
    let s = NtfsDataStream::non_resident(0, runs, 3, 3);
    assert_eq!(s.runs()[0].vcn(), 0);
    assert_eq!(s.runs()[1].vcn(), 2);
    // A cluster size of zero counts as one byte.
    assert_eq!(s.read_plan(2, 1).unwrap(), vec![ReadPiece::Volume { offset: 30, len: 1 }]);
}

#[test]
fn run_offsets_that_overflow_are_errors() {
    let runs = vec![NtfsRun::Data { vcn: 0, lcn: u64::MAX / 2, clusters: 4 }];
    let s = NtfsDataStream::non_resident(4096, runs, 100, 100);
    assert_eq!(s.read_plan(0, 10), Err(NtfsError::Overflow));
}

#[test]
fn read_limits() {
    let s = NtfsDataStream::non_resident(512, Vec::new(), 10_000, 0);
    assert_eq!(s.read_all_len(10_000), Ok(10_000));
    assert!(matches!(s.read_all_len(9_999), Err(NtfsError::Unsupported(_))));
    assert!(s.read_plan(10_000, 5).unwrap().is_empty());
    assert!(s.read_plan(0, 0).unwrap().is_empty());
}

#[test]
fn signed_offsets() {
    assert_eq!(add_signed(10, -10), Some(0));
    assert_eq!(add_signed(10, -11), None);
    assert_eq!(add_signed(u64::MAX - 1, 1), Some(u64::MAX));
    assert_eq!(add_signed(u64::MAX, 1), None);
    assert_eq!(add_signed(5, i64::MIN), None);
    assert_eq!(add_signed(u64::MAX, i64::MIN), Some(u64::MAX - (1u64 << 63)));
}
