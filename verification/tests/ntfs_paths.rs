use phoinix_fs_native::ntfs::diagnostic::NtfsDiagnostic;
use phoinix_fs_native::ntfs::record::FileReference;
use phoinix_fs_native::ntfs::tree::{ParentEntry, PathWalk, ResolvedPath, MAX_PARENT_DEPTH};

fn r(record: u64, sequence: u16) -> FileReference {
    FileReference { record, sequence }
}

fn dir(name: &str, parent: FileReference, sequence: u16, in_use: bool) -> ParentEntry {
    ParentEntry { name: Some(name.to_string()), parent: Some(parent), sequence, in_use }
}

/// Walks up from a file with the given lookup.
fn resolve(record: u64, name: &str, parent: FileReference, lookup: impl Fn(u64) -> Result<ParentEntry, String>) -> ResolvedPath {
    let mut w = PathWalk::new(record, name.to_string(), parent);
    while let Some(next) = w.next_record() {
        w.take(lookup(next));
    }
    w.finish()
}

#[test]
fn path_up_to_the_root() {
    let p = resolve(40, "doc.txt", r(30, 2), |n| match n {
        30 => Ok(dir("docs", r(20, 1), 2, true)),
        20 => Ok(dir("Users", r(5, 5), 1, true)),
        _ => Err("missing".to_string()),
    });
    assert_eq!(p.path, "\\Users\\docs\\doc.txt");
    assert!(!p.uncertain && !p.via_deleted_directory);
    assert!(p.diagnostics.is_empty());
}

#[test]
fn deleted_parent_freed_once_is_followed() {
    let p = resolve(40, "doc.txt", r(30, u16::MAX), |n| match n {
        30 => Ok(dir("old", r(5, 5), 0, false)),
        _ => Err("missing".to_string()),
    });
    assert_eq!(p.path, "\\old\\doc.txt");
    assert!(!p.uncertain && p.via_deleted_directory);
    assert_eq!(p.diagnostics, vec![NtfsDiagnostic::ParentDeleted { parent: 30 }]);
}

#[test]
fn reused_parent_makes_the_path_uncertain() {
    let p = resolve(40, "doc.txt", r(30, 2), |_| Ok(dir("other", r(5, 5), 9, true)));
    assert_eq!(p.path, "\\?\\doc.txt");
    assert!(p.uncertain);
    assert_eq!(
        p.diagnostics,
        vec![NtfsDiagnostic::ParentReferenceStale { parent: 30, expected_sequence: 2, actual_sequence: 9 }]
    );
}

#[test]
fn loops_unreadable_and_unnamed_parents() {
    let looped = resolve(40, "a", r(30, 1), |n| match n {
        30 => Ok(dir("b", r(40, 1), 1, true)),
        _ => Err("missing".to_string()),
    });
    assert_eq!(looped.path, "\\?\\b\\a");
    assert_eq!(looped.diagnostics, vec![NtfsDiagnostic::PathLoop]);

    let unreadable = resolve(40, "a", r(30, 1), |_| Err("bad fixup".to_string()));
    assert_eq!(unreadable.path, "\\?\\a");
    assert_eq!(
        unreadable.diagnostics,
        vec![NtfsDiagnostic::ParentUnreadable { parent: 30, reason: "bad fixup".to_string() }]
    );

    let unnamed = resolve(40, "a", r(30, 1), |_| {
        Ok(ParentEntry { name: None, parent: None, sequence: 1, in_use: true })
    });
    assert_eq!(unnamed.diagnostics, vec![NtfsDiagnostic::ParentUnnamed { parent: 30 }]);
    assert!(unnamed.uncertain);
}

#[test]
fn depth_is_limited() {
    // Every ancestor points to the next record number: the chain never ends.
    let p = resolve(1_000_000, "deep", r(10, 1), |n| Ok(dir("d", r(n + 1, 1), 1, true)));
    assert!(p.uncertain);
    assert_eq!(p.diagnostics, vec![NtfsDiagnostic::PathDepthExceeded]);
    assert_eq!(p.path.matches('\\').count(), MAX_PARENT_DEPTH + 2);
}

#[test]
fn files_without_a_name() {
    let p = PathWalk::unnamed(77);
    assert_eq!(p.path, "\\?\\<record 77>");
    assert!(p.uncertain);
    assert_eq!(p.diagnostics, vec![NtfsDiagnostic::NoFileName]);
}

#[test]
fn diagnostic_messages() {
    assert_eq!(NtfsDiagnostic::UnknownAttribute { code: 0x1234 }.to_text(), "unknown attribute type 0x1234 skipped");
    assert_eq!(
        NtfsDiagnostic::RunlistIncomplete { name: Some("ads".to_string()), covered_clusters: 3, expected_clusters: 4 }
            .to_text(),
        "stream \"ads\" runlist covers 3 of 4 clusters"
    );
    assert_eq!(
        NtfsDiagnostic::CompressedStream { name: None }.to_text(),
        "unnamed stream is NTFS-compressed (recovery unsupported)"
    );
    assert_eq!(
        NtfsDiagnostic::ParentReferenceStale { parent: 30, expected_sequence: 2, actual_sequence: 9 }.to_text(),
        "parent record 30 has been reused (sequence 9, expected 2)"
    );
    assert_eq!(NtfsDiagnostic::NoFileName.to_text(), "record has no $FILE_NAME attribute");
}
