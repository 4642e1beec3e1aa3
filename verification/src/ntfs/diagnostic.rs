//! Diagnostics attached to files, paths and candidates.

use vstd::prelude::*;

use crate::text::{debug_text, decimal, hex, push_debug, push_decimal, push_hex, push_str};

verus! {

/// A finding made while interpreting NTFS structures. Diagnostics never
/// abort processing; they qualify the result.
#[derive(Debug, Clone, PartialEq, Eq)]
pub enum NtfsDiagnostic {
    /// Attribute parsing stopped early; later attributes were lost.
    AttributeError {
        /// Offset of the offending attribute.
        offset: usize,
        /// Why.
        reason: String,
    },
    /// An attribute type that is not interpreted was skipped.
    UnknownAttribute {
        /// Type code.
        code: u32,
    },
    /// The `$ATTRIBUTE_LIST` could not be fully honoured.
    AttributeListIncomplete {
        /// Why.
        reason: String,
    },
    /// An extension record named by the attribute list could not be used.
    ExtensionRecordUnavailable {
        /// Record number.
        record: u64,
        /// Why.
        reason: String,
    },
    /// A data stream is NTFS-compressed; content recovery is unsupported.
    CompressedStream {
        /// Stream name.
        name: Option<String>,
    },
    /// A data stream is EFS-encrypted; content is unusable without keys.
    EncryptedStream {
        /// Stream name.
        name: Option<String>,
    },
    /// A runlist could not be decoded completely.
    RunlistError {
        /// Stream name.
        name: Option<String>,
        /// Why.
        reason: String,
    },
    /// The runlist does not cover the whole allocated size.
    RunlistIncomplete {
        /// Stream name.
        name: Option<String>,
        /// Clusters covered by runs.
        covered_clusters: u64,
        /// Clusters expected from the allocated size.
        expected_clusters: u64,
    },
    /// The parent reference points at a record that has since been reused.
    ParentReferenceStale {
        /// Parent record number.
        parent: u64,
        /// Sequence number stored in the reference.
        expected_sequence: u16,
        /// Sequence number of the record now.
        actual_sequence: u16,
    },
    /// The parent directory record is itself deleted (its name still exists).
    ParentDeleted {
        /// Parent record number.
        parent: u64,
    },
    /// The parent record could not be read.
    ParentUnreadable {
        /// Parent record number.
        parent: u64,
        /// Why.
        reason: String,
    },
    /// The parent record has no usable name.
    ParentUnnamed {
        /// Parent record number.
        parent: u64,
    },
    /// The parent chain exceeded the depth limit.
    PathDepthExceeded,
    /// The parent chain loops.
    PathLoop,
    /// The record has no `$FILE_NAME`; the file is anonymous.
    NoFileName,
    /// A name was not valid UTF-16 and was decoded lossily.
    NameInvalidUtf16,
}

/// How a stream is named in messages: `unnamed stream`, or `stream ` and
/// the quoted name.
pub open spec fn stream_text(name: Option<String>) -> Seq<char> {
    match name {
        None => "unnamed stream"@,
        Some(n) => "stream "@ + debug_text(n@),
    }
}

/// The message of a diagnostic.
pub open spec fn diagnostic_text(d: NtfsDiagnostic) -> Seq<char> {
    match d {
        NtfsDiagnostic::AttributeError { offset, reason } => "attribute parsing stopped at offset "@
            + decimal(offset as nat) + ": "@ + reason@,
        NtfsDiagnostic::UnknownAttribute { code } => "unknown attribute type 0x"@ + hex(code as nat)
            + " skipped"@,
        NtfsDiagnostic::AttributeListIncomplete { reason } => "$ATTRIBUTE_LIST incomplete: "@ + reason@,
        NtfsDiagnostic::ExtensionRecordUnavailable { record, reason } => "extension record "@ + decimal(
            record as nat,
        ) + " unavailable: "@ + reason@,
        NtfsDiagnostic::CompressedStream { name } => stream_text(name)
            + " is NTFS-compressed (recovery unsupported)"@,
        NtfsDiagnostic::EncryptedStream { name } => stream_text(name) + " is EFS-encrypted"@,
        NtfsDiagnostic::RunlistError { name, reason } => stream_text(name) + " runlist invalid: "@
            + reason@,
        NtfsDiagnostic::RunlistIncomplete { name, covered_clusters, expected_clusters } => stream_text(
            name,
        ) + " runlist covers "@ + decimal(covered_clusters as nat) + " of "@ + decimal(
            expected_clusters as nat,
        ) + " clusters"@,
        NtfsDiagnostic::ParentReferenceStale { parent, expected_sequence, actual_sequence } =>
            "parent record "@ + decimal(parent as nat) + " has been reused (sequence "@ + decimal(
            actual_sequence as nat,
        ) + ", expected "@ + decimal(expected_sequence as nat) + ")"@,
        NtfsDiagnostic::ParentDeleted { parent } => "parent directory record "@ + decimal(parent as nat)
            + " is deleted"@,
        NtfsDiagnostic::ParentUnreadable { parent, reason } => "parent record "@ + decimal(
            parent as nat,
        ) + " unreadable: "@ + reason@,
        NtfsDiagnostic::ParentUnnamed { parent } => "parent record "@ + decimal(parent as nat)
            + " has no name"@,
        NtfsDiagnostic::PathDepthExceeded => "parent chain exceeds the depth limit"@,
        NtfsDiagnostic::PathLoop => "parent chain loops"@,
        NtfsDiagnostic::NoFileName => "record has no $FILE_NAME attribute"@,
        NtfsDiagnostic::NameInvalidUtf16 => "name contained invalid UTF-16"@,
    }
}

fn push_stream(s: &mut String, name: &Option<String>)
    ensures
        final(s)@ == old(s)@ + stream_text(*name),
{
    match name {
        None => push_str(s, "unnamed stream"),
        Some(n) => {
            push_str(s, "stream ");
            push_debug(s, n.as_str());
        },
    }
}

impl NtfsDiagnostic {
    /// The message (see [`diagnostic_text`]).
    pub fn to_text(&self) -> (t: String)
        ensures
            t@ == diagnostic_text(*self),
    {
        let mut s = String::new();
        match self {
            NtfsDiagnostic::AttributeError { offset, reason } => {
                push_str(&mut s, "attribute parsing stopped at offset ");
                push_decimal(&mut s, *offset as u64);
                push_str(&mut s, ": ");
                push_str(&mut s, reason.as_str());
            },
            NtfsDiagnostic::UnknownAttribute { code } => {
                push_str(&mut s, "unknown attribute type 0x");
                push_hex(&mut s, *code as u64);
                push_str(&mut s, " skipped");
            },
            NtfsDiagnostic::AttributeListIncomplete { reason } => {
                push_str(&mut s, "$ATTRIBUTE_LIST incomplete: ");
                push_str(&mut s, reason.as_str());
            },
            NtfsDiagnostic::ExtensionRecordUnavailable { record, reason } => {
                push_str(&mut s, "extension record ");
                push_decimal(&mut s, *record);
                push_str(&mut s, " unavailable: ");
                push_str(&mut s, reason.as_str());
            },
            NtfsDiagnostic::CompressedStream { name } => {
                push_stream(&mut s, name);
                push_str(&mut s, " is NTFS-compressed (recovery unsupported)");
            },
            NtfsDiagnostic::EncryptedStream { name } => {
                push_stream(&mut s, name);
                push_str(&mut s, " is EFS-encrypted");
            },
            NtfsDiagnostic::RunlistError { name, reason } => {
                push_stream(&mut s, name);
                push_str(&mut s, " runlist invalid: ");
                push_str(&mut s, reason.as_str());
            },
            NtfsDiagnostic::RunlistIncomplete { name, covered_clusters, expected_clusters } => {
                push_stream(&mut s, name);
                push_str(&mut s, " runlist covers ");
                push_decimal(&mut s, *covered_clusters);
                push_str(&mut s, " of ");
                push_decimal(&mut s, *expected_clusters);
                push_str(&mut s, " clusters");
            },
            NtfsDiagnostic::ParentReferenceStale { parent, expected_sequence, actual_sequence } => {
                push_str(&mut s, "parent record ");
                push_decimal(&mut s, *parent);
                push_str(&mut s, " has been reused (sequence ");
                push_decimal(&mut s, *actual_sequence as u64);
                push_str(&mut s, ", expected ");
                push_decimal(&mut s, *expected_sequence as u64);
                push_str(&mut s, ")");
            },
            NtfsDiagnostic::ParentDeleted { parent } => {
                push_str(&mut s, "parent directory record ");
                push_decimal(&mut s, *parent);
                push_str(&mut s, " is deleted");
            },
            NtfsDiagnostic::ParentUnreadable { parent, reason } => {
                push_str(&mut s, "parent record ");
                push_decimal(&mut s, *parent);
                push_str(&mut s, " unreadable: ");
                push_str(&mut s, reason.as_str());
            },
            NtfsDiagnostic::ParentUnnamed { parent } => {
                push_str(&mut s, "parent record ");
                push_decimal(&mut s, *parent);
                push_str(&mut s, " has no name");
            },
            NtfsDiagnostic::PathDepthExceeded => push_str(&mut s, "parent chain exceeds the depth limit"),
            NtfsDiagnostic::PathLoop => push_str(&mut s, "parent chain loops"),
            NtfsDiagnostic::NoFileName => push_str(&mut s, "record has no $FILE_NAME attribute"),
            NtfsDiagnostic::NameInvalidUtf16 => push_str(&mut s, "name contained invalid UTF-16"),
        }
        s
    }
}

} // verus!
