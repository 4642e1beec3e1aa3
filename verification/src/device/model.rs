//! Platform-neutral device description.

use vstd::prelude::*;

use uuid::Uuid;

verus! {

/// What `Uuid::new_v5` returns for the namespace `namespace` and the name
/// bytes `name`, both UUIDs taken as big-endian 128-bit numbers.
pub uninterp spec fn uuid_v5(namespace: u128, name: Seq<u8>) -> u128;

/// Name-based UUID (version 5) of `name` in `namespace`, with
/// `uuid::Uuid::new_v5`: the UUID is a function of the two arguments alone
/// (it is the SHA-1 of the namespace bytes and the name, with the version
/// and variant bits set); that function is not written out here.
#[verifier::external_body]
fn new_v5(namespace: u128, name: &[u8]) -> (r: u128)
    ensures
        r == uuid_v5(namespace, name@),
{
    Uuid::new_v5(&Uuid::from_u128(namespace), name).as_u128()
}

/// Namespace used to derive stable device identifiers from paths.
pub const DEVICE_NAMESPACE: u128 = 0x9a1f4c2e_7b0d_4e3a_8f61_5c2b9e770142;

/// Identifier of a data source (a device or an image), a UUID.
#[derive(Debug, Clone, Copy, PartialEq, Eq, Hash, Structural)]
pub struct SourceId(pub u128);

/// Platform path of a device (`/dev/sda`, `\\.\PhysicalDrive0`).
#[derive(Debug, Clone, PartialEq, Eq, Hash)]
pub struct DevicePath(String);

impl DevicePath {
    /// The path text.
    pub closed spec fn spec_text(&self) -> Seq<char> {
        self.0@
    }

    /// Wraps a path string.
    pub fn new(path: &str) -> (p: Self)
        ensures
            p.spec_text() == path@,
    {
        DevicePath(path.to_owned())
    }

    /// The path as a string.
    pub fn as_str(&self) -> (s: &str)
        ensures
            s@ == self.spec_text(),
    {
        self.0.as_str()
    }
}

/// Derives a stable [`SourceId`] for a device path so that identifiers
/// printed for a device remain valid across invocations: the name-based
/// UUID of the path's UTF-8 bytes in [`DEVICE_NAMESPACE`].
pub fn device_source_id(path: &DevicePath) -> (id: SourceId)
    ensures
        id.0 == uuid_v5(DEVICE_NAMESPACE, vstd::utf8::encode_utf8(path.spec_text())),
{
    let s = path.as_str();
    let b = s.as_bytes();
    SourceId(new_v5(DEVICE_NAMESPACE, b))
}

/// Transport a device is attached through.
#[derive(Debug, Clone, Copy, PartialEq, Eq, Hash, Structural)]
pub enum DeviceBus {
    /// NVMe.
    Nvme,
    /// SATA / ATA.
    Sata,
    /// SAS / SCSI.
    Sas,
    /// USB.
    Usb,
    /// SD / MMC.
    Sd,
    /// Virtual (loop, device-mapper, hypervisor disks, RAM).
    Virtual,
    /// Not determined.
    Unknown,
}

impl DeviceBus {
    /// Short label for tables.
    pub fn label(&self) -> (s: &'static str)
        ensures
            s@ == match self {
                DeviceBus::Nvme => "NVMe"@,
                DeviceBus::Sata => "SATA"@,
                DeviceBus::Sas => "SAS"@,
                DeviceBus::Usb => "USB"@,
                DeviceBus::Sd => "SD"@,
                DeviceBus::Virtual => "Virtual"@,
                DeviceBus::Unknown => "Unknown"@,
            },
    {
        match self {
            DeviceBus::Nvme => "NVMe",
            DeviceBus::Sata => "SATA",
            DeviceBus::Sas => "SAS",
            DeviceBus::Usb => "USB",
            DeviceBus::Sd => "SD",
            DeviceBus::Virtual => "Virtual",
            DeviceBus::Unknown => "Unknown",
        }
    }
}

/// Whether a device is a whole disk or a partition exposed by the OS.
#[derive(Debug, Clone, Copy, PartialEq, Eq, PartialOrd, Ord, Hash, Structural)]
pub enum DeviceKind {
    /// A whole disk.
    Disk,
    /// A partition node of a disk.
    Partition,
}

/// The whole disk behind a path.
#[derive(Debug, Clone, PartialEq, Eq, Hash)]
pub struct DiskIdentity {
    /// Platform path of the whole disk (`/dev/sda`, `\\.\PhysicalDrive0`).
    pub disk: DevicePath,
}

/// Enumerator for platforms without device support: it lists nothing.
#[derive(Debug, Default, Clone, Copy)]
pub struct NoDevices;

/// Whether `a` is listed no later than `b`: disks before partitions, then
/// by path, character by character.
pub open spec fn listed_before(a: (DeviceKind, Seq<char>), b: (DeviceKind, Seq<char>)) -> bool {
    (a.0 == DeviceKind::Disk && b.0 == DeviceKind::Partition) || (a.0 == b.0 && crate::ntfs::finish::text_le(
        a.1,
        b.1,
    ))
}

/// The order in which devices `(kind, path)` are listed, as indices into
/// `devices`: a stable sort by [`listed_before`].
pub fn listing_order(devices: &[(DeviceKind, String)]) -> (order: Vec<usize>)
    ensures
        order@ == crate::ntfs::assemble::sort_by(
            Seq::new(devices@.len(), |i: int| i as usize),
            |a: usize, b: usize| listed_before(
                (devices@[a as int].0, devices@[a as int].1@),
                (devices@[b as int].0, devices@[b as int].1@),
            ),
        ),
        order@.len() == devices@.len(),
{
    let ghost le = |a: usize, b: usize| listed_before(
        (devices@[a as int].0, devices@[a as int].1@),
        (devices@[b as int].0, devices@[b as int].1@),
    );
    let ghost all = Seq::new(devices@.len(), |i: int| i as usize);
    let mut out: Vec<usize> = Vec::new();
    let mut i: usize = 0;
    while i < devices.len()
        invariant
            i <= devices@.len(),
            all == Seq::new(devices@.len(), |i: int| i as usize),
            le == (|a: usize, b: usize| listed_before(
                (devices@[a as int].0, devices@[a as int].1@),
                (devices@[b as int].0, devices@[b as int].1@),
            )),
            out@ == crate::ntfs::assemble::sort_by(all.take(i as int), le),
            forall|j: int| 0 <= j < out@.len() ==> #[trigger] out@[j] < devices@.len(),
        decreases devices@.len() - i,
    {
        proof {
            assert(all.take(i + 1).drop_last() =~= all.take(i as int));
            assert(all.take(i + 1).last() == i);
        }
        let mut k = out.len();
        while k > 0 && !before_or_same(&devices[out[k - 1]], &devices[i])
            invariant
                k <= out@.len(),
                i < devices@.len(),
                le == (|a: usize, b: usize| listed_before(
                    (devices@[a as int].0, devices@[a as int].1@),
                    (devices@[b as int].0, devices@[b as int].1@),
                )),
                forall|j: int| 0 <= j < out@.len() ==> #[trigger] out@[j] < devices@.len(),
                forall|j: int| k <= j < out@.len() ==> !le(#[trigger] out@[j], i),
            decreases k,
        {
            k = k - 1;
        }
        proof {
            if k > 0 {
                assert(le(out@[k - 1], i));
            }
            crate::ntfs::assemble::lemma_insert_at(out@, i, le, k as int);
        }
        let ghost before = out@;
        out.insert(k, i);
        assert(out@ =~= before.take(k as int).push(i) + before.skip(k as int));
        proof {
            assert forall|j: int| 0 <= j < out@.len() implies #[trigger] out@[j] < devices@.len() by {
                if j < k {
                    assert(out@[j] == before[j]);
                } else if j > k {
                    assert(out@[j] == before[j - 1]);
                }
            }
        }
        i = i + 1;
    }
    assert(all.take(devices@.len() as int) =~= all);
    proof {
        lemma_sorted_len(all, le);
    }
    out
}

proof fn lemma_sorted_len<T>(s: Seq<T>, le: spec_fn(T, T) -> bool)
    ensures
        crate::ntfs::assemble::sort_by(s, le).len() == s.len(),
    decreases s.len(),
{
    if s.len() > 0 {
        lemma_sorted_len(s.drop_last(), le);
        crate::ntfs::assemble::lemma_insert_by_elements(crate::ntfs::assemble::sort_by(s.drop_last(), le), s.last(), le);
    }
}

fn before_or_same(a: &(DeviceKind, String), b: &(DeviceKind, String)) -> (r: bool)
    ensures
        r == listed_before((a.0, a.1@), (b.0, b.1@)),
{
    match (a.0, b.0) {
        (DeviceKind::Disk, DeviceKind::Partition) => true,
        (DeviceKind::Disk, DeviceKind::Disk) | (DeviceKind::Partition, DeviceKind::Partition) => {
            crate::ntfs::finish::text_le_exec(a.1.as_str(), b.1.as_str())
        },
        _ => false,
    }
}

} // verus!
