//! Decisions taken on sysfs names and paths: which devices are listed,
//! what they are called, which bus they hang off, and device numbers.

use vstd::prelude::*;
use vstd::string::StrSliceExecFns;

use crate::device::model::DeviceBus;

verus! {

/// The characters of `s`.
pub fn chars_of(s: &str) -> (v: Vec<char>)
    ensures
        v@ == s@,
{
    let n = s.unicode_len();
    let mut v: Vec<char> = Vec::new();
    let mut i: usize = 0;
    while i < n
        invariant
            n == s@.len(),
            i <= n,
            v@ =~= s@.subrange(0, i as int),
        decreases n - i,
    {
        v.push(s.get_char(i));
        i = i + 1;
    }
    v
}

/// Whether `pat` occurs in `hay` at position `i`.
pub open spec fn occurs_at(hay: Seq<char>, pat: Seq<char>, i: int) -> bool {
    0 <= i && i + pat.len() <= hay.len() && hay.subrange(i, i + pat.len()) == pat
}

/// Whether `pat` occurs in `hay`.
pub open spec fn contains(hay: Seq<char>, pat: Seq<char>) -> bool {
    exists|i: int| #[trigger] occurs_at(hay, pat, i)
}

/// Whether `hay` starts with `pat`.
pub open spec fn starts_with(hay: Seq<char>, pat: Seq<char>) -> bool {
    occurs_at(hay, pat, 0)
}

fn occurs_at_exec(hay: &[char], pat: &[char], i: usize) -> (r: bool)
    requires
        i <= hay@.len(),
    ensures
        r == occurs_at(hay@, pat@, i as int),
{
    let n = pat.len();
    let m = hay.len();
    if n > m - i {
        return false;
    }
    let mut k: usize = 0;
    while k < n
        invariant
            n == pat@.len(),
            m == hay@.len(),
            i + n <= hay@.len(),
            k <= n,
            forall|j: int| 0 <= j < k ==> hay@[i + j] == pat@[j],
        decreases n - k,
    {
        if hay[i + k] != pat[k] {
            assert(hay@.subrange(i as int, i + n)[k as int] != pat@[k as int]);
            return false;
        }
        k = k + 1;
    }
    assert(hay@.subrange(i as int, i + n) =~= pat@);
    true
}

/// Whether `pat` occurs in `hay`.
pub fn contains_chars(hay: &[char], pat: &[char]) -> (r: bool)
    ensures
        r == contains(hay@, pat@),
{
    let m = hay.len();
    let mut i: usize = 0;
    while i < m
        invariant
            m == hay@.len(),
            i <= m,
            forall|j: int| 0 <= j < i ==> !#[trigger] occurs_at(hay@, pat@, j),
        decreases m - i,
    {
        if occurs_at_exec(hay, pat, i) {
            return true;
        }
        i = i + 1;
    }
    if occurs_at_exec(hay, pat, m) {
        return true;
    }
    proof {
        assert forall|j: int| !#[trigger] occurs_at(hay@, pat@, j) by {
            if 0 <= j && j + pat@.len() <= hay@.len() && j != m {
                assert(j < m);
            }
        }
    }
    false
}

/// Whether `hay` starts with `pat`.
pub fn starts_with_chars(hay: &[char], pat: &[char]) -> (r: bool)
    ensures
        r == starts_with(hay@, pat@),
{
    occurs_at_exec(hay, pat, 0)
}

/// Whether the text `t` occurs in `hay`.
fn has(hay: &[char], t: &str) -> (r: bool)
    ensures
        r == contains(hay@, t@),
{
    let p = chars_of(t);
    contains_chars(hay, p.as_slice())
}

/// Whether `hay` starts with the text `t`.
fn begins(hay: &[char], t: &str) -> (r: bool)
    ensures
        r == starts_with(hay@, t@),
{
    let p = chars_of(t);
    starts_with_chars(hay, p.as_slice())
}

/// The bus of a device named `name` whose sysfs directory resolves to
/// `sys` and whose `device` link resolves to `dev` (empty when it does
/// not resolve): virtual for `/devices/virtual/`, loop, device-mapper and
/// md devices; else by what the two paths (joined by a space) or the name
/// show, in this order: NVMe, USB, SD/MMC, ATA, virtio/Xen, SAS hosts.
pub open spec fn bus_of(name: Seq<char>, sys: Seq<char>, dev: Seq<char>) -> DeviceBus {
    let hay = sys + seq![' '] + dev;
    if contains(sys, "/devices/virtual/"@) || starts_with(name, "loop"@) || starts_with(name, "dm-"@)
        || starts_with(name, "md"@) {
        DeviceBus::Virtual
    } else if contains(hay, "/nvme/"@) || starts_with(name, "nvme"@) {
        DeviceBus::Nvme
    } else if contains(hay, "/usb"@) {
        DeviceBus::Usb
    } else if contains(hay, "/mmc"@) || starts_with(name, "mmcblk"@) {
        DeviceBus::Sd
    } else if contains(hay, "/ata"@) {
        DeviceBus::Sata
    } else if contains(hay, "/virtio"@) || starts_with(name, "vd"@) || starts_with(name, "xvd"@) {
        DeviceBus::Virtual
    } else if contains(hay, "/host"@) && (contains(hay, "sas"@) || contains(hay, "/expander"@)) {
        DeviceBus::Sas
    } else {
        DeviceBus::Unknown
    }
}

/// Classifies the bus of a device (see [`bus_of`]).
pub fn classify_bus(name: &str, sys: &str, dev: &str) -> (b: DeviceBus)
    ensures
        b == bus_of(name@, sys@, dev@),
{
    let n = chars_of(name);
    let s = chars_of(sys);
    let mut hay = chars_of(sys);
    hay.push(' ');
    let d = chars_of(dev);
    let mut k: usize = 0;
    let ghost h0 = hay@;
    while k < d.len()
        invariant
            k <= d@.len(),
            hay@ =~= h0 + d@.subrange(0, k as int),
        decreases d@.len() - k,
    {
        hay.push(d[k]);
        k = k + 1;
    }
    assert(hay@ =~= sys@ + seq![' '] + dev@);
    let n = n.as_slice();
    let s = s.as_slice();
    let h = hay.as_slice();
    if has(s, "/devices/virtual/") || begins(n, "loop") || begins(n, "dm-") || begins(n, "md") {
        DeviceBus::Virtual
    } else if has(h, "/nvme/") || begins(n, "nvme") {
        DeviceBus::Nvme
    } else if has(h, "/usb") {
        DeviceBus::Usb
    } else if has(h, "/mmc") || begins(n, "mmcblk") {
        DeviceBus::Sd
    } else if has(h, "/ata") {
        DeviceBus::Sata
    } else if has(h, "/virtio") || begins(n, "vd") || begins(n, "xvd") {
        DeviceBus::Virtual
    } else if has(h, "/host") && (has(h, "sas") || has(h, "/expander")) {
        DeviceBus::Sas
    } else {
        DeviceBus::Unknown
    }
}

/// Whether a device named `name` of `size` bytes is left out of the list:
/// RAM disks, and detached loop devices and empty optical drives.
pub open spec fn skipped_device(name: Seq<char>, size: u64) -> bool {
    starts_with(name, "ram"@) || starts_with(name, "zram"@) || (size == 0 && (starts_with(name, "loop"@)
        || starts_with(name, "sr"@)))
}

/// Whether a device is left out of the list (see [`skipped_device`]).
pub fn skip_device(name: &str, size: u64) -> (r: bool)
    ensures
        r == skipped_device(name@, size),
{
    let n = chars_of(name);
    let n = n.as_slice();
    begins(n, "ram") || begins(n, "zram") || (size == 0 && (begins(n, "loop") || begins(n, "sr")))
}

/// Display name of a device: vendor and model when the vendor is not
/// empty, else the model, else the kernel name.
pub fn display_name(vendor: Option<&str>, model: Option<&str>, name: &str) -> (r: String)
    ensures
        r@ == match (vendor, model) {
            (Some(v), Some(m)) => if v@.len() > 0 {
                v@ + seq![' '] + m@
            } else {
                m@
            },
            (None, Some(m)) => m@,
            _ => name@,
        },
{
    match (vendor, model) {
        (Some(v), Some(m)) => {
            if !v.is_empty() {
                let mut s = v.to_owned();
                crate::text::push_char(&mut s, ' ');
                crate::text::push_str(&mut s, m);
                s
            } else {
                m.to_owned()
            }
        },
        (None, Some(m)) => m.to_owned(),
        _ => name.to_owned(),
    }
}

/// Major number of a Linux device number.
pub fn major(dev: u64) -> (r: u64)
    ensures
        r == ((dev >> 32u64) & 0xFFFF_F000u64) | ((dev >> 8u64) & 0xFFFu64),
{
    ((dev >> 32u64) & 0xFFFF_F000u64) | ((dev >> 8u64) & 0xFFFu64)
}

/// Minor number of a Linux device number.
pub fn minor(dev: u64) -> (r: u64)
    ensures
        r == ((dev >> 12u64) & 0xFFFF_FF00u64) | (dev & 0xFFu64),
{
    ((dev >> 12u64) & 0xFFFF_FF00u64) | (dev & 0xFFu64)
}

} // verus!
