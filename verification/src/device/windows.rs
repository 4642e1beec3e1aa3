//! Windows device paths: recognising `\\.\PhysicalDriveN`, naming a
//! physical drive, turning a volume root into a device handle path, and
//! reading the disk number out of a `STORAGE_DEVICE_NUMBER` reply.

use vstd::prelude::*;

use crate::bytes::{le32, read_u32};
use crate::device::model::DevicePath;
use crate::device::names::{chars_of, starts_with, starts_with_chars};
use crate::text::{decimal, push_char, push_decimal};

verus! {

/// `\\.\PhysicalDrive`, the prefix of a physical drive path.
pub open spec fn drive_prefix() -> Seq<char> {
    seq!['\\', '\\', '.', '\\', 'P', 'h', 'y', 's', 'i', 'c', 'a', 'l', 'D', 'r', 'i', 'v', 'e']
}

/// `\\.\`, the prefix of a path in the device namespace.
pub open spec fn device_prefix() -> Seq<char> {
    seq!['\\', '\\', '.', '\\']
}

/// `\\?\`, the prefix of a path in the verbatim namespace.
pub open spec fn verbatim_prefix() -> Seq<char> {
    seq!['\\', '\\', '?', '\\']
}

/// Whether every character of `s` is an ASCII digit.
pub open spec fn all_digits(s: Seq<char>) -> bool {
    forall|i: int| 0 <= i < s.len() ==> '0' <= #[trigger] s[i] && s[i] <= '9'
}

/// The value of the decimal digits `s`.
pub open spec fn digits_value(s: Seq<char>) -> int
    decreases s.len(),
{
    if s.len() == 0 {
        0
    } else {
        digits_value(s.drop_last()) * 10 + (s.last() as int - 48)
    }
}

/// What parsing `s` as a `u32` gives: an optional `+`, then at least one
/// decimal digit and nothing else, with a value that fits.
pub open spec fn parsed_u32(s: Seq<char>) -> Option<u32> {
    let d = if s.len() > 0 && s[0] == '+' {
        s.drop_first()
    } else {
        s
    };
    if d.len() > 0 && all_digits(d) && digits_value(d) <= u32::MAX {
        Some(digits_value(d) as u32)
    } else {
        None
    }
}

proof fn lemma_digits_grow(s: Seq<char>, j: int, k: int)
    requires
        all_digits(s),
        0 <= j <= k <= s.len(),
    ensures
        0 <= digits_value(s.subrange(0, j)) <= digits_value(s.subrange(0, k)),
    decreases k - j,
{
    if j < k {
        lemma_digits_grow(s, j, k - 1);
        assert(s.subrange(0, k).drop_last() =~= s.subrange(0, k - 1));
        assert(s.subrange(0, k).last() == s[k - 1]);
    } else {
        lemma_digits_nonneg(s.subrange(0, j));
    }
}

proof fn lemma_digits_nonneg(s: Seq<char>)
    requires
        all_digits(s),
    ensures
        digits_value(s) >= 0,
    decreases s.len(),
{
    if s.len() > 0 {
        assert(all_digits(s.drop_last())) by {
            assert forall|i: int| 0 <= i < s.drop_last().len() implies '0' <= #[trigger] s.drop_last()[i]
                && s.drop_last()[i] <= '9' by {
                assert(s.drop_last()[i] == s[i]);
            }
        }
        lemma_digits_nonneg(s.drop_last());
        assert('0' <= s[s.len() - 1]);
    }
}

/// Parses the characters `s` as a `u32` (see [`parsed_u32`]).
pub fn parse_u32_chars(s: &[char]) -> (r: Option<u32>)
    ensures
        r == parsed_u32(s@),
{
    let n = s.len();
    let start: usize = if n > 0 && s[0] == '+' {
        1
    } else {
        0
    };
    let ghost d = s@.subrange(start as int, n as int);
    assert(d =~= if s@.len() > 0 && s@[0] == '+' {
        s@.drop_first()
    } else {
        s@
    });
    if start == n {
        assert(d.len() == 0);
        return None;
    }
    let mut value: u64 = 0;
    let mut i = start;
    while i < n
        invariant
            start <= i <= n,
            n == s@.len(),
            d == s@.subrange(start as int, n as int),
            d == (if s@.len() > 0 && s@[0] == '+' {
                s@.drop_first()
            } else {
                s@
            }),
            all_digits(d.subrange(0, i - start)),
            value == digits_value(d.subrange(0, i - start)),
            value <= u32::MAX,
        decreases n - i,
    {
        let c = s[i];
        if c < '0' || c > '9' {
            assert(!all_digits(d)) by {
                assert(d[i - start] == c);
            }
            return None;
        }
        let ghost p = d.subrange(0, i + 1 - start);
        assert(p.drop_last() =~= d.subrange(0, i - start));
        assert(p.last() == c);
        assert(all_digits(p)) by {
            assert forall|j: int| 0 <= j < p.len() implies '0' <= #[trigger] p[j] && p[j] <= '9' by {
                if j < p.len() - 1 {
                    assert(p[j] == d.subrange(0, i - start)[j]);
                }
            }
        }
        value = value * 10 + (c as u64 - 48);
        assert(value == digits_value(p));
        if value > u32::MAX as u64 {
            proof {
                if all_digits(d) {
                    lemma_digits_grow(d, i + 1 - start, d.len() as int);
                    assert(d.subrange(0, d.len() as int) =~= d);
                }
            }
            return None;
        }
        i = i + 1;
    }
    assert(d.subrange(0, n - start) =~= d);
    Some(value as u32)
}

/// Whether `chars` starts with the characters `prefix`.
fn has_prefix(chars: &[char], prefix: &Vec<char>) -> (b: bool)
    ensures
        b == starts_with(chars@, prefix@),
{
    starts_with_chars(chars, prefix.as_slice())
}

/// The characters of [`drive_prefix`].
fn drive_prefix_chars() -> (v: Vec<char>)
    ensures
        v@ == drive_prefix(),
{
    let v = vec!['\\', '\\', '.', '\\', 'P', 'h', 'y', 's', 'i', 'c', 'a', 'l', 'D', 'r', 'i', 'v', 'e'];
    assert(v@ =~= drive_prefix());
    v
}

/// The characters of [`device_prefix`].
fn device_prefix_chars() -> (v: Vec<char>)
    ensures
        v@ == device_prefix(),
{
    let v = vec!['\\', '\\', '.', '\\'];
    assert(v@ =~= device_prefix());
    v
}

/// The drive number of a `\\.\PhysicalDriveN` path: what follows the
/// prefix, parsed as a `u32`; `None` for any other path.
pub fn physical_drive_number(path: &str) -> (r: Option<u32>)
    ensures
        r == (if starts_with(path@, drive_prefix()) {
            parsed_u32(path@.subrange(drive_prefix().len() as int, path@.len() as int))
        } else {
            None
        }),
{
    let chars = chars_of(path);
    let prefix = drive_prefix_chars();
    if !has_prefix(chars.as_slice(), &prefix) {
        return None;
    }
    let n = chars.len();
    let mut rest: Vec<char> = Vec::new();
    let mut i: usize = 17;
    while i < n
        invariant
            17 <= i <= n,
            n == chars@.len(),
            rest@ == chars@.subrange(17, i as int),
        decreases n - i,
    {
        rest.push(chars[i]);
        assert(rest@ =~= chars@.subrange(17, i + 1));
        i = i + 1;
    }
    parse_u32_chars(rest.as_slice())
}

/// Whether a path lies in the device namespace (`\\.\...`).
pub fn in_device_namespace(path: &str) -> (b: bool)
    ensures
        b == starts_with(path@, device_prefix()),
{
    let chars = chars_of(path);
    let prefix = device_prefix_chars();
    has_prefix(chars.as_slice(), &prefix)
}

/// The path of physical drive `n`: `\\.\PhysicalDrive` and its number.
pub fn physical_drive_path(n: u32) -> (p: DevicePath)
    ensures
        p.spec_text() == drive_prefix() + decimal(n as nat),
{
    let prefix = drive_prefix_chars();
    let mut s = String::new();
    let mut i: usize = 0;
    while i < prefix.len()
        invariant
            i <= prefix@.len(),
            s@ == prefix@.subrange(0, i as int),
        decreases prefix@.len() - i,
    {
        push_char(&mut s, prefix[i]);
        assert(s@ =~= prefix@.subrange(0, i + 1));
        i = i + 1;
    }
    assert(prefix@.subrange(0, prefix@.len() as int) =~= prefix@);
    push_decimal(&mut s, n as u64);
    DevicePath::new(s.as_str())
}

/// `s` without its trailing backslashes.
pub open spec fn without_trailing_backslashes(s: Seq<char>) -> Seq<char>
    decreases s.len(),
{
    if s.len() > 0 && s.last() == '\\' {
        without_trailing_backslashes(s.drop_last())
    } else {
        s
    }
}

/// The device handle path of a volume root: the root without trailing
/// backslashes, a verbatim `\\?\` prefix turned into `\\.\`, else `\\.\`
/// put in front (`C:\` gives `\\.\C:`).
pub open spec fn volume_handle_of(root: Seq<char>) -> Seq<char> {
    let t = without_trailing_backslashes(root);
    if starts_with(t, verbatim_prefix()) {
        device_prefix() + t.subrange(4, t.len() as int)
    } else {
        device_prefix() + t
    }
}

/// The device handle path of volume root `root` (see [`volume_handle_of`]).
pub fn volume_handle(root: &str) -> (h: String)
    ensures
        h@ == volume_handle_of(root@),
{
    let chars = chars_of(root);
    let mut end = chars.len();
    assert(chars@.subrange(0, chars@.len() as int) =~= chars@);
    while end > 0 && chars[end - 1] == '\\'
        invariant
            end <= chars@.len(),
            without_trailing_backslashes(chars@) == without_trailing_backslashes(
                chars@.subrange(0, end as int),
            ),
        decreases end,
    {
        assert(chars@.subrange(0, end as int).drop_last() =~= chars@.subrange(0, end - 1));
        end = end - 1;
    }
    let ghost t = chars@.subrange(0, end as int);
    assert(chars@.subrange(0, chars@.len() as int) =~= chars@);
    assert(without_trailing_backslashes(t) == t);
    let verbatim = end >= 4 && chars[0] == '\\' && chars[1] == '\\' && chars[2] == '?' && chars[3]
        == '\\';
    assert(verbatim == starts_with(t, verbatim_prefix())) by {
        if end >= 4 {
            assert(t.subrange(0, 4) =~= seq![chars@[0], chars@[1], chars@[2], chars@[3]]);
        }
    }
    let mut h = String::new();
    push_char(&mut h, '\\');
    push_char(&mut h, '\\');
    push_char(&mut h, '.');
    push_char(&mut h, '\\');
    assert(h@ =~= device_prefix());
    let mut i: usize = if verbatim {
        4
    } else {
        0
    };
    let ghost skip: int = if verbatim {
        4
    } else {
        0
    };
    while i < end
        invariant
            skip <= i <= end <= chars@.len(),
            skip == 0 || skip == 4,
            h@ == device_prefix() + chars@.subrange(skip, i as int),
        decreases end - i,
    {
        let c = chars[i];
        let ghost before = h@;
        push_char(&mut h, c);
        assert(chars@.subrange(skip, i + 1) =~= chars@.subrange(skip, i as int).push(c));
        assert(h@ =~= device_prefix() + chars@.subrange(skip, i + 1));
        i = i + 1;
    }
    proof {
        if verbatim {
            assert(t.subrange(4, t.len() as int) =~= chars@.subrange(4, end as int));
        } else {
            assert(chars@.subrange(0, end as int) =~= t);
        }
    }
    h
}

/// The disk number in a `STORAGE_DEVICE_NUMBER` reply (`ok` when the
/// request succeeded, `returned` bytes written to `out`): the second
/// little-endian word, when the request succeeded and wrote it.
pub fn storage_device_number(ok: bool, out: &[u8], returned: u32) -> (r: Option<u32>)
    ensures
        r == (if ok && returned >= 8 && out@.len() >= 8 {
            Some(le32(out@, 4) as u32)
        } else {
            None
        }),
{
    if !ok || returned < 8 {
        return None;
    }
    read_u32(out, 4)
}

} // verus!
