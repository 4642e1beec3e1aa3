//! Little-endian field access over byte slices.

use vstd::prelude::*;

verus! {

/// Little-endian unsigned value of a whole byte sequence.
pub open spec fn le_uint(s: Seq<u8>) -> nat
    decreases s.len(),
{
    if s.len() == 0 {
        0
    } else {
        s[0] as nat + 256 * le_uint(s.drop_first())
    }
}

/// Little-endian 16-bit value at `off`.
pub open spec fn le16(s: Seq<u8>, off: int) -> int {
    s[off] as int + 256 * (s[off + 1] as int)
}

/// Little-endian 32-bit value at `off`.
pub open spec fn le32(s: Seq<u8>, off: int) -> int {
    s[off] as int + 256 * (s[off + 1] as int) + 65536 * (s[off + 2] as int) + 16777216 * (
    s[off + 3] as int)
}

/// Little-endian 64-bit value at `off`.
pub open spec fn le64(s: Seq<u8>, off: int) -> int {
    le32(s, off) + 4294967296 * le32(s, off + 4)
}

/// Whether `len` bytes starting at `off` lie inside `s`.
pub open spec fn fits(s: Seq<u8>, off: int, len: int) -> bool {
    0 <= off && off + len <= s.len()
}

/// The byte at `off`, if present.
pub fn read_u8(bytes: &[u8], off: usize) -> (r: Option<u8>)
    ensures
        match r {
            Some(v) => off < bytes@.len() && v == bytes@[off as int],
            None => off >= bytes@.len(),
        },
{
    if off < bytes.len() {
        Some(bytes[off])
    } else {
        None
    }
}

/// The little-endian `u16` at `off`, if the two bytes are present.
pub fn read_u16(bytes: &[u8], off: usize) -> (r: Option<u16>)
    ensures
        match r {
            Some(v) => fits(bytes@, off as int, 2) && v == le16(bytes@, off as int),
            None => !fits(bytes@, off as int, 2),
        },
{
    if off < bytes.len() && bytes.len() - off >= 2 {
        Some(bytes[off] as u16 + 256 * (bytes[off + 1] as u16))
    } else {
        None
    }
}

/// The little-endian `u32` at `off`, if the four bytes are present.
pub fn read_u32(bytes: &[u8], off: usize) -> (r: Option<u32>)
    ensures
        match r {
            Some(v) => fits(bytes@, off as int, 4) && v == le32(bytes@, off as int),
            None => !fits(bytes@, off as int, 4),
        },
{
    if off < bytes.len() && bytes.len() - off >= 4 {
        Some(
            bytes[off] as u32 + 256 * (bytes[off + 1] as u32) + 65536 * (bytes[off + 2] as u32)
                + 16777216 * (bytes[off + 3] as u32),
        )
    } else {
        None
    }
}

/// The little-endian `u64` at `off`, if the eight bytes are present.
pub fn read_u64(bytes: &[u8], off: usize) -> (r: Option<u64>)
    ensures
        match r {
            Some(v) => fits(bytes@, off as int, 8) && v == le64(bytes@, off as int),
            None => !fits(bytes@, off as int, 8),
        },
{
    if off < bytes.len() && bytes.len() - off >= 8 {
        let lo = bytes[off] as u64 + 256 * (bytes[off + 1] as u64) + 65536 * (bytes[off + 2] as u64)
            + 16777216 * (bytes[off + 3] as u64);
        let hi = bytes[off + 4] as u64 + 256 * (bytes[off + 5] as u64) + 65536 * (bytes[off
            + 6] as u64) + 16777216 * (bytes[off + 7] as u64);
        Some(lo + 4294967296 * hi)
    } else {
        None
    }
}

/// `2^k`.
pub open spec fn pow2(k: nat) -> nat
    decreases k,
{
    if k == 0 {
        1
    } else {
        2 * pow2((k - 1) as nat)
    }
}

/// `2^k` for `k < 64`.
pub fn pow2_u64(k: u32) -> (r: u64)
    requires
        k < 64,
    ensures
        r == pow2(k as nat),
{
    let mut r: u64 = 1;
    let mut i: u32 = 0;
    while i < k
        invariant
            i <= k,
            k < 64,
            r == pow2(i as nat),
        decreases k - i,
    {
        proof {
            lemma_pow2_mono(i as nat, 62);
            lemma_pow2_62();
        }
        r = r * 2;
        i = i + 1;
    }
    r
}

pub proof fn lemma_pow2_62()
    ensures
        pow2(62) == 0x4000_0000_0000_0000,
{
    reveal_with_fuel(pow2, 63);
}

/// `2^a <= 2^b` when `a <= b`.
pub proof fn lemma_pow2_mono(a: nat, b: nat)
    requires
        a <= b,
    ensures
        pow2(a) <= pow2(b),
    decreases b,
{
    if a < b {
        lemma_pow2_mono(a, (b - 1) as nat);
    }
}

/// `2^(a + b) == 2^a * 2^b`.
pub proof fn lemma_pow2_add(a: nat, b: nat)
    ensures
        pow2(a + b) == pow2(a) * pow2(b),
    decreases b,
{
    if b == 0 {
        assert(a + b == a);
        assert(pow2(0) == 1);
        assert(pow2(a) * 1 == pow2(a));
    } else {
        let b1 = (b - 1) as nat;
        lemma_pow2_add(a, b1);
        let x = pow2(a);
        let y = pow2(b1);
        assert(pow2(b) == 2 * y);
        assert(pow2(a + b) == 2 * pow2(a + b1));
        assert(x * (2 * y) == 2 * (x * y)) by (nonlinear_arith);
    }
}

/// Little-endian two's-complement value of a byte sequence.
pub open spec fn le_int(s: Seq<u8>) -> int {
    if s.len() > 0 && s.last() >= 128 {
        le_uint(s) - pow2(8 * s.len())
    } else {
        le_uint(s) as int
    }
}

/// `le_uint(s) < 2^(8 * len)`.
pub proof fn lemma_le_uint_bound(s: Seq<u8>)
    ensures
        le_uint(s) < pow2(8 * s.len()),
    decreases s.len(),
{
    if s.len() == 0 {
        assert(pow2(0) == 1);
    } else {
        lemma_le_uint_bound(s.drop_first());
        let k = (8 * (s.len() - 1)) as nat;
        lemma_pow2_add(k, 8);
        reveal_with_fuel(pow2, 9);
        assert(8 * s.len() == k + 8);
    }
}

/// The value of a sequence is its first byte plus 256 times the value of
/// the rest; and an empty sequence is worth zero.
proof fn lemma_le_uint_split(s: Seq<u8>, k: int, n: int)
    requires
        0 <= k < n <= s.len(),
    ensures
        le_uint(s.subrange(k, n)) == s[k] + 256 * le_uint(s.subrange(k + 1, n)),
{
    assert(s.subrange(k, n).drop_first() =~= s.subrange(k + 1, n));
}

/// `2^(8m) <= 2^56` for `m <= 7`.
proof fn lemma_pow2_bytes_bound(m: nat)
    requires
        m <= 7,
    ensures
        pow2(8 * m) <= 0x0100_0000_0000_0000,
{
    lemma_pow2_mono(8 * m, 56);
    lemma_pow2_add(28, 28);
    reveal_with_fuel(pow2, 29);
}

/// The little-endian unsigned value of `n <= 8` bytes at `off`.
pub fn read_uint(bytes: &[u8], off: usize, n: usize) -> (r: u64)
    requires
        off + n <= bytes@.len(),
        n <= 8,
    ensures
        r == le_uint(bytes@.subrange(off as int, off + n)),
{
    let ghost s = bytes@;
    let blen = bytes.len();
    let mut acc: u64 = 0;
    let mut k: usize = n;
    assert(s.subrange(off + n, off + n) =~= Seq::<u8>::empty());
    while k > 0
        invariant
            s == bytes@,
            blen == s.len(),
            off + n <= s.len(),
            n <= 8,
            k <= n,
            acc == le_uint(s.subrange(off + k, off + n)),
        decreases k,
    {
        proof {
            lemma_le_uint_split(s, off + k - 1, off + n as int);
            lemma_le_uint_bound(s.subrange(off + k, off + n));
            lemma_pow2_bytes_bound((n - k) as nat);
        }
        acc = bytes[off + k - 1] as u64 + 256 * acc;
        k = k - 1;
    }
    acc
}

/// The little-endian two's-complement value of `1..=8` bytes at `off`.
pub fn read_int(bytes: &[u8], off: usize, n: usize) -> (r: i128)
    requires
        off + n <= bytes@.len(),
        1 <= n <= 8,
    ensures
        r == le_int(bytes@.subrange(off as int, off + n)),
{
    let u = read_uint(bytes, off, n);
    let _blen = bytes.len();
    let top = bytes[off + n - 1];
    let ghost sub = bytes@.subrange(off as int, off + n);
    assert(sub.last() == top);
    if top >= 128 {
        let p = pow2_u64_wide((8 * n) as u32);
        u as i128 - p
    } else {
        u as i128
    }
}

/// `2^k` for `k <= 64`, as an `i128`.
fn pow2_u64_wide(k: u32) -> (r: i128)
    requires
        k <= 64,
    ensures
        r == pow2(k as nat),
{
    let mut r: i128 = 1;
    let mut i: u32 = 0;
    while i < k
        invariant
            i <= k,
            k <= 64,
            r == pow2(i as nat),
        decreases k - i,
    {
        proof {
            lemma_pow2_mono(i as nat, 63);
            lemma_pow2_add(31, 32);
            lemma_pow2_add(31, 31);
            lemma_pow2_62();
        }
        r = r * 2;
        i = i + 1;
    }
    r
}


/// Whether `v` is `2^k` for some `k < 64`.
pub open spec fn is_pow2(v: int) -> bool {
    exists|k: nat| k < 64 && v == pow2(k)
}

/// Whether `v` is a power of two.
pub fn is_power_of_two(v: u64) -> (r: bool)
    ensures
        r == is_pow2(v as int),
{
    let mut k: u32 = 0;
    while k < 64
        invariant
            k <= 64,
            forall|j: nat| j < k ==> v != #[trigger] pow2(j),
        decreases 64 - k,
    {
        if pow2_u64(k) == v {
            return true;
        }
        k = k + 1;
    }
    false
}

/// Big-endian 16-bit value at `off`.
pub open spec fn be16(s: Seq<u8>, off: int) -> int {
    256 * (s[off] as int) + s[off + 1] as int
}

/// Big-endian 32-bit value at `off`.
pub open spec fn be32(s: Seq<u8>, off: int) -> int {
    16777216 * (s[off] as int) + 65536 * (s[off + 1] as int) + 256 * (s[off + 2] as int) + s[off
        + 3] as int
}

/// The big-endian `u16` at `off`, if the two bytes are present.
pub fn read_u16_be(bytes: &[u8], off: usize) -> (r: Option<u16>)
    ensures
        match r {
            Some(v) => fits(bytes@, off as int, 2) && v == be16(bytes@, off as int),
            None => !fits(bytes@, off as int, 2),
        },
{
    if off < bytes.len() && bytes.len() - off >= 2 {
        Some(256 * (bytes[off] as u16) + bytes[off + 1] as u16)
    } else {
        None
    }
}

/// The big-endian `u32` at `off`, if the four bytes are present.
pub fn read_u32_be(bytes: &[u8], off: usize) -> (r: Option<u32>)
    ensures
        match r {
            Some(v) => fits(bytes@, off as int, 4) && v == be32(bytes@, off as int),
            None => !fits(bytes@, off as int, 4),
        },
{
    if off < bytes.len() && bytes.len() - off >= 4 {
        Some(
            16777216 * (bytes[off] as u32) + 65536 * (bytes[off + 1] as u32) + 256 * (bytes[off
                + 2] as u32) + bytes[off + 3] as u32,
        )
    } else {
        None
    }
}

} // verus!
