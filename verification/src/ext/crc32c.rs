//! CRC-32C (Castagnoli), as used by ext4 metadata checksums.

use vstd::prelude::*;

verus! {

/// One step of the reflected CRC-32C division: shift out the low bit,
/// folding in the polynomial `0x82F63B78` when it was set.
pub open spec fn crc_bit(c: u32) -> u32 {
    if c & 1 != 0 {
        0x82F6_3B78u32 ^ (c >> 1u32)
    } else {
        c >> 1u32
    }
}

/// `k` steps of [`crc_bit`].
pub open spec fn crc_bits(c: u32, k: nat) -> u32
    decreases k,
{
    if k == 0 {
        c
    } else {
        crc_bits(crc_bit(c), (k - 1) as nat)
    }
}

/// The register after feeding one byte.
pub open spec fn crc_byte(crc: u32, b: u8) -> u32 {
    crc_bits((crc ^ (b as u32)) & 0xFFu32, 8) ^ (crc >> 8u32)
}

/// The register after feeding `data` to `crc`.
pub open spec fn crc_update(crc: u32, data: Seq<u8>) -> u32
    decreases data.len(),
{
    if data.len() == 0 {
        crc
    } else {
        crc_byte(crc_update(crc, data.drop_last()), data.last())
    }
}

fn bit_step(c: u32) -> (r: u32)
    ensures
        r == crc_bit(c),
{
    if c & 1 != 0 {
        0x82F6_3B78u32 ^ (c >> 1u32)
    } else {
        c >> 1u32
    }
}

fn byte_step(crc: u32, b: u8) -> (r: u32)
    ensures
        r == crc_byte(crc, b),
{
    let mut c = (crc ^ (b as u32)) & 0xFFu32;
    let ghost c0 = c;
    let mut k: u32 = 0;
    while k < 8
        invariant
            k <= 8,
            crc_bits(c0, 8) == crc_bits(c, (8 - k) as nat),
        decreases 8 - k,
    {
        c = bit_step(c);
        k = k + 1;
    }
    c ^ (crc >> 8u32)
}

/// Updates the raw register `crc` with `data` (as the kernel's `crc32c`).
pub fn update(crc: u32, data: &[u8]) -> (r: u32)
    ensures
        r == crc_update(crc, data@),
{
    let mut c = crc;
    let n = data.len();
    let mut i: usize = 0;
    while i < n
        invariant
            n == data@.len(),
            i <= n,
            c == crc_update(crc, data@.subrange(0, i as int)),
        decreases n - i,
    {
        assert(data@.subrange(0, i + 1).drop_last() =~= data@.subrange(0, i as int));
        c = byte_step(c, data[i]);
        i = i + 1;
    }
    assert(data@.subrange(0, n as int) =~= data@);
    c
}

/// The standard CRC-32C of `data` (register preset to all ones, result
/// inverted).
pub fn checksum(data: &[u8]) -> (r: u32)
    ensures
        r == !crc_update(!0u32, data@),
{
    !update(!0u32, data)
}

/// Feeding `a` and then `b` leaves the register as feeding `a + b` at once.
pub proof fn lemma_update_split(crc: u32, a: Seq<u8>, b: Seq<u8>)
    ensures
        crc_update(crc_update(crc, a), b) == crc_update(crc, a + b),
    decreases b.len(),
{
    if b.len() == 0 {
        assert(a + b =~= a);
    } else {
        lemma_update_split(crc, a, b.drop_last());
        assert((a + b).drop_last() =~= a + b.drop_last());
        assert((a + b).last() == b.last());
    }
}

} // verus!
