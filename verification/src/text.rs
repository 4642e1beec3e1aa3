//! Building display text: ASCII fields, decimal numbers and the UTF-16 /
//! UTF-8 decoders used for on-disk names.

use vstd::prelude::*;

verus! {

/// Appends one character to a `String` (`String::push`).
#[verifier::external_body]
pub(crate) fn push_char(s: &mut String, c: char)
    ensures
        final(s)@ == old(s)@.push(c),
{
    s.push(c);
}

/// Appends a string slice to a `String` (`String::push_str`).
#[verifier::external_body]
pub(crate) fn push_str(s: &mut String, t: &str)
    ensures
        final(s)@ == old(s)@ + t@,
{
    s.push_str(t);
}

/// What `String::from_utf16_lossy` makes of a sequence of UTF-16 code
/// units: well-formed surrogate pairs decoded, every unpaired surrogate
/// replaced by U+FFFD.
pub uninterp spec fn utf16_lossy(units: Seq<u16>) -> Seq<char>;

/// What `String::from_utf16` makes of a sequence of UTF-16 code units:
/// `None` when an unpaired surrogate occurs.
pub uninterp spec fn utf16_strict(units: Seq<u16>) -> Option<Seq<char>>;

/// What `String::from_utf8_lossy` makes of a byte sequence: valid UTF-8
/// decoded, each maximal invalid subpart replaced by U+FFFD.
pub uninterp spec fn utf8_lossy(bytes: Seq<u8>) -> Seq<char>;

/// Decodes UTF-16 code units with `String::from_utf16_lossy`.
#[verifier::external_body]
pub(crate) fn string_from_utf16_lossy(units: &[u16]) -> (s: String)
    ensures
        s@ == utf16_lossy(units@),
{
    String::from_utf16_lossy(units)
}

/// Decodes UTF-16 code units strictly with `String::from_utf16`; an error
/// (an unpaired surrogate) becomes `None`.
#[verifier::external_body]
pub(crate) fn string_from_utf16(units: &[u16]) -> (s: Option<String>)
    ensures
        match s {
            Some(t) => utf16_strict(units@) == Some(t@),
            None => utf16_strict(units@) is None,
        },
{
    String::from_utf16(units).ok()
}

/// Decodes bytes with `String::from_utf8_lossy`.
#[verifier::external_body]
pub(crate) fn string_from_utf8_lossy(bytes: &[u8]) -> (s: String)
    ensures
        s@ == utf8_lossy(bytes@),
{
    String::from_utf8_lossy(bytes).into_owned()
}

/// The little-endian UTF-16 code units of `bytes` (a trailing odd byte is
/// ignored).
pub open spec fn utf16_units(bytes: Seq<u8>) -> Seq<u16> {
    Seq::new(bytes.len() / 2, |i: int| (bytes[2 * i] as int + 256 * (bytes[2 * i + 1] as int)) as u16)
}

/// Collects the little-endian UTF-16 code units of `bytes`.
pub fn units_le(bytes: &[u8]) -> (units: Vec<u16>)
    ensures
        units@ == utf16_units(bytes@),
{
    let mut units: Vec<u16> = Vec::new();
    let blen = bytes.len();
    let n = blen / 2;
    let mut i: usize = 0;
    while i < n
        invariant
            blen == bytes@.len(),
            n == bytes@.len() / 2,
            2 * n <= bytes@.len(),
            i <= n,
            units@ =~= utf16_units(bytes@).subrange(0, i as int),
        decreases n - i,
    {
        let u = bytes[2 * i] as u16 + 256 * (bytes[2 * i + 1] as u16);
        units.push(u);
        i = i + 1;
    }
    units
}

/// Display form of one byte of an ASCII field: printable ASCII is kept,
/// anything else shows as `?`.
pub open spec fn ascii_char(b: u8) -> char {
    if 0x20 <= b <= 0x7E {
        b as char
    } else {
        '?'
    }
}

/// Display form of an ASCII field.
pub open spec fn ascii_chars(bytes: Seq<u8>) -> Seq<char> {
    Seq::new(bytes.len(), |i: int| ascii_char(bytes[i]))
}

/// Length of `bytes` once trailing spaces are removed.
pub open spec fn trimmed_len(bytes: Seq<u8>) -> nat
    decreases bytes.len(),
{
    if bytes.len() > 0 && bytes.last() == 0x20 {
        trimmed_len(bytes.drop_last())
    } else {
        bytes.len()
    }
}

/// Display form of `len` bytes at `start` (see [`ascii_char`]).
pub fn ascii_text(bytes: &[u8], start: usize, len: usize) -> (s: String)
    requires
        start + len <= bytes@.len(),
    ensures
        s@ == ascii_chars(bytes@.subrange(start as int, start + len)),
{
    let mut s = String::new();
    let blen = bytes.len();
    let mut i: usize = 0;
    while i < len
        invariant
            start + len <= bytes@.len(),
            blen == bytes@.len(),
            i <= len,
            s@ =~= ascii_chars(bytes@.subrange(start as int, start + i)),
        decreases len - i,
    {
        let b = bytes[start + i];
        let c = if 0x20 <= b && b <= 0x7E {
            b as char
        } else {
            '?'
        };
        push_char(&mut s, c);
        i = i + 1;
    }
    s
}

pub proof fn lemma_trimmed_len_bound(bytes: Seq<u8>)
    ensures
        trimmed_len(bytes) <= bytes.len(),
    decreases bytes.len(),
{
    if bytes.len() > 0 && bytes.last() == 0x20 {
        lemma_trimmed_len_bound(bytes.drop_last());
    }
}

/// Display form of `len` bytes at `start` with trailing spaces removed.
pub fn ascii_text_trimmed(bytes: &[u8], start: usize, len: usize) -> (s: String)
    requires
        start + len <= bytes@.len(),
    ensures
        s@ == ascii_chars(
            bytes@.subrange(
                start as int,
                start + trimmed_len(bytes@.subrange(start as int, start + len)),
            ),
        ),
{
    let ghost field = bytes@.subrange(start as int, start + len);
    let mut end = len;
    let blen = bytes.len();
    assert(field.subrange(0, len as int) =~= field);
    while end > 0 && bytes[start + end - 1] == 0x20
        invariant
            start + len <= bytes@.len(),
            end <= len,
            blen == bytes@.len(),
            field == bytes@.subrange(start as int, start + len),
            trimmed_len(field) == trimmed_len(field.subrange(0, end as int)),
        decreases end,
    {
        assert(field.subrange(0, end as int).drop_last() =~= field.subrange(0, end - 1));
        end = end - 1;
    }
    proof {
        assert(field.subrange(0, end as int) =~= field.subrange(0, end as int));
        assert(trimmed_len(field.subrange(0, end as int)) == end);
        assert(bytes@.subrange(start as int, start + end) =~= field.subrange(0, end as int));
    }
    ascii_text(bytes, start, end)
}

/// The decimal digit character for `d < 10`.
pub open spec fn digit_char(d: nat) -> char {
    (48 + d) as char
}

/// Decimal representation of `n`, without leading zeros.
pub open spec fn decimal(n: nat) -> Seq<char>
    decreases n,
{
    if n < 10 {
        seq![digit_char(n)]
    } else {
        decimal(n / 10).push(digit_char(n % 10))
    }
}

/// Decimal representation of `n`, left-padded with zeros to `width`.
pub open spec fn decimal_padded(n: nat, width: nat) -> Seq<char> {
    let d = decimal(n);
    if d.len() >= width {
        d
    } else {
        Seq::new((width - d.len()) as nat, |i: int| '0') + d
    }
}

proof fn lemma_decimal_len(n: nat)
    ensures
        decimal(n).len() >= 1,
    decreases n,
{
    if n >= 10 {
        lemma_decimal_len(n / 10);
    }
}

/// `10^k`.
pub open spec fn pow10(k: nat) -> nat
    decreases k,
{
    if k == 0 {
        1
    } else {
        10 * pow10((k - 1) as nat)
    }
}

proof fn lemma_decimal_len_bound(n: nat, k: nat)
    requires
        n < pow10(k),
        k >= 1,
    ensures
        decimal(n).len() <= k,
    decreases n,
{
    if n >= 10 {
        assert(k >= 2) by {
            if k == 1 {
                assert(pow10(1) == 10 * pow10(0));
            }
        }
        assert(pow10(k) == 10 * pow10((k - 1) as nat));
        lemma_decimal_len_bound(n / 10, (k - 1) as nat);
    }
}

/// Appends the decimal representation of `n` to `s`.
pub fn push_decimal(s: &mut String, n: u64)
    ensures
        final(s)@ == old(s)@ + decimal(n as nat),
    decreases n,
{
    if n >= 10 {
        push_decimal(s, n / 10);
    }
    let d = (n % 10) as u8;
    push_char(s, (48u8 + d) as char);
    proof {
        if n >= 10 {
            assert(old(s)@ + decimal(n as nat) =~= old(s)@ + decimal((n / 10) as nat) + seq![
                digit_char((n % 10) as nat),
            ]);
        } else {
            assert(old(s)@ + decimal(n as nat) =~= old(s)@.push(digit_char(n as nat)));
        }
    }
}

/// Appends the decimal representation of `n`, zero-padded to `width`.
pub fn push_decimal_padded(s: &mut String, n: u64, width: usize)
    requires
        width <= 20,
    ensures
        final(s)@ == old(s)@ + decimal_padded(n as nat, width as nat),
{
    let ghost d = decimal(n as nat);
    let digits = count_digits(n);
    let mut pad: usize = 0;
    let pads: usize = if digits < width {
        width - digits
    } else {
        0
    };
    while pad < pads
        invariant
            pad <= pads,
            s@ =~= old(s)@ + Seq::new(pad as nat, |i: int| '0'),
        decreases pads - pad,
    {
        push_char(s, '0');
        pad = pad + 1;
    }
    push_decimal(s, n);
    proof {
        if d.len() >= width {
            assert(s@ =~= old(s)@ + decimal_padded(n as nat, width as nat));
        } else {
            assert(s@ =~= old(s)@ + decimal_padded(n as nat, width as nat));
        }
    }
}

/// The lowercase hexadecimal digit character for `d < 16`.
pub open spec fn hex_char(d: nat) -> char {
    if d < 10 {
        (48 + d) as char
    } else {
        (87 + d) as char
    }
}

/// Lowercase hexadecimal representation of `n`, without leading zeros.
pub open spec fn hex(n: nat) -> Seq<char>
    decreases n,
{
    if n < 16 {
        seq![hex_char(n)]
    } else {
        hex(n / 16).push(hex_char(n % 16))
    }
}

/// Appends the lowercase hexadecimal representation of `n` to `s`.
pub fn push_hex(s: &mut String, n: u64)
    ensures
        final(s)@ == old(s)@ + hex(n as nat),
    decreases n,
{
    if n >= 16 {
        push_hex(s, n / 16);
    }
    let d = (n % 16) as u8;
    let c = if d < 10 {
        (48u8 + d) as char
    } else {
        (87u8 + d) as char
    };
    push_char(s, c);
    proof {
        if n >= 16 {
            assert(old(s)@ + hex(n as nat) =~= old(s)@ + hex((n / 16) as nat) + seq![
                hex_char((n % 16) as nat),
            ]);
        } else {
            assert(old(s)@ + hex(n as nat) =~= old(s)@.push(hex_char(n as nat)));
        }
    }
}

/// Number of decimal digits of `n`.
fn count_digits(n: u64) -> (k: usize)
    ensures
        k == decimal(n as nat).len(),
    decreases n,
{
    if n < 10 {
        1
    } else {
        let k = count_digits(n / 10);
        proof {
            lemma_decimal_len(n as nat);
            lemma_decimal_len((n / 10) as nat);
            reveal_with_fuel(pow10, 21);
            assert(pow10(20) == 100_000_000_000_000_000_000);
            lemma_decimal_len_bound((n / 10) as nat, 20);
        }
        k + 1
    }
}

/// What `{:?}` makes of a string: the text quoted, with quotes, backslashes
/// and characters that are not printable escaped.
pub uninterp spec fn debug_text(s: Seq<char>) -> Seq<char>;

/// The `{:?}` form of a string slice (`<str as Debug>::fmt`).
#[verifier::external_body]
pub(crate) fn debug_string(t: &str) -> (d: String)
    ensures
        d@ == debug_text(t@),
{
    format!("{t:?}")
}

/// Appends the `{:?}` form of a string slice.
pub(crate) fn push_debug(s: &mut String, t: &str)
    ensures
        final(s)@ == old(s)@ + debug_text(t@),
{
    let d = debug_string(t);
    push_str(s, d.as_str());
}

} // verus!
