//! NTFS timestamps: 100-nanosecond intervals since 1601-01-01 UTC.
//!
//! The raw integer is always retained; conversion to calendar time is a
//! presentation concern.

use vstd::prelude::*;

use crate::calendar::{iso8601_chars, iso8601_utc};

verus! {

/// Offset between the NTFS epoch (1601-01-01) and the Unix epoch, in
/// 100-nanosecond units.
pub const EPOCH_DIFFERENCE_100NS: i128 = 116_444_736_000_000_000;

/// An NTFS timestamp.
#[derive(Debug, Clone, Copy, PartialEq, Eq, PartialOrd, Ord, Hash, Default, Structural)]
pub struct NtfsTimestamp {
    /// Raw on-disk value.
    pub raw: u64,
}

/// Nanoseconds since the Unix epoch of a raw NTFS value.
pub open spec fn unix_nanos_of(raw: u64) -> int {
    (raw - EPOCH_DIFFERENCE_100NS) * 100
}

/// Whole seconds (rounded down) since the Unix epoch of a raw NTFS value.
pub open spec fn unix_seconds_of(raw: u64) -> int {
    unix_nanos_of(raw) / 1_000_000_000
}

/// The NTFS epoch lies 11 644 473 600 seconds (369 years) before the Unix
/// epoch, and every 10 000 000 raw units are one second: the raw value of
/// 1970-01-01 reads as second 0, and adding a second's worth of units adds
/// one second.
pub proof fn lemma_ntfs_time_scale(raw: u64)
    ensures
        unix_seconds_of(116_444_736_000_000_000u64) == 0,
        unix_nanos_of(raw) == (raw as int - 116_444_736_000_000_000) * 100,
        raw + 10_000_000 <= u64::MAX ==> unix_seconds_of((raw + 10_000_000) as u64) == unix_seconds_of(raw)
            + 1,
{
}

impl NtfsTimestamp {
    /// Wraps a raw value.
    pub fn new(raw: u64) -> (t: Self)
        ensures
            t.raw == raw,
    {
        NtfsTimestamp { raw }
    }

    /// Whether the timestamp is zero (unset).
    pub fn is_zero(&self) -> (r: bool)
        ensures
            r == (self.raw == 0),
    {
        self.raw == 0
    }

    /// Nanoseconds since the Unix epoch (negative before 1970).
    pub fn unix_nanos(&self) -> (n: i128)
        ensures
            n == unix_nanos_of(self.raw),
    {
        (self.raw as i128 - EPOCH_DIFFERENCE_100NS) * 100
    }

    /// Whole seconds since the Unix epoch, rounded down.
    pub fn unix_seconds(&self) -> (s: i64)
        ensures
            s == unix_seconds_of(self.raw),
    {
        let tenths = self.raw as i128 - EPOCH_DIFFERENCE_100NS;
        // Floor division of the 100 ns count by 10^7.
        let q = if tenths >= 0 {
            tenths / 10_000_000
        } else {
            -((-(tenths + 1)) / 10_000_000) - 1
        };
        proof {
            let t = tenths as int;
            assert(q == t / 10_000_000) by (nonlinear_arith)
                requires
                    q == (if t >= 0 {
                        t / 10_000_000
                    } else {
                        -((-(t + 1)) / 10_000_000) - 1
                    }),
            {
                if t < 0 {
                    let n = -(t + 1);
                    let qq = n / 10_000_000;
                    let r = n % 10_000_000;
                    assert(n == qq * 10_000_000 + r && 0 <= r < 10_000_000);
                    vstd::arithmetic::div_mod::lemma_fundamental_div_mod_converse(
                        t,
                        10_000_000,
                        -qq - 1,
                        10_000_000 - 1 - r,
                    );
                }
            }
            assert((t * 100) / 1_000_000_000 == t / 10_000_000) by (nonlinear_arith);
        }
        q as i64
    }

    /// ISO-8601 UTC text with microsecond precision, or `-` when zero.
    pub fn to_iso8601(&self) -> (s: String)
        ensures
            s@ == (if self.raw == 0 {
                seq!['-']
            } else {
                iso8601_chars(unix_seconds_of(self.raw), ((self.raw % 10_000_000) / 10) as nat)
            }),
    {
        if self.raw == 0 {
            let s = "-".to_owned();
            proof {
                reveal_strlit("-");
                assert("-"@ =~= seq!['-']);
            }
            return s;
        }
        let secs = self.unix_seconds();
        let micros = ((self.raw % 10_000_000) / 10) as u32;
        iso8601_utc(secs, micros)
    }
}

} // verus!
