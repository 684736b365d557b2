//! Internal scalar types and their bit-level codecs to interchange
//! primitives.
//!
//! Each codec is a pure pair of functions between an internal scalar and a
//! fixed-width interchange value: dates become 32-bit day counts since the
//! 1970 epoch, times and timestamps become 64-bit microsecond counts, and
//! intervals become a 128-bit value packed as `months | days << 32 |
//! nanoseconds << 64`, each part sign-extended independently.

use vstd::prelude::*;

use crate::error::ConversionError;

verus! {

/// Day number of 1970-01-01 in the internal calendar, whose day 1 is the
/// first day of the common era. Internal dates count days from that
/// calendar; interchange dates count days from the 1970 epoch.
pub const UNIX_EPOCH_DAY: i32 = 719163;

pub const USECS_PER_DAY: i64 = 86_400_000_000;

/// Largest magnitude of a microsecond count whose nanosecond equivalent
/// still fits in a signed 64-bit value.
pub const MAX_INTERVAL_USECS: i64 = 9_223_372_036_854_775;

/// A calendar date, stored as a day number in the internal calendar.
#[derive(Clone, Copy, Debug, PartialEq, Eq, Structural)]
pub struct Date {
    pub days: i32,
}

/// A time of day, stored as microseconds since midnight.
#[derive(Clone, Copy, Debug, PartialEq, Eq, Structural)]
pub struct Time {
    pub usecs: i64,
}

/// A date and time without a zone, stored as microseconds since the 1970
/// epoch.
#[derive(Clone, Copy, Debug, PartialEq, Eq, Structural)]
pub struct Timestamp {
    pub usecs: i64,
}

/// An instant in time, stored as microseconds since the 1970 epoch in UTC.
#[derive(Clone, Copy, Debug, PartialEq, Eq, Structural)]
pub struct Timestamptz {
    pub usecs: i64,
}

/// A generated row identifier, carried as a signed 64-bit value.
#[derive(Clone, Copy, Debug, PartialEq, Eq, Structural)]
pub struct Serial {
    pub value: i64,
}

/// A calendar interval of independently signed months, days and
/// microseconds.
#[derive(Clone, Copy, Debug, PartialEq, Eq, Structural)]
pub struct Interval {
    pub months: i32,
    pub days: i32,
    pub usecs: i64,
}

/// A 256-bit signed integer, split into a signed high half and an unsigned
/// low half; the value is `hi * 2^128 + lo`.
#[derive(Clone, Copy, Debug, PartialEq, Eq, Structural)]
pub struct Int256 {
    pub hi: i128,
    pub lo: u128,
}

impl Date {
    /// A date is encodable when its 1970-epoch day number fits in 32 bits.
    pub open spec fn wf(self) -> bool {
        self.days >= i32::MIN + UNIX_EPOCH_DAY
    }

    /// Builds a date from an internal-calendar day number.
    pub fn with_days(days: i32) -> (r: Result<Date, ConversionError>)
        ensures
            days >= i32::MIN + UNIX_EPOCH_DAY ==> r == Ok::<Date, ConversionError>(
                Date { days },
            ),
            days < i32::MIN + UNIX_EPOCH_DAY ==> r == Err::<Date, ConversionError>(
                ConversionError::UnsupportedNumericConfiguration,
            ),
    {
        if days >= i32::MIN + UNIX_EPOCH_DAY {
            Ok(Date { days })
        } else {
            Err(ConversionError::UnsupportedNumericConfiguration)
        }
    }
}

impl Time {
    pub open spec fn wf(self) -> bool {
        0 <= self.usecs < USECS_PER_DAY
    }

    /// Builds a time of day from microseconds since midnight.
    pub fn with_micro(usecs: u64) -> (r: Result<Time, ConversionError>)
        ensures
            usecs < USECS_PER_DAY ==> r == Ok::<Time, ConversionError>(
                Time { usecs: usecs as i64 },
            ),
            usecs >= USECS_PER_DAY ==> r == Err::<Time, ConversionError>(
                ConversionError::UnsupportedNumericConfiguration,
            ),
    {
        if usecs < USECS_PER_DAY as u64 {
            Ok(Time { usecs: usecs as i64 })
        } else {
            Err(ConversionError::UnsupportedNumericConfiguration)
        }
    }
}

impl Timestamp {
    /// Builds a timestamp from microseconds since the 1970 epoch.
    pub fn with_micros(usecs: i64) -> (r: Result<Timestamp, ConversionError>)
        ensures
            r == Ok::<Timestamp, ConversionError>(Timestamp { usecs }),
    {
        Ok(Timestamp { usecs })
    }
}

impl Timestamptz {
    /// Builds an instant from microseconds since the 1970 epoch.
    pub fn from_micros(usecs: i64) -> (r: Timestamptz)
        ensures
            r == (Timestamptz { usecs }),
    {
        Timestamptz { usecs }
    }

    pub fn timestamp_micros(self) -> (r: i64)
        ensures
            r == self.usecs,
    {
        self.usecs
    }
}

impl Interval {
    /// An interval is encodable when its microsecond part, scaled to
    /// nanoseconds, still fits in 64 bits.
    pub open spec fn wf(self) -> bool {
        -MAX_INTERVAL_USECS <= self.usecs <= MAX_INTERVAL_USECS
    }

    pub fn from_month_day_usec(months: i32, days: i32, usecs: i64) -> (r: Interval)
        ensures
            r == (Interval { months, days, usecs }),
    {
        Interval { months, days, usecs }
    }

    pub fn months(self) -> (r: i32)
        ensures
            r == self.months,
    {
        self.months
    }

    pub fn days(self) -> (r: i32)
        ensures
            r == self.days,
    {
        self.days
    }

    pub fn usecs(self) -> (r: i64)
        ensures
            r == self.usecs,
    {
        self.usecs
    }
}

impl Int256 {
    pub fn from_i64(v: i64) -> (r: Int256)
        ensures
            r.hi == (if v < 0 { -1int } else { 0int }),
            r.lo == (if v < 0 { v + 0x1_0000_0000_0000_0000_0000_0000_0000_0000int } else {
                v as int
            }),
    {
        if v < 0 {
            let mag = (-(v as i128)) as u128;
            Int256 { hi: -1, lo: (u128::MAX - mag) + 1 }
        } else {
            Int256 { hi: 0, lo: v as u128 }
        }
    }

    pub fn min_value() -> (r: Int256)
        ensures
            r.hi == i128::MIN,
            r.lo == 0,
    {
        Int256 { hi: i128::MIN, lo: 0 }
    }

    pub fn max_value() -> (r: Int256)
        ensures
            r.hi == i128::MAX,
            r.lo == u128::MAX,
    {
        Int256 { hi: i128::MAX, lo: u128::MAX }
    }
}

/// Converts an internal scalar from and into its interchange primitive.
///
/// `into_arrow` additionally guarantees the round trip: decoding an encoded
/// value recovers the value exactly, null-for-null at the array layer and
/// bit-for-bit here.
pub trait FromIntoArrow: Sized {
    /// The corresponding element type in the interchange array.
    type ArrowType;

    /// Internal values on which the codec is defined.
    spec fn wf(self) -> bool;

    /// Interchange values that decode to a well-formed internal value.
    spec fn arrow_wf(v: Self::ArrowType) -> bool;

    /// The interchange encoding of an internal value.
    spec fn as_arrow(self) -> Self::ArrowType;

    /// The internal value read back from an interchange value.
    spec fn of_arrow(v: Self::ArrowType) -> Self;

    fn from_arrow(value: Self::ArrowType) -> (r: Self)
        requires
            Self::arrow_wf(value),
        ensures
            r == Self::of_arrow(value),
            r.wf(),
    ;

    fn into_arrow(self) -> (r: Self::ArrowType)
        requires
            self.wf(),
        ensures
            r == self.as_arrow(),
            Self::arrow_wf(r),
            Self::of_arrow(r) == self,
    ;
}

impl FromIntoArrow for Serial {
    type ArrowType = i64;

    open spec fn wf(self) -> bool {
        true
    }

    open spec fn arrow_wf(v: i64) -> bool {
        true
    }

    open spec fn as_arrow(self) -> i64 {
        self.value
    }

    open spec fn of_arrow(v: i64) -> Serial {
        Serial { value: v }
    }

    fn from_arrow(value: i64) -> (r: Serial) {
        Serial { value }
    }

    fn into_arrow(self) -> (r: i64) {
        self.value
    }
}

impl FromIntoArrow for Date {
    type ArrowType = i32;

    open spec fn wf(self) -> bool {
        self.days >= i32::MIN + UNIX_EPOCH_DAY
    }

    open spec fn arrow_wf(v: i32) -> bool {
        v <= i32::MAX - UNIX_EPOCH_DAY
    }

    open spec fn as_arrow(self) -> i32 {
        (self.days - UNIX_EPOCH_DAY) as i32
    }

    open spec fn of_arrow(v: i32) -> Date {
        Date { days: (v + UNIX_EPOCH_DAY) as i32 }
    }

    fn from_arrow(value: i32) -> (r: Date) {
        Date { days: value + UNIX_EPOCH_DAY }
    }

    fn into_arrow(self) -> (r: i32) {
        self.days - UNIX_EPOCH_DAY
    }
}

impl FromIntoArrow for Time {
    type ArrowType = i64;

    open spec fn wf(self) -> bool {
        0 <= self.usecs < USECS_PER_DAY
    }

    open spec fn arrow_wf(v: i64) -> bool {
        0 <= v < USECS_PER_DAY
    }

    open spec fn as_arrow(self) -> i64 {
        self.usecs
    }

    open spec fn of_arrow(v: i64) -> Time {
        Time { usecs: v }
    }

    fn from_arrow(value: i64) -> (r: Time) {
        Time { usecs: value }
    }

    fn into_arrow(self) -> (r: i64) {
        self.usecs
    }
}

impl FromIntoArrow for Timestamp {
    type ArrowType = i64;

    open spec fn wf(self) -> bool {
        true
    }

    open spec fn arrow_wf(v: i64) -> bool {
        true
    }

    open spec fn as_arrow(self) -> i64 {
        self.usecs
    }

    open spec fn of_arrow(v: i64) -> Timestamp {
        Timestamp { usecs: v }
    }

    fn from_arrow(value: i64) -> (r: Timestamp) {
        Timestamp { usecs: value }
    }

    fn into_arrow(self) -> (r: i64) {
        self.usecs
    }
}

impl FromIntoArrow for Timestamptz {
    type ArrowType = i64;

    open spec fn wf(self) -> bool {
        true
    }

    open spec fn arrow_wf(v: i64) -> bool {
        true
    }

    open spec fn as_arrow(self) -> i64 {
        self.usecs
    }

    open spec fn of_arrow(v: i64) -> Timestamptz {
        Timestamptz { usecs: v }
    }

    fn from_arrow(value: i64) -> (r: Timestamptz) {
        Timestamptz { usecs: value }
    }

    fn into_arrow(self) -> (r: i64) {
        self.usecs
    }
}

/// The unsigned 32-bit representation of a signed 32-bit value.
pub open spec fn bits32(x: int) -> int {
    if x >= 0 {
        x
    } else {
        x + 0x1_0000_0000
    }
}

/// The unsigned 64-bit representation of a signed 64-bit value.
pub open spec fn bits64(x: int) -> int {
    if x >= 0 {
        x
    } else {
        x + 0x1_0000_0000_0000_0000
    }
}

/// The packed 128-bit interchange encoding of an interval whose nanosecond
/// part is `nanos`: months in bits 0-31, days in bits 32-63, nanoseconds in
/// bits 64-127, each sign-extended independently before packing.
pub open spec fn pack_interval(months: int, days: int, nanos: int) -> int {
    nanos * 0x1_0000_0000_0000_0000 + bits32(days) * 0x1_0000_0000 + bits32(months)
}

/// The months part read back from a packed interval value: the low 32 bits,
/// interpreted as signed.
pub open spec fn packed_months(v: int) -> int {
    let b = v % 0x1_0000_0000;
    if b < 0x8000_0000 {
        b
    } else {
        b - 0x1_0000_0000
    }
}

/// The days part read back from a packed interval value: bits 32-63,
/// interpreted as signed.
pub open spec fn packed_days(v: int) -> int {
    let b = (v / 0x1_0000_0000) % 0x1_0000_0000;
    if b < 0x8000_0000 {
        b
    } else {
        b - 0x1_0000_0000
    }
}

/// The nanoseconds part read back from a packed interval value: bits
/// 64-127, interpreted as signed.
pub open spec fn packed_nanos(v: int) -> int {
    v / 0x1_0000_0000_0000_0000
}

/// Division by 1000 truncated toward zero, as the hardware divides.
pub open spec fn trunc_div_1000(n: int) -> int {
    if n >= 0 {
        n / 1000
    } else {
        -((-n) / 1000)
    }
}

/// The unsigned 128-bit representation of a signed 128-bit value.
pub open spec fn bits128(v: int) -> int {
    if v >= 0 {
        v
    } else {
        v + 0x1_0000_0000_0000_0000_0000_0000_0000_0000int
    }
}

/// The three sub-fields of a packed value can be read from its unsigned
/// 128-bit representation just as well as from the signed value.
proof fn lemma_bits128_parts(v: i128)
    ensures
        bits128(v as int) % 0x1_0000_0000 == (v as int) % 0x1_0000_0000,
        (bits128(v as int) / 0x1_0000_0000) % 0x1_0000_0000 == ((v as int) / 0x1_0000_0000)
            % 0x1_0000_0000,
        bits128(v as int) / 0x1_0000_0000_0000_0000 == (v as int) / 0x1_0000_0000_0000_0000 + (
        if v < 0 {
            0x1_0000_0000_0000_0000int
        } else {
            0int
        }),
{
    let x = v as int;
    if v < 0 {
        let w = bits128(x);
        assert(w == x + 0x1_0000_0000_0000_0000_0000_0000_0000_0000int);
        assert(w % 0x1_0000_0000 == x % 0x1_0000_0000) by {
            vstd::arithmetic::div_mod::lemma_mod_multiples_vanish(
                0x1_0000_0000_0000_0000_0000_0000int,
                x,
                0x1_0000_0000,
            );
        };
        assert(w / 0x1_0000_0000 == x / 0x1_0000_0000 + 0x1_0000_0000_0000_0000_0000_0000int)
            by {
            vstd::arithmetic::div_mod::lemma_hoist_over_denominator(
                x,
                0x1_0000_0000_0000_0000_0000_0000int,
                0x1_0000_0000,
            );
        };
        assert((w / 0x1_0000_0000) % 0x1_0000_0000 == (x / 0x1_0000_0000) % 0x1_0000_0000) by {
            vstd::arithmetic::div_mod::lemma_mod_multiples_vanish(
                0x1_0000_0000_0000_0000int,
                x / 0x1_0000_0000,
                0x1_0000_0000,
            );
        };
        assert(w / 0x1_0000_0000_0000_0000 == x / 0x1_0000_0000_0000_0000
            + 0x1_0000_0000_0000_0000int) by {
            vstd::arithmetic::div_mod::lemma_hoist_over_denominator(
                x,
                0x1_0000_0000_0000_0000int,
                0x1_0000_0000_0000_0000,
            );
        };
    }
}

/// Reading the three parts back from a packed interval recovers exactly the
/// parts that were packed.
pub proof fn lemma_interval_pack_unpack(months: i32, days: i32, nanos: i64)
    ensures
        packed_months(pack_interval(months as int, days as int, nanos as int)) == months as int,
        packed_days(pack_interval(months as int, days as int, nanos as int)) == days as int,
        packed_nanos(pack_interval(months as int, days as int, nanos as int)) == nanos as int,
        i128::MIN <= pack_interval(months as int, days as int, nanos as int) <= i128::MAX,
{
    let m = months as int;
    let d = days as int;
    let n = nanos as int;
    let v = pack_interval(m, d, n);
    let low = bits32(d) * 0x1_0000_0000 + bits32(m);
    assert(0 <= bits32(m) < 0x1_0000_0000);
    assert(0 <= bits32(d) < 0x1_0000_0000);
    assert(0 <= low < 0x1_0000_0000_0000_0000);
    assert(v == n * 0x1_0000_0000_0000_0000 + low);
    // The low 64 bits do not disturb the nanosecond quotient.
    assert(v / 0x1_0000_0000_0000_0000 == n) by {
        vstd::arithmetic::div_mod::lemma_div_multiples_vanish_fancy(
            n,
            low,
            0x1_0000_0000_0000_0000,
        );
    };
    // The low 32 bits are exactly the month representation.
    assert(v % 0x1_0000_0000 == bits32(m)) by {
        let k = n * 0x1_0000_0000_0000_0000 + bits32(d) * 0x1_0000_0000;
        assert(v == k + bits32(m));
        assert(k % 0x1_0000_0000 == 0) by {
            assert(k == (n * 0x1_0000_0000 + bits32(d)) * 0x1_0000_0000) by {
                vstd::arithmetic::mul::lemma_mul_is_distributive_add_other_way(
                    0x1_0000_0000,
                    n * 0x1_0000_0000_0000_0000 / 0x1_0000_0000,
                    0,
                );
                assert(n * 0x1_0000_0000_0000_0000 == (n * 0x1_0000_0000) * 0x1_0000_0000)
                    by (nonlinear_arith);
                vstd::arithmetic::mul::lemma_mul_is_distributive_add_other_way(
                    0x1_0000_0000,
                    n * 0x1_0000_0000,
                    bits32(d),
                );
            };
            vstd::arithmetic::div_mod::lemma_mod_multiples_basic(
                n * 0x1_0000_0000 + bits32(d),
                0x1_0000_0000,
            );
        };
        vstd::arithmetic::div_mod::lemma_mod_multiples_vanish(
            n * 0x1_0000_0000 + bits32(d),
            bits32(m),
            0x1_0000_0000,
        );
    };
    // The middle 32 bits are exactly the day representation.
    assert(v / 0x1_0000_0000 == n * 0x1_0000_0000 + bits32(d)) by {
        assert(v == (n * 0x1_0000_0000 + bits32(d)) * 0x1_0000_0000 + bits32(m)) by {
            assert(n * 0x1_0000_0000_0000_0000 == (n * 0x1_0000_0000) * 0x1_0000_0000)
                by (nonlinear_arith);
            vstd::arithmetic::mul::lemma_mul_is_distributive_add_other_way(
                0x1_0000_0000,
                n * 0x1_0000_0000,
                bits32(d),
            );
        };
        vstd::arithmetic::div_mod::lemma_div_multiples_vanish_fancy(
            n * 0x1_0000_0000 + bits32(d),
            bits32(m),
            0x1_0000_0000,
        );
    };
    assert((n * 0x1_0000_0000 + bits32(d)) % 0x1_0000_0000 == bits32(d)) by {
        vstd::arithmetic::div_mod::lemma_mod_multiples_vanish(n, bits32(d), 0x1_0000_0000);
    };
    // Signed reinterpretation of each unsigned field undoes the
    // representation choice.
    assert(packed_months(v) == m);
    assert(packed_days(v) == d);
    // Range of the whole packed value.
    assert(i128::MIN <= v <= i128::MAX) by {
        assert(n * 0x1_0000_0000_0000_0000 >= i64::MIN * 0x1_0000_0000_0000_0000);
        assert(n * 0x1_0000_0000_0000_0000 <= i64::MAX * 0x1_0000_0000_0000_0000);
    };
}

impl FromIntoArrow for Interval {
    type ArrowType = i128;

    open spec fn wf(self) -> bool {
        -MAX_INTERVAL_USECS <= self.usecs <= MAX_INTERVAL_USECS
    }

    open spec fn arrow_wf(v: i128) -> bool {
        true
    }

    open spec fn as_arrow(self) -> i128 {
        pack_interval(self.months as int, self.days as int, self.usecs * 1000) as i128
    }

    open spec fn of_arrow(v: i128) -> Interval {
        Interval {
            months: packed_months(v as int) as i32,
            days: packed_days(v as int) as i32,
            usecs: trunc_div_1000(packed_nanos(v as int)) as i64,
        }
    }

    fn from_arrow(value: i128) -> (r: Interval) {
        let w: u128 = if value >= 0 {
            value as u128
        } else {
            let mag = (-(value + 1)) as u128;
            u128::MAX - mag
        };
        proof {
            lemma_bits128_parts(value);
            vstd::arithmetic::div_mod::lemma_div_is_ordered(
                i128::MIN as int,
                value as int,
                0x1_0000_0000_0000_0000,
            );
            vstd::arithmetic::div_mod::lemma_div_is_ordered(
                value as int,
                i128::MAX as int,
                0x1_0000_0000_0000_0000,
            );
        }
        let um: u128 = w % 0x1_0000_0000;
        let months: i32 = if um < 0x8000_0000 {
            um as i32
        } else {
            ((um as i128) - 0x1_0000_0000) as i32
        };
        let mid: u128 = (w / 0x1_0000_0000) % 0x1_0000_0000;
        let days: i32 = if mid < 0x8000_0000 {
            mid as i32
        } else {
            ((mid as i128) - 0x1_0000_0000) as i32
        };
        let hn: u128 = w / 0x1_0000_0000_0000_0000;
        let nanos: i64 = if hn < 0x8000_0000_0000_0000 {
            hn as i64
        } else {
            ((hn as i128) - 0x1_0000_0000_0000_0000) as i64
        };
        let usecs: i64 = if nanos >= 0 {
            proof {
                vstd::arithmetic::div_mod::lemma_div_is_ordered(nanos as int, i64::MAX as int, 1000);
            }
            ((nanos as u64) / 1000) as i64
        } else {
            let mag: u128 = (-(nanos as i128)) as u128;
            proof {
                vstd::arithmetic::div_mod::lemma_div_is_ordered(
                    mag as int,
                    0x8000_0000_0000_0000int,
                    1000,
                );
            }
            -((mag / 1000) as i64)
        };
        Interval { months, days, usecs }
    }

    fn into_arrow(self) -> (r: i128) {
        proof {
            lemma_interval_pack_unpack(self.months, self.days, (self.usecs * 1000) as i64);
            lemma_trunc_div_1000_exact(self.usecs as int);
        }
        let n: i128 = (self.usecs * 1000) as i128;
        let um: i128 = if self.months >= 0 {
            self.months as i128
        } else {
            (self.months as i128) + 0x1_0000_0000
        };
        let ud: i128 = if self.days >= 0 {
            self.days as i128
        } else {
            (self.days as i128) + 0x1_0000_0000
        };
        n * 0x1_0000_0000_0000_0000 + ud * 0x1_0000_0000 + um
    }
}

/// Scaling a microsecond count to nanoseconds and truncating back is the
/// identity.
pub proof fn lemma_trunc_div_1000_exact(us: int)
    ensures
        trunc_div_1000(us * 1000) == us,
{
    if us >= 0 {
        assert((us * 1000) / 1000 == us) by {
            vstd::arithmetic::div_mod::lemma_div_by_multiple(us, 1000);
        };
    } else {
        assert(-(us * 1000) == (-us) * 1000);
        assert(((-us) * 1000) / 1000 == -us) by {
            vstd::arithmetic::div_mod::lemma_div_by_multiple(-us, 1000);
        };
    }
}

} // verus!
