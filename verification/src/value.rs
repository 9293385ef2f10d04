//! The compact value layer: the tagged scalar that sits between wire-decoded
//! cells and host objects, with the pure conversions the host side needs —
//! decimal rendering, civil-calendar arithmetic, GUID text.

use vstd::prelude::*;

use crate::ascii::{push_bytes, push_dec_u128, spec_dec_digits};

verus! {

/// Compact tagged scalar — the sole intermediate between wire bytes and host
/// objects. Text travels as UTF-8 bytes; a float travels as its raw IEEE-754
/// bits, which this crate never interprets.
#[derive(PartialEq, Eq, Debug)]
pub enum CompactValue {
    Null,
    Bool(bool),
    I64(i64),
    /// Raw bits of a double-precision float.
    F64Bits(u64),
    /// UTF-8 text.
    Str(Vec<u8>),
    Bytes(Vec<u8>),
    /// Days since the Unix epoch.
    Date(i32),
    /// Nanoseconds since midnight.
    Time(i64),
    /// Microseconds since the Unix epoch.
    DateTime(i64),
    /// Microseconds since the Unix epoch (UTC) and an offset in minutes.
    DateTimeOffset(i64, i16),
    /// Unscaled value, precision, scale.
    Decimal(i128, u8, u8),
    /// Big-endian GUID bytes.
    Guid([u8; 16]),
}

/// A run of `n` ASCII zeros.
pub open spec fn spec_zeros(n: nat) -> Seq<u8> {
    Seq::new(n, |i: int| 0x30u8)
}

/// Decimal text of an unscaled value and scale: the digit string of the
/// magnitude with the radix point placed `scale` digits from the right,
/// zero-padded on the left when the magnitude has fewer digits, the sign in
/// front.
pub open spec fn spec_decimal_text(v: int, scale: nat) -> Seq<u8> {
    let mag = if v < 0 {
        (-v) as nat
    } else {
        v as nat
    };
    let digits = spec_dec_digits(mag);
    let core = if scale == 0 {
        digits
    } else if digits.len() <= scale {
        seq![0x30u8, 0x2eu8] + spec_zeros((scale - digits.len()) as nat) + digits
    } else {
        digits.subrange(0, digits.len() - scale) + seq![0x2eu8] + digits.subrange(
            digits.len() - scale,
            digits.len() as int,
        )
    };
    if v < 0 {
        seq![0x2du8] + core
    } else {
        core
    }
}

/// Renders an unscaled decimal and its scale as ASCII text, for example
/// value 12345 at scale 2 as `123.45`.
pub fn decimal_i128_to_string(value: i128, scale: u8) -> (r: Vec<u8>)
    ensures
        r@ == spec_decimal_text(value as int, scale as nat),
{
    let negative = value < 0;
    let mag: u128 = if value == i128::MIN {
        // The two's-complement cast of the minimum is exactly its magnitude.
        #[verifier::truncate] (value as u128)
    } else if negative {
        (-value) as u128
    } else {
        value as u128
    };
    proof {
        if value == i128::MIN {
            assert((value as u128) == 170141183460469231731687303715884105728u128)
                by (bit_vector)
                requires
                    value == -170141183460469231731687303715884105728i128,
            ;
        }
        assert(mag == if value < 0 {
            -(value as int)
        } else {
            value as int
        });
    }
    let mut digits: Vec<u8> = Vec::new();
    push_dec_u128(&mut digits, mag);
    proof {
        assert(digits@ =~= spec_dec_digits(mag as nat));
    }
    let mut out: Vec<u8> = Vec::new();
    if negative {
        out.push(0x2d);
        proof {
            assert(out@ =~= seq![0x2du8]);
        }
    }
    let ghost prefix = out@;
    if scale == 0 {
        push_bytes(&mut out, digits.as_slice());
    } else if digits.len() <= scale as usize {
        let mut core: Vec<u8> = Vec::new();
        core.push(0x30);
        core.push(0x2e);
        let mut k: usize = 0;
        let pad: usize = scale as usize - digits.len();
        while k < pad
            invariant
                k <= pad,
                core@ == seq![0x30u8, 0x2eu8] + spec_zeros(k as nat),
            decreases pad - k,
        {
            core.push(0x30);
            k += 1;
            proof {
                assert(seq![0x30u8, 0x2eu8] + spec_zeros(k as nat) =~= (seq![0x30u8, 0x2eu8]
                    + spec_zeros((k - 1) as nat)).push(0x30u8));
            }
        }
        proof {
            assert(core@ =~= seq![0x30u8, 0x2eu8] + spec_zeros(pad as nat));
        }
        push_bytes(&mut out, core.as_slice());
        push_bytes(&mut out, digits.as_slice());
        proof {
            assert(out@ =~= prefix + (seq![0x30u8, 0x2eu8] + spec_zeros(pad as nat) + digits@));
        }
    } else {
        let split: usize = digits.len() - scale as usize;
        let head = vstd::slice::slice_subrange(digits.as_slice(), 0, split);
        let tail = vstd::slice::slice_subrange(digits.as_slice(), split, digits.len());
        push_bytes(&mut out, head);
        out.push(0x2e);
        push_bytes(&mut out, tail);
        proof {
            assert(out@ =~= prefix + (digits@.subrange(0, split as int) + seq![0x2eu8]
                + digits@.subrange(split as int, digits@.len() as int)));
        }
    }
    proof {
        if value < 0 {
            assert(out@ =~= seq![0x2du8] + out@.subrange(1, out@.len() as int));
        }
        assert(out@ =~= spec_decimal_text(value as int, scale as nat));
    }
    out
}

/// Lower-case hexadecimal digit for a nibble.
pub open spec fn spec_hex_lower(d: int) -> u8 {
    if d < 10 {
        (0x30 + d) as u8
    } else {
        (0x61 + (d - 10)) as u8
    }
}

/// Lower-case hex rendering of a byte string.
pub open spec fn spec_hex_lower_bytes(s: Seq<u8>) -> Seq<u8>
    decreases s.len(),
{
    if s.len() == 0 {
        Seq::empty()
    } else {
        spec_hex_lower_bytes(s.drop_last()) + seq![
            spec_hex_lower((s.last() as int) / 16),
            spec_hex_lower((s.last() as int) % 16),
        ]
    }
}

/// Hyphenated GUID text: lower-case hex of the 16 bytes in order, with
/// hyphens after the 4th, 6th, 8th and 10th byte.
pub open spec fn spec_guid_text(b: Seq<u8>) -> Seq<u8> {
    spec_hex_lower_bytes(b.subrange(0, 4)) + seq![0x2du8] + spec_hex_lower_bytes(
        b.subrange(4, 6),
    ) + seq![0x2du8] + spec_hex_lower_bytes(b.subrange(6, 8)) + seq![0x2du8]
        + spec_hex_lower_bytes(b.subrange(8, 10)) + seq![0x2du8] + spec_hex_lower_bytes(
        b.subrange(10, 16),
    )
}

/// Relies on `uuid::Uuid::from_bytes` and the `Display` impl of `uuid::Uuid`:
/// the bytes are rendered in order as lower-case hex, hyphenated 8-4-4-4-12.
#[verifier::external_body]
fn guid_text_via_uuid(bytes: &[u8; 16]) -> (r: Vec<u8>)
    ensures
        r@ == spec_guid_text(bytes@),
{
    uuid::Uuid::from_bytes(*bytes).to_string().into_bytes()
}

/// Canonical text of a GUID value.
pub fn guid_to_text(bytes: &[u8; 16]) -> (r: Vec<u8>)
    ensures
        r@ == spec_guid_text(bytes@),
{
    guid_text_via_uuid(bytes)
}

/// Euclidean quotient and remainder for a positive divisor.
fn div_mod_euclid(a: i64, b: i64) -> (r: (i64, i64))
    requires
        b > 0,
    ensures
        r.0 == a as int / b as int,
        r.1 == a as int % b as int,
{
    proof {
        assert(i64::MIN <= a as int / b as int <= i64::MAX) by (nonlinear_arith)
            requires
                b > 0,
                i64::MIN <= a <= i64::MAX,
        ;
    }
    let q = a.checked_div_euclid(b).unwrap();
    let r = a.checked_rem_euclid(b).unwrap();
    (q, r)
}

/// The forward civil-calendar formula: days from the Unix epoch to a given
/// year, month and day, by the standard era decomposition.
pub open spec fn spec_days_from_civil(y: int, m: int, d: int) -> int {
    let yy = if m <= 2 {
        y - 1
    } else {
        y
    };
    let era = yy / 400;
    let yoe = yy - era * 400;
    let mp = if m > 2 {
        m - 3
    } else {
        m + 9
    };
    let doy = (153 * mp + 2) / 5 + d - 1;
    let doe = yoe * 365 + yoe / 4 - yoe / 100 + doy;
    era * 146097 + doe - 719468
}

/// The inverse direction, stated as the era decomposition of the shifted day
/// number: this is what the day-number algorithm computes.
pub open spec fn spec_civil_from_days(z: int) -> (int, int, int) {
    let days = z + 719468;
    let era = days / 146097;
    let doe = days % 146097;
    let yoe = (doe - doe / 1460 + doe / 36524 - doe / 146096) / 365;
    let y = yoe + era * 400;
    let doy = doe - (365 * yoe + yoe / 4 - yoe / 100);
    let mp = (5 * doy + 2) / 153;
    let d = doy - (153 * mp + 2) / 5 + 1;
    let m = if mp < 10 {
        mp + 3
    } else {
        mp - 9
    };
    (if m <= 2 {
        y + 1
    } else {
        y
    }, m, d)
}

/// Bound on day numbers the calendar conversion accepts; it covers every
/// instant an `i64` microsecond clock can hold.
pub open spec fn spec_days_in_range(z: int) -> bool {
    -200_000_000_000 <= z <= 200_000_000_000
}

/// A year-of-era's day offset within its 400-year era.
pub open spec fn spec_yoe_start(yoe: int) -> int {
    yoe * 365 + yoe / 4 - yoe / 100
}

/// Correctness core of the day-number algorithm: the chosen year of era
/// starts on or before the day of era, leaves at most a year's worth of
/// days, and stays inside the era.
proof fn lemma_yoe_bounds(doe: int)
    requires
        0 <= doe <= 146096,
    ensures
        0 <= (doe - doe / 1460 + doe / 36524 - doe / 146096) / 365 <= 399,
        spec_yoe_start((doe - doe / 1460 + doe / 36524 - doe / 146096) / 365) <= doe,
        doe - spec_yoe_start((doe - doe / 1460 + doe / 36524 - doe / 146096) / 365) <= 365,
{
    let g = doe - doe / 1460 + doe / 36524 - doe / 146096;
    let yoe = g / 365;
    assert(0 <= yoe <= 399) by (nonlinear_arith)
        requires
            0 <= doe <= 146096,
            g == doe - doe / 1460 + doe / 36524 - doe / 146096,
            yoe == g / 365,
    ;
    assert(yoe * 365 + yoe / 4 - yoe / 100 <= doe) by (nonlinear_arith)
        requires
            0 <= doe <= 146096,
            g == doe - doe / 1460 + doe / 36524 - doe / 146096,
            yoe == g / 365,
            0 <= yoe <= 399,
    ;
    assert(doe - (yoe * 365 + yoe / 4 - yoe / 100) <= 365) by (nonlinear_arith)
        requires
            0 <= doe <= 146096,
            g == doe - doe / 1460 + doe / 36524 - doe / 146096,
            yoe == g / 365,
            0 <= yoe <= 399,
    ;
}

/// Day-of-year decomposition into month slot and day: the slot start lies on
/// or before the day, at most 30 days earlier, and the slot stays in range.
proof fn lemma_mp_bounds(doy: int)
    requires
        0 <= doy <= 365,
    ensures
        0 <= (5 * doy + 2) / 153 <= 11,
        (153 * ((5 * doy + 2) / 153) + 2) / 5 <= doy,
        doy - (153 * ((5 * doy + 2) / 153) + 2) / 5 <= 30,
{
    let mp = (5 * doy + 2) / 153;
    assert(0 <= mp <= 11) by (nonlinear_arith)
        requires
            0 <= doy <= 365,
            mp == (5 * doy + 2) / 153,
    ;
    assert((153 * mp + 2) / 5 <= doy && doy - (153 * mp + 2) / 5 <= 30) by (nonlinear_arith)
        requires
            0 <= doy <= 365,
            mp == (5 * doy + 2) / 153,
            0 <= mp <= 11,
    ;
}

/// Civil year, month and day of a Unix day number.
pub fn civil_from_days(z: i64) -> (r: (i64, u8, u8))
    requires
        spec_days_in_range(z as int),
    ensures
        (r.0 as int, r.1 as int, r.2 as int) == spec_civil_from_days(z as int),
        1 <= r.1 <= 12,
        1 <= r.2 <= 31,
{
    let days: i64 = z + 719468;
    let (era, doe64) = div_mod_euclid(days, 146097);
    let doe: u64 = doe64 as u64;
    proof {
        lemma_yoe_bounds(doe as int);
        assert(doe as int / 1460 <= doe as int && doe as int / 36524 <= doe as int);
        assert(doe as int / 146096 <= doe as int / 36524) by (nonlinear_arith)
            requires
                0 <= doe as int,
        ;
    }
    let yoe: u64 = (doe - doe / 1460 + doe / 36524 - doe / 146096) / 365;
    let y: i64 = yoe as i64 + era * 400;
    let before: u64 = 365 * yoe + yoe / 4 - yoe / 100;
    let doy: u64 = doe - before;
    proof {
        lemma_mp_bounds(doy as int);
    }
    let mp: u64 = (5 * doy + 2) / 153;
    let d: u64 = doy - (153 * mp + 2) / 5 + 1;
    let m: u64 = if mp < 10 {
        mp + 3
    } else {
        mp - 9
    };
    let year: i64 = if m <= 2 {
        y + 1
    } else {
        y
    };
    (year, m as u8, d as u8)
}

/// Decomposes microseconds since the Unix epoch into calendar and clock
/// components: year, month, day, hour, minute, second, microsecond.
pub fn micros_to_components(micros: i64) -> (r: (i64, u8, u8, u8, u8, u8, u32))
    ensures
        ({
            let total_secs = micros as int / 1_000_000;
            let rem = micros as int % 1_000_000;
            let tod = total_secs % 86400;
            let days = total_secs / 86400;
            &&& (r.0 as int, r.1 as int, r.2 as int) == spec_civil_from_days(days)
            &&& r.3 == tod / 3600
            &&& r.4 == (tod % 3600) / 60
            &&& r.5 == tod % 60
            &&& r.6 == rem
        }),
        1 <= r.1 <= 12,
        1 <= r.2 <= 31,
        r.3 < 24 && r.4 < 60 && r.5 < 60 && r.6 < 1_000_000,
{
    let (total_secs, rem_micros) = div_mod_euclid(micros, 1_000_000);
    let (days, tod) = div_mod_euclid(total_secs, 86400);
    let hour: i64 = tod / 3600;
    let minute: i64 = (tod % 3600) / 60;
    let second: i64 = tod % 60;
    let (year, month, day) = civil_from_days(days);
    (year, month, day, hour as u8, minute as u8, second as u8, rem_micros as u32)
}

/// Splits nanoseconds since midnight into hour, minute, second and
/// microsecond.
pub fn time_nanos_to_components(nanos: i64) -> (r: (u8, u8, u8, u32))
    requires
        0 <= nanos < 86_400_000_000_000,
    ensures
        ({
            let total_secs = nanos as int / 1_000_000_000;
            let rem_nanos = nanos as int % 1_000_000_000;
            &&& r.0 == total_secs / 3600
            &&& r.1 == (total_secs % 3600) / 60
            &&& r.2 == total_secs % 60
            &&& r.3 == rem_nanos / 1000
        }),
        r.0 < 24 && r.1 < 60 && r.2 < 60 && r.3 < 1_000_000,
{
    let total_secs: i64 = nanos / 1_000_000_000;
    let rem_nanos: i64 = nanos % 1_000_000_000;
    let hour: i64 = total_secs / 3600;
    let minute: i64 = (total_secs % 3600) / 60;
    let second: i64 = total_secs % 60;
    (hour as u8, minute as u8, second as u8, (rem_nanos / 1000) as u32)
}

/// Shifts a UTC microsecond instant by a zone offset in minutes, giving the
/// local instant the offset denotes.
pub fn apply_offset_minutes(micros: i64, offset_minutes: i16) -> (r: i64)
    requires
        i64::MIN <= micros as int + offset_minutes as int * 60_000_000 <= i64::MAX,
    ensures
        r as int == micros as int + offset_minutes as int * 60_000_000,
{
    micros + (offset_minutes as i64) * 60_000_000
}

/// Ghost image of a compact value, with byte payloads as sequences.
pub enum ValueView {
    Null,
    Bool(bool),
    I64(i64),
    F64Bits(u64),
    Str(Seq<u8>),
    Bytes(Seq<u8>),
    Date(i32),
    Time(i64),
    DateTime(i64),
    DateTimeOffset(i64, i16),
    Decimal(i128, u8, u8),
    Guid(Seq<u8>),
}

impl View for CompactValue {
    type V = ValueView;

    open spec fn view(&self) -> ValueView {
        match self {
            CompactValue::Null => ValueView::Null,
            CompactValue::Bool(b) => ValueView::Bool(*b),
            CompactValue::I64(v) => ValueView::I64(*v),
            CompactValue::F64Bits(v) => ValueView::F64Bits(*v),
            CompactValue::Str(v) => ValueView::Str(v@),
            CompactValue::Bytes(v) => ValueView::Bytes(v@),
            CompactValue::Date(v) => ValueView::Date(*v),
            CompactValue::Time(v) => ValueView::Time(*v),
            CompactValue::DateTime(v) => ValueView::DateTime(*v),
            CompactValue::DateTimeOffset(v, o) => ValueView::DateTimeOffset(*v, *o),
            CompactValue::Decimal(v, p, sc) => ValueView::Decimal(*v, *p, *sc),
            CompactValue::Guid(b) => ValueView::Guid(b@),
        }
    }
}

/// Fresh copy of a byte vector.
pub fn copy_bytes(v: &Vec<u8>) -> (r: Vec<u8>)
    ensures
        r@ == v@,
{
    let mut out: Vec<u8> = Vec::new();
    push_bytes(&mut out, v.as_slice());
    proof {
        assert(out@ =~= v@);
    }
    out
}

impl Clone for CompactValue {
    /// A clone carries the same ghost image.
    fn clone(&self) -> (r: Self)
        ensures
            r@ == self@,
    {
        match self {
            CompactValue::Null => CompactValue::Null,
            CompactValue::Bool(b) => CompactValue::Bool(*b),
            CompactValue::I64(v) => CompactValue::I64(*v),
            CompactValue::F64Bits(v) => CompactValue::F64Bits(*v),
            CompactValue::Str(v) => CompactValue::Str(copy_bytes(v)),
            CompactValue::Bytes(v) => CompactValue::Bytes(copy_bytes(v)),
            CompactValue::Date(v) => CompactValue::Date(*v),
            CompactValue::Time(v) => CompactValue::Time(*v),
            CompactValue::DateTime(v) => CompactValue::DateTime(*v),
            CompactValue::DateTimeOffset(v, o) => CompactValue::DateTimeOffset(*v, *o),
            CompactValue::Decimal(v, p, sc) => CompactValue::Decimal(*v, *p, *sc),
            CompactValue::Guid(b) => CompactValue::Guid(*b),
        }
    }
}

/// Reading a decimal literal back: an optional leading minus, then digits
/// with at most one radix point; the mantissa is the digit string with the
/// point removed, the scale the count of digits after it.
pub open spec fn spec_parse_decimal(s: Seq<u8>) -> (int, nat) {
    let neg = s.len() > 0 && s[0] == 0x2d;
    let body = if neg {
        s.drop_first()
    } else {
        s
    };
    let dot = crate::rewrite::spec_find_byte(body, 0x2e);
    let digits = if dot >= body.len() {
        body
    } else {
        body.subrange(0, dot) + body.subrange(dot + 1, body.len() as int)
    };
    let mag = crate::ascii::spec_digits_value(digits);
    let scale: nat = if dot >= body.len() {
        0
    } else {
        (body.len() - dot - 1) as nat
    };
    (
        if neg {
            -(mag as int)
        } else {
            mag as int
        },
        scale,
    )
}

proof fn lemma_value_all_zeros(zs: Seq<u8>)
    requires
        forall|j: int| 0 <= j < zs.len() ==> zs[j] == 0x30,
    ensures
        crate::ascii::spec_digits_value(zs) == 0,
    decreases zs.len(),
{
    if zs.len() > 0 {
        lemma_value_all_zeros(zs.drop_last());
    }
}

proof fn lemma_value_prepend_zeros(zs: Seq<u8>, d: Seq<u8>)
    requires
        forall|j: int| 0 <= j < zs.len() ==> zs[j] == 0x30,
    ensures
        crate::ascii::spec_digits_value(zs + d) == crate::ascii::spec_digits_value(d),
    decreases d.len(),
{
    if d.len() == 0 {
        assert(zs + d =~= zs);
        lemma_value_all_zeros(zs);
    } else {
        assert((zs + d).drop_last() =~= zs + d.drop_last());
        assert((zs + d).last() == d.last());
        lemma_value_prepend_zeros(zs, d.drop_last());
    }
}

/// Rendering an unscaled value and scale and parsing the text back is the
/// identity: the mantissa and the scale both survive the round trip.
pub proof fn lemma_decimal_round_trip(v: int, scale: nat)
    ensures
        spec_parse_decimal(spec_decimal_text(v, scale)) == (v, scale),
{
    let mag: nat = if v < 0 {
        (-v) as nat
    } else {
        v as nat
    };
    crate::ascii::lemma_digits_value_of_dec(mag);
    let digits = crate::ascii::spec_dec_digits(mag);
    let core: Seq<u8> = if scale == 0 {
        digits
    } else if digits.len() <= scale {
        seq![0x30u8, 0x2eu8] + spec_zeros((scale - digits.len()) as nat) + digits
    } else {
        digits.subrange(0, digits.len() - scale) + seq![0x2eu8] + digits.subrange(
            digits.len() - scale,
            digits.len() as int,
        )
    };
    let text = spec_decimal_text(v, scale);
    assert(core.len() > 0);
    assert(0x30 <= core[0] && core[0] <= 0x39 || core[0] == 0x30) by {
        if scale == 0 {
            assert(0x30 <= digits[0] && digits[0] <= 0x39);
        } else if digits.len() <= scale {
            assert(core[0] == 0x30);
        } else {
            assert(core[0] == digits[0]);
            assert(0x30 <= digits[0] && digits[0] <= 0x39);
        }
    }
    if v < 0 {
        assert(text =~= seq![0x2du8] + core);
        assert(text[0] == 0x2d);
        assert(text.drop_first() =~= core);
    } else {
        assert(text =~= core);
        assert(text[0] == core[0]);
        assert(core[0] != 0x2d);
    }
    let body = core;
    if scale == 0 {
        assert(forall|j: int| 0 <= j < body.len() ==> body[j] != 0x2e) by {
            assert(crate::ascii::spec_all_digits(digits));
        }
        crate::rewrite::lemma_find_byte_absent(body, 0x2e);
    } else if digits.len() <= scale {
        let pad = spec_zeros((scale - digits.len()) as nat);
        assert(body[0] == 0x30 && body[1] == 0x2e);
        crate::rewrite::lemma_find_byte_at(body, 0x2e, 1);
        let parsed = body.subrange(0, 1) + body.subrange(2, body.len() as int);
        assert(body.subrange(0, 1) =~= seq![0x30u8]);
        assert(body.subrange(2, body.len() as int) =~= pad + digits);
        assert(parsed =~= (seq![0x30u8] + pad) + digits);
        assert(forall|j: int|
            0 <= j < (seq![0x30u8] + pad).len() ==> (seq![0x30u8] + pad)[j] == 0x30);
        lemma_value_prepend_zeros(seq![0x30u8] + pad, digits);
        assert(crate::ascii::spec_digits_value(parsed) == mag);
        assert(body.len() - 1 - 1 == scale);
    } else {
        let cut = digits.len() - scale;
        let d1 = digits.subrange(0, cut);
        let d2 = digits.subrange(cut, digits.len() as int);
        assert(body =~= d1 + seq![0x2eu8] + d2);
        assert(body[cut] == 0x2e);
        assert(forall|j: int| 0 <= j < cut ==> body[j] == digits[j]);
        assert(forall|j: int| 0 <= j < cut ==> body[j] != 0x2e) by {
            assert(crate::ascii::spec_all_digits(digits));
        }
        crate::rewrite::lemma_find_byte_at(body, 0x2e, cut);
        let parsed = body.subrange(0, cut) + body.subrange(cut + 1, body.len() as int);
        assert(body.subrange(0, cut) =~= d1);
        assert(body.subrange(cut + 1, body.len() as int) =~= d2);
        assert(parsed =~= digits);
        assert(crate::ascii::spec_digits_value(parsed) == mag);
        assert(body.len() - cut - 1 == scale);
    }
    if v < 0 {
        assert(mag > 0);
    }
}

/// The day-number conversion inverts the forward civil formula exactly: for
/// any day number in range, the year, month and day it yields map back to
/// the same day number.
pub proof fn lemma_civil_round_trip(z: int)
    requires
        spec_days_in_range(z),
    ensures
        ({
            let (y, m, d) = spec_civil_from_days(z);
            spec_days_from_civil(y, m, d) == z
        }),
{
    let days = z + 719468;
    let era = days / 146097;
    let doe = days % 146097;
    assert(0 <= doe <= 146096);
    lemma_yoe_bounds(doe);
    let yoe = (doe - doe / 1460 + doe / 36524 - doe / 146096) / 365;
    let y = yoe + era * 400;
    let doy = doe - (365 * yoe + yoe / 4 - yoe / 100);
    assert(0 <= doy <= 365);
    lemma_mp_bounds(doy);
    let mp = (5 * doy + 2) / 153;
    let d = doy - (153 * mp + 2) / 5 + 1;
    let m = if mp < 10 {
        mp + 3
    } else {
        mp - 9
    };
    let year = if m <= 2 {
        y + 1
    } else {
        y
    };
    assert(1 <= m <= 13);
    assert(1 <= d <= 31);
    let yy = if m <= 2 {
        year - 1
    } else {
        year
    };
    assert(yy == y);
    assert(yy == era * 400 + yoe);
    assert(yy / 400 == era && yy - (yy / 400) * 400 == yoe) by (nonlinear_arith)
        requires
            yy == era * 400 + yoe,
            0 <= yoe <= 399,
    ;
    let mp_back = if m > 2 {
        m - 3
    } else {
        m + 9
    };
    assert(mp_back == mp);
    let doy_back = (153 * mp_back + 2) / 5 + d - 1;
    assert(doy_back == doy);
    let doe_back = yoe * 365 + yoe / 4 - yoe / 100 + doy_back;
    assert(doe_back == doe);
    assert(era * 146097 + doe == days) by (nonlinear_arith)
        requires
            era == days / 146097,
            doe == days % 146097,
    ;
}

} // verus!
