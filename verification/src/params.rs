//! Parameter literal rendering and placeholder substitution: each host
//! parameter kind has one SQL literal form, and `?` placeholders outside
//! single-quoted literals are replaced in order.

use vstd::prelude::*;

use crate::ascii::{
    push_bytes, push_dec_u128, push_dec_u64, push_hex_upper, spec_ascii, spec_dec_digits,
    spec_hex_bytes, ascii_bytes,
};
use crate::value::{decimal_i128_to_string, guid_to_text, spec_decimal_text, spec_guid_text,
    spec_zeros};

verus! {

/// Host-supplied statement parameter, as a closed tagged union over plain
/// values. A float arrives as its host-rendered decimal text, which the
/// literal wraps; unknown host kinds arrive stringified in `Other`.
#[derive(PartialEq, Eq, Debug)]
pub enum ParamValue {
    Null,
    Bool(bool),
    Int(i64),
    /// Host-rendered decimal text of a float.
    Float(Vec<u8>),
    /// Unscaled value and scale.
    Decimal(i128, u8),
    Date { year: i32, month: u8, day: u8 },
    Time { hour: u8, minute: u8, second: u8, microsecond: u32 },
    DateTime { year: i32, month: u8, day: u8, hour: u8, minute: u8, second: u8, microsecond: u32 },
    OffsetDateTime {
        year: i32,
        month: u8,
        day: u8,
        hour: u8,
        minute: u8,
        second: u8,
        microsecond: u32,
        offset_seconds: i64,
    },
    Guid([u8; 16]),
    Bytes(Vec<u8>),
    Str(Vec<u8>),
    Numeric(NumericData),
    /// Stringified unknown host value.
    Other(Vec<u8>),
}

/// Ghost image of a parameter, with byte payloads as sequences.
pub enum ParamView {
    Null,
    Bool(bool),
    Int(i64),
    Float(Seq<u8>),
    Decimal(i128, u8),
    Date { year: i32, month: u8, day: u8 },
    Time { hour: u8, minute: u8, second: u8, microsecond: u32 },
    DateTime { year: i32, month: u8, day: u8, hour: u8, minute: u8, second: u8, microsecond: u32 },
    OffsetDateTime {
        year: i32,
        month: u8,
        day: u8,
        hour: u8,
        minute: u8,
        second: u8,
        microsecond: u32,
        offset_seconds: i64,
    },
    Guid(Seq<u8>),
    Bytes(Seq<u8>),
    Str(Seq<u8>),
    Numeric(NumericData),
    Other(Seq<u8>),
}

impl View for ParamValue {
    type V = ParamView;

    open spec fn view(&self) -> ParamView {
        match self {
            ParamValue::Null => ParamView::Null,
            ParamValue::Bool(b) => ParamView::Bool(*b),
            ParamValue::Int(v) => ParamView::Int(*v),
            ParamValue::Float(t) => ParamView::Float(t@),
            ParamValue::Decimal(m, sc) => ParamView::Decimal(*m, *sc),
            ParamValue::Date { year, month, day } => ParamView::Date {
                year: *year,
                month: *month,
                day: *day,
            },
            ParamValue::Time { hour, minute, second, microsecond } => ParamView::Time {
                hour: *hour,
                minute: *minute,
                second: *second,
                microsecond: *microsecond,
            },
            ParamValue::DateTime {
                year,
                month,
                day,
                hour,
                minute,
                second,
                microsecond,
            } => ParamView::DateTime {
                year: *year,
                month: *month,
                day: *day,
                hour: *hour,
                minute: *minute,
                second: *second,
                microsecond: *microsecond,
            },
            ParamValue::OffsetDateTime {
                year,
                month,
                day,
                hour,
                minute,
                second,
                microsecond,
                offset_seconds,
            } => ParamView::OffsetDateTime {
                year: *year,
                month: *month,
                day: *day,
                hour: *hour,
                minute: *minute,
                second: *second,
                microsecond: *microsecond,
                offset_seconds: *offset_seconds,
            },
            ParamValue::Guid(b) => ParamView::Guid(b@),
            ParamValue::Bytes(v) => ParamView::Bytes(v@),
            ParamValue::Str(v) => ParamView::Str(v@),
            ParamValue::Numeric(nd) => ParamView::Numeric(*nd),
            ParamValue::Other(v) => ParamView::Other(v@),
        }
    }
}

impl Clone for ParamValue {
    /// A clone carries the same ghost image.
    fn clone(&self) -> (r: Self)
        ensures
            r@ == self@,
    {
        match self {
            ParamValue::Null => ParamValue::Null,
            ParamValue::Bool(b) => ParamValue::Bool(*b),
            ParamValue::Int(v) => ParamValue::Int(*v),
            ParamValue::Float(t) => ParamValue::Float(crate::value::copy_bytes(t)),
            ParamValue::Decimal(m, sc) => ParamValue::Decimal(*m, *sc),
            ParamValue::Date { year, month, day } => ParamValue::Date {
                year: *year,
                month: *month,
                day: *day,
            },
            ParamValue::Time { hour, minute, second, microsecond } => ParamValue::Time {
                hour: *hour,
                minute: *minute,
                second: *second,
                microsecond: *microsecond,
            },
            ParamValue::DateTime {
                year,
                month,
                day,
                hour,
                minute,
                second,
                microsecond,
            } => ParamValue::DateTime {
                year: *year,
                month: *month,
                day: *day,
                hour: *hour,
                minute: *minute,
                second: *second,
                microsecond: *microsecond,
            },
            ParamValue::OffsetDateTime {
                year,
                month,
                day,
                hour,
                minute,
                second,
                microsecond,
                offset_seconds,
            } => ParamValue::OffsetDateTime {
                year: *year,
                month: *month,
                day: *day,
                hour: *hour,
                minute: *minute,
                second: *second,
                microsecond: *microsecond,
                offset_seconds: *offset_seconds,
            },
            ParamValue::Guid(b) => ParamValue::Guid(*b),
            ParamValue::Bytes(v) => ParamValue::Bytes(crate::value::copy_bytes(v)),
            ParamValue::Str(v) => ParamValue::Str(crate::value::copy_bytes(v)),
            ParamValue::Numeric(nd) => ParamValue::Numeric(*nd),
            ParamValue::Other(v) => ParamValue::Other(crate::value::copy_bytes(v)),
        }
    }
}

/// Legacy numeric parameter block of the statement surface.
#[derive(Clone, Copy, PartialEq, Eq, Structural, Debug)]
pub struct NumericData {
    pub precision: i32,
    pub scale: i32,
    pub sign: i32,
    pub val: i64,
}

impl NumericData {
    pub fn new() -> (r: NumericData)
        ensures
            r.precision == 0,
            r.scale == 0,
            r.sign == 1,
            r.val == 0,
    {
        NumericData { precision: 0, scale: 0, sign: 1, val: 0 }
    }
}

/// Decimal digits of `n` left-padded with zeros to at least `w` places.
pub open spec fn spec_pad_dec(n: nat, w: nat) -> Seq<u8> {
    let d = spec_dec_digits(n);
    if d.len() >= w {
        d
    } else {
        spec_zeros((w - d.len()) as nat) + d
    }
}

/// Appends `n` in decimal, zero-padded to at least `w` places.
pub fn push_pad_dec(out: &mut Vec<u8>, n: u64, w: usize)
    ensures
        final(out)@ == old(out)@ + spec_pad_dec(n as nat, w as nat),
{
    let mut d: Vec<u8> = Vec::new();
    push_dec_u64(&mut d, n);
    proof {
        assert(d@ =~= spec_dec_digits(n as nat));
    }
    if d.len() >= w {
        push_bytes(out, d.as_slice());
    } else {
        let pad: usize = w - d.len();
        let mut k: usize = 0;
        let ghost base = out@;
        while k < pad
            invariant
                k <= pad,
                out@ == base + spec_zeros(k as nat),
            decreases pad - k,
        {
            out.push(0x30);
            k += 1;
            proof {
                assert(base + spec_zeros(k as nat) =~= (base + spec_zeros((k - 1) as nat)).push(
                    0x30u8,
                ));
            }
        }
        push_bytes(out, d.as_slice());
        proof {
            assert(out@ =~= old(out)@ + (spec_zeros(pad as nat) + d@));
        }
    }
}

/// Signed decimal text.
pub open spec fn spec_i64_text(v: int) -> Seq<u8> {
    if v < 0 {
        seq![0x2du8] + spec_dec_digits((-v) as nat)
    } else {
        spec_dec_digits(v as nat)
    }
}

/// Appends the signed decimal text of `v`.
pub fn push_i64_text(out: &mut Vec<u8>, v: i64)
    ensures
        final(out)@ == old(out)@ + spec_i64_text(v as int),
{
    if v < 0 {
        out.push(0x2d);
        let mag: u128 = (-(v as i128)) as u128;
        push_dec_u128(out, mag);
        proof {
            assert(out@ =~= old(out)@ + (seq![0x2du8] + spec_dec_digits(mag as nat)));
        }
    } else {
        push_dec_u128(out, v as u128);
    }
}

/// The quote-doubling escape of string literals.
pub open spec fn spec_escape(s: Seq<u8>) -> Seq<u8>
    decreases s.len(),
{
    if s.len() == 0 {
        Seq::empty()
    } else {
        (if s[0] == 0x27 {
            seq![0x27u8, 0x27u8]
        } else {
            seq![s[0]]
        }) + spec_escape(s.drop_first())
    }
}

proof fn lemma_escape_push(s: Seq<u8>, b: u8)
    ensures
        spec_escape(s.push(b)) == spec_escape(s) + (if b == 0x27 {
            seq![0x27u8, 0x27u8]
        } else {
            seq![b]
        }),
    decreases s.len(),
{
    let unit: Seq<u8> = if b == 0x27 {
        seq![0x27u8, 0x27u8]
    } else {
        seq![b]
    };
    if s.len() == 0 {
        assert(s.push(b).drop_first() =~= Seq::<u8>::empty());
        assert(s.push(b)[0] == b);
        assert(spec_escape(Seq::<u8>::empty()) =~= Seq::<u8>::empty());
        assert(spec_escape(s.push(b)) == unit + spec_escape(Seq::<u8>::empty()));
        assert(spec_escape(s.push(b)) =~= unit);
        assert(spec_escape(s) + unit =~= unit);
    } else {
        assert(s.push(b).drop_first() =~= s.drop_first().push(b));
        lemma_escape_push(s.drop_first(), b);
        assert(s.push(b)[0] == s[0]);
        let head: Seq<u8> = if s[0] == 0x27 {
            seq![0x27u8, 0x27u8]
        } else {
            seq![s[0]]
        };
        assert(spec_escape(s.push(b)) == head + (spec_escape(s.drop_first()) + unit));
        assert(head + (spec_escape(s.drop_first()) + unit) =~= (head + spec_escape(
            s.drop_first(),
        )) + unit);
    }
}

/// Doubles every single quote in `s`, the escape of SQL string literals.
pub fn escape_sql(s: &[u8]) -> (r: Vec<u8>)
    ensures
        r@ == spec_escape(s@),
{
    let mut out: Vec<u8> = Vec::new();
    let mut i: usize = 0;
    proof {
        assert(s@.subrange(0, 0) =~= Seq::<u8>::empty());
    }
    while i < s.len()
        invariant
            i <= s.len(),
            out@ == spec_escape(s@.subrange(0, i as int)),
        decreases s.len() - i,
    {
        let b = s[i];
        if b == 0x27 {
            out.push(0x27);
            out.push(0x27);
        } else {
            out.push(b);
        }
        i += 1;
        proof {
            assert(s@.subrange(0, i as int) =~= s@.subrange(0, i - 1).push(s@[i - 1]));
            lemma_escape_push(s@.subrange(0, i - 1), s@[i - 1]);
            assert(out@ =~= spec_escape(s@.subrange(0, i as int)));
        }
    }
    proof {
        assert(s@.subrange(0, s@.len() as int) =~= s@);
    }
    out
}

/// The absolute value used when printing a zone offset.
pub open spec fn spec_abs(v: int) -> int {
    if v < 0 {
        -v
    } else {
        v
    }
}

/// The date core `yyyy-mm-dd`.
pub open spec fn spec_date_text(year: int, month: int, day: int) -> Seq<u8> {
    spec_pad_dec(year as nat, 4) + seq![0x2du8] + spec_pad_dec(month as nat, 2) + seq![0x2du8]
        + spec_pad_dec(day as nat, 2)
}

/// The clock core `hh:mm:ss`.
pub open spec fn spec_clock_text(hour: int, minute: int, second: int) -> Seq<u8> {
    spec_pad_dec(hour as nat, 2) + seq![0x3au8] + spec_pad_dec(minute as nat, 2) + seq![0x3au8]
        + spec_pad_dec(second as nat, 2)
}

/// The explicit zone suffix `+hh:mm` or `-hh:mm` of an offset literal.
pub open spec fn spec_offset_text(offset_seconds: int) -> Seq<u8> {
    let sign: Seq<u8> = if offset_seconds >= 0 {
        spec_ascii("+")
    } else {
        spec_ascii("-")
    };
    let a = spec_abs(offset_seconds);
    sign + spec_pad_dec((a / 3600) as nat, 2) + seq![0x3au8] + spec_pad_dec(
        ((a % 3600) / 60) as nat,
        2,
    )
}

/// The legacy numeric block's text: the signed value text with the radix
/// point `scale` digits from the right, under the block's own sign flag.
pub open spec fn spec_numeric_text(nd: NumericData) -> Seq<u8> {
    let sign: Seq<u8> = if nd.sign == 0 {
        seq![0x2du8]
    } else {
        Seq::empty()
    };
    let s = spec_i64_text(nd.val as int);
    if nd.scale > 0 {
        if s.len() > nd.scale {
            sign + s.subrange(0, s.len() - nd.scale) + seq![0x2eu8] + s.subrange(
                s.len() - nd.scale,
                s.len() as int,
            )
        } else {
            sign + spec_ascii("0.") + spec_zeros((nd.scale - s.len()) as nat) + s
        }
    } else {
        sign + s
    }
}

/// The SQL literal of one parameter, by its kind: `NULL`; `1`/`0`; decimal
/// integer text; `CAST(t AS FLOAT)` around a float's host text; decimal
/// text; ISO-style quoted date, time and datetime literals, a sub-millisecond
/// datetime wrapped in a `DATETIME2(7)` cast, an offset datetime with an
/// explicit `+hh:mm` zone; a quoted GUID; `0x`-hex bytes; `N'...'` strings
/// with quote doubling; and the legacy numeric block's own form.
pub open spec fn spec_render_literal(p: ParamValue) -> Seq<u8> {
    match p {
        ParamValue::Null => spec_ascii("NULL"),
        ParamValue::Bool(b) => if b {
            spec_ascii("1")
        } else {
            spec_ascii("0")
        },
        ParamValue::Int(v) => spec_i64_text(v as int),
        ParamValue::Float(t) => spec_ascii("CAST(") + t@ + spec_ascii(" AS FLOAT)"),
        ParamValue::Decimal(m, sc) => spec_decimal_text(m as int, sc as nat),
        ParamValue::Date { year, month, day } => seq![0x27u8] + spec_date_text(
            year as int,
            month as int,
            day as int,
        ) + seq![0x27u8],
        ParamValue::Time { hour, minute, second, microsecond } => seq![0x27u8] + spec_clock_text(
            hour as int,
            minute as int,
            second as int,
        ) + (if microsecond > 0 {
            seq![0x2eu8] + spec_pad_dec(microsecond as nat, 6)
        } else {
            Seq::<u8>::empty()
        }) + seq![0x27u8],
        ParamValue::DateTime { year, month, day, hour, minute, second, microsecond } => {
            let core = spec_date_text(year as int, month as int, day as int) + seq![0x20u8]
                + spec_clock_text(hour as int, minute as int, second as int);
            if microsecond > 0 && microsecond % 1000 == 0 {
                seq![0x27u8] + core + seq![0x2eu8] + spec_pad_dec((microsecond / 1000) as nat, 3)
                    + seq![0x27u8]
            } else if microsecond > 0 {
                spec_ascii("CAST('") + core + seq![0x2eu8] + spec_pad_dec(
                    (microsecond * 10) as nat,
                    7,
                ) + spec_ascii("' AS DATETIME2(7))")
            } else {
                seq![0x27u8] + core + seq![0x27u8]
            }
        },
        ParamValue::OffsetDateTime {
            year,
            month,
            day,
            hour,
            minute,
            second,
            microsecond,
            offset_seconds,
        } => {
            let core = spec_date_text(year as int, month as int, day as int) + seq![0x20u8]
                + spec_clock_text(hour as int, minute as int, second as int);
            let zone = spec_offset_text(offset_seconds as int);
            if microsecond > 0 {
                seq![0x27u8] + core + seq![0x2eu8] + spec_pad_dec((microsecond * 10) as nat, 7)
                    + zone + seq![0x27u8]
            } else {
                seq![0x27u8] + core + zone + seq![0x27u8]
            }
        },
        ParamValue::Guid(b) => seq![0x27u8] + spec_guid_text(b@) + seq![0x27u8],
        ParamValue::Bytes(v) => spec_ascii("0x") + spec_hex_bytes(v@),
        ParamValue::Str(v) => spec_ascii("N'") + spec_escape(v@) + seq![0x27u8],
        ParamValue::Numeric(nd) => spec_numeric_text(nd),
        ParamValue::Other(v) => spec_ascii("N'") + spec_escape(v@) + seq![0x27u8],
    }
}

/// What rendering asks of a parameter: values a host can hand over, stated
/// as machine limits — a representable decimal, calendar fields in their
/// ranges, an offset below a day.
pub open spec fn spec_param_wf(p: ParamValue) -> bool {
    match p {
        ParamValue::Date { year, .. } => 0 <= year <= 9999,
        ParamValue::Time { microsecond, .. } => microsecond < 1_000_000,
        ParamValue::DateTime { year, microsecond, .. } => 0 <= year <= 9999 && microsecond
            < 1_000_000,
        ParamValue::OffsetDateTime { year, microsecond, offset_seconds, .. } => 0 <= year <= 9999
            && microsecond < 1_000_000 && -86400 < offset_seconds < 86400,
        _ => true,
    }
}

/// Renders one parameter as its SQL literal.
#[verifier::rlimit(50)]
pub fn render_literal(p: &ParamValue) -> (r: Vec<u8>)
    requires
        spec_param_wf(*p),
    ensures
        r@ == spec_render_literal(*p),
{
    proof {
        reveal_strlit("NULL");
        reveal_strlit("1");
        reveal_strlit("0");
        reveal_strlit("CAST(");
        reveal_strlit(" AS FLOAT)");
        reveal_strlit("CAST('");
        reveal_strlit("' AS DATETIME2(7))");
        reveal_strlit("0x");
        reveal_strlit("N'");
        reveal_strlit("0.");
        reveal_strlit("+");
        reveal_strlit("-");
    }
    match p {
        ParamValue::Null => ascii_bytes("NULL"),
        ParamValue::Bool(b) => if *b {
            ascii_bytes("1")
        } else {
            ascii_bytes("0")
        },
        ParamValue::Int(v) => {
            let mut out: Vec<u8> = Vec::new();
            push_i64_text(&mut out, *v);
            proof {
                assert(out@ =~= spec_i64_text(*v as int));
            }
            out
        },
        ParamValue::Float(t) => {
            let mut out = ascii_bytes("CAST(");
            push_bytes(&mut out, t.as_slice());
            let suffix = ascii_bytes(" AS FLOAT)");
            push_bytes(&mut out, suffix.as_slice());
            proof {
                assert(out@ =~= spec_ascii("CAST(") + t@ + spec_ascii(" AS FLOAT)"));
            }
            out
        },
        ParamValue::Decimal(m, sc) => decimal_i128_to_string(*m, *sc),
        ParamValue::Date { year, month, day } => {
            let mut out: Vec<u8> = Vec::new();
            out.push(0x27);
            push_date_text(&mut out, *year, *month, *day);
            out.push(0x27);
            proof {
                assert(out@ =~= seq![0x27u8] + spec_date_text(
                    *year as int,
                    *month as int,
                    *day as int,
                ) + seq![0x27u8]);
            }
            out
        },
        ParamValue::Time { hour, minute, second, microsecond } => {
            let mut out: Vec<u8> = Vec::new();
            out.push(0x27);
            push_clock_text(&mut out, *hour, *minute, *second);
            if *microsecond > 0 {
                out.push(0x2e);
                push_pad_dec(&mut out, *microsecond as u64, 6);
            }
            out.push(0x27);
            proof {
                assert(out@ =~= seq![0x27u8] + spec_clock_text(
                    *hour as int,
                    *minute as int,
                    *second as int,
                ) + (if *microsecond > 0 {
                    seq![0x2eu8] + spec_pad_dec(*microsecond as nat, 6)
                } else {
                    Seq::<u8>::empty()
                }) + seq![0x27u8]);
            }
            out
        },
        ParamValue::DateTime { year, month, day, hour, minute, second, microsecond } => {
            let us = *microsecond;
            if us > 0 && us % 1000 == 0 {
                let mut out: Vec<u8> = Vec::new();
                out.push(0x27);
                push_date_text(&mut out, *year, *month, *day);
                out.push(0x20);
                push_clock_text(&mut out, *hour, *minute, *second);
                out.push(0x2e);
                push_pad_dec(&mut out, (us / 1000) as u64, 3);
                out.push(0x27);
                proof {
                    assert(out@ =~= seq![0x27u8] + (spec_date_text(
                        *year as int,
                        *month as int,
                        *day as int,
                    ) + seq![0x20u8] + spec_clock_text(*hour as int, *minute as int, *second as int))
                        + seq![0x2eu8] + spec_pad_dec((us / 1000) as nat, 3) + seq![0x27u8]);
                }
                out
            } else if us > 0 {
                let mut out = ascii_bytes("CAST('");
                push_date_text(&mut out, *year, *month, *day);
                out.push(0x20);
                push_clock_text(&mut out, *hour, *minute, *second);
                out.push(0x2e);
                push_pad_dec(&mut out, (us as u64) * 10, 7);
                let suffix = ascii_bytes("' AS DATETIME2(7))");
                push_bytes(&mut out, suffix.as_slice());
                proof {
                    assert(out@ =~= spec_ascii("CAST('") + (spec_date_text(
                        *year as int,
                        *month as int,
                        *day as int,
                    ) + seq![0x20u8] + spec_clock_text(*hour as int, *minute as int, *second as int))
                        + seq![0x2eu8] + spec_pad_dec((us * 10) as nat, 7) + spec_ascii(
                        "' AS DATETIME2(7))",
                    ));
                }
                out
            } else {
                let mut out: Vec<u8> = Vec::new();
                out.push(0x27);
                push_date_text(&mut out, *year, *month, *day);
                out.push(0x20);
                push_clock_text(&mut out, *hour, *minute, *second);
                out.push(0x27);
                proof {
                    assert(out@ =~= seq![0x27u8] + (spec_date_text(
                        *year as int,
                        *month as int,
                        *day as int,
                    ) + seq![0x20u8] + spec_clock_text(*hour as int, *minute as int, *second as int))
                        + seq![0x27u8]);
                }
                out
            }
        },
        ParamValue::OffsetDateTime {
            year,
            month,
            day,
            hour,
            minute,
            second,
            microsecond,
            offset_seconds,
        } => {
            let us = *microsecond;
            let mut out: Vec<u8> = Vec::new();
            out.push(0x27);
            push_date_text(&mut out, *year, *month, *day);
            out.push(0x20);
            push_clock_text(&mut out, *hour, *minute, *second);
            if us > 0 {
                out.push(0x2e);
                push_pad_dec(&mut out, (us as u64) * 10, 7);
            }
            push_offset_text(&mut out, *offset_seconds);
            out.push(0x27);
            proof {
                let core = spec_date_text(*year as int, *month as int, *day as int)
                    + seq![0x20u8] + spec_clock_text(*hour as int, *minute as int, *second as int);
                let zone = spec_offset_text(*offset_seconds as int);
                if us > 0 {
                    assert(out@ =~= seq![0x27u8] + core + seq![0x2eu8] + spec_pad_dec(
                        (us * 10) as nat,
                        7,
                    ) + zone + seq![0x27u8]);
                } else {
                    assert(out@ =~= seq![0x27u8] + core + zone + seq![0x27u8]);
                }
            }
            out
        },
        ParamValue::Guid(b) => {
            let mut out: Vec<u8> = Vec::new();
            out.push(0x27);
            let text = guid_to_text(b);
            push_bytes(&mut out, text.as_slice());
            out.push(0x27);
            proof {
                assert(out@ =~= seq![0x27u8] + spec_guid_text(b@) + seq![0x27u8]);
            }
            out
        },
        ParamValue::Bytes(v) => {
            let mut out = ascii_bytes("0x");
            push_hex_upper(&mut out, v.as_slice());
            out
        },
        ParamValue::Str(v) => {
            let mut out = ascii_bytes("N'");
            let esc = escape_sql(v.as_slice());
            push_bytes(&mut out, esc.as_slice());
            out.push(0x27);
            proof {
                assert(out@ =~= spec_ascii("N'") + spec_escape(v@) + seq![0x27u8]);
            }
            out
        },
        ParamValue::Numeric(nd) => render_numeric(nd),
        ParamValue::Other(v) => {
            let mut out = ascii_bytes("N'");
            let esc = escape_sql(v.as_slice());
            push_bytes(&mut out, esc.as_slice());
            out.push(0x27);
            proof {
                assert(out@ =~= spec_ascii("N'") + spec_escape(v@) + seq![0x27u8]);
            }
            out
        },
    }
}

/// Appends the `yyyy-mm-dd` core.
fn push_date_text(out: &mut Vec<u8>, year: i32, month: u8, day: u8)
    requires
        year >= 0,
    ensures
        final(out)@ == old(out)@ + spec_date_text(year as int, month as int, day as int),
{
    push_pad_dec(out, year as u64, 4);
    out.push(0x2d);
    push_pad_dec(out, month as u64, 2);
    out.push(0x2d);
    push_pad_dec(out, day as u64, 2);
    proof {
        assert(out@ =~= old(out)@ + spec_date_text(year as int, month as int, day as int));
    }
}

/// Appends the `hh:mm:ss` core.
fn push_clock_text(out: &mut Vec<u8>, hour: u8, minute: u8, second: u8)
    ensures
        final(out)@ == old(out)@ + spec_clock_text(hour as int, minute as int, second as int),
{
    push_pad_dec(out, hour as u64, 2);
    out.push(0x3a);
    push_pad_dec(out, minute as u64, 2);
    out.push(0x3a);
    push_pad_dec(out, second as u64, 2);
    proof {
        assert(out@ =~= old(out)@ + spec_clock_text(hour as int, minute as int, second as int));
    }
}

/// Appends the `+hh:mm`/`-hh:mm` zone suffix.
fn push_offset_text(out: &mut Vec<u8>, offset_seconds: i64)
    requires
        offset_seconds != i64::MIN,
    ensures
        final(out)@ == old(out)@ + spec_offset_text(offset_seconds as int),
{
    proof {
        reveal_strlit("+");
        reveal_strlit("-");
    }
    if offset_seconds >= 0 {
        let plus = ascii_bytes("+");
        push_bytes(out, plus.as_slice());
    } else {
        let minus = ascii_bytes("-");
        push_bytes(out, minus.as_slice());
    }
    let a: i64 = if offset_seconds < 0 {
        -offset_seconds
    } else {
        offset_seconds
    };
    push_pad_dec(out, (a / 3600) as u64, 2);
    out.push(0x3a);
    push_pad_dec(out, ((a % 3600) / 60) as u64, 2);
    proof {
        assert(out@ =~= old(out)@ + spec_offset_text(offset_seconds as int));
    }
}

/// Renders the legacy numeric block.
fn render_numeric(nd: &NumericData) -> (r: Vec<u8>)
    ensures
        r@ == spec_numeric_text(*nd),
{
    let mut out: Vec<u8> = Vec::new();
    if nd.sign == 0 {
        out.push(0x2d);
    }
    let ghost sign = out@;
    let mut s: Vec<u8> = Vec::new();
    push_i64_text(&mut s, nd.val);
    proof {
        assert(s@ =~= spec_i64_text(nd.val as int));
    }
    if nd.scale > 0 {
        let scale = nd.scale as usize;
        if s.len() > scale {
            let split: usize = s.len() - scale;
            let head = vstd::slice::slice_subrange(s.as_slice(), 0, split);
            let tail = vstd::slice::slice_subrange(s.as_slice(), split, s.len());
            push_bytes(&mut out, head);
            out.push(0x2e);
            push_bytes(&mut out, tail);
            proof {
                assert(out@ =~= sign + s@.subrange(0, split as int) + seq![0x2eu8] + s@.subrange(
                    split as int,
                    s@.len() as int,
                ));
            }
        } else {
            proof {
                reveal_strlit("0.");
            }
            let zero_dot = ascii_bytes("0.");
            push_bytes(&mut out, zero_dot.as_slice());
            let pad: usize = scale - s.len();
            let mut k: usize = 0;
            let ghost base = out@;
            while k < pad
                invariant
                    k <= pad,
                    out@ == base + spec_zeros(k as nat),
                decreases pad - k,
            {
                out.push(0x30);
                k += 1;
                proof {
                    assert(base + spec_zeros(k as nat) =~= (base + spec_zeros(
                        (k - 1) as nat,
                    )).push(0x30u8));
                }
            }
            push_bytes(&mut out, s.as_slice());
            proof {
                assert(out@ =~= sign + spec_ascii("0.") + spec_zeros(pad as nat) + s@);
            }
        }
    } else {
        push_bytes(&mut out, s.as_slice());
        proof {
            assert(out@ =~= sign + s@);
        }
    }
    proof {
        assert(out@ =~= spec_numeric_text(*nd));
    }
    out
}


/// The placeholder substitution, from position `i` with parameters from
/// `pidx` on, tracking whether the scan stands inside a single-quoted
/// literal: outside a literal each `?` takes the next rendered parameter
/// (extra `?` stay); inside one, a doubled quote is the escape and
/// everything is copied untouched.
pub open spec fn spec_subst_from(
    sql: Seq<u8>,
    i: int,
    lits: Seq<Seq<u8>>,
    pidx: int,
    in_quote: bool,
) -> Seq<u8>
    decreases sql.len() - i,
{
    if i < 0 || i >= sql.len() {
        Seq::empty()
    } else if in_quote {
        if sql[i] == 0x27 {
            if i + 1 < sql.len() && sql[i + 1] == 0x27 {
                seq![0x27u8, 0x27u8] + spec_subst_from(sql, i + 2, lits, pidx, true)
            } else {
                seq![0x27u8] + spec_subst_from(sql, i + 1, lits, pidx, false)
            }
        } else {
            seq![sql[i]] + spec_subst_from(sql, i + 1, lits, pidx, true)
        }
    } else if sql[i] == 0x3f {
        if pidx < lits.len() {
            lits[pidx] + spec_subst_from(sql, i + 1, lits, pidx + 1, false)
        } else {
            seq![0x3fu8] + spec_subst_from(sql, i + 1, lits, pidx, false)
        }
    } else if sql[i] == 0x27 {
        seq![0x27u8] + spec_subst_from(sql, i + 1, lits, pidx, true)
    } else {
        seq![sql[i]] + spec_subst_from(sql, i + 1, lits, pidx, false)
    }
}

/// The full substitution: the statement scanned from the start, parameters
/// taken in order.
pub open spec fn spec_substitute(sql: Seq<u8>, lits: Seq<Seq<u8>>) -> Seq<u8> {
    spec_subst_from(sql, 0, lits, 0, false)
}

/// The rendered literals of a parameter list.
pub open spec fn spec_rendered(params: Seq<ParamValue>) -> Seq<Seq<u8>> {
    params.map_values(|p: ParamValue| spec_render_literal(p))
}

/// Substitutes `?` placeholders with the parameters' SQL literals, in order,
/// skipping `?` inside single-quoted literals and honoring doubled-quote
/// escaping; surplus placeholders stay as they are.
pub fn substitute_params(sql: &[u8], params: &Vec<ParamValue>) -> (r: Vec<u8>)
    requires
        forall|j: int| 0 <= j < params@.len() ==> spec_param_wf(#[trigger] params@[j]),
    ensures
        r@ == spec_substitute(sql@, spec_rendered(params@)),
{
    let ghost lits = spec_rendered(params@);
    let mut out: Vec<u8> = Vec::new();
    let mut i: usize = 0;
    let mut pidx: usize = 0;
    let mut in_quote: bool = false;
    while i < sql.len()
        invariant
            i <= sql.len(),
            pidx <= params@.len(),
            lits == spec_rendered(params@),
            forall|j: int| 0 <= j < params@.len() ==> spec_param_wf(#[trigger] params@[j]),
            spec_substitute(sql@, lits) == out@ + spec_subst_from(
                sql@,
                i as int,
                lits,
                pidx as int,
                in_quote,
            ),
        decreases sql.len() - i,
    {
        let ghost pre = out@;
        let b = sql[i];
        if in_quote {
            if b == 0x27 {
                if i + 1 < sql.len() && sql[i + 1] == 0x27 {
                    out.push(0x27);
                    out.push(0x27);
                    i += 2;
                    proof {
                        assert(out@ =~= pre + seq![0x27u8, 0x27u8]);
                        assert(pre + (seq![0x27u8, 0x27u8] + spec_subst_from(
                            sql@,
                            i as int,
                            lits,
                            pidx as int,
                            true,
                        )) =~= out@ + spec_subst_from(sql@, i as int, lits, pidx as int, true));
                    }
                } else {
                    out.push(0x27);
                    in_quote = false;
                    i += 1;
                    proof {
                        assert(out@ =~= pre + seq![0x27u8]);
                        assert(pre + (seq![0x27u8] + spec_subst_from(
                            sql@,
                            i as int,
                            lits,
                            pidx as int,
                            false,
                        )) =~= out@ + spec_subst_from(sql@, i as int, lits, pidx as int, false));
                    }
                }
            } else {
                out.push(b);
                i += 1;
                proof {
                    assert(out@ =~= pre + seq![b]);
                    assert(pre + (seq![b] + spec_subst_from(
                        sql@,
                        i as int,
                        lits,
                        pidx as int,
                        true,
                    )) =~= out@ + spec_subst_from(sql@, i as int, lits, pidx as int, true));
                }
            }
        } else if b == 0x3f {
            if pidx < params.len() {
                let lit = render_literal(&params[pidx]);
                push_bytes(&mut out, lit.as_slice());
                pidx += 1;
                i += 1;
                proof {
                    assert(lit@ == lits[pidx - 1]);
                    assert(out@ =~= pre + lits[pidx - 1]);
                    assert(pre + (lits[pidx - 1] + spec_subst_from(
                        sql@,
                        i as int,
                        lits,
                        pidx as int,
                        false,
                    )) =~= out@ + spec_subst_from(sql@, i as int, lits, pidx as int, false));
                }
            } else {
                out.push(0x3f);
                i += 1;
                proof {
                    assert(out@ =~= pre + seq![0x3fu8]);
                    assert(pre + (seq![0x3fu8] + spec_subst_from(
                        sql@,
                        i as int,
                        lits,
                        pidx as int,
                        false,
                    )) =~= out@ + spec_subst_from(sql@, i as int, lits, pidx as int, false));
                }
            }
        } else if b == 0x27 {
            out.push(0x27);
            in_quote = true;
            i += 1;
            proof {
                assert(out@ =~= pre + seq![0x27u8]);
                assert(pre + (seq![0x27u8] + spec_subst_from(
                    sql@,
                    i as int,
                    lits,
                    pidx as int,
                    true,
                )) =~= out@ + spec_subst_from(sql@, i as int, lits, pidx as int, true));
            }
        } else {
            out.push(b);
            i += 1;
            proof {
                assert(out@ =~= pre + seq![b]);
                assert(pre + (seq![b] + spec_subst_from(
                    sql@,
                    i as int,
                    lits,
                    pidx as int,
                    false,
                )) =~= out@ + spec_subst_from(sql@, i as int, lits, pidx as int, false));
            }
        }
    }
    proof {
        assert(spec_subst_from(sql@, i as int, lits, pidx as int, in_quote) =~= Seq::<u8>::empty());
        assert(out@ =~= out@ + Seq::<u8>::empty());
    }
    out
}

/// One positional-parameter row, re-sliced from column-major parameter
/// arrays: element `j` is row `row` of column `j`.
pub fn row_params(columnwise: &Vec<Vec<ParamValue>>, row: usize) -> (r: Vec<ParamValue>)
    requires
        forall|j: int| 0 <= j < columnwise@.len() ==> row < #[trigger] columnwise@[j]@.len(),
    ensures
        r@.len() == columnwise@.len(),
        forall|j: int|
            0 <= j < r@.len() ==> #[trigger] r@[j]@ == columnwise@[j]@[row as int]@,
{
    let mut out: Vec<ParamValue> = Vec::new();
    let mut j: usize = 0;
    while j < columnwise.len()
        invariant
            j <= columnwise@.len(),
            forall|k: int| 0 <= k < columnwise@.len() ==> row < #[trigger] columnwise@[k]@.len(),
            out@.len() == j,
            forall|k: int|
                0 <= k < out@.len() ==> #[trigger] out@[k]@ == columnwise@[k]@[row as int]@,
        decreases columnwise@.len() - j,
    {
        out.push(columnwise[j][row].clone());
        j += 1;
    }
    out
}

} // verus!
