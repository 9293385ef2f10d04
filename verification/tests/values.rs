//! The value conversion layer: decimal rendering, calendar arithmetic, GUID
//! text, and parameter literal rendering.

use whiskers::params::{render_literal, row_params, NumericData, ParamValue};
use whiskers::value::{
    apply_offset_minutes, civil_from_days, decimal_i128_to_string, guid_to_text,
    micros_to_components, time_nanos_to_components,
};

#[test]
fn decimal_mantissa_and_scale_round_trip() {
    assert_eq!(decimal_i128_to_string(12345, 2), b"123.45".to_vec());
    assert_eq!(decimal_i128_to_string(-5, 3), b"-0.005".to_vec());
    assert_eq!(decimal_i128_to_string(0, 0), b"0".to_vec());
    assert_eq!(decimal_i128_to_string(0, 2), b"0.00".to_vec());
    assert_eq!(decimal_i128_to_string(100, 2), b"1.00".to_vec());
    assert_eq!(decimal_i128_to_string(7, 0), b"7".to_vec());
    assert_eq!(decimal_i128_to_string(-12345678901234567890, 5), b"-123456789012345.67890".to_vec());
    assert_eq!(
        decimal_i128_to_string(i128::MIN, 2),
        b"-1701411834604692317316873037158841057.28".to_vec()
    );
}

#[test]
fn civil_calendar_known_dates() {
    assert_eq!(civil_from_days(0), (1970, 1, 1));
    assert_eq!(civil_from_days(11016), (2000, 2, 29));
    assert_eq!(civil_from_days(11017), (2000, 3, 1));
    assert_eq!(civil_from_days(-1), (1969, 12, 31));
    assert_eq!(civil_from_days(19723), (2024, 1, 1));
}

#[test]
fn datetime_micros_decompose() {
    assert_eq!(micros_to_components(0), (1970, 1, 1, 0, 0, 0, 0));
    // 2001-09-09 01:46:40 UTC is the billionth second.
    assert_eq!(micros_to_components(1_000_000_000_000_000), (2001, 9, 9, 1, 46, 40, 0));
    // A negative instant falls the day before the epoch.
    assert_eq!(micros_to_components(-1), (1969, 12, 31, 23, 59, 59, 999_999));
}

#[test]
fn time_nanos_decompose() {
    assert_eq!(time_nanos_to_components(0), (0, 0, 0, 0));
    // 13:14:15.678900 into the day.
    assert_eq!(time_nanos_to_components(47_655_678_900_100), (13, 14, 15, 678_900));
}

#[test]
fn offset_shifts_instant() {
    assert_eq!(apply_offset_minutes(1_000, 2), 120_001_000);
    assert_eq!(apply_offset_minutes(0, -30), -1_800_000_000);
}

#[test]
fn guid_renders_hyphenated_lowercase() {
    let bytes: [u8; 16] = [
        0x00, 0x11, 0x22, 0x33, 0x44, 0x55, 0x66, 0x77, 0x88, 0x99, 0xaa, 0xbb, 0xcc, 0xdd, 0xee,
        0xff,
    ];
    assert_eq!(guid_to_text(&bytes), b"00112233-4455-6677-8899-aabbccddeeff".to_vec());
}

#[test]
fn literal_rendering_scalars() {
    assert_eq!(render_literal(&ParamValue::Null), b"NULL".to_vec());
    assert_eq!(render_literal(&ParamValue::Bool(true)), b"1".to_vec());
    assert_eq!(render_literal(&ParamValue::Bool(false)), b"0".to_vec());
    assert_eq!(render_literal(&ParamValue::Int(-17)), b"-17".to_vec());
    assert_eq!(render_literal(&ParamValue::Float(b"2.5".to_vec())), b"CAST(2.5 AS FLOAT)".to_vec());
    assert_eq!(render_literal(&ParamValue::Decimal(-5, 3)), b"-0.005".to_vec());
    assert_eq!(render_literal(&ParamValue::Bytes(vec![0xde, 0xad])), b"0xDEAD".to_vec());
}

#[test]
fn literal_rendering_strings_escape_quotes() {
    assert_eq!(render_literal(&ParamValue::Str(b"it's".to_vec())), b"N'it''s'".to_vec());
    assert_eq!(render_literal(&ParamValue::Other(b"x'y".to_vec())), b"N'x''y'".to_vec());
}

#[test]
fn literal_rendering_temporals() {
    assert_eq!(
        render_literal(&ParamValue::Date { year: 2024, month: 7, day: 5 }),
        b"'2024-07-05'".to_vec()
    );
    assert_eq!(
        render_literal(
            &ParamValue::Time { hour: 9, minute: 5, second: 3, microsecond: 120_000 },
        ),
        b"'09:05:03.120000'".to_vec()
    );
    assert_eq!(
        render_literal(
            &ParamValue::Time { hour: 23, minute: 59, second: 59, microsecond: 0 },
        ),
        b"'23:59:59'".to_vec()
    );
    // Millisecond precision keeps the plain literal form.
    assert_eq!(
        render_literal(
            &ParamValue::DateTime {
                year: 2024,
                month: 1,
                day: 2,
                hour: 3,
                minute: 4,
                second: 5,
                microsecond: 6000,
            },
        ),
        b"'2024-01-02 03:04:05.006'".to_vec()
    );
    // Sub-millisecond precision forces the DATETIME2(7) cast.
    assert_eq!(
        render_literal(
            &ParamValue::DateTime {
                year: 2024,
                month: 1,
                day: 2,
                hour: 3,
                minute: 4,
                second: 5,
                microsecond: 6001,
            },
        ),
        b"CAST('2024-01-02 03:04:05.0060010' AS DATETIME2(7))".to_vec()
    );
    assert_eq!(
        render_literal(
            &ParamValue::DateTime {
                year: 2024,
                month: 1,
                day: 2,
                hour: 3,
                minute: 4,
                second: 5,
                microsecond: 0,
            },
        ),
        b"'2024-01-02 03:04:05'".to_vec()
    );
}

#[test]
fn literal_rendering_offset_datetime() {
    assert_eq!(
        render_literal(
            &ParamValue::OffsetDateTime {
                year: 2024,
                month: 1,
                day: 2,
                hour: 3,
                minute: 4,
                second: 5,
                microsecond: 0,
                offset_seconds: 5 * 3600 + 30 * 60,
            },
        ),
        b"'2024-01-02 03:04:05+05:30'".to_vec()
    );
    assert_eq!(
        render_literal(
            &ParamValue::OffsetDateTime {
                year: 2024,
                month: 1,
                day: 2,
                hour: 3,
                minute: 4,
                second: 5,
                microsecond: 250_000,
                offset_seconds: -8 * 3600,
            },
        ),
        b"'2024-01-02 03:04:05.2500000-08:00'".to_vec()
    );
}

#[test]
fn literal_rendering_guid_and_numeric() {
    let bytes: [u8; 16] = [0; 16];
    assert_eq!(
        render_literal(&ParamValue::Guid(bytes)),
        b"'00000000-0000-0000-0000-000000000000'".to_vec()
    );
    let nd = NumericData { precision: 10, scale: 2, sign: 0, val: 12345 };
    assert_eq!(render_literal(&ParamValue::Numeric(nd)), b"-123.45".to_vec());
    let nd2 = NumericData { precision: 10, scale: 4, sign: 1, val: 5 };
    assert_eq!(render_literal(&ParamValue::Numeric(nd2)), b"0.0005".to_vec());
    let nd3 = NumericData { precision: 10, scale: 0, sign: 1, val: 77 };
    assert_eq!(render_literal(&ParamValue::Numeric(nd3)), b"77".to_vec());
}

#[test]
fn numeric_data_defaults() {
    let nd = NumericData::new();
    assert_eq!(nd.precision, 0);
    assert_eq!(nd.scale, 0);
    assert_eq!(nd.sign, 1);
    assert_eq!(nd.val, 0);
}

#[test]
fn row_params_reslices_column_major() {
    let columnwise = vec![
        vec![ParamValue::Int(1), ParamValue::Int(2)],
        vec![ParamValue::Str(b"a".to_vec()), ParamValue::Str(b"b".to_vec())],
    ];
    let row0 = row_params(&columnwise, 0);
    assert_eq!(row0, vec![ParamValue::Int(1), ParamValue::Str(b"a".to_vec())]);
    let row1 = row_params(&columnwise, 1);
    assert_eq!(row1, vec![ParamValue::Int(2), ParamValue::Str(b"b".to_vec())]);
}
