//! Round trips of single columns through the interchange encoding.

use interchange::array::Array;
use interchange::decimal::{decimal_from_text, Decimal};
use interchange::decode::{decimal_array_from_binary, decimal_array_from_text, from_array, jsonb_array_from_text};
use interchange::encode::to_array;
use interchange::interchange::{ColumnData, PhysicalType};
use interchange::jsonb::Jsonb;
use interchange::logical::LogicalType;
use interchange::mapper::to_arrow_field;
use interchange::scalar::{Date, Int256, Interval, Time, Timestamp};

fn round_trip(ty: LogicalType, array: &Array) -> Array {
    let field = to_arrow_field("a", &ty).unwrap();
    let col = to_array(&field.data_type, array).unwrap();
    from_array(&field, &col).unwrap()
}

#[test]
fn bool() {
    let array = Array::Bool(vec![None, Some(false), Some(true)]);
    assert_eq!(round_trip(LogicalType::Boolean, &array), array);
}

#[test]
fn i16() {
    let array = Array::Int16(vec![None, Some(-7), Some(25)]);
    assert_eq!(round_trip(LogicalType::Int16, &array), array);
}

#[test]
fn i32() {
    let array = Array::Int32(vec![None, Some(-7), Some(25)]);
    assert_eq!(round_trip(LogicalType::Int32, &array), array);
}

#[test]
fn i64() {
    let array = Array::Int64(vec![None, Some(-7), Some(25)]);
    assert_eq!(round_trip(LogicalType::Int64, &array), array);
}

#[test]
fn f32() {
    let array = Array::Float32(vec![
        None,
        Some((-7.0f32).to_bits()),
        Some(25.0f32.to_bits()),
    ]);
    assert_eq!(round_trip(LogicalType::Float32, &array), array);
}

#[test]
fn f64() {
    let array = Array::Float64(vec![
        None,
        Some((-7.0f64).to_bits()),
        Some(25.0f64.to_bits()),
    ]);
    assert_eq!(round_trip(LogicalType::Float64, &array), array);
}

#[test]
fn date() {
    let array = Array::Date(vec![
        None,
        Date::with_days(12345).ok(),
        Date::with_days(-12345).ok(),
    ]);
    assert_eq!(round_trip(LogicalType::Date, &array), array);
}

#[test]
fn time() {
    let array = Array::Time(vec![None, Time::with_micro(24 * 3600 * 1_000_000 - 1).ok()]);
    assert_eq!(round_trip(LogicalType::Time, &array), array);
}

#[test]
fn timestamp() {
    let array = Array::Timestamp(vec![None, Timestamp::with_micros(123456789012345678).ok()]);
    assert_eq!(round_trip(LogicalType::Timestamp, &array), array);
}

#[test]
fn interval() {
    let array = Array::Interval(vec![
        None,
        Some(Interval::from_month_day_usec(1_000_000, 1_000, 1_000_000_000)),
        Some(Interval::from_month_day_usec(-1_000_000, -1_000, -1_000_000_000)),
    ]);
    assert_eq!(round_trip(LogicalType::Interval, &array), array);
}

#[test]
fn string() {
    let array = Array::Utf8(vec![
        None,
        Some("array".to_string()),
        Some("arrow".to_string()),
    ]);
    assert_eq!(round_trip(LogicalType::Varchar, &array), array);
}

#[test]
fn binary() {
    let array = Array::Bytea(vec![None, Some(b"array".to_vec())]);
    assert_eq!(round_trip(LogicalType::Bytea, &array), array);
}

#[test]
fn decimal() {
    let values = vec![
        None,
        Some(Decimal::NaN),
        Some(Decimal::PositiveInf),
        Some(Decimal::NegativeInf),
        Some(decimal_from_text("123.4").unwrap()),
        Some(decimal_from_text("123.456").unwrap()),
    ];
    let array = Array::Decimal(values.clone());

    // The long-text carrier: the canonical text as bytes.
    let col = to_array(&PhysicalType::LargeBinary, &array).unwrap();
    let bytes = match col {
        ColumnData::LargeBinary(w) => w,
        other => panic!("unexpected carrier {:?}", other),
    };
    assert_eq!(decimal_array_from_binary(&bytes).unwrap(), values);

    // The short-text carrier: the canonical text itself.
    let col = to_array(&PhysicalType::Utf8, &array).unwrap();
    let texts = match col {
        ColumnData::Utf8(w) => w,
        other => panic!("unexpected carrier {:?}", other),
    };
    assert_eq!(decimal_array_from_text(&texts).unwrap(), values);
}

#[test]
fn jsonb() {
    let values = vec![
        None,
        Some(Jsonb::from_text("null").unwrap()),
        Some(Jsonb::from_text("false").unwrap()),
        Some(Jsonb::from_text("1").unwrap()),
        Some(Jsonb::from_text("[1, 2, 3]").unwrap()),
        Some(Jsonb::from_text(r#"{ "a": 1, "b": null }"#).unwrap()),
    ];
    let array = Array::Jsonb(values.clone());

    let col = to_array(&PhysicalType::LargeUtf8, &array).unwrap();
    let long_texts = match col {
        ColumnData::LargeUtf8(w) => w,
        other => panic!("unexpected carrier {:?}", other),
    };
    assert_eq!(jsonb_array_from_text(&long_texts).unwrap(), values);

    let col = to_array(&PhysicalType::Utf8, &array).unwrap();
    let texts = match col {
        ColumnData::Utf8(w) => w,
        other => panic!("unexpected carrier {:?}", other),
    };
    assert_eq!(jsonb_array_from_text(&texts).unwrap(), values);
}

/// Multiplies two 256-bit values modulo 2^256, schoolbook over 64-bit
/// limbs.
fn mul256(a: Int256, b: Int256) -> Int256 {
    let la = [
        a.lo as u64,
        (a.lo >> 64) as u64,
        (a.hi as u128) as u64,
        ((a.hi as u128) >> 64) as u64,
    ];
    let lb = [
        b.lo as u64,
        (b.lo >> 64) as u64,
        (b.hi as u128) as u64,
        ((b.hi as u128) >> 64) as u64,
    ];
    let mut limbs = [0u64; 4];
    for i in 0..4 {
        let mut carry: u128 = 0;
        for j in 0..4 - i {
            let cur = limbs[i + j] as u128 + la[i] as u128 * lb[j] as u128 % (1u128 << 64) + carry;
            // Split the partial product to avoid overflowing the 128-bit
            // accumulator.
            let high = (la[i] as u128 * lb[j] as u128) >> 64;
            limbs[i + j] = cur as u64;
            carry = (cur >> 64) + high;
        }
    }
    let lo = limbs[0] as u128 | ((limbs[1] as u128) << 64);
    let hi = (limbs[2] as u128 | ((limbs[3] as u128) << 64)) as i128;
    Int256 { hi, lo }
}

#[test]
fn int256() {
    let max = Int256::from_i64(i64::MAX);
    let values = vec![
        None,
        Some(Int256::from_i64(1)),
        Some(max),
        Some(mul256(max, max)),
        Some(mul256(mul256(max, max), max)),
        Some(mul256(mul256(mul256(max, max), max), max)),
        Some(Int256::min_value()),
        Some(Int256::max_value()),
    ];
    let array = Array::Int256(values);
    assert_eq!(round_trip(LogicalType::Int256, &array), array);
}
