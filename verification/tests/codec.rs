//! Structural, error and batch-level behavior of the codec.

use interchange::array::{Array, InternalBatch, ListArray, StructArray};
use interchange::compact::compact;
use interchange::decode::{from_array, from_record_batch};
use interchange::encode::{to_array, to_record_batch};
use interchange::error::ConversionError;
use interchange::interchange::{ColumnData, Field, PhysicalType, TimeUnit};
use interchange::logical::{LogicalType, StructField};
use interchange::decimal::{decimal_from_text, decimal_to_text, Decimal, DecimalNum};
use interchange::jsonb::Jsonb;
use interchange::scalar::{Date, Interval, Time};
use interchange::mapper::{from_extension_type, from_field, to_arrow_field};
use interchange::scalar::Serial;

#[test]
fn list_offsets_stay_structurally_valid() {
    let array = Array::List(ListArray {
        validity: vec![true, false, true],
        offsets: vec![0, 2, 2, 5],
        value: Box::new(Array::Int32(vec![
            Some(1),
            Some(2),
            Some(3),
            None,
            Some(5),
        ])),
    });
    let ty = LogicalType::List(Box::new(LogicalType::Int32));
    let field = to_arrow_field("a", &ty).unwrap();
    let col = to_array(&field.data_type, &array).unwrap();
    let back = from_array(&field, &col).unwrap();
    match &back {
        Array::List(l) => {
            assert_eq!(l.offsets.first(), Some(&0));
            for w in l.offsets.windows(2) {
                assert!(w[0] <= w[1]);
            }
            assert_eq!(*l.offsets.last().unwrap() as usize, l.value.len());
        }
        other => panic!("expected a list, got {:?}", other),
    }
    assert_eq!(back, array);
}

#[test]
fn struct_null_slot_keeps_children() {
    let array = Array::Struct(StructArray {
        validity: vec![false, true],
        field_names: vec!["x".to_string(), "y".to_string()],
        children: vec![
            Array::Int32(vec![Some(7), Some(8)]),
            Array::Utf8(vec![Some("kept".to_string()), None]),
        ],
    });
    let ty = LogicalType::Struct(vec![
        StructField { name: "x".to_string(), ty: LogicalType::Int32 },
        StructField { name: "y".to_string(), ty: LogicalType::Varchar },
    ]);
    let field = to_arrow_field("s", &ty).unwrap();
    let col = to_array(&field.data_type, &array).unwrap();
    let back = from_array(&field, &col).unwrap();
    // The top-level null survives, and the children under it keep their
    // defined values.
    assert_eq!(back, array);
}

#[test]
fn unknown_extension_tag_is_an_error() {
    let field = Field {
        name: "a".to_string(),
        data_type: PhysicalType::Utf8,
        extension: Some("ext.uuid".to_string()),
    };
    let col = ColumnData::Utf8(vec![Some("text".to_string())]);
    assert_eq!(
        from_array(&field, &col),
        Err(ConversionError::UnsupportedExtensionTag)
    );
    assert_eq!(
        from_field(&field),
        Err(ConversionError::UnsupportedExtensionTag)
    );
    assert_eq!(
        from_extension_type("ext.uuid", &PhysicalType::Utf8),
        Err(ConversionError::UnsupportedExtensionTag)
    );
}

#[test]
fn extension_tag_with_wrong_carrier_is_a_mismatch() {
    assert_eq!(
        from_extension_type("ext.decimal", &PhysicalType::Int64),
        Err(ConversionError::FieldTypeMismatch)
    );
}

#[test]
fn float64_column_casts_to_float32_target() {
    let inputs = [1.5f64, -2.25f64, 1.0e40f64, 0.1f64];
    let array = Array::Float64(inputs.iter().map(|x| Some(x.to_bits())).collect());
    let col = to_array(&PhysicalType::Float32, &array).unwrap();
    match col {
        ColumnData::Float32(w) => {
            for (slot, x) in w.iter().zip(inputs.iter()) {
                assert_eq!(slot.unwrap(), (*x as f32).to_bits());
            }
        }
        other => panic!("expected a single-precision column, got {:?}", other),
    }
}

#[test]
fn float32_column_widens_to_float64_target() {
    let array = Array::Float32(vec![Some(1.5f32.to_bits()), None]);
    let col = to_array(&PhysicalType::Float64, &array).unwrap();
    assert_eq!(
        col,
        ColumnData::Float64(vec![Some((1.5f32 as f64).to_bits()), None])
    );
}

#[test]
fn incompatible_cast_target_fails() {
    let array = Array::Int32(vec![Some(1)]);
    let target = PhysicalType::Struct(vec![]);
    assert_eq!(
        to_array(&target, &array),
        Err(ConversionError::CastFailure)
    );
}

#[test]
fn int_widening_casts() {
    let array = Array::Int16(vec![Some(-3), None, Some(40)]);
    assert_eq!(
        to_array(&PhysicalType::Int64, &array).unwrap(),
        ColumnData::Int64(vec![Some(-3), None, Some(40)])
    );
    let array = Array::Int32(vec![Some(1 << 20)]);
    assert_eq!(
        to_array(&PhysicalType::Int64, &array).unwrap(),
        ColumnData::Int64(vec![Some(1 << 20)])
    );
}

#[test]
fn unsupported_physical_types_are_rejected() {
    let field = Field {
        name: "a".to_string(),
        data_type: PhysicalType::Float16,
        extension: None,
    };
    assert_eq!(
        from_field(&field),
        Err(ConversionError::UnsupportedPhysicalType)
    );
    let field = Field {
        name: "a".to_string(),
        data_type: PhysicalType::Time64(TimeUnit::Nanosecond),
        extension: None,
    };
    assert_eq!(
        from_field(&field),
        Err(ConversionError::UnsupportedPhysicalType)
    );
}

#[test]
fn decimal128_negative_scale_is_rejected() {
    let field = Field {
        name: "a".to_string(),
        data_type: PhysicalType::Decimal128(10, -2),
        extension: None,
    };
    let col = ColumnData::Decimal128(vec![Some(1234)]);
    assert_eq!(
        from_array(&field, &col),
        Err(ConversionError::UnsupportedNumericConfiguration)
    );
}

#[test]
fn decimal128_sentinels_decode() {
    let field = Field {
        name: "a".to_string(),
        data_type: PhysicalType::Decimal128(10, 2),
        extension: None,
    };
    let col = ColumnData::Decimal128(vec![
        None,
        Some(i128::MIN + 1),
        Some(i128::MAX),
        Some(i128::MIN),
        Some(1234),
    ]);
    assert_eq!(
        from_array(&field, &col).unwrap(),
        Array::Decimal(vec![
            None,
            Some(Decimal::NaN),
            Some(Decimal::PositiveInf),
            Some(Decimal::NegativeInf),
            Some(Decimal::Normalized(DecimalNum { mantissa: 1234, scale: 2 })),
        ])
    );
}

#[test]
fn batch_round_trip_preserves_values_and_nulls() {
    let schema_tys = vec![
        ("flag".to_string(), LogicalType::Boolean),
        ("n".to_string(), LogicalType::Int64),
        ("name".to_string(), LogicalType::Varchar),
    ];
    let mut fields = Vec::new();
    for (name, ty) in &schema_tys {
        fields.push(to_arrow_field(name, ty).unwrap());
    }
    let chunk = InternalBatch {
        columns: vec![
            Array::Bool(vec![None, Some(false), Some(true)]),
            Array::Int64(vec![Some(1), None, Some(3)]),
            Array::Utf8(vec![Some("a".to_string()), Some("b".to_string()), None]),
        ],
        visibility: vec![true, true, true],
    };
    let batch = to_record_batch(&fields, &chunk).unwrap();
    assert_eq!(batch.rows, 3);
    let back = from_record_batch(&batch).unwrap();
    assert_eq!(back, chunk);
}

#[test]
fn masked_batch_is_compacted_before_encoding() {
    let chunk = InternalBatch {
        columns: vec![Array::Int32(vec![Some(1), Some(2), Some(3), None])],
        visibility: vec![true, false, true, true],
    };
    let fields = vec![to_arrow_field("n", &LogicalType::Int32).unwrap()];
    let batch = to_record_batch(&fields, &chunk).unwrap();
    assert_eq!(batch.rows, 3);
    assert_eq!(
        batch.columns[0],
        ColumnData::Int32(vec![Some(1), Some(3), None])
    );
}

#[test]
fn compact_rebuilds_lists_densely() {
    let chunk = InternalBatch {
        columns: vec![Array::List(ListArray {
            validity: vec![true, true, false],
            offsets: vec![0, 2, 3, 6],
            value: Box::new(Array::Int32(vec![
                Some(10),
                Some(11),
                Some(20),
                Some(30),
                Some(31),
                Some(32),
            ])),
        })],
        visibility: vec![true, false, true],
    };
    let dense = compact(&chunk);
    assert_eq!(dense.visibility, vec![true, true]);
    assert_eq!(
        dense.columns[0],
        Array::List(ListArray {
            validity: vec![true, false],
            offsets: vec![0, 2, 5],
            value: Box::new(Array::Int32(vec![
                Some(10),
                Some(11),
                Some(30),
                Some(31),
                Some(32),
            ])),
        })
    );
}

#[test]
fn serial_columns_encode_as_plain_integers() {
    let array = Array::Serial(vec![None, Some(Serial { value: 42 })]);
    let field = to_arrow_field("id", &LogicalType::Serial).unwrap();
    let col = to_array(&field.data_type, &array).unwrap();
    assert_eq!(col, ColumnData::Int64(vec![None, Some(42)]));
    // The serial identity is not part of the interchange format: the
    // column comes back as a plain 64-bit integer column.
    assert_eq!(
        from_array(&field, &col).unwrap(),
        Array::Int64(vec![None, Some(42)])
    );
}

#[test]
fn timestamptz_fields_carry_utc() {
    let field = to_arrow_field("ts", &LogicalType::Timestamptz).unwrap();
    match &field.data_type {
        PhysicalType::Timestamp(TimeUnit::Microsecond, Some(z)) => {
            assert_eq!(z, "+00:00");
        }
        other => panic!("unexpected mapping {:?}", other),
    }
    assert_eq!(from_field(&field).unwrap(), LogicalType::Timestamptz);
}

#[test]
fn schema_mapping_round_trips() {
    let ty = LogicalType::Struct(vec![
        StructField { name: "d".to_string(), ty: LogicalType::Decimal },
        StructField {
            name: "xs".to_string(),
            ty: LogicalType::List(Box::new(LogicalType::Jsonb)),
        },
    ]);
    let field = to_arrow_field("s", &ty).unwrap();
    assert_eq!(from_field(&field).unwrap(), ty);
}

#[test]
fn interval_packing_is_bit_exact() {
    let array = Array::Interval(vec![
        Some(Interval::from_month_day_usec(1_000_000, 1_000, 1_000_000_000)),
        Some(Interval::from_month_day_usec(-1_000_000, -1_000, -1_000_000_000)),
    ]);
    let field = to_arrow_field("iv", &LogicalType::Interval).unwrap();
    let col = to_array(&field.data_type, &array).unwrap();
    // months in bits 0-31, days in bits 32-63, nanoseconds in bits
    // 64-127, each part sign-extended independently before packing.
    let pack = |m: i32, d: i32, ns: i64| -> i128 {
        let m = m as u32 as u128;
        let d = (d as u32 as u128) << 32;
        let n = (ns as u64 as u128) << 64;
        (m | d | n) as i128
    };
    assert_eq!(
        col,
        ColumnData::Interval(vec![
            Some(pack(1_000_000, 1_000, 1_000_000_000_000)),
            Some(pack(-1_000_000, -1_000, -1_000_000_000_000)),
        ])
    );
}

#[test]
fn jsonb_text_is_canonical_minified() {
    let j = Jsonb::from_text("[1, 2, 3]").unwrap();
    assert_eq!(j.as_text(), "[1,2,3]");
    let j = Jsonb::from_text(r#"{ "a": 1, "b": null }"#).unwrap();
    assert_eq!(j.as_text(), r#"{"a":1,"b":null}"#);
    assert!(Jsonb::from_text("{not json").is_none());
}

#[test]
fn decimal_text_round_trips_literally() {
    for text in ["123.4", "123.456", "-0.500", "0", "NaN", "Infinity", "-Infinity"] {
        let d = decimal_from_text(text).unwrap();
        assert_eq!(decimal_to_text(&d), text);
    }
    // The sentinel spellings are matched without case sensitivity.
    assert_eq!(decimal_from_text("nan"), Some(Decimal::NaN));
    assert_eq!(decimal_from_text("INF"), Some(Decimal::PositiveInf));
    assert_eq!(decimal_from_text("+infinity"), Some(Decimal::PositiveInf));
    assert_eq!(decimal_from_text("-Inf"), Some(Decimal::NegativeInf));
    assert_eq!(decimal_from_text("not a number"), None);
}

#[test]
fn scalar_constructors_check_their_ranges() {
    assert!(Time::with_micro(86_400_000_000).is_err());
    assert!(Time::with_micro(86_399_999_999).is_ok());
    assert!(Date::with_days(i32::MIN).is_err());
    assert!(Date::with_days(0).is_ok());
}

#[test]
fn decimal_text_parse_failure_is_reported() {
    let field = Field {
        name: "d".to_string(),
        data_type: PhysicalType::Utf8,
        extension: Some("ext.decimal".to_string()),
    };
    let col = ColumnData::Utf8(vec![Some("12a.4".to_string())]);
    assert_eq!(
        from_array(&field, &col),
        Err(ConversionError::TextParseFailure)
    );
}

#[test]
fn json_text_parse_failure_is_reported() {
    let field = Field {
        name: "j".to_string(),
        data_type: PhysicalType::Utf8,
        extension: Some("ext.json".to_string()),
    };
    let col = ColumnData::Utf8(vec![Some("{broken".to_string())]);
    assert_eq!(
        from_array(&field, &col),
        Err(ConversionError::TextParseFailure)
    );
}

#[test]
fn untagged_strings_stay_plain_text() {
    // An untagged string field is never mistaken for a decimal or JSON
    // carrier.
    let field = to_arrow_field("s", &LogicalType::Varchar).unwrap();
    assert_eq!(field.extension, None);
    let col = ColumnData::Utf8(vec![Some("NaN".to_string())]);
    assert_eq!(
        from_array(&field, &col).unwrap(),
        Array::Utf8(vec![Some("NaN".to_string())])
    );
}

#[test]
fn column_not_matching_its_field_is_a_mismatch() {
    let field = to_arrow_field("b", &LogicalType::Boolean).unwrap();
    let col = ColumnData::Int16(vec![Some(1)]);
    assert_eq!(
        from_array(&field, &col),
        Err(ConversionError::FieldTypeMismatch)
    );
}

#[test]
fn date_beyond_the_internal_calendar_is_rejected() {
    let field = to_arrow_field("d", &LogicalType::Date).unwrap();
    let col = ColumnData::Date32(vec![Some(i32::MAX)]);
    assert_eq!(
        from_array(&field, &col),
        Err(ConversionError::UnsupportedNumericConfiguration)
    );
    let col = ColumnData::Time64(vec![Some(-1)]);
    let tfield = to_arrow_field("t", &LogicalType::Time).unwrap();
    assert_eq!(
        from_array(&tfield, &col),
        Err(ConversionError::UnsupportedNumericConfiguration)
    );
}

#[test]
fn nested_list_of_struct_round_trips() {
    let ty = LogicalType::List(Box::new(LogicalType::Struct(vec![
        StructField { name: "n".to_string(), ty: LogicalType::Int32 },
        StructField { name: "d".to_string(), ty: LogicalType::Decimal },
    ])));
    let array = Array::List(ListArray {
        validity: vec![true, true, false],
        offsets: vec![0, 2, 3, 3],
        value: Box::new(Array::Struct(StructArray {
            validity: vec![true, false, true],
            field_names: vec!["n".to_string(), "d".to_string()],
            children: vec![
                Array::Int32(vec![Some(1), Some(2), None]),
                Array::Decimal(vec![
                    Some(decimal_from_text("0.5").unwrap()),
                    Some(Decimal::NaN),
                    None,
                ]),
            ],
        })),
    });
    let field = to_arrow_field("xs", &ty).unwrap();
    let col = to_array(&field.data_type, &array).unwrap();
    let back = from_array(&field, &col).unwrap();
    assert_eq!(back, array);
    assert_eq!(from_field(&field).unwrap(), ty);
}
