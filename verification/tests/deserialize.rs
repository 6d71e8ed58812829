use ar_row::array::{ColumnArray, ColumnValues, StructField};
use ar_row::datatypes::{DataType, TimeUnit};
use ar_row::deserialize::{check_datatype_equals, DeserializationError};
use ar_row::target::DeserializationTarget;
use ar_row::value::{RecordField, RecordShape, RowType, Value};

fn plain(values: ColumnValues) -> ColumnArray {
    ColumnArray { nulls: None, values }
}

fn optional(row_type: RowType) -> RowType {
    RowType::Optional(Box::new(row_type))
}

#[test]
fn test_map_struct() {
    // A record with one field, decoded by hand through the projection of
    // the destination to that field.
    let test = RowType::Struct(RecordShape {
        name: "Test".to_string(),
        fields: vec![RecordField { name: "field1".to_string(), row_type: optional(RowType::Int64) }],
    });
    let column = ColumnArray {
        nulls: Some(vec![true, false, true]),
        values: ColumnValues::Int64(vec![1, 2, 3]),
    };
    let src = plain(ColumnValues::Struct {
        rows: 3,
        fields: vec![StructField { name: "field1".to_string(), column }],
    });
    let columns = match &src.values {
        ColumnValues::Struct { fields, .. } => fields,
        other => panic!("Could not cast {:?} array with as_struct_opt", other),
    };
    let column = &columns.iter().next().unwrap().column;

    let mut dst = DeserializationTarget::with_defaults(&test, 3);
    assert_eq!(dst.len(), 3);
    assert!(!dst.is_empty());
    dst.map(0);
    assert_eq!(optional(RowType::Int64).read_from_array(column, &mut dst), Ok(3));
    dst.unmap();
    assert_eq!(
        dst.into_rows(),
        vec![
            Value::Struct(vec![Value::Int64(1)]),
            Value::Struct(vec![Value::Null]),
            Value::Struct(vec![Value::Int64(3)]),
        ]
    );
}

#[test]
fn test_check_datatype() {
    assert_eq!(RowType::Int64.check_datatype(&DataType::Int64), Ok(()));
    assert_eq!(
        RowType::Timestamp.check_datatype(&DataType::Timestamp(TimeUnit::Nanosecond, None)),
        Ok(())
    );
    assert_eq!(RowType::String.check_datatype(&DataType::Utf8), Ok(()));
    assert_eq!(RowType::String.check_datatype(&DataType::LargeUtf8), Ok(()));
    assert_eq!(RowType::Binary.check_datatype(&DataType::Binary), Ok(()));
    assert_eq!(RowType::Binary.check_datatype(&DataType::LargeBinary), Ok(()));
}

#[test]
fn test_check_datatype_fail() {
    assert_eq!(
        RowType::Int64.check_datatype(&DataType::Utf8),
        Err("i64 must be decoded from Arrow Int64, not Arrow Utf8".to_string())
    );
    assert_eq!(
        RowType::Int64.check_datatype(&DataType::Int32),
        Err("i64 must be decoded from Arrow Int64, not Arrow Int32".to_string())
    );
    assert_eq!(
        RowType::String.check_datatype(&DataType::Int32),
        Err("String must be decoded from Arrow Utf8/LargeUtf8, not Arrow Int32".to_string())
    );
    assert_eq!(
        RowType::String.check_datatype(&DataType::Binary),
        Err("String must be decoded from Arrow Utf8/LargeUtf8, not Arrow Binary".to_string())
    );
    assert_eq!(
        RowType::Binary.check_datatype(&DataType::Int32),
        Err(
            "Box<[u8]> must be decoded from Arrow Binary/LargeBinary, not Arrow Int32"
                .to_string()
        )
    );
    assert_eq!(
        RowType::Binary.check_datatype(&DataType::Utf8),
        Err(
            "Box<[u8]> must be decoded from Arrow Binary/LargeBinary, not Arrow Utf8"
                .to_string()
        )
    );
}

#[test]
fn check_of_an_optional_is_the_check_of_its_inner_shape() {
    assert_eq!(optional(RowType::Int64).check_datatype(&DataType::Int64), Ok(()));
    assert_eq!(
        optional(RowType::Int64).check_datatype(&DataType::Utf8),
        Err("i64 must be decoded from Arrow Int64, not Arrow Utf8".to_string())
    );
}

#[test]
fn scalar_checks_name_what_was_found() {
    assert_eq!(RowType::Boolean.check_datatype(&DataType::Boolean), Ok(()));
    assert_eq!(RowType::Float32.check_datatype(&DataType::Float32), Ok(()));
    assert_eq!(
        RowType::Float64.check_datatype(&DataType::Float32),
        Err("f64 must be decoded from Arrow Float64, not Arrow Float32".to_string())
    );
    assert_eq!(RowType::Date.check_datatype(&DataType::Date32), Ok(()));
    assert_eq!(
        RowType::FixedSizeBinary(4).check_datatype(&DataType::FixedSizeBinary(4)),
        Ok(())
    );
    assert_eq!(
        RowType::FixedSizeBinary(4).check_datatype(&DataType::FixedSizeBinary(16)),
        Err("[u8; 4] must be decoded from Arrow FixedSizeBinary(4), not Arrow FixedSizeBinary(16)"
            .to_string())
    );
    assert_eq!(
        RowType::FixedSizeBinary(4).check_datatype(&DataType::FixedSizeBinary(-1)),
        Err("[u8; 4] must be decoded from Arrow FixedSizeBinary(4), not Arrow FixedSizeBinary(-1)"
            .to_string())
    );
    assert_eq!(
        RowType::FixedSizeBinary(4).check_datatype(&DataType::Binary),
        Err("[u8; _] must be decoded from Arrow FixedSizeBinary, not Arrow Binary".to_string())
    );
    assert_eq!(RowType::Decimal128.check_datatype(&DataType::Decimal128(10, 2)), Ok(()));
    assert_eq!(
        RowType::Decimal128.check_datatype(&DataType::Int64),
        Err("NaiveDecimal128 must be decoded from Arrow Decimal128(_, _), not Arrow Int64"
            .to_string())
    );
    assert_eq!(
        RowType::List(Box::new(RowType::Int32))
            .check_datatype(&DataType::List(Box::new(DataType::Int32))),
        Ok(())
    );
    assert_eq!(
        RowType::List(Box::new(RowType::Int32))
            .check_datatype(&DataType::LargeList(Box::new(DataType::Int32))),
        Err("Must be a List, not LargeList(Int32)".to_string())
    );
    assert_eq!(
        RowType::String.check_datatype(&DataType::Dictionary(
            Box::new(DataType::Int8),
            Box::new(DataType::Utf8)
        )),
        Err("String must be decoded from Arrow Utf8/LargeUtf8, not Arrow Dictionary(Int8, Utf8)"
            .to_string())
    );
}

#[test]
fn timestamp_check_accepts_four_units_and_one_decimal() {
    for unit in [TimeUnit::Second, TimeUnit::Millisecond, TimeUnit::Microsecond, TimeUnit::Nanosecond] {
        assert_eq!(RowType::Timestamp.check_datatype(&DataType::Timestamp(unit, None)), Ok(()));
    }
    assert_eq!(RowType::Timestamp.check_datatype(&DataType::Decimal128(38, 9)), Ok(()));
    assert_eq!(
        RowType::Timestamp.check_datatype(&DataType::Decimal128(38, 10)),
        Err("Timestamp must be decoded from Arrow Timestamp(Second, None)/Timestamp(Millisecond, None)/Timestamp(Microsecond, None)/Timestamp(Nanosecond, None)/Decimal128(38, 9), not Arrow Decimal128(38, 10)".to_string())
    );
    assert_eq!(
        RowType::Timestamp
            .check_datatype(&DataType::Timestamp(TimeUnit::Second, Some("UTC".to_string()))),
        Err("Timestamp must be decoded from Arrow Timestamp(Second, None)/Timestamp(Millisecond, None)/Timestamp(Microsecond, None)/Timestamp(Nanosecond, None)/Decimal128(38, 9), not Arrow Timestamp(Second, Some(\"UTC\"))".to_string())
    );
}

#[test]
fn check_against_a_list_of_types() {
    assert_eq!(
        check_datatype_equals(&DataType::Int16, &[DataType::Int16, DataType::Int32], "small"),
        Ok(())
    );
    assert_eq!(
        check_datatype_equals(&DataType::Int8, &[DataType::Int16, DataType::Int32], "small"),
        Err("small must be decoded from Arrow Int16/Int32, not Arrow Int8".to_string())
    );
    assert_eq!(
        check_datatype_equals(&DataType::Int8, &[], "nothing"),
        Err("nothing must be decoded from Arrow , not Arrow Int8".to_string())
    );
}

#[test]
fn mismatched_column_names_both_types() {
    let column = plain(ColumnValues::Utf8 { large: true, values: vec!["a".to_string()] });
    assert_eq!(
        RowType::Int64.from_array(&column),
        Err(DeserializationError::MismatchedColumnDataType(
            "Could not cast LargeUtf8 array to i64".to_string()
        ))
    );
    assert_eq!(
        RowType::List(Box::new(RowType::Int64)).from_array(&column),
        Err(DeserializationError::MismatchedColumnDataType(
            "Could not cast LargeUtf8 array to Vec<i64>".to_string()
        ))
    );
    let decimal = plain(ColumnValues::Decimal128 { precision: 10, scale: -2, values: vec![1] });
    assert_eq!(
        RowType::Timestamp.from_array(&decimal),
        Err(DeserializationError::MismatchedColumnDataType(
            "Timestamp can only be decoded from Decimal128(38, 9), not Decimal128(10, -2)"
                .to_string()
        ))
    );
}

#[test]
fn wide_text_decodes_like_narrow_text() {
    let wide = plain(ColumnValues::Utf8 { large: true, values: vec!["a".to_string()] });
    let narrow = plain(ColumnValues::Utf8 { large: false, values: vec!["a".to_string()] });
    assert_eq!(RowType::String.from_array(&wide), RowType::String.from_array(&narrow));
    assert_eq!(RowType::String.from_array(&wide), Ok(vec![Value::String("a".to_string())]));
}

#[test]
fn short_destination_takes_the_first_rows_of_scalars() {
    let column = plain(ColumnValues::Int16(vec![1, 2, 3]));
    let mut dst = DeserializationTarget::new(vec![Value::Null, Value::Null]);
    assert_eq!(RowType::Int16.read_from_array(&column, &mut dst), Ok(2));
    assert_eq!(dst.into_rows(), vec![Value::Int16(1), Value::Int16(2)]);
}

#[test]
fn long_destination_keeps_its_last_rows() {
    let column = plain(ColumnValues::UInt32(vec![7]));
    let mut dst = DeserializationTarget::new(vec![Value::Null, Value::Boolean(true), Value::Int8(3)]);
    assert_eq!(RowType::UInt32.read_from_array(&column, &mut dst), Ok(1));
    assert_eq!(dst.into_rows(), vec![Value::UInt32(7), Value::Boolean(true), Value::Int8(3)]);
}

#[test]
fn empty_column_decodes_to_no_rows() {
    let column = plain(ColumnValues::UInt64(vec![]));
    assert!(column.is_empty());
    assert_eq!(RowType::UInt64.from_array(&column), Ok(vec![]));
}

#[test]
fn primitive_columns_round_trip_every_value() {
    assert_eq!(
        RowType::Boolean.from_array(&plain(ColumnValues::Boolean(vec![true, false]))),
        Ok(vec![Value::Boolean(true), Value::Boolean(false)])
    );
    assert_eq!(
        RowType::Int8.from_array(&plain(ColumnValues::Int8(vec![i8::MIN, i8::MAX]))),
        Ok(vec![Value::Int8(i8::MIN), Value::Int8(i8::MAX)])
    );
    assert_eq!(
        RowType::Int64.from_array(&plain(ColumnValues::Int64(vec![i64::MIN, 0, i64::MAX]))),
        Ok(vec![Value::Int64(i64::MIN), Value::Int64(0), Value::Int64(i64::MAX)])
    );
    assert_eq!(
        RowType::UInt16.from_array(&plain(ColumnValues::UInt16(vec![0, u16::MAX]))),
        Ok(vec![Value::UInt16(0), Value::UInt16(u16::MAX)])
    );
    assert_eq!(
        RowType::Float32.from_array(&plain(ColumnValues::Float32(vec![1.5f32.to_bits()]))),
        Ok(vec![Value::Float32(1.5f32.to_bits())])
    );
    assert_eq!(
        RowType::Float64.from_array(&plain(ColumnValues::Float64(vec![(-15.0f64).to_bits()]))),
        Ok(vec![Value::Float64((-15.0f64).to_bits())])
    );
    assert_eq!(
        RowType::Binary.from_array(&plain(ColumnValues::Binary {
            large: false,
            values: vec![vec![0, 1, 2], vec![]]
        })),
        Ok(vec![Value::Binary(vec![0, 1, 2]), Value::Binary(vec![])])
    );
    assert_eq!(
        RowType::Decimal128.from_array(&plain(ColumnValues::Decimal128 {
            precision: 10,
            scale: 2,
            values: vec![-100050]
        })),
        Ok(vec![Value::Decimal128(ar_row::NaiveDecimal128(-100050))])
    );
    assert_eq!(
        RowType::Date.from_array(&plain(ColumnValues::Date32(vec![-25209]))),
        Ok(vec![Value::Date(ar_row::Date(-25209))])
    );
}
