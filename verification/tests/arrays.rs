use ar_row::array::{ColumnArray, ColumnValues, RecordBatch, StructField};
use ar_row::datatypes::{DataType, Field, TimeUnit};
use ar_row::deserialize::DeserializationError;
use ar_row::value::{RecordField, RecordShape, RowType, Value};

fn plain(values: ColumnValues) -> ColumnArray {
    ColumnArray { nulls: None, values }
}

fn every_kind() -> Vec<(ColumnArray, DataType, &'static str)> {
    vec![
        (plain(ColumnValues::Boolean(vec![true])), DataType::Boolean, "Boolean"),
        (plain(ColumnValues::Int8(vec![1])), DataType::Int8, "Int8"),
        (plain(ColumnValues::Int16(vec![1])), DataType::Int16, "Int16"),
        (plain(ColumnValues::Int32(vec![1])), DataType::Int32, "Int32"),
        (plain(ColumnValues::Int64(vec![1])), DataType::Int64, "Int64"),
        (plain(ColumnValues::UInt8(vec![1])), DataType::UInt8, "UInt8"),
        (plain(ColumnValues::UInt16(vec![1])), DataType::UInt16, "UInt16"),
        (plain(ColumnValues::UInt32(vec![1])), DataType::UInt32, "UInt32"),
        (plain(ColumnValues::UInt64(vec![1])), DataType::UInt64, "UInt64"),
        (plain(ColumnValues::Float32(vec![0])), DataType::Float32, "Float32"),
        (plain(ColumnValues::Float64(vec![0])), DataType::Float64, "Float64"),
        (plain(ColumnValues::Date32(vec![1])), DataType::Date32, "Date32"),
        (
            plain(ColumnValues::Utf8 { large: false, values: vec!["a".to_string()] }),
            DataType::Utf8,
            "Utf8",
        ),
        (
            plain(ColumnValues::Utf8 { large: true, values: vec!["a".to_string()] }),
            DataType::LargeUtf8,
            "LargeUtf8",
        ),
        (
            plain(ColumnValues::Binary { large: false, values: vec![vec![1]] }),
            DataType::Binary,
            "Binary",
        ),
        (
            plain(ColumnValues::Binary { large: true, values: vec![vec![1]] }),
            DataType::LargeBinary,
            "LargeBinary",
        ),
        (
            plain(ColumnValues::FixedSizeBinary { size: 1, values: vec![vec![1]] }),
            DataType::FixedSizeBinary(1),
            "FixedSizeBinary",
        ),
        (
            plain(ColumnValues::Decimal128 { precision: 38, scale: 9, values: vec![1] }),
            DataType::Decimal128(38, 9),
            "Decimal128",
        ),
        (
            plain(ColumnValues::Timestamp {
                unit: TimeUnit::Microsecond,
                timezone: None,
                values: vec![1],
            }),
            DataType::Timestamp(TimeUnit::Microsecond, None),
            "Timestamp",
        ),
        (
            plain(ColumnValues::List {
                large: false,
                offsets: vec![0, 1],
                child: Box::new(plain(ColumnValues::Int8(vec![1]))),
            }),
            DataType::List(Box::new(DataType::Int8)),
            "List",
        ),
        (
            plain(ColumnValues::Struct {
                rows: 1,
                fields: vec![StructField {
                    name: "a".to_string(),
                    column: plain(ColumnValues::Int8(vec![1])),
                }],
            }),
            DataType::Struct(vec![Field { name: "a".to_string(), data_type: DataType::Int8 }]),
            "Struct",
        ),
        (
            plain(ColumnValues::Dictionary {
                key_type: DataType::UInt32,
                keys: vec![0],
                values: Box::new(plain(ColumnValues::Int8(vec![1]))),
            }),
            DataType::Dictionary(Box::new(DataType::UInt32), Box::new(DataType::Int8)),
            "Dictionary",
        ),
        (
            plain(ColumnValues::Other { data_type: "Float16".to_string(), rows: 1 }),
            DataType::Other("Float16".to_string()),
            "Float16",
        ),
    ]
}

#[test]
fn every_column_knows_its_type() {
    for (column, data_type, kind) in every_kind() {
        assert!(column.is_well_formed());
        assert_eq!(column.len(), 1);
        assert!(!column.is_empty());
        assert!(!column.has_nulls());
        assert!(column.is_present(0));
        assert_eq!(column.data_type(), data_type);
        assert_eq!(column.values.kind(), kind);
    }
}

#[test]
fn absent_rows_are_told_from_present_ones() {
    let column = ColumnArray {
        nulls: Some(vec![true, false]),
        values: ColumnValues::Int8(vec![1, 2]),
    };
    assert!(column.has_nulls());
    assert!(column.is_present(0));
    assert!(!column.is_present(1));
}

#[test]
fn nothing_is_decoded_from_an_unknown_type() {
    let column = plain(ColumnValues::Other { data_type: "Float16".to_string(), rows: 2 });
    assert_eq!(
        RowType::Float32.from_array(&column),
        Err(DeserializationError::MismatchedColumnDataType(
            "Could not cast Float16 array to f32".to_string()
        ))
    );
    assert_eq!(
        RowType::Float32.check_datatype(&column.data_type()),
        Err("f32 must be decoded from Arrow Float32, not Arrow Float16".to_string())
    );
}

#[test]
fn a_checked_column_is_decoded() {
    let shapes: Vec<RowType> = vec![
        RowType::Boolean,
        RowType::Int8,
        RowType::Int16,
        RowType::Int32,
        RowType::Int64,
        RowType::UInt8,
        RowType::UInt16,
        RowType::UInt32,
        RowType::UInt64,
        RowType::Float32,
        RowType::Float64,
        RowType::Date,
        RowType::String,
        RowType::Binary,
        RowType::FixedSizeBinary(1),
        RowType::Decimal128,
        RowType::Timestamp,
        RowType::List(Box::new(RowType::Int8)),
        RowType::Struct(RecordShape {
            name: "Row".to_string(),
            fields: vec![RecordField { name: "a".to_string(), row_type: RowType::Int8 }],
        }),
    ];
    for (column, data_type, _) in every_kind() {
        for shape in &shapes {
            let decoded = shape.from_array(&column);
            if shape.check_datatype(&data_type).is_ok() {
                assert!(decoded.is_ok(), "{:?} into {}", data_type, shape.name());
            } else if !matches!(data_type, DataType::Dictionary(..)) {
                assert!(
                    matches!(decoded, Err(DeserializationError::MismatchedColumnDataType(_))),
                    "{:?} into {}",
                    data_type,
                    shape.name()
                );
            }
        }
    }
}

#[test]
fn a_batch_is_a_struct_column_without_nulls() {
    let batch = RecordBatch::new(
        2,
        vec![StructField { name: "a".to_string(), column: plain(ColumnValues::Int8(vec![1, 2])) }],
    );
    assert!(batch.is_well_formed());
    assert_eq!(batch.num_rows(), 2);
    let shape = RowType::Struct(RecordShape {
        name: "Row".to_string(),
        fields: vec![RecordField { name: "a".to_string(), row_type: RowType::Int8 }],
    });
    let mut dst = ar_row::target::DeserializationTarget::new(vec![Value::Null, Value::Null]);
    assert_eq!(shape.read_from_record_batch(batch, &mut dst), Ok(2));
    assert_eq!(
        dst.into_rows(),
        vec![Value::Struct(vec![Value::Int8(1)]), Value::Struct(vec![Value::Int8(2)])]
    );

    let short = RecordBatch::new(
        3,
        vec![StructField { name: "a".to_string(), column: plain(ColumnValues::Int8(vec![1, 2])) }],
    );
    assert!(!short.is_well_formed());
    let scalar = RecordBatch { array: plain(ColumnValues::Int8(vec![1])) };
    assert!(!scalar.is_well_formed());
    let with_nulls = RecordBatch {
        array: ColumnArray {
            nulls: Some(vec![true]),
            values: ColumnValues::Struct { rows: 1, fields: vec![] },
        },
    };
    assert!(!with_nulls.is_well_formed());
    let array = RecordBatch::new(1, vec![]).into_struct_array();
    assert_eq!(array, plain(ColumnValues::Struct { rows: 1, fields: vec![] }));
}

#[test]
fn units_have_names() {
    assert_eq!(TimeUnit::Second.name(), "Second");
    assert_eq!(TimeUnit::Millisecond.name(), "Millisecond");
    assert_eq!(TimeUnit::Microsecond.name(), "Microsecond");
    assert_eq!(TimeUnit::Nanosecond.name(), "Nanosecond");
    assert!(TimeUnit::Second.is(&TimeUnit::Second));
    assert!(!TimeUnit::Second.is(&TimeUnit::Nanosecond));
}
