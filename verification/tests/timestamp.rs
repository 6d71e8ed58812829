use ar_row::array::{ColumnArray, ColumnValues, RecordBatch, StructField};
use ar_row::datatypes::{DataType, Field, Schema, TimeUnit};
use ar_row::deserialize::DeserializationError;
use ar_row::scalars::{timestamp_from_count, timestamp_from_decimal128};
use ar_row::value::{RecordField, RecordShape, RowType, Value};
use ar_row::{Date, Timestamp};

fn plain(values: ColumnValues) -> ColumnArray {
    ColumnArray { nulls: None, values }
}

fn time_and_date() -> RowType {
    RowType::Struct(RecordShape {
        name: "TimeAndDate".to_string(),
        fields: vec![
            RecordField { name: "time".to_string(), row_type: RowType::Timestamp },
            RecordField { name: "date".to_string(), row_type: RowType::Date },
        ],
    })
}

fn row(seconds: i64, nanoseconds: i64, date: i64) -> Value {
    Value::Struct(vec![
        Value::Timestamp(Timestamp { seconds, nanoseconds }),
        Value::Date(Date(date)),
    ])
}

fn batch(time: ColumnValues) -> RecordBatch {
    RecordBatch::new(
        3,
        vec![
            StructField { name: "time".to_string(), column: plain(time) },
            StructField {
                name: "date".to_string(),
                column: plain(ColumnValues::Date32(vec![-25209, -25209, -25209])),
            },
        ],
    )
}

#[test]
fn test_timestamp_1900() {
    let schema = Schema {
        fields: vec![
            Field { name: "time".to_string(), data_type: DataType::Timestamp(TimeUnit::Nanosecond, None) },
            Field { name: "date".to_string(), data_type: DataType::Date32 },
        ],
    };
    time_and_date().check_schema(&schema).unwrap();

    let mut rows: Vec<Value> = Vec::new();

    for batch in vec![batch(ColumnValues::Timestamp {
        unit: TimeUnit::Nanosecond,
        timezone: None,
        values: vec![-2198229903900000000, -2198229903899900000, -2198229903899800000],
    })] {
        let new_rows = time_and_date().from_record_batch(batch).unwrap();
        rows.extend(new_rows);
    }

    assert_eq!(
        rows[0..3].to_vec(),
        vec![
            row(-2198229903, -900000000, -25209),
            row(-2198229903, -899900000, -25209),
            row(-2198229903, -899800000, -25209),
        ]
    )
}

#[test]
fn test_timestamp_1900_decimal() {
    let schema = Schema {
        fields: vec![
            Field { name: "time".to_string(), data_type: DataType::Decimal128(38, 9) },
            Field { name: "date".to_string(), data_type: DataType::Date32 },
        ],
    };
    time_and_date().check_schema(&schema).unwrap();

    let mut rows: Vec<Value> = Vec::new();

    for batch in vec![batch(ColumnValues::Decimal128 {
        precision: 38,
        scale: 9,
        values: vec![-2198229903900000000, -2198229903899900000, -2198229903899800000],
    })] {
        let new_rows = time_and_date().from_record_batch(batch).unwrap();
        rows.extend(new_rows);
    }

    assert_eq!(
        rows[0..3].to_vec(),
        vec![
            row(-2198229903, -900000000, -25209),
            row(-2198229903, -899900000, -25209),
            row(-2198229903, -899800000, -25209),
        ]
    )
}

#[test]
fn timestamp_split_by_unit() {
    assert_eq!(
        timestamp_from_count(2114380800, &TimeUnit::Second),
        Timestamp { seconds: 2114380800, nanoseconds: 0 }
    );
    assert_eq!(
        timestamp_from_count(2114380800999, &TimeUnit::Millisecond),
        Timestamp { seconds: 2114380800, nanoseconds: 999000000 }
    );
    assert_eq!(
        timestamp_from_count(1041379200000222, &TimeUnit::Microsecond),
        Timestamp { seconds: 1041379200, nanoseconds: 222000 }
    );
    assert_eq!(
        timestamp_from_count(915148800999999999, &TimeUnit::Nanosecond),
        Timestamp { seconds: 915148800, nanoseconds: 999999999 }
    );
}

#[test]
fn negative_timestamps_carry_the_sign_in_both_parts() {
    assert_eq!(
        timestamp_from_count(-1, &TimeUnit::Millisecond),
        Timestamp { seconds: 0, nanoseconds: -1000000 }
    );
    assert_eq!(
        timestamp_from_count(-1500, &TimeUnit::Millisecond),
        Timestamp { seconds: -1, nanoseconds: -500000000 }
    );
    assert_eq!(
        timestamp_from_count(i64::MIN, &TimeUnit::Nanosecond),
        Timestamp { seconds: -9223372036, nanoseconds: -854775808 }
    );
    assert_eq!(
        timestamp_from_count(i64::MIN, &TimeUnit::Second),
        Timestamp { seconds: i64::MIN, nanoseconds: 0 }
    );
    assert_eq!(
        timestamp_from_count(i64::MAX, &TimeUnit::Microsecond),
        Timestamp { seconds: 9223372036854, nanoseconds: 775807000 }
    );
}

#[test]
fn decimal_timestamp_split() {
    assert_eq!(
        timestamp_from_decimal128(-2198229903900000000),
        Ok(Timestamp { seconds: -2198229903, nanoseconds: -900000000 })
    );
    assert_eq!(timestamp_from_decimal128(0), Ok(Timestamp { seconds: 0, nanoseconds: 0 }));
    assert_eq!(
        timestamp_from_decimal128(1_999_999_999),
        Ok(Timestamp { seconds: 1, nanoseconds: 999_999_999 })
    );
    assert_eq!(
        timestamp_from_decimal128(i64::MAX as i128 * 1_000_000_000 + 999_999_999),
        Ok(Timestamp { seconds: i64::MAX, nanoseconds: 999_999_999 })
    );
    assert_eq!(
        timestamp_from_decimal128(i64::MIN as i128 * 1_000_000_000 - 999_999_999),
        Ok(Timestamp { seconds: i64::MIN, nanoseconds: -999_999_999 })
    );
}

#[test]
fn decimal_timestamp_overflow() {
    assert_eq!(
        timestamp_from_decimal128((i64::MAX as i128 + 1) * 1_000_000_000),
        Err(DeserializationError::TimestampOverflow { seconds: i64::MAX as i128 + 1 })
    );
    assert_eq!(
        timestamp_from_decimal128((i64::MIN as i128 - 1) * 1_000_000_000),
        Err(DeserializationError::TimestampOverflow { seconds: i64::MIN as i128 - 1 })
    );
    let column = plain(ColumnValues::Decimal128 {
        precision: 38,
        scale: 9,
        values: vec![1, i128::MAX],
    });
    assert_eq!(
        RowType::Timestamp.from_array(&column),
        Err(DeserializationError::TimestampOverflow { seconds: i128::MAX / 1_000_000_000 })
    );
}

#[test]
fn timestamp_with_a_time_zone_is_decoded_like_one_without() {
    let column = plain(ColumnValues::Timestamp {
        unit: TimeUnit::Second,
        timezone: Some("+01:00".to_string()),
        values: vec![2114380800],
    });
    assert_eq!(
        RowType::Timestamp.from_array(&column),
        Ok(vec![Value::Timestamp(Timestamp { seconds: 2114380800, nanoseconds: 0 })])
    );
    assert_eq!(
        column.data_type().describe(),
        "Timestamp(Second, Some(\"+01:00\"))"
    );
}

#[test]
fn optional_timestamps() {
    let column = ColumnArray {
        nulls: Some(vec![false, true]),
        values: ColumnValues::Timestamp {
            unit: TimeUnit::Millisecond,
            timezone: None,
            values: vec![0, 1041379200222],
        },
    };
    assert_eq!(
        RowType::Optional(Box::new(RowType::Timestamp)).from_array(&column),
        Ok(vec![
            Value::Null,
            Value::Timestamp(Timestamp { seconds: 1041379200, nanoseconds: 222000000 })
        ])
    );
    assert_eq!(
        RowType::Timestamp.from_array(&column),
        Err(DeserializationError::UnexpectedNull(
            "Timestamp column contains nulls".to_string()
        ))
    );
}

#[test]
fn timestamps_of_a_nanosecond_column() {
    let expected: Vec<(i64, i64)> = vec![
        (2114380800, 999000),
        (1041379200, 222),
        (915148800, 999999999),
        (788918400, 688888888),
        (1009843200, 100000000),
        (1267488000, 9001),
        (1104537600, 2229),
        (1136073600, 900203003),
        (1041379200, 800000007),
        (838944000, 723100809),
        (909964800, 857340643),
        (1222905600, 0),
    ];
    let column = plain(ColumnValues::Timestamp {
        unit: TimeUnit::Nanosecond,
        timezone: None,
        values: expected
            .iter()
            .map(|(seconds, nanoseconds)| seconds * 1_000_000_000 + nanoseconds)
            .collect(),
    });
    RowType::Timestamp.check_datatype(&column.data_type()).unwrap();

    let rows = RowType::Timestamp.from_array(&column).unwrap();

    assert_eq!(
        rows,
        expected
            .into_iter()
            .map(|(seconds, nanoseconds)| Value::Timestamp(Timestamp { seconds, nanoseconds }))
            .collect::<Vec<_>>()
    );
}
