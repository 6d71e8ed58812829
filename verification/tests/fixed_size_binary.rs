use ar_row::array::{ColumnArray, ColumnValues};
use ar_row::deserialize::DeserializationError;
use ar_row::value::{RowType, Value};
use ar_row::{Date, FixedSizeBinary, NaiveDecimal128, Timestamp};

#[test]
fn defaults_are_zero() {
    assert_eq!(Timestamp::default(), Timestamp { seconds: 0, nanoseconds: 0 });
    assert_eq!(NaiveDecimal128::default(), NaiveDecimal128(0));
    assert_eq!(Date::default(), Date(0));
    assert_eq!(FixedSizeBinary::<3>::default(), FixedSizeBinary([0, 0, 0]));
    assert_eq!(FixedSizeBinary::<0>::default(), FixedSizeBinary([]));
}

#[test]
fn arrays_go_in_and_out() {
    let wrapped: FixedSizeBinary<2> = [1, 2].into();
    assert_eq!(wrapped, FixedSizeBinary([1, 2]));
    let array: [u8; 2] = wrapped.into();
    assert_eq!(array, [1, 2]);
    let mut wrapped = FixedSizeBinary([1, 2, 3]);
    assert_eq!(wrapped.len(), 3);
    assert_eq!(wrapped[1], 2);
    wrapped[1] = 9;
    assert_eq!(wrapped, FixedSizeBinary([1, 9, 3]));
}

#[test]
fn byte_strings_of_the_right_length_become_arrays() {
    assert_eq!(FixedSizeBinary::<3>::try_from_slice(&[1, 2, 3]), Ok(FixedSizeBinary([1, 2, 3])));
    assert_eq!(
        FixedSizeBinary::<3>::try_from_slice(&[1, 2]),
        Err(DeserializationError::MismatchedBinarySize { src: 2, dst: 3 })
    );
    assert_eq!(FixedSizeBinary::<0>::try_from_slice(&[]), Ok(FixedSizeBinary([])));
}

#[test]
fn fixed_size_columns() {
    let column = ColumnArray {
        nulls: None,
        values: ColumnValues::FixedSizeBinary { size: 2, values: vec![vec![1, 2], vec![3, 4]] },
    };
    assert!(column.is_well_formed());
    assert_eq!(
        RowType::FixedSizeBinary(2).from_array(&column),
        Ok(vec![Value::FixedSizeBinary(vec![1, 2]), Value::FixedSizeBinary(vec![3, 4])])
    );
    assert_eq!(
        RowType::FixedSizeBinary(3).from_array(&column),
        Err(DeserializationError::MismatchedBinarySize { src: 2, dst: 3 })
    );
    let column = ColumnArray { nulls: Some(vec![true, false]), ..column };
    assert_eq!(
        RowType::Optional(Box::new(RowType::FixedSizeBinary(2))).from_array(&column),
        Ok(vec![Value::FixedSizeBinary(vec![1, 2]), Value::Null])
    );
    assert_eq!(
        RowType::FixedSizeBinary(2).from_array(&column),
        Err(DeserializationError::UnexpectedNull("[u8; 2] column contains nulls".to_string()))
    );
}

#[test]
fn default_values_by_shape() {
    assert_eq!(RowType::FixedSizeBinary(3).default_value(), Value::FixedSizeBinary(vec![0, 0, 0]));
    assert_eq!(RowType::Optional(Box::new(RowType::Int64)).default_value(), Value::Null);
    assert_eq!(RowType::List(Box::new(RowType::Int64)).default_value(), Value::List(vec![]));
    assert_eq!(RowType::String.default_value(), Value::String(String::new()));
    assert_eq!(RowType::List(Box::new(RowType::Int64)).name(), "Vec<i64>");
    assert_eq!(RowType::Optional(Box::new(RowType::Binary)).name(), "Option<Box<[u8]>>");
    assert_eq!(Value::List(vec![Value::Int8(1)]).clone(), Value::List(vec![Value::Int8(1)]));
}
