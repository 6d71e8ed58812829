use ar_row::array::{ColumnArray, ColumnValues};
use ar_row::datatypes::DataType;
use ar_row::deserialize::DeserializationError;
use ar_row::dictionaries::{read_from_dictionary_array, read_options_from_dictionary_array};
use ar_row::target::DeserializationTarget;
use ar_row::value::{RowType, Value};

fn text(values: Vec<&str>) -> ColumnArray {
    ColumnArray {
        nulls: None,
        values: ColumnValues::Utf8 {
            large: false,
            values: values.into_iter().map(|s| s.to_string()).collect(),
        },
    }
}

fn dictionary(keys: Vec<usize>, nulls: Option<Vec<bool>>, values: ColumnArray) -> ColumnArray {
    ColumnArray {
        nulls,
        values: ColumnValues::Dictionary { key_type: DataType::Int8, keys, values: Box::new(values) },
    }
}

fn strings(values: Vec<&str>) -> Vec<Value> {
    values.into_iter().map(|s| Value::String(s.to_string())).collect()
}

#[test]
fn dictionary_and_plain_columns_decode_alike() {
    let plain = text(vec!["x", "y", "y", "x"]);
    let encoded = dictionary(vec![1, 0, 0, 1], None, text(vec!["y", "x", "unused"]));
    assert_eq!(RowType::String.from_array(&encoded), RowType::String.from_array(&plain));
    let optional = RowType::Optional(Box::new(RowType::String));
    assert_eq!(optional.from_array(&encoded), optional.from_array(&plain));

    let nulls = Some(vec![true, false, false, true]);
    let plain = ColumnArray { nulls: nulls.clone(), ..text(vec!["x", "", "", "x"]) };
    let encoded = dictionary(vec![1, 7, 9, 1], nulls, text(vec!["y", "x"]));
    assert_eq!(optional.from_array(&encoded), optional.from_array(&plain));
    assert_eq!(
        optional.from_array(&encoded),
        Ok(vec![Value::String("x".to_string()), Value::Null, Value::Null, Value::String("x".to_string())])
    );
    assert_eq!(RowType::String.from_array(&encoded), RowType::String.from_array(&plain));
    assert_eq!(
        RowType::String.from_array(&encoded),
        Err(DeserializationError::UnexpectedNull("String column contains nulls".to_string()))
    );
}

#[test]
fn key_out_of_range_is_reported() {
    let encoded = dictionary(vec![0, 3, 5], None, text(vec!["a", "b", "c"]));
    assert_eq!(
        RowType::String.from_array(&encoded),
        Err(DeserializationError::DictionaryOverflow {
            key: 3,
            len: 3,
            data_type: DataType::Dictionary(Box::new(DataType::Int8), Box::new(DataType::Utf8)),
        })
    );
    // The key of an absent row is not looked at.
    let encoded = dictionary(vec![0, 3, 2], Some(vec![true, false, true]), text(vec!["a", "b", "c"]));
    assert_eq!(
        RowType::Optional(Box::new(RowType::String)).from_array(&encoded),
        Ok(vec![Value::String("a".to_string()), Value::Null, Value::String("c".to_string())])
    );
    // Nor is a key beyond the rows that the destination has room for.
    let encoded = dictionary(vec![0, 3], None, text(vec!["a"]));
    let mut dst = DeserializationTarget::new(vec![Value::Null]);
    assert_eq!(read_from_dictionary_array(&RowType::String, &encoded, &mut dst), Ok(1));
    assert_eq!(dst.into_rows(), strings(vec!["a"]));
}

#[test]
fn dictionary_values_are_decoded_before_any_row() {
    // The dictionary holds byte strings of the wrong size: no row is
    // written, though no row uses them.
    let values = ColumnArray {
        nulls: None,
        values: ColumnValues::FixedSizeBinary { size: 2, values: vec![vec![1, 2]] },
    };
    let encoded = dictionary(vec![], None, values);
    assert_eq!(
        RowType::FixedSizeBinary(3).from_array(&encoded),
        Err(DeserializationError::MismatchedBinarySize { src: 2, dst: 3 })
    );
    // A dictionary with nulls cannot be decoded, even for an optional shape.
    let values = ColumnArray { nulls: Some(vec![true, false]), ..text(vec!["a", ""]) };
    let encoded = dictionary(vec![0], None, values);
    assert_eq!(
        RowType::Optional(Box::new(RowType::String)).from_array(&encoded),
        Err(DeserializationError::UnexpectedNull("String column contains nulls".to_string()))
    );
}

#[test]
fn dictionary_functions_refuse_plain_columns() {
    let mut dst = DeserializationTarget::new(vec![Value::Null]);
    assert_eq!(
        read_from_dictionary_array(&RowType::String, &text(vec!["a"]), &mut dst),
        Err(DeserializationError::MismatchedColumnDataType(
            "Could not cast Utf8 array to String".to_string()
        ))
    );
    assert_eq!(
        read_options_from_dictionary_array(&RowType::String, &text(vec!["a"]), &mut dst),
        Err(DeserializationError::MismatchedColumnDataType(
            "Could not cast Utf8 array to String".to_string()
        ))
    );
    assert_eq!(dst.into_rows(), vec![Value::Null]);
}

#[test]
fn dictionary_functions_resolve_keys() {
    let encoded = dictionary(vec![1, 0], Some(vec![false, true]), text(vec!["a", "b"]));
    let mut dst = DeserializationTarget::new(vec![Value::Null, Value::Null, Value::Int8(1)]);
    assert_eq!(read_options_from_dictionary_array(&RowType::String, &encoded, &mut dst), Ok(2));
    assert_eq!(
        dst.into_rows(),
        vec![Value::Null, Value::String("a".to_string()), Value::Int8(1)]
    );
    let mut dst = DeserializationTarget::new(vec![Value::Int8(1)]);
    assert_eq!(
        read_from_dictionary_array(&RowType::String, &encoded, &mut dst),
        Err(DeserializationError::UnexpectedNull("String column contains nulls".to_string()))
    );
    assert_eq!(dst.into_rows(), vec![Value::Int8(1)]);
}

#[test]
fn dictionary_of_dictionary_is_resolved_twice() {
    let inner = dictionary(vec![1, 0], None, text(vec!["a", "b"]));
    let outer = dictionary(vec![0, 0, 1], None, inner);
    assert!(outer.is_well_formed());
    assert_eq!(RowType::String.from_array(&outer), Ok(strings(vec!["b", "b", "a"])));
}
