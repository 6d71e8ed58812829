use ar_row::datatypes::DataType;
use ar_row::deserialize::DeserializationError;

#[test]
fn every_error_has_its_sentence() {
    assert_eq!(
        DeserializationError::MismatchedColumnDataType("Could not cast Utf8 array to i64".to_string())
            .message(),
        "Mismatched Arrow column type: Could not cast Utf8 array to i64"
    );
    assert_eq!(
        DeserializationError::MissingField("long1".to_string()).message(),
        "Field long1 is missing from Arrow array"
    );
    assert_eq!(
        DeserializationError::UsizeOverflow(18446744073709551615).message(),
        "Number of items exceeds maximum buffer capacity on this platform: 18446744073709551615"
    );
    assert_eq!(
        DeserializationError::UnexpectedNull("String column contains nulls".to_string()).message(),
        "Unexpected null value in Arrow array: String column contains nulls"
    );
    assert_eq!(
        DeserializationError::MismatchedLength { src: 10, dst: 9 }.message(),
        "Tried to deserialize 10-long buffer into 9-long buffer"
    );
    assert_eq!(
        DeserializationError::MismatchedBinarySize { src: 16, dst: 20 }.message(),
        "Tried to deserialize FixedSizeBinary(16) buffer into arrays of length 20"
    );
    assert_eq!(
        DeserializationError::DictionaryOverflow {
            key: 3,
            len: 3,
            data_type: DataType::Dictionary(Box::new(DataType::Int8), Box::new(DataType::Utf8)),
        }
        .message(),
        "Could not read entry 3 of a Dictionary(Int8, Utf8) dictionary of length 3"
    );
    assert_eq!(
        DeserializationError::TimestampOverflow { seconds: 9223372036854775808 }.message(),
        "Could not represent number of seconds (9223372036854775808) as a 64-bits signed integer"
    );
}

#[test]
fn numbers_are_written_in_full() {
    assert_eq!(
        DeserializationError::TimestampOverflow { seconds: i128::MIN }.message(),
        "Could not represent number of seconds (-170141183460469231731687303715884105728) as a 64-bits signed integer"
    );
    assert_eq!(
        DeserializationError::TimestampOverflow { seconds: i128::MAX }.message(),
        "Could not represent number of seconds (170141183460469231731687303715884105727) as a 64-bits signed integer"
    );
    assert_eq!(
        DeserializationError::TimestampOverflow { seconds: 0 }.message(),
        "Could not represent number of seconds (0) as a 64-bits signed integer"
    );
    assert_eq!(
        DeserializationError::TimestampOverflow { seconds: -10 }.message(),
        "Could not represent number of seconds (-10) as a 64-bits signed integer"
    );
    assert_eq!(
        DeserializationError::MismatchedLength { src: 0, dst: 1002003 }.message(),
        "Tried to deserialize 0-long buffer into 1002003-long buffer"
    );
}
