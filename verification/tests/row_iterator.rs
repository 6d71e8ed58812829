use ar_row::array::{ColumnArray, ColumnValues, RecordBatch, StructField};
use ar_row::deserialize::DeserializationError;
use ar_row::row_iterator::RowIterator;
use ar_row::value::{RecordField, RecordShape, RowType, Value};

fn shape() -> RowType {
    RowType::Struct(RecordShape {
        name: "Row".to_string(),
        fields: vec![RecordField { name: "a".to_string(), row_type: RowType::Int64 }],
    })
}

fn batch(values: Vec<i64>, nulls: Option<Vec<bool>>) -> RecordBatch {
    RecordBatch::new(
        values.len(),
        vec![StructField {
            name: "a".to_string(),
            column: ColumnArray { nulls, values: ColumnValues::Int64(values) },
        }],
    )
}

fn row(a: i64) -> Value {
    Value::Struct(vec![Value::Int64(a)])
}

#[test]
fn rows_of_all_batches_in_order() {
    let mut rows =
        RowIterator::new(vec![batch(vec![1, 2], None), batch(vec![3], None)], shape()).unwrap();
    assert_eq!(rows.try_next(), Ok(Some(row(1))));
    assert_eq!(rows.try_next(), Ok(Some(row(2))));
    assert_eq!(rows.try_next(), Ok(Some(row(3))));
    assert_eq!(rows.try_next(), Ok(None));
    assert_eq!(rows.try_next(), Ok(None));
}

#[test]
fn no_batch_no_row() {
    let mut rows = RowIterator::new(vec![], shape()).unwrap();
    assert_eq!(rows.next(), None);
    assert_eq!(rows.try_next(), Ok(None));
}

#[test]
fn empty_batches_are_passed_over() {
    let batches = vec![
        batch(vec![], None),
        batch(vec![1], None),
        batch(vec![], None),
        batch(vec![], None),
        batch(vec![2], None),
        batch(vec![], None),
    ];
    let mut rows = RowIterator::new(batches, shape()).unwrap();
    assert_eq!(rows.next(), Some(row(1)));
    assert_eq!(rows.next(), Some(row(2)));
    assert_eq!(rows.next(), None);
}

#[test]
fn buffer_shrinks_and_grows_with_the_batches() {
    let batches = vec![batch(vec![1, 2, 3], None), batch(vec![4], None), batch(vec![5, 6], None)];
    let mut rows = RowIterator::new(batches, shape()).unwrap();
    let mut seen = Vec::new();
    while let Some(value) = rows.next() {
        seen.push(value);
    }
    assert_eq!(seen, vec![row(1), row(2), row(3), row(4), row(5), row(6)]);
}

#[test]
fn error_in_the_first_batch_is_returned_at_once() {
    let result = RowIterator::new(vec![batch(vec![1], Some(vec![false]))], shape());
    match result {
        Err(error) => assert_eq!(
            error,
            DeserializationError::UnexpectedNull("i64 column contains nulls".to_string())
        ),
        Ok(_) => panic!("the first batch cannot be decoded"),
    }
}

#[test]
fn error_in_a_later_batch_ends_the_traversal() {
    let batches =
        vec![batch(vec![1], None), batch(vec![2], Some(vec![true])), batch(vec![3], None)];
    let mut rows = RowIterator::new(batches, shape()).unwrap();
    assert_eq!(rows.try_next(), Ok(Some(row(1))));
    assert_eq!(
        rows.try_next(),
        Err(DeserializationError::UnexpectedNull("i64 column contains nulls".to_string()))
    );
    assert_eq!(rows.try_next(), Ok(None));
    assert_eq!(rows.try_next(), Ok(None));
}
