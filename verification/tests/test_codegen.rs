use ar_row::datatypes::{DataType, Field};
use ar_row::value::{RecordField, RecordShape, RowType};

fn field(name: &str, data_type: DataType) -> Field {
    Field { name: name.to_string(), data_type }
}

fn record(name: &str, fields: Vec<(&str, RowType)>) -> RowType {
    RowType::Struct(RecordShape {
        name: name.to_string(),
        fields: fields
            .into_iter()
            .map(|(name, row_type)| RecordField { name: name.to_string(), row_type })
            .collect(),
    })
}

fn list_of(row_type: RowType) -> RowType {
    RowType::List(Box::new(row_type))
}

#[test]
fn test_basic() {
    let test = record("Test", vec![("abc", RowType::String), ("def", RowType::Int64)]);

    test.check_datatype(&DataType::Struct(vec![
        field("abc", DataType::Utf8),
        field("def", DataType::Int64),
    ]))
    .unwrap();

    assert_eq!(test.columns(), vec!["abc", "def"]);
}

#[test]
fn test_raw_literal() {
    let test = record("Test", vec![("type", RowType::String)]);

    test.check_datatype(&DataType::Struct(vec![field("type", DataType::Utf8)]))
        .unwrap();

    assert_eq!(test.columns(), vec!["type"]);
}

#[test]
fn test_nested() {
    let inner = || record("Inner", vec![("ghi", RowType::Int64), ("jkl", list_of(RowType::Int32))]);
    let test = record(
        "Test",
        vec![("abc", RowType::String), ("def", inner()), ("def2", list_of(inner()))],
    );

    let inner_datatype = || {
        DataType::Struct(vec![
            field("ghi", DataType::Int64),
            field("jkl", DataType::List(Box::new(DataType::Int32))),
        ])
    };
    test.check_datatype(&DataType::Struct(vec![
        field("abc", DataType::Utf8),
        field("def", inner_datatype()),
        field("def2", DataType::List(Box::new(inner_datatype()))),
    ]))
    .unwrap();

    assert_eq!(
        test.columns(),
        vec!["abc", "def.ghi", "def.jkl", "def2.ghi", "def2.jkl"]
    );
}

#[test]
fn columns_of_a_scalar_are_its_prefix() {
    assert_eq!(RowType::Int64.columns(), vec![""]);
    assert_eq!(RowType::Int64.columns_with_prefix("a.b"), vec!["a.b"]);
    assert_eq!(
        RowType::Optional(Box::new(list_of(RowType::String))).columns_with_prefix("x"),
        vec!["x"]
    );
    assert_eq!(
        record("Row", vec![("a", RowType::Int8), ("b", RowType::Int8)]).columns_with_prefix("r"),
        vec!["r.a", "r.b"]
    );
    assert_eq!(record("Row", vec![]).columns(), Vec::<String>::new());
}
