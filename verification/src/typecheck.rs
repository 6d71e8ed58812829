//! Checking that a column has a type that a row shape is decoded from.
//!
//! The check looks at the type of a column only, never at what the column
//! holds.  It finds every mismatch before it reports any: a record is
//! checked field by field, by position, and the diagnostic has one line for
//! each field that is missing, misnamed or of a type that cannot be
//! decoded.
use vstd::prelude::*;
use vstd::string::StringExecFns;
use crate::datatypes::{same_field_lists, push_struct_text, DataType, Field, Schema, TimeUnit};
use crate::deserialize::{DECIMAL_PRECISION, DECIMAL_SCALE};
use crate::text::{int_text, nat_text, push_int, push_nat};
use crate::value::{RecordField, RecordShape, RowType};

verus! {

/// A physical type, held whole or as the field list of a struct type.
enum TypeRef<'a> {
    Plain(&'a DataType),
    Record(&'a Vec<Field>),
}

impl<'a> TypeRef<'a> {
    /// The type that is meant.
    spec fn denotes(self) -> DataType {
        match self {
            TypeRef::Plain(data_type) => *data_type,
            TypeRef::Record(fields) => DataType::Struct(*fields),
        }
    }

    /// Appends the text of the type to `out`.
    fn push_text(&self, out: &mut String)
        ensures
            final(out)@ == old(out)@ + self.denotes().text(),
    {
        match self {
            TypeRef::Plain(data_type) => data_type.push_text(out),
            TypeRef::Record(fields) => push_struct_text(fields, out),
        }
    }

    /// Whether `expected` is this type.
    fn is(&self, expected: &DataType) -> (r: bool)
        ensures
            r == expected.same(self.denotes()),
    {
        match self {
            TypeRef::Plain(data_type) => expected.is_same(data_type),
            TypeRef::Record(fields) => match expected {
                DataType::Struct(wanted) => same_field_lists(wanted, fields),
                _ => false,
            },
        }
    }
}

/// Whether one of `expected` is the type `got`.
pub open spec fn any_same(expected: Seq<DataType>, got: DataType) -> bool {
    exists|i: int| 0 <= i < expected.len() && (#[trigger] expected[i]).same(got)
}

/// The texts of the first `n` types, separated by `/`.
pub open spec fn joined_texts(types: Seq<DataType>, n: nat) -> Seq<char>
    decreases n,
{
    if n == 0 || n > types.len() {
        Seq::<char>::empty()
    } else if n == 1 {
        types[0].text()
    } else {
        joined_texts(types, (n - 1) as nat) + "/"@ + types[n - 1].text()
    }
}

/// What a check against a list of expected types reports: nothing where
/// `got` is one of them, else a sentence that names the shape, each expected
/// type and `got`.
pub open spec fn equals_text(got: DataType, expected: Seq<DataType>, shape_name: Seq<char>)
    -> Option<Seq<char>> {
    if any_same(expected, got) {
        None
    } else {
        Some(
            shape_name + " must be decoded from Arrow "@ + joined_texts(expected, expected.len())
                + ", not Arrow "@ + got.text(),
        )
    }
}

/// The contract of a check: success where nothing is reported, else the
/// reported text as the error.
pub open spec fn reports_text(result: Result<(), String>, text: Option<Seq<char>>) -> bool {
    match text {
        None => result is Ok,
        Some(t) => result matches Err(message) && message@ == t,
    }
}

fn check_equals(got: &TypeRef, expected: &[DataType], shape_name: &str) -> (r: Result<(), String>)
    ensures
        reports_text(r, equals_text(got.denotes(), expected@, shape_name@)),
{
    let mut i: usize = 0;
    while i < expected.len()
        invariant
            i <= expected.len(),
            forall|j: int| 0 <= j < i ==> !(#[trigger] expected@[j]).same(got.denotes()),
        decreases expected.len() - i,
    {
        if got.is(&expected[i]) {
            return Ok(());
        }
        i += 1;
    }
    let mut message = String::from_str(shape_name);
    message.append(" must be decoded from Arrow ");
    let ghost head = message@;
    let mut k: usize = 0;
    while k < expected.len()
        invariant
            k <= expected.len(),
            message@ == head + joined_texts(expected@, k as nat),
        decreases expected.len() - k,
    {
        if k > 0 {
            message.append("/");
        }
        expected[k].push_text(&mut message);
        k += 1;
        assert(message@ =~= head + joined_texts(expected@, k as nat));
    }
    message.append(", not Arrow ");
    got.push_text(&mut message);
    assert(message@ =~= equals_text(got.denotes(), expected@, shape_name@)->0);
    Err(message)
}

/// Checks that `got_datatype` is one of `expected_datatypes`; the error
/// names `shape_name`, each expected type and the type that was found.
pub fn check_datatype_equals(
    got_datatype: &DataType,
    expected_datatypes: &[DataType],
    shape_name: &str,
) -> (r: Result<(), String>)
    ensures
        reports_text(r, equals_text(*got_datatype, expected_datatypes@, shape_name@)),
{
    check_equals(&TypeRef::Plain(got_datatype), expected_datatypes, shape_name)
}

/// What checking the first `n` fields of a record against the fields of a
/// struct type reports: nothing where each is in its place under its name
/// and can be decoded, else one line per field that is not, each after the
/// separator `sep`.
pub open spec fn fields_check(
    fields: Seq<RecordField>,
    actual: Seq<Field>,
    n: nat,
    sep: Seq<char>,
) -> Option<Seq<char>>
    decreases fields, n,
{
    if n == 0 || n > fields.len() {
        None
    } else {
        let before = fields_check(fields, actual, (n - 1) as nat, sep);
        let k = n - 1;
        let line = if k >= actual.len() {
            Some("Field "@ + fields[k].name@ + " is missing"@)
        } else if actual[k].name@ != fields[k].name@ {
            Some(
                "Field #"@ + nat_text(k as nat) + " must be called "@ + fields[k].name@ + ", not "@
                    + actual[k].name@,
            )
        } else {
            match fields[k].row_type.check_text(actual[k].data_type, sep + "\t"@) {
                None => None,
                Some(inner) => Some("Field "@ + fields[k].name@ + " cannot be decoded: "@ + inner),
            }
        };
        match line {
            None => before,
            Some(text) => Some(
                (match before {
                    None => Seq::<char>::empty(),
                    Some(lines) => lines,
                }) + sep + text,
            ),
        }
    }
}

impl RowType {
    /// The physical types that a scalar shape is decoded from; none for
    /// the shapes that are checked otherwise.
    pub open spec fn expected(self) -> Seq<DataType> {
        match self {
            RowType::Boolean => seq![DataType::Boolean],
            RowType::Int8 => seq![DataType::Int8],
            RowType::Int16 => seq![DataType::Int16],
            RowType::Int32 => seq![DataType::Int32],
            RowType::Int64 => seq![DataType::Int64],
            RowType::UInt8 => seq![DataType::UInt8],
            RowType::UInt16 => seq![DataType::UInt16],
            RowType::UInt32 => seq![DataType::UInt32],
            RowType::UInt64 => seq![DataType::UInt64],
            RowType::Float32 => seq![DataType::Float32],
            RowType::Float64 => seq![DataType::Float64],
            RowType::Date => seq![DataType::Date32],
            RowType::String => seq![DataType::Utf8, DataType::LargeUtf8],
            RowType::Binary => seq![DataType::Binary, DataType::LargeBinary],
            RowType::Timestamp => seq![
                DataType::Timestamp(TimeUnit::Second, None),
                DataType::Timestamp(TimeUnit::Millisecond, None),
                DataType::Timestamp(TimeUnit::Microsecond, None),
                DataType::Timestamp(TimeUnit::Nanosecond, None),
                DataType::Decimal128(DECIMAL_PRECISION, DECIMAL_SCALE),
            ],
            _ => Seq::<DataType>::empty(),
        }
    }

    /// What checking a column type against this shape reports: nothing
    /// where the column can be decoded into the shape, else the diagnostic.
    ///
    /// A struct is checked field by field, by position: the diagnostic
    /// holds one line for every field that is missing, misnamed or of a
    /// type that cannot be decoded, each after `sep`; the lines under a
    /// field that is itself a struct come after `sep` and one more tab.
    pub open spec fn check_text(self, datatype: DataType, sep: Seq<char>) -> Option<Seq<char>>
        decreases self, 0nat,
    {
        match self {
            RowType::FixedSizeBinary(n) => match datatype {
                DataType::FixedSizeBinary(size) => if n as int == size as int {
                    None
                } else {
                    Some(
                        "[u8; "@ + nat_text(n as nat)
                            + "] must be decoded from Arrow FixedSizeBinary("@ + nat_text(n as nat)
                            + "), not Arrow FixedSizeBinary("@ + int_text(size as int) + ")"@,
                    )
                },
                _ => Some(
                    "[u8; _] must be decoded from Arrow FixedSizeBinary, not Arrow "@
                        + datatype.text(),
                ),
            },
            RowType::Decimal128 => match datatype {
                DataType::Decimal128(_, _) => None,
                _ => Some(
                    "NaiveDecimal128 must be decoded from Arrow Decimal128(_, _), not Arrow "@
                        + datatype.text(),
                ),
            },
            RowType::List(inner) => match datatype {
                DataType::List(item) => inner.check_text(*item, sep),
                _ => Some("Must be a List, not "@ + datatype.text()),
            },
            RowType::Struct(shape) => match datatype {
                DataType::Struct(actual) => match fields_check(
                    shape.fields@,
                    actual@,
                    shape.fields@.len(),
                    sep,
                ) {
                    None => None,
                    Some(lines) => Some(shape.name@ + " cannot be decoded:"@ + lines),
                },
                _ => Some(
                    shape.name@ + " must be decoded from DataType::Struct, not "@ + datatype.text(),
                ),
            },
            RowType::Optional(inner) => inner.check_text(datatype, sep),
            _ => equals_text(datatype, self.expected(), self.name_text()),
        }
    }

    /// Whether a column of type `datatype` passes the check for this shape.
    pub open spec fn accepts(self, datatype: DataType) -> bool {
        self.check_text(datatype, "\n\t"@) is None
    }

    fn expected_types(&self) -> (r: Vec<DataType>)
        ensures
            r@ == self.expected(),
    {
        let mut types: Vec<DataType> = Vec::new();
        match self {
            RowType::Boolean => types.push(DataType::Boolean),
            RowType::Int8 => types.push(DataType::Int8),
            RowType::Int16 => types.push(DataType::Int16),
            RowType::Int32 => types.push(DataType::Int32),
            RowType::Int64 => types.push(DataType::Int64),
            RowType::UInt8 => types.push(DataType::UInt8),
            RowType::UInt16 => types.push(DataType::UInt16),
            RowType::UInt32 => types.push(DataType::UInt32),
            RowType::UInt64 => types.push(DataType::UInt64),
            RowType::Float32 => types.push(DataType::Float32),
            RowType::Float64 => types.push(DataType::Float64),
            RowType::Date => types.push(DataType::Date32),
            RowType::String => {
                types.push(DataType::Utf8);
                types.push(DataType::LargeUtf8);
            },
            RowType::Binary => {
                types.push(DataType::Binary);
                types.push(DataType::LargeBinary);
            },
            RowType::Timestamp => {
                types.push(DataType::Timestamp(TimeUnit::Second, None));
                types.push(DataType::Timestamp(TimeUnit::Millisecond, None));
                types.push(DataType::Timestamp(TimeUnit::Microsecond, None));
                types.push(DataType::Timestamp(TimeUnit::Nanosecond, None));
                types.push(DataType::Decimal128(DECIMAL_PRECISION, DECIMAL_SCALE));
            },
            _ => {},
        }
        assert(types@ =~= self.expected());
        types
    }

    fn check_at(&self, datatype: &TypeRef, sep: &str) -> (r: Result<(), String>)
        ensures
            reports_text(r, self.check_text(datatype.denotes(), sep@)),
        decreases self, 0nat,
    {
        match self {
            RowType::FixedSizeBinary(n) => match datatype {
                TypeRef::Plain(DataType::FixedSizeBinary(size)) => {
                    if *size >= 0 && *n as u64 == *size as u64 {
                        Ok(())
                    } else {
                        let mut message = String::from_str("[u8; ");
                        push_nat(&mut message, *n as u128);
                        message.append("] must be decoded from Arrow FixedSizeBinary(");
                        push_nat(&mut message, *n as u128);
                        message.append("), not Arrow FixedSizeBinary(");
                        push_int(&mut message, *size as i128);
                        message.append(")");
                        assert(message@ =~= self.check_text(datatype.denotes(), sep@)->0);
                        Err(message)
                    }
                },
                _ => {
                    let mut message = String::from_str(
                        "[u8; _] must be decoded from Arrow FixedSizeBinary, not Arrow ",
                    );
                    datatype.push_text(&mut message);
                    Err(message)
                },
            },
            RowType::Decimal128 => match datatype {
                TypeRef::Plain(DataType::Decimal128(_, _)) => Ok(()),
                _ => {
                    let mut message = String::from_str(
                        "NaiveDecimal128 must be decoded from Arrow Decimal128(_, _), not Arrow ",
                    );
                    datatype.push_text(&mut message);
                    Err(message)
                },
            },
            RowType::List(inner) => match datatype {
                TypeRef::Plain(DataType::List(item)) => inner.check_at(&TypeRef::Plain(item), sep),
                _ => {
                    let mut message = String::from_str("Must be a List, not ");
                    datatype.push_text(&mut message);
                    Err(message)
                },
            },
            RowType::Struct(shape) => {
                let actual = match datatype {
                    TypeRef::Plain(DataType::Struct(fields)) => Some(fields),
                    TypeRef::Record(fields) => Some(*fields),
                    _ => None,
                };
                match actual {
                    Some(fields) => check_fields(shape, fields, sep),
                    None => {
                        let mut message = shape.name.clone();
                        message.append(" must be decoded from DataType::Struct, not ");
                        datatype.push_text(&mut message);
                        assert(message@ =~= self.check_text(datatype.denotes(), sep@)->0);
                        Err(message)
                    },
                }
            },
            RowType::Optional(inner) => inner.check_at(datatype, sep),
            _ => {
                let expected = self.expected_types();
                let name = self.name();
                check_equals(datatype, expected.as_slice(), name.as_str())
            },
        }
    }

    /// Returns whether rows of the shape can be decoded from a column with
    /// the given data type, with a diagnostic that lists every mismatch.
    ///
    /// This should be called before any decoding, to get errors early and
    /// complete.
    pub fn check_datatype(&self, datatype: &DataType) -> (r: Result<(), String>)
        ensures
            reports_text(r, self.check_text(*datatype, "\n\t"@)),
            r is Ok <==> self.accepts(*datatype),
    {
        self.check_at(&TypeRef::Plain(datatype), "\n\t")
    }

    /// Returns whether rows of the shape can be decoded from a batch with
    /// the given schema: from the struct type of its fields.
    pub fn check_schema(&self, schema: &Schema) -> (r: Result<(), String>)
        ensures
            reports_text(r, self.check_text(DataType::Struct(schema.fields), "\n\t"@)),
            r is Ok <==> self.accepts(DataType::Struct(schema.fields)),
    {
        self.check_at(&TypeRef::Record(&schema.fields), "\n\t")
    }
}

fn check_fields(shape: &RecordShape, actual: &Vec<Field>, sep: &str) -> (r: Result<(), String>)
    ensures
        reports_text(r, RowType::Struct(*shape).check_text(DataType::Struct(*actual), sep@)),
    decreases shape, 1nat,
{
    let mut deeper = String::from_str(sep);
    deeper.append("\t");
    let mut lines = String::new();
    let mut failed = false;
    let mut k: usize = 0;
    while k < shape.fields.len()
        invariant
            k <= shape.fields.len(),
            deeper@ == sep@ + "\t"@,
            decreases_to!(*shape => shape.fields),
            fields_check(shape.fields@, actual@, k as nat, sep@) == if failed {
                Some(lines@)
            } else {
                None
            },
            !failed ==> lines@ == Seq::<char>::empty(),
        decreases shape.fields.len() - k,
    {
        proof {
            broadcast use vstd::std_specs::vec::axiom_vec_index_decreases;
            assert(decreases_to!(shape.fields => shape.fields[k as int]));
            assert(decreases_to!(shape.fields[k as int] => shape.fields[k as int].row_type));
        }
        let ghost before = lines@;
        let field = &shape.fields[k];
        if k >= actual.len() {
            lines.append(sep);
            lines.append("Field ");
            lines.append(field.name.as_str());
            lines.append(" is missing");
            assert(lines@ =~= before + sep@ + ("Field "@ + field.name@ + " is missing"@));
            failed = true;
        } else if !(actual[k].name == field.name) {
            lines.append(sep);
            lines.append("Field #");
            push_nat(&mut lines, k as u128);
            lines.append(" must be called ");
            lines.append(field.name.as_str());
            lines.append(", not ");
            lines.append(actual[k].name.as_str());
            assert(lines@ =~= before + sep@ + ("Field #"@ + nat_text(k as nat)
                + " must be called "@ + field.name@ + ", not "@ + actual@[k as int].name@));
            failed = true;
        } else {
            match field.row_type.check_at(&TypeRef::Plain(&actual[k].data_type), deeper.as_str()) {
                Ok(()) => {},
                Err(inner) => {
                    lines.append(sep);
                    lines.append("Field ");
                    lines.append(field.name.as_str());
                    lines.append(" cannot be decoded: ");
                    lines.append(inner.as_str());
                    assert(lines@ =~= before + sep@ + ("Field "@ + field.name@
                        + " cannot be decoded: "@ + inner@));
                    failed = true;
                },
            }
        }
        k += 1;
    }
    if failed {
        let mut message = shape.name.clone();
        message.append(" cannot be decoded:");
        message.append(lines.as_str());
        Err(message)
    } else {
        Ok(())
    }
}

} // verus!
