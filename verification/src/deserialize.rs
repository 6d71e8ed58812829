//! Decoding columns into rows.
use vstd::prelude::*;
use vstd::string::StringExecFns;
use crate::array::{ColumnArray, ColumnValues, RecordBatch, StructField};
use crate::datatypes::DataType;
use crate::target::{slots_ready, written, DeserializationTarget};
use crate::text::{int_text, nat_text, push_int, push_nat};
use crate::value::{Datum, RecordField, RowType, Value};

pub use crate::typecheck::check_datatype_equals;

verus! {

/// The precision of the decimal type that holds timestamps.
pub const DECIMAL_PRECISION: u8 = 38;

/// The scale of the decimal type that holds timestamps: it counts
/// nanoseconds.
pub const DECIMAL_SCALE: i8 = 9;

/// Error returned when failing to read a particular batch of data
#[derive(Debug, PartialEq)]
pub enum DeserializationError {
    /// Expected to parse a structure from the column, but the given column is
    /// of an incompatible type.
    /// Contains a human-readable description of the type incompatibility
    MismatchedColumnDataType(String),
    /// The structure has a field which is missing from the column.
    /// Contains the name of the field.
    MissingField(String),
    /// A number of items could not be represented on this platform.
    /// Contains the number.
    UsizeOverflow(u64),
    /// A column containing nulls was decoded into a shape that is not
    /// optional.
    ///
    /// Contains a human-readable error.
    UnexpectedNull(String),
    /// The source column is longer than the destination.
    MismatchedLength { src: usize, dst: usize },
    /// Tried to decode fixed-size byte strings into arrays of another size
    MismatchedBinarySize { src: usize, dst: usize },
    /// Tried to decode from a dictionary-encoded column, but one of the keys
    /// is not smaller than the length of the dictionary
    DictionaryOverflow { key: usize, len: usize, data_type: DataType },
    /// The number of seconds of a decimal timestamp does not fit 64 bits
    TimestampOverflow { seconds: i128 },
}

/// What a decoding fails with, as contracts speak of it.
pub ghost enum Fault {
    /// The column has a physical type that the shape is not decoded from;
    /// with the text of the error.
    MismatchedColumnDataType(Seq<char>),
    /// The column carries nulls and the shape is not optional; with the
    /// text of the error.
    UnexpectedNull(Seq<char>),
    /// The destination has fewer rows than the column.
    MismatchedLength { src: nat, dst: nat },
    /// Byte strings of `src` bytes were to be decoded into `dst` bytes.
    MismatchedBinarySize { src: nat, dst: nat },
    /// A key of the dictionary-encoded column `column` is not smaller
    /// than the length of its dictionary.
    DictionaryOverflow { key: nat, len: nat, column: ColumnArray },
    /// A number of seconds does not fit 64 bits.
    TimestampOverflow { seconds: int },
}

impl DeserializationError {
    /// The sentence that tells the error to a person.
    pub open spec fn text(self) -> Seq<char> {
        match self {
            DeserializationError::MismatchedColumnDataType(message) =>
                "Mismatched Arrow column type: "@ + message@,
            DeserializationError::MissingField(name) => "Field "@ + name@
                + " is missing from Arrow array"@,
            DeserializationError::UsizeOverflow(number) =>
                "Number of items exceeds maximum buffer capacity on this platform: "@ + nat_text(
                number as nat,
            ),
            DeserializationError::UnexpectedNull(message) =>
                "Unexpected null value in Arrow array: "@ + message@,
            DeserializationError::MismatchedLength { src, dst } => "Tried to deserialize "@
                + nat_text(src as nat) + "-long buffer into "@ + nat_text(dst as nat)
                + "-long buffer"@,
            DeserializationError::MismatchedBinarySize { src, dst } =>
                "Tried to deserialize FixedSizeBinary("@ + nat_text(src as nat)
                + ") buffer into arrays of length "@ + nat_text(dst as nat),
            DeserializationError::DictionaryOverflow { key, len, data_type } =>
                "Could not read entry "@ + nat_text(key as nat) + " of a "@ + data_type.text()
                + " dictionary of length "@ + nat_text(len as nat),
            DeserializationError::TimestampOverflow { seconds } =>
                "Could not represent number of seconds ("@ + int_text(seconds as int)
                + ") as a 64-bits signed integer"@,
        }
    }

    /// The sentence that tells the error to a person.
    pub fn message(&self) -> (r: String)
        ensures
            r@ == self.text(),
    {
        let mut out = String::new();
        match self {
            DeserializationError::MismatchedColumnDataType(message) => {
                out.append("Mismatched Arrow column type: ");
                out.append(message.as_str());
            },
            DeserializationError::MissingField(name) => {
                out.append("Field ");
                out.append(name.as_str());
                out.append(" is missing from Arrow array");
            },
            DeserializationError::UsizeOverflow(number) => {
                out.append("Number of items exceeds maximum buffer capacity on this platform: ");
                push_nat(&mut out, *number as u128);
            },
            DeserializationError::UnexpectedNull(message) => {
                out.append("Unexpected null value in Arrow array: ");
                out.append(message.as_str());
            },
            DeserializationError::MismatchedLength { src, dst } => {
                out.append("Tried to deserialize ");
                push_nat(&mut out, *src as u128);
                out.append("-long buffer into ");
                push_nat(&mut out, *dst as u128);
                out.append("-long buffer");
            },
            DeserializationError::MismatchedBinarySize { src, dst } => {
                out.append("Tried to deserialize FixedSizeBinary(");
                push_nat(&mut out, *src as u128);
                out.append(") buffer into arrays of length ");
                push_nat(&mut out, *dst as u128);
            },
            DeserializationError::DictionaryOverflow { key, len, data_type } => {
                out.append("Could not read entry ");
                push_nat(&mut out, *key as u128);
                out.append(" of a ");
                data_type.push_text(&mut out);
                out.append(" dictionary of length ");
                push_nat(&mut out, *len as u128);
            },
            DeserializationError::TimestampOverflow { seconds } => {
                out.append("Could not represent number of seconds (");
                push_int(&mut out, *seconds);
                out.append(") as a 64-bits signed integer");
            },
        }
        assert(out@ =~= self.text());
        out
    }

    /// Whether the error is the given fault.
    pub open spec fn reports(self, fault: Fault) -> bool {
        match (self, fault) {
            (
                DeserializationError::MismatchedColumnDataType(message),
                Fault::MismatchedColumnDataType(text),
            ) => message@ == text,
            (DeserializationError::UnexpectedNull(message), Fault::UnexpectedNull(text)) => message@
                == text,
            (
                DeserializationError::MismatchedLength { src, dst },
                Fault::MismatchedLength { src: s, dst: d },
            ) => src == s && dst == d,
            (
                DeserializationError::MismatchedBinarySize { src, dst },
                Fault::MismatchedBinarySize { src: s, dst: d },
            ) => src == s && dst == d,
            (
                DeserializationError::DictionaryOverflow { key, len, data_type },
                Fault::DictionaryOverflow { key: k, len: l, column },
            ) => key == k && len == l && column.has_type(data_type),
            (
                DeserializationError::TimestampOverflow { seconds },
                Fault::TimestampOverflow { seconds: s },
            ) => seconds == s,
            _ => false,
        }
    }
}

/// The smaller of two numbers.
pub open spec fn least(a: nat, b: nat) -> nat {
    if a <= b {
        a
    } else {
        b
    }
}

/// The values of the rows where each row has one, else the fault of the
/// first row that has none.
pub open spec fn collect(rows: Seq<Result<Datum, Fault>>) -> Result<Seq<Datum>, Fault>
    decreases rows.len(),
{
    if rows.len() == 0 {
        Ok(Seq::empty())
    } else {
        match collect(rows.drop_last()) {
            Err(fault) => Err(fault),
            Ok(values) => match rows.last() {
                Err(fault) => Err(fault),
                Ok(value) => Ok(values.push(value)),
            },
        }
    }
}

/// What row `i` of a column of scalars decodes to: no value where the row
/// is absent, else what its value converts to.
pub open spec fn scalar_row(row_type: RowType, src: ColumnArray, i: int) -> Result<Datum, Fault> {
    if src.present(i) {
        row_type.converted(src, i)
    } else {
        Ok(Datum::Null)
    }
}

/// What row `i` of a dictionary-encoded column decodes to, where `items`
/// are the decoded values of the dictionary: no value where the row is
/// absent, else the item under the row's key, which must be smaller than
/// the number of items.
pub open spec fn dictionary_row(items: Seq<Datum>, src: ColumnArray, i: int) -> Result<
    Datum,
    Fault,
> {
    match src.values {
        ColumnValues::Dictionary { keys, .. } => if !src.present(i) {
            Ok(Datum::Null)
        } else if keys@[i] < items.len() {
            Ok(items[keys@[i] as int])
        } else {
            Err(Fault::DictionaryOverflow { key: keys@[i] as nat, len: items.len(), column: src })
        },
        _ => Ok(Datum::Null),
    }
}

/// The first `n` rows of a column of scalars, each decoded by itself.
pub open spec fn scalar_rows(row_type: RowType, src: ColumnArray, n: nat) -> Seq<
    Result<Datum, Fault>,
> {
    Seq::new(n, |i: int| scalar_row(row_type, src, i))
}

/// The first `n` rows of a dictionary-encoded column, each resolved by
/// itself.
pub open spec fn dictionary_rows(items: Seq<Datum>, src: ColumnArray, n: nat) -> Seq<
    Result<Datum, Fault>,
> {
    Seq::new(n, |i: int| dictionary_row(items, src, i))
}

/// The rows of a list column, where `items` are the decoded items of its
/// child: row `i` holds the items from `offsets[i]` up to `offsets[i + 1]`,
/// an absent row holds no value.
pub open spec fn list_rows(items: Seq<Datum>, src: ColumnArray) -> Seq<Datum> {
    match src.values {
        ColumnValues::List { offsets, .. } => Seq::new(
            src.rows(),
            |i: int|
                if src.present(i) {
                    Datum::List(items.subrange(offsets@[i] as int, offsets@[i + 1] as int))
                } else {
                    Datum::Null
                },
        ),
        _ => Seq::empty(),
    }
}

/// The rows of a struct column, where `columns` are its decoded child
/// columns: a present row holds the record of the values of its fields, an
/// absent row holds no value.
pub open spec fn record_rows(columns: Seq<Seq<Datum>>, src: ColumnArray) -> Seq<Datum> {
    Seq::new(
        src.rows(),
        |i: int|
            if src.present(i) {
                record_at(columns, i)
            } else {
                Datum::Null
            },
    )
}

/// What a dictionary-encoded column decodes to for a destination of `room`
/// rows, where `items` is what the values of its dictionary decode to.
///
/// A shape that is not optional fails on a column with nulls, before it
/// looks at the dictionary.  A dictionary that cannot be decoded fails the
/// column.  Then the rows are resolved in order, as many as the
/// destination has room for.
pub open spec fn dictionary_decoded(
    item: RowType,
    items: Result<Seq<Datum>, Fault>,
    src: ColumnArray,
    room: nat,
    optional: bool,
) -> Result<Seq<Datum>, Fault> {
    if !optional && src.nulls is Some {
        Err(Fault::UnexpectedNull(item.null_text()))
    } else {
        match items {
            Err(fault) => Err(fault),
            Ok(items) => collect(dictionary_rows(items, src, least(src.rows(), room))),
        }
    }
}

/// What the first `n` child columns of a struct column decode to, each for
/// the shape of its field: the decoded columns, or the fault of the first
/// one that fails.
pub open spec fn decoded_fields(
    fields: Seq<RecordField>,
    columns: Seq<StructField>,
    room: nat,
    n: nat,
) -> Result<Seq<Seq<Datum>>, Fault>
    decreases columns, fields, n,
{
    if n == 0 || n > fields.len() || n > columns.len() {
        Ok(Seq::empty())
    } else {
        match decoded_fields(fields, columns, room, (n - 1) as nat) {
            Err(fault) => Err(fault),
            Ok(before) => match fields[n - 1].row_type.decoded_as(
                columns[n - 1].column,
                room,
                false,
            ) {
                Err(fault) => Err(fault),
                Ok(column) => Ok(before.push(column)),
            },
        }
    }
}

/// The record of row `i`: the value of each field at that row.
pub open spec fn record_at(columns: Seq<Seq<Datum>>, i: int) -> Datum {
    Datum::Struct(Seq::new(columns.len(), |k: int| columns[k][i]))
}

impl RowType {
    /// Whether the shape and the column agree on the number of fields
    /// wherever a record meets a struct column.
    pub open spec fn same_arity(self, src: ColumnArray) -> bool
        decreases src, self,
    {
        match self {
            RowType::Optional(inner) => inner.same_arity(src),
            RowType::List(inner) => match src.values {
                ColumnValues::List { child, .. } => inner.same_arity(*child),
                _ => true,
            },
            RowType::Struct(shape) => match src.values {
                ColumnValues::Struct { fields, .. } => {
                    &&& fields@.len() == shape.fields@.len()
                    &&& forall|k: int|
                        0 <= k < fields@.len() ==> (#[trigger] shape.fields@[k]).row_type.same_arity(
                            fields@[k].column,
                        )
                },
                _ => true,
            },
            _ => true,
        }
    }

    /// What a column decodes to for a destination of `room` rows: the
    /// decoded rows, or the fault that decoding fails with.  `optional`
    /// tells whether absent rows are accepted, and decoded to no value.
    ///
    /// A column of a physical kind that the shape is not decoded from is
    /// refused.  Then, unless absent rows are accepted, a column that
    /// carries nulls is refused.
    ///
    /// A scalar shape reads the column row by row, as many rows as the
    /// destination has room for; it resolves a dictionary-encoded column
    /// through its dictionary.  A list shape first decodes every item of
    /// the child column, then cuts the items into rows along the offsets.
    /// A record shape decodes each child column for its field, in order,
    /// and makes one record per row.  Lists and records need room for every
    /// row of the column.
    pub open spec fn decoded_as(self, src: ColumnArray, room: nat, optional: bool) -> Result<
        Seq<Datum>,
        Fault,
    >
        decreases src, self, 0nat,
    {
        match self {
            RowType::Optional(inner) => inner.decoded_as(src, room, true),
            RowType::List(inner) => match src.values {
                ColumnValues::List { child, .. } => if !optional && src.nulls is Some {
                    Err(Fault::UnexpectedNull(self.null_text()))
                } else {
                    match inner.decoded_as(*child, child.rows(), false) {
                        Err(fault) => Err(fault),
                        Ok(items) => if src.rows() > room {
                            Err(Fault::MismatchedLength { src: src.rows(), dst: room })
                        } else {
                            Ok(list_rows(items, src))
                        },
                    }
                },
                _ => Err(Fault::MismatchedColumnDataType(self.cast_text(src.values))),
            },
            RowType::Struct(shape) => match src.values {
                ColumnValues::Struct { fields, .. } => if !optional && src.nulls is Some {
                    Err(Fault::UnexpectedNull(self.null_text()))
                } else if src.rows() > room {
                    Err(Fault::MismatchedLength { src: src.rows(), dst: room })
                } else {
                    match decoded_fields(shape.fields@, fields@, room, shape.fields@.len()) {
                        Err(fault) => Err(fault),
                        Ok(columns) => Ok(record_rows(columns, src)),
                    }
                },
                _ => Err(Fault::MismatchedColumnDataType(self.cast_text(src.values))),
            },
            _ => match src.values {
                ColumnValues::Dictionary { values, .. } => dictionary_decoded(
                    self,
                    self.decoded_as(*values, values.rows(), false),
                    src,
                    room,
                    optional,
                ),
                _ => if !self.reads(src.values) {
                    Err(self.cast_fault(src.values))
                } else if !optional && src.nulls is Some {
                    Err(Fault::UnexpectedNull(self.null_text()))
                } else {
                    collect(scalar_rows(self, src, least(src.rows(), room)))
                },
            },
        }
    }

    /// What a column decodes to for a destination of `room` rows.
    pub open spec fn decoded(self, src: ColumnArray, room: nat) -> Result<Seq<Datum>, Fault> {
        self.decoded_as(src, room, false)
    }
}

/// The contract of a decoding into a destination: the projection and the
/// size of the buffer are kept; on success the decoded rows stand in the
/// first positions, the others are untouched, and the number of decoded
/// rows is returned; on failure the error reports the fault.
pub open spec fn decode_outcome(
    result: Result<usize, DeserializationError>,
    before: DeserializationTarget,
    after: DeserializationTarget,
    expected: Result<Seq<Datum>, Fault>,
) -> bool {
    &&& after.path@ == before.path@
    &&& after.rows@.len() == before.rows@.len()
    &&& match expected {
        Ok(rows) => {
            &&& result matches Ok(count)
            &&& count == rows.len()
            &&& after.data() == written(before.data(), before.path@, rows)
        },
        Err(fault) => result matches Err(error) && error.reports(fault),
    }
}

/// A decoding that does not accept absent rows leaves the destination as
/// it was where the column carries nulls.
pub open spec fn untouched_on_nulls(
    src: ColumnArray,
    optional: bool,
    before: DeserializationTarget,
    after: DeserializationTarget,
) -> bool {
    src.nulls is Some && !optional ==> after == before
}

/// Collected rows are as many as the rows they were collected from.
pub proof fn lemma_collect_len(rows: Seq<Result<Datum, Fault>>)
    ensures
        collect(rows) matches Ok(values) ==> values.len() == rows.len(),
    decreases rows.len(),
{
    if rows.len() > 0 {
        lemma_collect_len(rows.drop_last());
    }
}

/// A fault among the first rows is the fault of all the rows.
pub proof fn lemma_collect_fault(rows: Seq<Result<Datum, Fault>>, n: int)
    requires
        0 <= n <= rows.len(),
        collect(rows.take(n)) is Err,
    ensures
        collect(rows) == collect(rows.take(n)),
    decreases rows.len() - n,
{
    if n < rows.len() {
        assert(rows.take(n + 1).drop_last() =~= rows.take(n));
        lemma_collect_fault(rows, n + 1);
    } else {
        assert(rows.take(n) =~= rows);
    }
}

/// Each collected value is the value of its row.
pub proof fn lemma_collect_values(rows: Seq<Result<Datum, Fault>>)
    ensures
        collect(rows) matches Ok(values) ==> forall|i: int|
            0 <= i < rows.len() ==> rows[i] == Ok::<Datum, Fault>(#[trigger] values[i]),
    decreases rows.len(),
{
    if rows.len() > 0 {
        lemma_collect_values(rows.drop_last());
        lemma_collect_len(rows.drop_last());
    }
}

/// What decodes to rows decodes to as many rows as the column has, or as
/// the destination has room for, whichever is less.
pub proof fn lemma_decoded_len(row_type: RowType, src: ColumnArray, room: nat, optional: bool)
    ensures
        row_type.decoded_as(src, room, optional) matches Ok(rows) ==> rows.len() == least(
            src.rows(),
            room,
        ),
    decreases row_type,
{
    match row_type {
        RowType::Optional(inner) => {
            lemma_decoded_len(*inner, src, room, true);
        },
        RowType::List(_) => {},
        RowType::Struct(_) => {},
        _ => {
            match src.values {
                ColumnValues::Dictionary { values, .. } => {
                    match row_type.decoded_as(*values, values.rows(), false) {
                        Ok(items) => {
                            lemma_collect_len(
                                dictionary_rows(items, src, least(src.rows(), room)),
                            );
                        },
                        Err(_) => {},
                    }
                },
                _ => {
                    lemma_collect_len(scalar_rows(row_type, src, least(src.rows(), room)));
                },
            }
        },
    }
}

/// Writing whole rows leaves the rows where they were written.
pub proof fn lemma_written_whole(before: Seq<Datum>, rows: Seq<Datum>)
    requires
        rows.len() == before.len(),
    ensures
        written(before, Seq::<usize>::empty(), rows) == rows,
{
    assert(written(before, Seq::<usize>::empty(), rows) =~= rows);
}

/// Decodes the rows of a column of scalars, one by one.
pub fn read_rows(
    row_type: &RowType,
    src: &ColumnArray,
    dst: &mut DeserializationTarget,
    optional: bool,
) -> (r: Result<usize, DeserializationError>)
    requires
        row_type.is_scalar(),
        !(src.values is Dictionary),
        src.wf(),
        old(dst).ready(least(src.rows(), old(dst).rows@.len() as nat)),
    ensures
        decode_outcome(
            r,
            *old(dst),
            *final(dst),
            row_type.decoded_as(*src, old(dst).rows@.len() as nat, optional),
        ),
        untouched_on_nulls(*src, optional, *old(dst), *final(dst)),
{
    if !row_type.reads_column(src) {
        return Err(row_type.cast_error(src));
    }
    if !optional && src.has_nulls() {
        return Err(row_type.null_error());
    }
    let n = if src.len() < dst.len() {
        src.len()
    } else {
        dst.len()
    };
    let ghost before = dst.data();
    let ghost path = dst.path@;
    let ghost rows = scalar_rows(*row_type, *src, n as nat);
    let ghost expected = row_type.decoded_as(*src, dst.rows@.len() as nat, optional);
    let mut i: usize = 0;
    assert(rows.take(0) =~= Seq::empty());
    assert(dst.data() =~= written(before, path, Seq::empty()));
    while i < n
        invariant
            i <= n,
            expected == collect(rows),
            expected == row_type.decoded_as(*src, old(dst).rows@.len() as nat, optional),
            path == old(dst).path@,
            before.len() == old(dst).rows@.len(),
            n <= src.rows(),
            n <= before.len(),
            src.wf(),
            row_type.reads(src.values),
            dst.path@ == path,
            dst.rows@.len() == before.len(),
            rows == scalar_rows(*row_type, *src, n as nat),
            slots_ready(before, path, n as nat),
            collect(rows.take(i as int)) matches Ok(done) && dst.data() == written(
                before,
                path,
                done,
            ),
        decreases n - i,
    {
        let ghost done = collect(rows.take(i as int))->Ok_0;
        proof {
            lemma_collect_len(rows.take(i as int));
            assert(rows.take(i + 1).drop_last() =~= rows.take(i as int));
            assert(rows.take(i + 1).last() == scalar_row(*row_type, *src, i as int));
        }
        let value = if src.is_present(i) {
            match row_type.convert(src, i) {
                Ok(value) => value,
                Err(error) => {
                    proof {
                        lemma_collect_fault(rows, i + 1);
                    }
                    return Err(error);
                },
            }
        } else {
            Value::Null
        };
        assert(dst.data()[i as int] == before[i as int]);
        dst.put(i, value);
        assert(dst.data() =~= written(before, path, done.push(value.model())));
        i += 1;
    }
    proof {
        assert(rows.take(n as int) =~= rows);
        lemma_collect_len(rows);
    }
    Ok(n)
}

impl RowType {
    /// Decodes a column into a destination, for this shape or, with
    /// `optional`, for the optional of this shape.
    pub fn read_as(&self, src: &ColumnArray, dst: &mut DeserializationTarget, optional: bool) -> (r:
        Result<usize, DeserializationError>)
        requires
            src.wf(),
            self.same_arity(*src),
            old(dst).ready(least(src.rows(), old(dst).rows@.len() as nat)),
        ensures
            decode_outcome(
                r,
                *old(dst),
                *final(dst),
                self.decoded_as(*src, old(dst).rows@.len() as nat, optional),
            ),
            !(self is Optional) ==> untouched_on_nulls(*src, optional, *old(dst), *final(dst)),
        decreases src, self, 2nat,
    {
        match self {
            RowType::Optional(inner) => inner.read_as(src, dst, true),
            RowType::List(_) => crate::lists::read_list(self, src, dst, optional),
            RowType::Struct(_) => crate::records::read_record(self, src, dst, optional),
            _ => match &src.values {
                ColumnValues::Dictionary { .. } => crate::dictionaries::read_dictionary(
                    self,
                    src,
                    dst,
                    optional,
                ),
                _ => read_rows(self, src, dst, optional),
            },
        }
    }

    /// Decodes a column into a destination and returns the number of rows
    /// written.
    ///
    /// The destination is never resized.  Where it has more rows than the
    /// column, the rows at the end are left unchanged.  Where it has fewer,
    /// a column of scalars is decoded as far as there is room, and a column
    /// of lists or of structs is refused.
    ///
    /// [`check_datatype`](RowType::check_datatype) should be called on the
    /// type of the column before this function.
    pub fn read_from_array(&self, src: &ColumnArray, dst: &mut DeserializationTarget) -> (r: Result<
        usize,
        DeserializationError,
    >)
        requires
            src.wf(),
            self.same_arity(*src),
            old(dst).ready(least(src.rows(), old(dst).rows@.len() as nat)),
        ensures
            decode_outcome(
                r,
                *old(dst),
                *final(dst),
                self.decoded(*src, old(dst).rows@.len() as nat),
            ),
            !(self is Optional) ==> untouched_on_nulls(*src, false, *old(dst), *final(dst)),
    {
        self.read_as(src, dst, false)
    }

    /// Decodes a column into a destination of optional values of this
    /// shape: an absent row is decoded to no value.
    pub fn read_options_from_array(&self, src: &ColumnArray, dst: &mut DeserializationTarget) -> (r:
        Result<usize, DeserializationError>)
        requires
            src.wf(),
            self.same_arity(*src),
            old(dst).ready(least(src.rows(), old(dst).rows@.len() as nat)),
        ensures
            decode_outcome(
                r,
                *old(dst),
                *final(dst),
                self.decoded_as(*src, old(dst).rows@.len() as nat, true),
            ),
    {
        self.read_as(src, dst, true)
    }

    /// Decodes a column and returns its rows.
    ///
    /// This allocates a buffer of as many default values as the column has
    /// rows, decodes into it and returns it.
    pub fn from_array(&self, array: &ColumnArray) -> (r: Result<Vec<Value>, DeserializationError>)
        requires
            array.wf(),
            self.same_arity(*array),
        ensures
            match self.decoded(*array, array.rows()) {
                Ok(rows) => r matches Ok(values) && crate::value::models(values@) == rows,
                Err(fault) => r matches Err(error) && error.reports(fault),
            },
        decreases array, self, 3nat,
    {
        let num_elements = array.len();
        let mut values = DeserializationTarget::with_defaults(self, num_elements);
        proof {
            lemma_decoded_len(*self, *array, num_elements as nat, false);
        }
        match self.read_as(array, &mut values, false) {
            Err(error) => Err(error),
            Ok(_) => {
                proof {
                    let rows = self.decoded(*array, array.rows())->Ok_0;
                    lemma_written_whole(
                        Seq::new(num_elements as nat, |i: int| self.default_datum()),
                        rows,
                    );
                }
                Ok(values.into_rows())
            },
        }
    }
}

impl RowType {
    /// Checks that the shape and the column agree on the number of fields
    /// wherever a record meets a struct column.
    #[verifier::loop_isolation(false)]
    pub fn has_same_arity(&self, src: &ColumnArray) -> (r: bool)
        ensures
            r == self.same_arity(*src),
        decreases src, self,
    {
        match self {
            RowType::Optional(inner) => inner.has_same_arity(src),
            RowType::List(inner) => match &src.values {
                ColumnValues::List { child, .. } => inner.has_same_arity(child),
                _ => true,
            },
            RowType::Struct(shape) => match &src.values {
                ColumnValues::Struct { fields, .. } => {
                    if fields.len() != shape.fields.len() {
                        return false;
                    }
                    let mut k: usize = 0;
                    while k < fields.len()
                        invariant
                            k <= fields.len(),
                            fields.len() == shape.fields.len(),
                            decreases_to!(*src => *fields),
                            forall|j: int|
                                0 <= j < k ==> (#[trigger] shape.fields@[j]).row_type.same_arity(
                                    fields@[j].column,
                                ),
                        decreases fields.len() - k,
                    {
                        proof {
                            broadcast use vstd::std_specs::vec::axiom_vec_index_decreases;
                            assert(decreases_to!(*fields => fields[k as int]));
                            assert(decreases_to!(fields[k as int] => fields[k as int].column));
                        }
                        if !shape.fields[k].row_type.has_same_arity(&fields[k].column) {
                            assert(!shape.fields@[k as int].row_type.same_arity(
                                fields@[k as int].column,
                            ));
                            return false;
                        }
                        k += 1;
                    }
                    true
                },
                _ => true,
            },
            _ => true,
        }
    }

    /// Decodes the rows of a batch into a destination: the batch is taken
    /// as the struct column of its columns.
    pub fn read_from_record_batch(&self, src: RecordBatch, dst: &mut DeserializationTarget) -> (r:
        Result<usize, DeserializationError>)
        requires
            src.wf(),
            self.same_arity(src.array),
            old(dst).ready(least(src.array.rows(), old(dst).rows@.len() as nat)),
        ensures
            decode_outcome(
                r,
                *old(dst),
                *final(dst),
                self.decoded(src.array, old(dst).rows@.len() as nat),
            ),
    {
        let array = src.into_struct_array();
        self.read_from_array(&array, dst)
    }

    /// Decodes the rows of a batch and returns them.
    pub fn from_record_batch(&self, record_batch: RecordBatch) -> (r: Result<
        Vec<Value>,
        DeserializationError,
    >)
        requires
            record_batch.wf(),
            self.same_arity(record_batch.array),
        ensures
            match self.decoded(record_batch.array, record_batch.array.rows()) {
                Ok(rows) => r matches Ok(values) && crate::value::models(values@) == rows,
                Err(fault) => r matches Err(error) && error.reports(fault),
            },
    {
        let array = record_batch.into_struct_array();
        self.from_array(&array)
    }
}

} // verus!
