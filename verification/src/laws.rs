//! What holds of decoding, whatever the column.
use vstd::prelude::*;
use crate::array::{ColumnArray, ColumnValues, StructField};
use crate::array_iterators::{
    bits_of, interleaved, lemma_interleaved_row, lemma_rank_in_range, present_count, rank,
};
use crate::datatypes::{DataType, Field};
use crate::deserialize::{
    collect, decoded_fields, dictionary_row, dictionary_rows, least, lemma_collect_fault,
    lemma_collect_len, lemma_collect_values, lemma_decoded_len, list_rows, record_rows,
    scalar_row, scalar_rows, Fault,
};
use crate::typecheck::{any_same, fields_check};
use crate::value::{Datum, RecordField, RowType};

verus! {

/// The value that a column of scalars holds at row `i`, as it is stored.
pub open spec fn cell(values: ColumnValues, i: int) -> Datum {
    match values {
        ColumnValues::Boolean(v) => Datum::Boolean(v@[i]),
        ColumnValues::Int8(v) => Datum::Int8(v@[i]),
        ColumnValues::Int16(v) => Datum::Int16(v@[i]),
        ColumnValues::Int32(v) => Datum::Int32(v@[i]),
        ColumnValues::Int64(v) => Datum::Int64(v@[i]),
        ColumnValues::UInt8(v) => Datum::UInt8(v@[i]),
        ColumnValues::UInt16(v) => Datum::UInt16(v@[i]),
        ColumnValues::UInt32(v) => Datum::UInt32(v@[i]),
        ColumnValues::UInt64(v) => Datum::UInt64(v@[i]),
        ColumnValues::Float32(v) => Datum::Float32(v@[i]),
        ColumnValues::Float64(v) => Datum::Float64(v@[i]),
        ColumnValues::Date32(v) => Datum::Int32(v@[i]),
        ColumnValues::Utf8 { values, .. } => Datum::String(values@[i]@),
        ColumnValues::Binary { values, .. } => Datum::Binary(values@[i]@),
        ColumnValues::FixedSizeBinary { values, .. } => Datum::FixedSizeBinary(values@[i]@),
        ColumnValues::Decimal128 { values, .. } => Datum::Decimal128(values@[i] as int),
        ColumnValues::Timestamp { values, .. } => Datum::Int64(values@[i]),
        _ => Datum::Null,
    }
}

/// Whether two columns of scalars store values of the same kind, counted
/// in the same unit or scaled alike.
pub open spec fn same_kind(a: ColumnValues, b: ColumnValues) -> bool {
    match (a, b) {
        (ColumnValues::Boolean(_), ColumnValues::Boolean(_)) => true,
        (ColumnValues::Int8(_), ColumnValues::Int8(_)) => true,
        (ColumnValues::Int16(_), ColumnValues::Int16(_)) => true,
        (ColumnValues::Int32(_), ColumnValues::Int32(_)) => true,
        (ColumnValues::Int64(_), ColumnValues::Int64(_)) => true,
        (ColumnValues::UInt8(_), ColumnValues::UInt8(_)) => true,
        (ColumnValues::UInt16(_), ColumnValues::UInt16(_)) => true,
        (ColumnValues::UInt32(_), ColumnValues::UInt32(_)) => true,
        (ColumnValues::UInt64(_), ColumnValues::UInt64(_)) => true,
        (ColumnValues::Float32(_), ColumnValues::Float32(_)) => true,
        (ColumnValues::Float64(_), ColumnValues::Float64(_)) => true,
        (ColumnValues::Date32(_), ColumnValues::Date32(_)) => true,
        (ColumnValues::Utf8 { .. }, ColumnValues::Utf8 { .. }) => true,
        (ColumnValues::Binary { .. }, ColumnValues::Binary { .. }) => true,
        (ColumnValues::FixedSizeBinary { .. }, ColumnValues::FixedSizeBinary { .. }) => true,
        (
            ColumnValues::Decimal128 { precision: p, scale: s, .. },
            ColumnValues::Decimal128 { precision: q, scale: t, .. },
        ) => p == q && s == t,
        (
            ColumnValues::Timestamp { unit: u, .. },
            ColumnValues::Timestamp { unit: v, .. },
        ) => u == v,
        _ => false,
    }
}

/// The keys of a dictionary-encoded column.
pub open spec fn keys_of(src: ColumnArray) -> Seq<usize> {
    match src.values {
        ColumnValues::Dictionary { keys, .. } => keys@,
        _ => Seq::empty(),
    }
}

/// The dictionary of a dictionary-encoded column: the column of its
/// values.
pub open spec fn dictionary_of(src: ColumnArray) -> ColumnArray {
    match src.values {
        ColumnValues::Dictionary { values, .. } => *values,
        _ => src,
    }
}

impl RowType {
    /// Whether the shape is a primitive: a boolean, a number, text or a
    /// byte string.
    pub open spec fn is_primitive(self) -> bool {
        match self {
            RowType::Boolean => true,
            RowType::Int8 => true,
            RowType::Int16 => true,
            RowType::Int32 => true,
            RowType::Int64 => true,
            RowType::UInt8 => true,
            RowType::UInt16 => true,
            RowType::UInt32 => true,
            RowType::UInt64 => true,
            RowType::Float32 => true,
            RowType::Float64 => true,
            RowType::String => true,
            RowType::Binary => true,
            _ => false,
        }
    }

    /// Whether the shape is decoded from columns of this physical kind.
    pub open spec fn casts(self, values: ColumnValues) -> bool {
        match self {
            RowType::Optional(_) => false,
            RowType::List(_) => values is List,
            RowType::Struct(_) => values is Struct,
            _ => values is Dictionary || self.reads(values),
        }
    }
}

/// Rows that each have a value collect to these values.
pub proof fn lemma_collect_all(rows: Seq<Result<Datum, Fault>>, values: Seq<Datum>)
    requires
        rows.len() == values.len(),
        forall|i: int| 0 <= i < rows.len() ==> #[trigger] rows[i] == Ok::<Datum, Fault>(values[i]),
    ensures
        collect(rows) == Ok::<Seq<Datum>, Fault>(values),
    decreases rows.len(),
{
    if rows.len() > 0 {
        lemma_collect_all(rows.drop_last(), values.drop_last());
        assert(values.drop_last().push(values.last()) =~= values);
    } else {
        assert(values =~= Seq::empty());
    }
}

/// Decoding a column of primitives without nulls gives back every value
/// unchanged: row for row what the column stores.
pub proof fn primitive_columns_round_trip(row_type: RowType, src: ColumnArray, room: nat)
    requires
        row_type.is_primitive(),
        row_type.reads(src.values),
        src.nulls is None,
    ensures
        row_type.decoded(src, room) == Ok::<Seq<Datum>, Fault>(
            Seq::new(least(src.rows(), room), |i: int| cell(src.values, i)),
        ),
{
    let n = least(src.rows(), room);
    lemma_collect_all(scalar_rows(row_type, src, n), Seq::new(n, |i: int| cell(src.values, i)));
}

/// What a scalar shape decodes from a row is a value.
pub proof fn lemma_converted_is_value(row_type: RowType, src: ColumnArray, i: int)
    requires
        row_type.is_scalar(),
        row_type.reads(src.values),
    ensures
        row_type.converted(src, i) matches Ok(datum) ==> !(datum is Null),
{
}

/// Among decoded rows, the rows without a value are the absent rows of the
/// column.
pub proof fn absent_rows_decode_to_no_value(
    row_type: RowType,
    src: ColumnArray,
    room: nat,
    optional: bool,
)
    requires
        !(row_type is Optional),
    ensures
        row_type.decoded_as(src, room, optional) matches Ok(rows) ==> forall|i: int|
            0 <= i < rows.len() ==> ((#[trigger] rows[i]) is Null <==> !src.present(i)),
    decreases src,
{
    match row_type {
        RowType::List(_) => {},
        RowType::Struct(_) => {},
        _ => {
            let n = least(src.rows(), room);
            match src.values {
                ColumnValues::Dictionary { values, .. } => {
                    absent_rows_decode_to_no_value(row_type, *values, values.rows(), false);
                    match row_type.decoded_as(*values, values.rows(), false) {
                        Ok(items) => {
                            lemma_collect_values(dictionary_rows(items, src, n));
                            lemma_collect_len(dictionary_rows(items, src, n));
                        },
                        Err(_) => {},
                    }
                },
                _ => {
                    lemma_collect_values(scalar_rows(row_type, src, n));
                    lemma_collect_len(scalar_rows(row_type, src, n));
                    if row_type.decoded_as(src, room, optional) is Ok {
                        assert forall|i: int| 0 <= i < n implies (
                        (#[trigger] scalar_row(row_type, src, i)) matches Ok(datum) ==> (datum is Null
                            <==> !src.present(i))) by {
                            lemma_converted_is_value(row_type, src, i);
                        }
                    }
                },
            }
        },
    }
}

/// A column with a null bitmap decodes, into an optional shape, to no
/// value at its absent rows and, at every other row, to what the same
/// column without its bitmap decodes to at that row.
pub proof fn present_rows_decode_as_without_nulls(
    row_type: RowType,
    src: ColumnArray,
    bare: ColumnArray,
    room: nat,
)
    requires
        !(row_type is Optional),
        bare.values == src.values,
        bare.nulls is None,
    ensures
        row_type.decoded(bare, room) matches Ok(base) ==> row_type.decoded_as(src, room, true)
            == Ok::<Seq<Datum>, Fault>(
            Seq::new(
                base.len(),
                |i: int|
                    if src.present(i) {
                        base[i]
                    } else {
                        Datum::Null
                    },
            ),
        ),
{
    match row_type.decoded(bare, room) {
        Err(_) => {},
        Ok(base) => {
            let expected = Seq::new(
                base.len(),
                |i: int|
                    if src.present(i) {
                        base[i]
                    } else {
                        Datum::Null
                    },
            );
            lemma_decoded_len(row_type, bare, room, false);
            assert(bare.rows() == src.rows());
            let n = least(src.rows(), room);
            match row_type {
                RowType::List(inner) => {
                    match src.values {
                        ColumnValues::List { child, .. } => {
                            let items = inner.decoded_as(*child, child.rows(), false)->Ok_0;
                            assert(list_rows(items, src) =~= expected);
                        },
                        _ => {},
                    }
                },
                RowType::Struct(shape) => {
                    match src.values {
                        ColumnValues::Struct { fields, .. } => {
                            let columns = decoded_fields(
                                shape.fields@,
                                fields@,
                                room,
                                shape.fields@.len(),
                            )->Ok_0;
                            assert(record_rows(columns, src) =~= expected);
                        },
                        _ => {},
                    }
                },
                _ => {
                    match src.values {
                        ColumnValues::Dictionary { values, .. } => {
                            let items = row_type.decoded_as(*values, values.rows(), false)->Ok_0;
                            lemma_collect_values(dictionary_rows(items, bare, n));
                            lemma_collect_all(dictionary_rows(items, src, n), expected);
                        },
                        _ => {
                            lemma_collect_values(scalar_rows(row_type, bare, n));
                            lemma_collect_all(scalar_rows(row_type, src, n), expected);
                        },
                    }
                },
            }
        },
    }
}

/// A decoded row as an optional value: none for no value.
pub open spec fn as_option(datum: Datum) -> Option<Datum> {
    if datum is Null {
        None
    } else {
        Some(datum)
    }
}

/// A column of scalars with a null bitmap decodes, into an optional shape,
/// to the rows of the same column with its nulls removed, spread over the
/// present rows, with no value at each absent row.
///
/// `dense` is the column with the nulls removed: it stores the values of
/// the present rows of `src`, in their order, and nothing else.
pub proof fn nulls_interleave_the_rows_without_nulls(
    row_type: RowType,
    src: ColumnArray,
    dense: ColumnArray,
)
    requires
        row_type.is_scalar(),
        row_type.reads(src.values),
        src.nulls is Some,
        bits_of(src.nulls)->Some_0.len() == src.rows(),
        dense.nulls is None,
        same_kind(src.values, dense.values),
        dense.rows() == present_count(bits_of(src.nulls)->Some_0),
        forall|i: int|
            0 <= i < src.rows() && src.present(i) ==> cell(src.values, i) == cell(
                dense.values,
                #[trigger] rank(bits_of(src.nulls)->Some_0, i) as int,
            ),
    ensures
        row_type.decoded(dense, dense.rows()) matches Ok(kept) ==> {
            &&& row_type.decoded_as(src, src.rows(), true) matches Ok(rows)
            &&& rows.len() == src.rows()
            &&& forall|i: int|
                0 <= i < rows.len() ==> as_option(#[trigger] rows[i]) == interleaved(
                    kept,
                    bits_of(src.nulls),
                )[i]
        },
{
    let bits = bits_of(src.nulls)->Some_0;
    match row_type.decoded(dense, dense.rows()) {
        Err(_) => {},
        Ok(kept) => {
            lemma_kind_decides_reads(row_type, src.values, dense.values);
            let n = src.rows();
            assert(least(n, n) == n);
            assert(least(dense.rows(), dense.rows()) == dense.rows());
            lemma_collect_values(scalar_rows(row_type, dense, dense.rows()));
            lemma_collect_len(scalar_rows(row_type, dense, dense.rows()));
            let rows = Seq::new(
                n,
                |i: int|
                    if bits[i] {
                        kept[rank(bits, i) as int]
                    } else {
                        Datum::Null
                    },
            );
            assert forall|i: int| 0 <= i < n implies (#[trigger] scalar_rows(row_type, src, n)[i])
                == Ok::<Datum, Fault>(rows[i]) by {
                if bits[i] {
                    let r = rank(bits, i) as int;
                    lemma_rank_in_range(bits, i);
                    assert(scalar_rows(row_type, dense, dense.rows())[r] == scalar_row(
                        row_type,
                        dense,
                        r,
                    ));
                    lemma_same_cell_converts_alike(row_type, src, i, dense, r);
                }
            }
            lemma_collect_all(scalar_rows(row_type, src, n), rows);
            assert forall|i: int| 0 <= i < n implies as_option(#[trigger] rows[i]) == interleaved(
                kept,
                bits_of(src.nulls),
            )[i] by {
                lemma_interleaved_row(kept, bits, i);
                if bits[i] {
                    let r = rank(bits, i) as int;
                    lemma_rank_in_range(bits, i);
                    assert(scalar_rows(row_type, dense, dense.rows())[r] == scalar_row(
                        row_type,
                        dense,
                        r,
                    ));
                    lemma_converted_is_value(row_type, dense, r);
                }
            }
        },
    }
}

/// Decoding a column that carries nulls into a shape that is not optional
/// fails with `UnexpectedNull`, whatever the column holds, where the shape
/// is decoded from columns of that physical kind at all.
pub proof fn nulls_fail_shapes_that_are_not_optional(
    row_type: RowType,
    src: ColumnArray,
    room: nat,
)
    requires
        row_type.casts(src.values),
        src.nulls is Some,
    ensures
        row_type.decoded(src, room) == Err::<Seq<Datum>, Fault>(
            Fault::UnexpectedNull(row_type.null_text()),
        ),
{
}

/// Rows that store the same value in columns of the same kind decode
/// alike.
pub proof fn lemma_same_cell_converts_alike(
    row_type: RowType,
    a: ColumnArray,
    i: int,
    b: ColumnArray,
    j: int,
)
    requires
        same_kind(a.values, b.values),
        cell(a.values, i) == cell(b.values, j),
    ensures
        row_type.reads(a.values) == row_type.reads(b.values),
        row_type.converted(a, i) == row_type.converted(b, j),
{
}

/// A dictionary-encoded column decodes to what a plain column of the same
/// values decodes to, for optional shapes and for shapes that are not.
///
/// The dictionary holds values of a kind that the shape reads, without
/// nulls, each of which can be decoded.  The plain column has the rows and
/// the null bitmap of the encoded one, and stores at each present row the
/// value that the dictionary stores under the row's key.
pub proof fn dictionary_decodes_as_plain(
    row_type: RowType,
    encoded: ColumnArray,
    plain: ColumnArray,
    room: nat,
    optional: bool,
)
    requires
        row_type.is_scalar(),
        encoded.values is Dictionary,
        row_type.reads(dictionary_of(encoded).values),
        dictionary_of(encoded).nulls is None,
        row_type.decoded(dictionary_of(encoded), dictionary_of(encoded).rows()) is Ok,
        same_kind(dictionary_of(encoded).values, plain.values),
        bits_of(encoded.nulls) == bits_of(plain.nulls),
        encoded.rows() == plain.rows(),
        forall|i: int|
            0 <= i < encoded.rows() && encoded.present(i) ==> {
                &&& (#[trigger] keys_of(encoded)[i]) < dictionary_of(encoded).rows()
                &&& cell(dictionary_of(encoded).values, keys_of(encoded)[i] as int) == cell(
                    plain.values,
                    i,
                )
            },
    ensures
        row_type.decoded_as(encoded, room, optional) == row_type.decoded_as(plain, room, optional),
{
    let dictionary = dictionary_of(encoded);
    let keys = keys_of(encoded);
    let items = row_type.decoded(dictionary, dictionary.rows())->Ok_0;
    let n = least(encoded.rows(), room);
    assert(row_type.reads(plain.values)) by {
        lemma_kind_decides_reads(row_type, dictionary.values, plain.values);
    }
    assert(!(plain.values is Dictionary));
    if !optional && encoded.nulls is Some {
    } else {
        lemma_collect_values(scalar_rows(row_type, dictionary, dictionary.rows()));
        lemma_collect_len(scalar_rows(row_type, dictionary, dictionary.rows()));
        assert forall|i: int| 0 <= i < n implies dictionary_row(items, encoded, i) == scalar_row(
            row_type,
            plain,
            i,
        ) by {
            assert(encoded.present(i) == plain.present(i));
            if encoded.present(i) {
                let key = keys[i] as int;
                assert(scalar_rows(row_type, dictionary, dictionary.rows())[key] == scalar_row(
                    row_type,
                    dictionary,
                    key,
                ));
                lemma_same_cell_converts_alike(row_type, dictionary, key, plain, i);
            }
        }
        assert(dictionary_rows(items, encoded, n) =~= scalar_rows(row_type, plain, n));
    }
}

/// Whether a shape reads a column depends on the kind of the column
/// alone.
pub proof fn lemma_kind_decides_reads(row_type: RowType, a: ColumnValues, b: ColumnValues)
    requires
        same_kind(a, b),
    ensures
        row_type.reads(a) == row_type.reads(b),
{
}

/// A key that is not smaller than the number of decoded dictionary values
/// fails the decoding with `DictionaryOverflow`: the fault names the first
/// such key among the present rows that the destination has room for, the
/// number of values, and the column.
pub proof fn key_out_of_range_fails(
    row_type: RowType,
    src: ColumnArray,
    room: nat,
    optional: bool,
    i: int,
)
    requires
        row_type.is_scalar(),
        src.values is Dictionary,
        optional || src.nulls is None,
        row_type.decoded(dictionary_of(src), dictionary_of(src).rows()) is Ok,
        0 <= i < least(src.rows(), room),
        src.present(i),
        keys_of(src)[i] >= row_type.decoded(
            dictionary_of(src),
            dictionary_of(src).rows(),
        )->Ok_0.len(),
        forall|j: int|
            0 <= j < i && src.present(j) ==> (#[trigger] keys_of(src)[j]) < row_type.decoded(
                dictionary_of(src),
                dictionary_of(src).rows(),
            )->Ok_0.len(),
    ensures
        row_type.decoded_as(src, room, optional) == Err::<Seq<Datum>, Fault>(
            Fault::DictionaryOverflow {
                key: keys_of(src)[i] as nat,
                len: row_type.decoded(dictionary_of(src), dictionary_of(src).rows())->Ok_0.len(),
                column: src,
            },
        ),
{
    let items = row_type.decoded(dictionary_of(src), dictionary_of(src).rows())->Ok_0;
    let n = least(src.rows(), room);
    let rows = dictionary_rows(items, src, n);
    let first = Seq::new(
        i as nat,
        |j: int|
            if src.present(j) {
                items[keys_of(src)[j] as int]
            } else {
                Datum::Null
            },
    );
    lemma_collect_all(rows.take(i), first);
    assert(rows.take(i + 1).drop_last() =~= rows.take(i));
    assert(rows.take(i + 1).last() == dictionary_row(items, src, i));
    lemma_collect_fault(rows, i + 1);
}

impl Fault {
    /// Whether the fault lies in what a column holds, and not in its type:
    /// a null, more rows than there is room for, or a timestamp out of
    /// range.
    pub open spec fn is_of_content(self) -> bool {
        self is UnexpectedNull || self is MismatchedLength || self is TimestampOverflow
    }
}

/// A fault of collected rows is the fault of one of the rows.
pub proof fn lemma_collect_fault_origin(rows: Seq<Result<Datum, Fault>>)
    ensures
        collect(rows) matches Err(fault) ==> exists|i: int|
            0 <= i < rows.len() && #[trigger] rows[i] == Err::<Datum, Fault>(fault),
    decreases rows.len(),
{
    if rows.len() > 0 {
        lemma_collect_fault_origin(rows.drop_last());
        match collect(rows.drop_last()) {
            Err(fault) => {
                let i = choose|i: int|
                    0 <= i < rows.drop_last().len() && #[trigger] rows.drop_last()[i] == Err::<
                        Datum,
                        Fault,
                    >(fault);
                assert(rows[i] == Err::<Datum, Fault>(fault));
            },
            Ok(_) => {
                assert(rows[rows.len() - 1] == rows.last());
            },
        }
    }
}

/// Fields that pass the check are each in their place in the struct type,
/// with a type that passes the check of the field.
pub proof fn lemma_checked_fields(
    fields: Seq<RecordField>,
    actual: Seq<Field>,
    n: nat,
    sep: Seq<char>,
    k: int,
)
    requires
        n <= fields.len(),
        fields_check(fields, actual, n, sep) is None,
        0 <= k < n,
    ensures
        k < actual.len(),
        fields[k].row_type.check_text(actual[k].data_type, sep + "\t"@) is None,
    decreases n,
{
    if k < n - 1 {
        lemma_checked_fields(fields, actual, (n - 1) as nat, sep, k);
    }
}

/// The first child columns of a checked struct column are decoded, or
/// fail for what they hold.
pub proof fn lemma_checked_fields_decode(
    fields: Seq<RecordField>,
    columns: Seq<StructField>,
    actual: Seq<Field>,
    sep: Seq<char>,
    room: nat,
    n: nat,
)
    requires
        n <= fields.len(),
        columns.len() == actual.len(),
        fields_check(fields, actual, fields.len(), sep) is None,
        forall|k: int|
            0 <= k < columns.len() ==> (#[trigger] columns[k]).column.wf()
                && columns[k].column.has_type(actual[k].data_type),
    ensures
        decoded_fields(fields, columns, room, n) matches Err(fault) ==> fault.is_of_content(),
    decreases columns, fields, n,
{
    if n > 0 {
        lemma_checked_fields(fields, actual, fields.len(), sep, n - 1);
        lemma_checked_fields_decode(fields, columns, actual, sep, room, (n - 1) as nat);
        checked_columns_fail_only_for_their_content(
            fields[n - 1].row_type,
            columns[n - 1].column,
            actual[n - 1].data_type,
            sep + "\t"@,
            room,
            false,
        );
    }
}

/// A well-formed column whose type passes the check of a shape is decoded
/// into the shape, or fails for what it holds: for a null where the shape
/// is not optional, for more rows than there is room for, or for a
/// timestamp out of range.  It never fails for its type.
pub proof fn checked_columns_fail_only_for_their_content(
    row_type: RowType,
    src: ColumnArray,
    data_type: DataType,
    sep: Seq<char>,
    room: nat,
    optional: bool,
)
    requires
        row_type.check_text(data_type, sep) is None,
        src.has_type(data_type),
        src.wf(),
    ensures
        row_type.decoded_as(src, room, optional) matches Err(fault) ==> fault.is_of_content(),
    decreases src, row_type, 0nat,
{
    match row_type {
        RowType::Optional(inner) => {
            checked_columns_fail_only_for_their_content(*inner, src, data_type, sep, room, true);
        },
        RowType::List(inner) => {
            match (src.values, data_type) {
                (ColumnValues::List { child, .. }, DataType::List(item)) => {
                    checked_columns_fail_only_for_their_content(
                        *inner,
                        *child,
                        *item,
                        sep,
                        child.rows(),
                        false,
                    );
                },
                _ => {},
            }
        },
        RowType::Struct(shape) => {
            match (src.values, data_type) {
                (ColumnValues::Struct { fields, .. }, DataType::Struct(actual)) => {
                    lemma_checked_fields_decode(
                        shape.fields@,
                        fields@,
                        actual@,
                        sep,
                        room,
                        shape.fields@.len(),
                    );
                },
                _ => {},
            }
        },
        _ => {
            let n = least(src.rows(), room);
            if row_type is FixedSizeBinary || row_type is Decimal128 {
            } else {
                let i = choose|i: int|
                    0 <= i < row_type.expected().len() && (#[trigger] row_type.expected()[i]).same(
                        data_type,
                    );
                assert(row_type.expected()[i].same(data_type));
            }
            assert(row_type.reads(src.values));
            lemma_collect_fault_origin(scalar_rows(row_type, src, n));
        },
    }
}

} // verus!
