//! Decoding struct columns into records.
use vstd::prelude::*;
use crate::array::{fields_aligned, ColumnArray, ColumnValues, StructField};
use crate::deserialize::{
    decode_outcome, decoded_fields, least, lemma_decoded_len, record_at, record_rows,
    untouched_on_nulls, DeserializationError, Fault,
};
use crate::target::{
    has_slot, lemma_field_slot, lemma_put_field, lemma_put_then_get, lemma_put_twice, put_at,
    slots_ready, written, DeserializationTarget,
};
use crate::value::{default_data, Datum, RecordField, RowType, Value};

verus! {

/// The record of row `i` while it is being decoded: the fields that have
/// been decoded hold their values, the others their default.
pub open spec fn partial_record(columns: Seq<Seq<Datum>>, defaults: Seq<Datum>, i: int) -> Datum {
    Datum::Struct(
        Seq::new(
            defaults.len(),
            |k: int|
                if k < columns.len() {
                    columns[k][i]
                } else {
                    defaults[k]
                },
        ),
    )
}

/// The first `n` records while they are being decoded.
pub open spec fn partial_records(columns: Seq<Seq<Datum>>, defaults: Seq<Datum>, n: nat) -> Seq<
    Datum,
> {
    Seq::new(n, |i: int| partial_record(columns, defaults, i))
}

/// The records of a struct column after the absent rows before `upto` have
/// been marked as holding no value.
pub open spec fn masked_records(columns: Seq<Seq<Datum>>, src: ColumnArray, upto: int) -> Seq<
    Datum,
> {
    Seq::new(
        src.rows(),
        |i: int|
            if i < upto && !src.present(i) {
                Datum::Null
            } else {
                record_at(columns, i)
            },
    )
}

/// A fault among the first child columns is the fault of them all.
pub proof fn lemma_decoded_fields_fault(
    fields: Seq<RecordField>,
    columns: Seq<StructField>,
    room: nat,
    k: nat,
    n: nat,
)
    requires
        k <= n,
        n <= fields.len(),
        n <= columns.len(),
        decoded_fields(fields, columns, room, k) is Err,
    ensures
        decoded_fields(fields, columns, room, n) == decoded_fields(fields, columns, room, k),
    decreases n,
{
    if k < n {
        lemma_decoded_fields_fault(fields, columns, room, k, (n - 1) as nat);
    }
}

/// Decodes a struct column into records.
///
/// The column must be a struct column, without nulls unless absent rows
/// are accepted, and with room for each of its rows in the destination.
/// Every row of the destination that will be written is
/// first set to the default record, so that each field can be written at
/// its place.  The child columns are then decoded in order, each through
/// the projection of the destination to its field.  At last, for an
/// optional shape, the absent rows are set to no value.
pub fn read_record(
    row_type: &RowType,
    src: &ColumnArray,
    dst: &mut DeserializationTarget,
    optional: bool,
) -> (r: Result<usize, DeserializationError>)
    requires
        row_type is Struct,
        src.wf(),
        row_type.same_arity(*src),
        old(dst).ready(least(src.rows(), old(dst).rows@.len() as nat)),
    ensures
        decode_outcome(
            r,
            *old(dst),
            *final(dst),
            row_type.decoded_as(*src, old(dst).rows@.len() as nat, optional),
        ),
        untouched_on_nulls(*src, optional, *old(dst), *final(dst)),
    decreases src, row_type, 1nat,
{
    let shape = match row_type {
        RowType::Struct(shape) => shape,
        _ => {
            return Err(row_type.mismatch_error(src.values.kind()));
        },
    };
    let fields = match &src.values {
        ColumnValues::Struct { fields, .. } => fields,
        _ => {
            return Err(row_type.mismatch_error(src.values.kind()));
        },
    };
    if !optional && src.has_nulls() {
        return Err(row_type.null_error());
    }
    let n = src.len();
    if n > dst.len() {
        return Err(DeserializationError::MismatchedLength { src: n, dst: dst.len() });
    }
    let ghost before = dst.data();
    let ghost path = dst.path@;
    let ghost room = dst.rows@.len() as nat;
    let ghost defaults = default_data(shape.fields@, shape.fields@.len());
    let ghost none = Seq::<Seq<Datum>>::empty();
    let ghost expected = row_type.decoded_as(*src, room, optional);
    assert(expected == match decoded_fields(shape.fields@, fields@, room, shape.fields@.len()) {
        Err(fault) => Err::<Seq<Datum>, Fault>(fault),
        Ok(decoded) => Ok(record_rows(decoded, *src)),
    });

    // Every row that will be written holds a record from here on.
    let mut i: usize = 0;
    assert(dst.data() =~= written(before, path, partial_records(none, defaults, 0)));
    while i < n
        invariant
            i <= n,
            n <= before.len(),
            *row_type == RowType::Struct(*shape),
            defaults == default_data(shape.fields@, shape.fields@.len()),
            none == Seq::<Seq<Datum>>::empty(),
            dst.path@ == path,
            dst.rows@.len() == before.len(),
            slots_ready(before, path, n as nat),
            dst.data() == written(before, path, partial_records(none, defaults, i as nat)),
        decreases n - i,
    {
        let record = row_type.default_value();
        assert(record.model() =~= partial_record(none, defaults, i as int)) by {
            assert(Seq::new(defaults.len(), |k: int| if k < none.len() { none[k][i as int] } else { defaults[k] }) =~= defaults);
        }
        assert(dst.data()[i as int] == before[i as int]);
        dst.put(i, record);
        assert(dst.data() =~= written(
            before,
            path,
            partial_records(none, defaults, (i + 1) as nat),
        ));
        i += 1;
    }

    // Each child column is decoded through the projection to its field.
    let ghost mut columns = Seq::<Seq<Datum>>::empty();
    let mut k: usize = 0;
    while k < shape.fields.len()
        invariant
            k <= shape.fields.len(),
            n == src.rows(),
            n <= before.len(),
            room == before.len(),
            src.wf(),
            *row_type == RowType::Struct(*shape),
            row_type.same_arity(*src),
            src.values matches ColumnValues::Struct { fields: f, .. } && f == *fields,
            decreases_to!(*src => *fields),
            src.nulls is Some ==> optional,
            expected == row_type.decoded_as(*src, old(dst).rows@.len() as nat, optional),
            path == old(dst).path@,
            before.len() == old(dst).rows@.len(),
            expected == match decoded_fields(shape.fields@, fields@, room, shape.fields@.len()) {
                Err(fault) => Err::<Seq<Datum>, Fault>(fault),
                Ok(decoded) => Ok(record_rows(decoded, *src)),
            },
            defaults == default_data(shape.fields@, shape.fields@.len()),
            dst.path@ == path,
            dst.rows@.len() == before.len(),
            slots_ready(before, path, n as nat),
            decoded_fields(shape.fields@, fields@, room, k as nat) == Ok::<Seq<Seq<Datum>>, Fault>(
                columns,
            ),
            columns.len() == k,
            forall|j: int| 0 <= j < k ==> (#[trigger] columns[j]).len() == n,
            dst.data() == written(before, path, partial_records(columns, defaults, n as nat)),
        decreases shape.fields.len() - k,
    {
        proof {
            broadcast use vstd::std_specs::vec::axiom_vec_index_decreases;
            assert(decreases_to!(*fields => fields[k as int]));
            assert(decreases_to!(fields[k as int] => fields[k as int].column));
        }
        let ghost mid = dst.data();
        let field = &shape.fields[k];
        let column = &fields[k].column;
        assert(fields@[k as int].column.wf() && fields@[k as int].column.rows() == n);
        assert(shape.fields@[k as int].row_type.same_arity(fields@[k as int].column));
        dst.map(k);
        assert forall|i: int| 0 <= i < n implies has_slot(
            #[trigger] dst.data()[i],
            path.push(k),
        ) by {
            let record = partial_record(columns, defaults, i);
            lemma_field_slot(before[i], path, record->Struct_0, k);
        }
        let result = field.row_type.read_as(column, dst, false);
        dst.unmap();
        assert(dst.path@ =~= path);
        match result {
            Err(error) => {
                proof {
                    lemma_decoded_fields_fault(
                        shape.fields@,
                        fields@,
                        room,
                        (k + 1) as nat,
                        shape.fields@.len(),
                    );
                }
                return Err(error);
            },
            Ok(_) => {},
        }
        proof {
            let decoded = field.row_type.decoded_as(*column, room, false)->Ok_0;
            lemma_decoded_len(field.row_type, *column, room, false);
            let next = columns.push(decoded);
            assert forall|i: int| 0 <= i < n implies put_at(mid[i], path.push(k), decoded[i])
                == put_at(before[i], path, partial_record(next, defaults, i)) by {
                let record = partial_record(columns, defaults, i);
                lemma_put_field(before[i], path, record->Struct_0, k, decoded[i]);
                assert(record->Struct_0.update(k as int, decoded[i]) =~= partial_record(
                    next,
                    defaults,
                    i,
                )->Struct_0);
            }
            assert(dst.data() =~= written(before, path, partial_records(next, defaults, n as nat)));
            columns = next;
        }
        k += 1;
    }

    assert(partial_records(columns, defaults, n as nat) =~= masked_records(columns, *src, 0)) by {
        assert forall|i: int| 0 <= i < n implies partial_record(columns, defaults, i)
            == record_at(columns, i) by {
            assert(partial_record(columns, defaults, i)->Struct_0 =~= record_at(
                columns,
                i,
            )->Struct_0);
        }
    }

    // The absent rows of an optional shape hold no value.
    if optional {
        let mut i: usize = 0;
        while i < n
            invariant
                i <= n,
                n == src.rows(),
                n <= before.len(),
                src.wf(),
                dst.path@ == path,
                dst.rows@.len() == before.len(),
                slots_ready(before, path, n as nat),
                dst.data() == written(before, path, masked_records(columns, *src, i as int)),
            decreases n - i,
        {
            if !src.is_present(i) {
                proof {
                    lemma_put_then_get(before[i as int], path, record_at(columns, i as int));
                    lemma_put_twice(
                        before[i as int],
                        path,
                        record_at(columns, i as int),
                        Datum::Null,
                    );
                }
                dst.put(i, Value::Null);
            }
            assert(dst.data() =~= written(before, path, masked_records(columns, *src, i + 1)));
            i += 1;
        }
        assert(masked_records(columns, *src, n as int) =~= record_rows(columns, *src));
    } else {
        assert(masked_records(columns, *src, 0) =~= record_rows(columns, *src));
    }
    Ok(n)
}

} // verus!
