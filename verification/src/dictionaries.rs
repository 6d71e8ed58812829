//! Decoding dictionary-encoded columns.
use vstd::prelude::*;
use crate::array::{ColumnArray, ColumnValues};
use crate::deserialize::{
    collect, decode_outcome, dictionary_decoded, dictionary_row, dictionary_rows, least,
    lemma_collect_fault, lemma_collect_len, untouched_on_nulls, DeserializationError, Fault,
};
use crate::target::{slots_ready, written, DeserializationTarget};
use crate::value::{models, Datum, RowType, Value};

verus! {

/// What a column decodes to as a dictionary-encoded column of `item`, for
/// a destination of `room` rows: a column that is not dictionary-encoded
/// is refused.
pub open spec fn dictionary_outcome(item: RowType, src: ColumnArray, room: nat, optional: bool)
    -> Result<Seq<Datum>, Fault> {
    match src.values {
        ColumnValues::Dictionary { values, .. } => dictionary_decoded(
            item,
            item.decoded(*values, values.rows()),
            src,
            room,
            optional,
        ),
        _ => Err(Fault::MismatchedColumnDataType(item.cast_text(src.values))),
    }
}

/// Whether the shape and the dictionary of the column agree on the number
/// of fields wherever a record meets a struct column.
pub open spec fn dictionary_arity(item: RowType, src: ColumnArray) -> bool {
    match src.values {
        ColumnValues::Dictionary { values, .. } => item.same_arity(*values),
        _ => true,
    }
}

/// Decodes a dictionary-encoded column.
///
/// The values of the dictionary are decoded first, all of them.  Each row
/// then takes a copy of the value under its key.  A key is never wrapped
/// or clamped: one that is not smaller than the number of values fails the
/// decoding.
pub fn read_dictionary(
    item: &RowType,
    src: &ColumnArray,
    dst: &mut DeserializationTarget,
    optional: bool,
) -> (r: Result<usize, DeserializationError>)
    requires
        src.wf(),
        dictionary_arity(*item, *src),
        old(dst).ready(least(src.rows(), old(dst).rows@.len() as nat)),
    ensures
        decode_outcome(
            r,
            *old(dst),
            *final(dst),
            dictionary_outcome(*item, *src, old(dst).rows@.len() as nat, optional),
        ),
        src.values is Dictionary ==> untouched_on_nulls(*src, optional, *old(dst), *final(dst)),
    decreases src, item, 1nat,
{
    let (keys, values) = match &src.values {
        ColumnValues::Dictionary { keys, values, .. } => (keys, values),
        _ => {
            return Err(item.mismatch_error(src.values.kind()));
        },
    };
    if !optional && src.has_nulls() {
        return Err(item.null_error());
    }
    let items = match item.from_array(values) {
        Ok(items) => items,
        Err(error) => {
            return Err(error);
        },
    };
    let n = if src.len() < dst.len() {
        src.len()
    } else {
        dst.len()
    };
    let ghost before = dst.data();
    let ghost path = dst.path@;
    let ghost rows = dictionary_rows(models(items@), *src, n as nat);
    let ghost expected = dictionary_outcome(*item, *src, dst.rows@.len() as nat, optional);
    let mut i: usize = 0;
    assert(rows.take(0) =~= Seq::empty());
    assert(dst.data() =~= written(before, path, Seq::empty()));
    while i < n
        invariant
            i <= n,
            expected == collect(rows),
            expected == dictionary_outcome(*item, *src, old(dst).rows@.len() as nat, optional),
            path == old(dst).path@,
            before.len() == old(dst).rows@.len(),
            n <= src.rows(),
            n <= before.len(),
            src.wf(),
            src.values matches ColumnValues::Dictionary { keys: k, .. } && k == *keys,
            dst.path@ == path,
            dst.rows@.len() == before.len(),
            rows == dictionary_rows(models(items@), *src, n as nat),
            slots_ready(before, path, n as nat),
            collect(rows.take(i as int)) matches Ok(done) && dst.data() == written(
                before,
                path,
                done,
            ),
        decreases n - i,
    {
        let ghost done = collect(rows.take(i as int))->Ok_0;
        proof {
            lemma_collect_len(rows.take(i as int));
            assert(rows.take(i + 1).drop_last() =~= rows.take(i as int));
            assert(rows.take(i + 1).last() == dictionary_row(models(items@), *src, i as int));
        }
        let value = if src.is_present(i) {
            let key = keys[i];
            if key < items.len() {
                items[key].duplicate()
            } else {
                proof {
                    lemma_collect_fault(rows, i + 1);
                }
                return Err(
                    DeserializationError::DictionaryOverflow {
                        key,
                        len: items.len(),
                        data_type: src.data_type(),
                    },
                );
            }
        } else {
            Value::Null
        };
        assert(dst.data()[i as int] == before[i as int]);
        dst.put(i, value);
        assert(dst.data() =~= written(before, path, done.push(value.model())));
        i += 1;
    }
    proof {
        assert(rows.take(n as int) =~= rows);
        lemma_collect_len(rows);
    }
    Ok(n)
}

/// Decodes values that are not optional from a dictionary-encoded column.
pub fn read_from_dictionary_array(
    item: &RowType,
    src: &ColumnArray,
    dst: &mut DeserializationTarget,
) -> (r: Result<usize, DeserializationError>)
    requires
        src.wf(),
        dictionary_arity(*item, *src),
        old(dst).ready(least(src.rows(), old(dst).rows@.len() as nat)),
    ensures
        decode_outcome(
            r,
            *old(dst),
            *final(dst),
            dictionary_outcome(*item, *src, old(dst).rows@.len() as nat, false),
        ),
{
    read_dictionary(item, src, dst, false)
}

/// Decodes optional values from a dictionary-encoded column: an absent row
/// is decoded to no value, whatever its key.
pub fn read_options_from_dictionary_array(
    item: &RowType,
    src: &ColumnArray,
    dst: &mut DeserializationTarget,
) -> (r: Result<usize, DeserializationError>)
    requires
        src.wf(),
        dictionary_arity(*item, *src),
        old(dst).ready(least(src.rows(), old(dst).rows@.len() as nat)),
    ensures
        decode_outcome(
            r,
            *old(dst),
            *final(dst),
            dictionary_outcome(*item, *src, old(dst).rows@.len() as nat, true),
        ),
{
    read_dictionary(item, src, dst, true)
}

} // verus!
