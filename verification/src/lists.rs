//! Rebuilding the rows of a list column from its flat child column.
use vstd::prelude::*;
use crate::array::{offsets_cover, ColumnArray, ColumnValues};
use crate::deserialize::{
    decode_outcome, least, lemma_decoded_len, lemma_written_whole, list_rows,
    untouched_on_nulls, DeserializationError, Fault,
};
use crate::target::{has_slot, put_at, slots_ready, written, DeserializationTarget};
use crate::value::{models, Datum, RowType, Value};

verus! {

/// The buffer after the rows from position `from` on have been written
/// through `path`.
pub open spec fn written_from(before: Seq<Datum>, path: Seq<usize>, rows: Seq<Datum>, from: int)
    -> Seq<Datum> {
    Seq::new(
        before.len(),
        |i: int|
            if from <= i < rows.len() {
                put_at(before[i], path, rows[i])
            } else {
                before[i]
            },
    )
}

/// Decodes a list column.
///
/// A column with nulls is refused unless absent rows are accepted.  The
/// whole child column is then decoded into a temporary buffer.  The
/// buffer is then cut into the rows, from the last row to the first:
/// each row takes the items from its offset to the end of what is left.
pub fn read_list(
    row_type: &RowType,
    src: &ColumnArray,
    dst: &mut DeserializationTarget,
    optional: bool,
) -> (r: Result<usize, DeserializationError>)
    requires
        row_type is List,
        src.wf(),
        row_type.same_arity(*src),
        old(dst).ready(least(src.rows(), old(dst).rows@.len() as nat)),
    ensures
        decode_outcome(
            r,
            *old(dst),
            *final(dst),
            row_type.decoded_as(*src, old(dst).rows@.len() as nat, optional),
        ),
        untouched_on_nulls(*src, optional, *old(dst), *final(dst)),
    decreases src, row_type, 1nat,
{
    let inner = match row_type {
        RowType::List(inner) => inner,
        _ => {
            return Err(row_type.mismatch_error(src.values.kind()));
        },
    };
    let (offsets, child) = match &src.values {
        ColumnValues::List { offsets, child, .. } => (offsets, child),
        _ => {
            return Err(row_type.mismatch_error(src.values.kind()));
        },
    };
    if !optional && src.has_nulls() {
        return Err(row_type.null_error());
    }
    let count = child.len();
    let mut elements = DeserializationTarget::with_defaults(inner, count);
    proof {
        lemma_decoded_len(**inner, **child, count as nat, false);
    }
    match inner.read_as(child, &mut elements, false) {
        Err(error) => {
            return Err(error);
        },
        Ok(_) => {},
    }
    let ghost items = inner.decoded_as(**child, count as nat, false)->Ok_0;
    proof {
        lemma_written_whole(Seq::new(count as nat, |i: int| inner.default_datum()), items);
    }
    let n = src.len();
    if n > dst.len() {
        return Err(DeserializationError::MismatchedLength { src: n, dst: dst.len() });
    }
    let mut rest = elements.into_rows();
    let ghost all = rest@;
    let ghost before = dst.data();
    let ghost path = dst.path@;
    let ghost rows = list_rows(items, *src);
    let mut i: usize = n;
    assert(all.take(offsets@[n as int] as int) =~= all);
    assert(dst.data() =~= written_from(before, path, rows, n as int));
    while i > 0
        invariant
            i <= n,
            n == src.rows(),
            n <= before.len(),
            src.wf(),
            src.values matches ColumnValues::List { offsets: o, .. } && o == *offsets,
            offsets_cover(offsets@, n as nat, all.len()),
            all.len() <= usize::MAX,
            models(all) == items,
            rows == list_rows(items, *src),
            0 <= offsets@[i as int] <= all.len(),
            rest@ == all.take(offsets@[i as int] as int),
            dst.path@ == path,
            dst.rows@.len() == before.len(),
            slots_ready(before, path, n as nat),
            dst.data() == written_from(before, path, rows, i as int),
        decreases i,
    {
        i -= 1;
        assert(offsets@[i as int] <= offsets@[i + 1]);
        assert(0 <= offsets@[i as int] <= all.len()) by {
            lemma_offsets_bounds(offsets@, n as nat, all.len(), i as int);
        }
        let start = offsets[i] as usize;
        let row = rest.split_off(start);
        assert(rest@ =~= all.take(offsets@[i as int] as int));
        assert(models(row@) =~= items.subrange(offsets@[i as int] as int, offsets@[i + 1] as int));
        let value = if src.is_present(i) {
            Value::List(row)
        } else {
            Value::Null
        };
        assert(value.model() == rows[i as int]);
        assert(dst.data()[i as int] == before[i as int]);
        dst.put(i, value);
        assert(dst.data() =~= written_from(before, path, rows, i as int));
    }
    assert(dst.data() =~= written(before, path, rows));
    Ok(n)
}

/// Every offset lies between the first one and the last one.
pub proof fn lemma_offsets_bounds(offsets: Seq<i64>, rows: nat, items: nat, i: int)
    requires
        offsets_cover(offsets, rows, items),
        0 <= i <= rows,
    ensures
        0 <= offsets[i] <= items,
    decreases rows - i, i,
{
    lemma_offsets_low(offsets, rows, items, i);
    lemma_offsets_high(offsets, rows, items, i);
}

/// No offset is below the first one.
pub proof fn lemma_offsets_low(offsets: Seq<i64>, rows: nat, items: nat, i: int)
    requires
        offsets_cover(offsets, rows, items),
        0 <= i <= rows,
    ensures
        0 <= offsets[i],
    decreases i,
{
    if i > 0 {
        lemma_offsets_low(offsets, rows, items, i - 1);
        assert(offsets[i - 1] <= offsets[i - 1 + 1]);
    }
}

/// No offset is above the last one.
pub proof fn lemma_offsets_high(offsets: Seq<i64>, rows: nat, items: nat, i: int)
    requires
        offsets_cover(offsets, rows, items),
        0 <= i <= rows,
    ensures
        offsets[i] <= items,
    decreases rows - i,
{
    if i < rows {
        lemma_offsets_high(offsets, rows, items, i + 1);
        assert(offsets[i] <= offsets[i + 1]);
    }
}

} // verus!
