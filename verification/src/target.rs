//! Destinations: where decoded rows are written.
//!
//! A destination is a buffer of rows together with a path into each row.
//! With the empty path a row is written as a whole; with the path `[k]` the
//! field `k` of the record that each row holds is written, and so on
//! through records nested in records.  Decoding a record column writes each
//! field at its final place, through such a projection, and never through a
//! temporary buffer.
use vstd::prelude::*;
use crate::value::{models, Datum, RowType, Value};

verus! {

/// Whether the value has a place that the path leads to: a record at every
/// step, with a field at the step's index.
pub open spec fn has_slot(d: Datum, path: Seq<usize>) -> bool
    decreases path.len(),
{
    if path.len() == 0 {
        true
    } else {
        match d {
            Datum::Struct(fields) => path[0] < fields.len() && has_slot(
                fields[path[0] as int],
                path.skip(1),
            ),
            _ => false,
        }
    }
}

/// The part of the value that the path leads to.
pub open spec fn get_at(d: Datum, path: Seq<usize>) -> Datum
    decreases path.len(),
{
    if path.len() == 0 {
        d
    } else {
        match d {
            Datum::Struct(fields) => get_at(fields[path[0] as int], path.skip(1)),
            _ => d,
        }
    }
}

/// The value with `v` in the place that the path leads to, and everything
/// else as it was.
pub open spec fn put_at(d: Datum, path: Seq<usize>, v: Datum) -> Datum
    decreases path.len(),
{
    if path.len() == 0 {
        v
    } else {
        match d {
            Datum::Struct(fields) => if path[0] < fields.len() {
                Datum::Struct(
                    fields.update(path[0] as int, put_at(fields[path[0] as int], path.skip(1), v)),
                )
            } else {
                d
            },
            _ => d,
        }
    }
}

/// The buffer after `rows` have been written through `path` into its first
/// positions: the positions after them are as they were.
pub open spec fn written(before: Seq<Datum>, path: Seq<usize>, rows: Seq<Datum>) -> Seq<Datum> {
    Seq::new(
        before.len(),
        |i: int|
            if i < rows.len() {
                put_at(before[i], path, rows[i])
            } else {
                before[i]
            },
    )
}

/// Whether each of the first `n` rows has a place that the path leads to.
pub open spec fn slots_ready(rows: Seq<Datum>, path: Seq<usize>, n: nat) -> bool {
    forall|i: int| 0 <= i < n && i < rows.len() ==> has_slot(#[trigger] rows[i], path)
}

/// What was put in a place is found there, and the place is still there.
pub proof fn lemma_put_then_get(d: Datum, path: Seq<usize>, v: Datum)
    requires
        has_slot(d, path),
    ensures
        has_slot(put_at(d, path, v), path),
        get_at(put_at(d, path, v), path) == v,
    decreases path.len(),
{
    if path.len() > 0 {
        match d {
            Datum::Struct(fields) => {
                lemma_put_then_get(fields[path[0] as int], path.skip(1), v);
            },
            _ => {},
        }
    }
}

/// A record in a place has a place for each of its fields.
pub proof fn lemma_field_slot(d: Datum, path: Seq<usize>, fields: Seq<Datum>, k: usize)
    requires
        has_slot(d, path),
        k < fields.len(),
    ensures
        has_slot(put_at(d, path, Datum::Struct(fields)), path.push(k)),
    decreases path.len(),
{
    reveal_with_fuel(has_slot, 2);
    reveal_with_fuel(put_at, 2);
    assert(path.push(k)[0] == if path.len() == 0 { k } else { path[0] });
    if path.len() == 0 {
        assert(path.push(k).skip(1) =~= Seq::<usize>::empty());
    } else {
        match d {
            Datum::Struct(outer) => {
                lemma_field_slot(outer[path[0] as int], path.skip(1), fields, k);
                assert(path.push(k).skip(1) =~= path.skip(1).push(k));
            },
            _ => {},
        }
    }
}

/// Writing a field of a record in a place is writing the record with that
/// field changed.
pub proof fn lemma_put_field(d: Datum, path: Seq<usize>, fields: Seq<Datum>, k: usize, v: Datum)
    requires
        has_slot(d, path),
        k < fields.len(),
    ensures
        put_at(put_at(d, path, Datum::Struct(fields)), path.push(k), v) == put_at(
            d,
            path,
            Datum::Struct(fields.update(k as int, v)),
        ),
    decreases path.len(),
{
    reveal_with_fuel(has_slot, 2);
    reveal_with_fuel(put_at, 2);
    assert(path.push(k)[0] == if path.len() == 0 { k } else { path[0] });
    if path.len() == 0 {
        assert(path.push(k).skip(1) =~= Seq::<usize>::empty());
        assert(fields.update(k as int, put_at(fields[k as int], Seq::<usize>::empty(), v))
            =~= fields.update(k as int, v));
    } else {
        match d {
            Datum::Struct(outer) => {
                lemma_put_field(outer[path[0] as int], path.skip(1), fields, k, v);
                assert(path.push(k).skip(1) =~= path.skip(1).push(k));
                let inner = put_at(outer[path[0] as int], path.skip(1), Datum::Struct(fields));
                assert(outer.update(path[0] as int, inner).update(
                    path[0] as int,
                    put_at(inner, path.skip(1).push(k), v),
                ) =~= outer.update(path[0] as int, put_at(inner, path.skip(1).push(k), v)));
            },
            _ => {},
        }
    }
}

/// Writing a place twice leaves what was written last.
pub proof fn lemma_put_twice(d: Datum, path: Seq<usize>, v: Datum, w: Datum)
    requires
        has_slot(d, path),
    ensures
        put_at(put_at(d, path, v), path, w) == put_at(d, path, w),
    decreases path.len(),
{
    if path.len() > 0 {
        match d {
            Datum::Struct(outer) => {
                lemma_put_twice(outer[path[0] as int], path.skip(1), v, w);
                let inner = put_at(outer[path[0] as int], path.skip(1), v);
                assert(outer.update(path[0] as int, inner).update(
                    path[0] as int,
                    put_at(inner, path.skip(1), w),
                ) =~= outer.update(path[0] as int, put_at(inner, path.skip(1), w)));
            },
            _ => {},
        }
    }
}

fn put_slot(slot: &mut Value, path: &Vec<usize>, depth: usize, value: Value)
    requires
        depth <= path.len(),
        has_slot(old(slot).model(), path@.skip(depth as int)),
    ensures
        final(slot).model() == put_at(old(slot).model(), path@.skip(depth as int), value.model()),
    decreases path.len() - depth,
{
    if depth == path.len() {
        *slot = value;
    } else {
        assert(path@.skip(depth as int)[0] == path@[depth as int]);
        assert(path@.skip(depth as int).skip(1) =~= path@.skip(depth + 1));
        match slot {
            Value::Struct(fields) => {
                let k = path[depth];
                assert(models(fields@)[k as int] == fields@[k as int].model());
                let ghost before = fields@;
                put_slot(&mut fields[k], path, depth + 1, value);
                assert(models(fields@) =~= models(before).update(
                    k as int,
                    fields@[k as int].model(),
                ));
            },
            _ => {
                assert(false);
            },
        }
    }
}

/// A destination buffer, seen through a projection.
///
/// `rows` is the buffer; `path` leads from each row to the place that is
/// written.  The buffer is never resized: a decoder writes the first rows
/// and leaves the others as they are.
#[derive(Debug, PartialEq, Eq)]
pub struct DeserializationTarget {
    pub rows: Vec<Value>,
    pub path: Vec<usize>,
}

impl DeserializationTarget {
    /// The models of the rows of the buffer.
    pub open spec fn data(self) -> Seq<Datum> {
        models(self.rows@)
    }

    /// Whether each of the first `n` rows can be written through the
    /// projection.
    pub open spec fn ready(self, n: nat) -> bool {
        slots_ready(self.data(), self.path@, n)
    }

    /// A destination that writes whole rows of `rows`.
    pub fn new(rows: Vec<Value>) -> (r: DeserializationTarget)
        ensures
            r.rows == rows,
            r.path@ == Seq::<usize>::empty(),
    {
        DeserializationTarget { rows, path: Vec::new() }
    }

    /// A destination of `n` rows that each hold the default value of
    /// `row_type`.
    pub fn with_defaults(row_type: &RowType, n: usize) -> (r: DeserializationTarget)
        ensures
            r.path@ == Seq::<usize>::empty(),
            r.rows@.len() == n,
            r.data() == Seq::new(n as nat, |i: int| row_type.default_datum()),
    {
        let mut rows: Vec<Value> = Vec::with_capacity(n);
        let mut i: usize = 0;
        while i < n
            invariant
                i <= n,
                rows@.len() == i,
                forall|j: int| 0 <= j < i ==> rows@[j].model() == row_type.default_datum(),
            decreases n - i,
        {
            rows.push(row_type.default_value());
            i += 1;
        }
        assert(models(rows@) =~= Seq::new(n as nat, |i: int| row_type.default_datum()));
        DeserializationTarget { rows, path: Vec::new() }
    }

    /// The buffer, given back.
    pub fn into_rows(self) -> (rows: Vec<Value>)
        ensures
            rows == self.rows,
    {
        self.rows
    }

    /// The number of rows of the buffer.
    pub fn len(&self) -> (n: usize)
        ensures
            n == self.rows@.len(),
            n == self.data().len(),
    {
        self.rows.len()
    }

    /// Whether the buffer has no rows.
    pub fn is_empty(&self) -> (r: bool)
        ensures
            r == (self.rows@.len() == 0),
    {
        self.rows.len() == 0
    }

    /// Narrows the projection to the field `field` of the record in each
    /// place.
    pub fn map(&mut self, field: usize)
        ensures
            final(self).rows == old(self).rows,
            final(self).path@ == old(self).path@.push(field),
    {
        self.path.push(field);
    }

    /// Widens the projection back from a field to its record.
    pub fn unmap(&mut self)
        requires
            old(self).path@.len() > 0,
        ensures
            final(self).rows == old(self).rows,
            final(self).path@ == old(self).path@.drop_last(),
    {
        self.path.pop();
    }

    /// Writes `value` to the place of row `i`.
    pub fn put(&mut self, i: usize, value: Value)
        requires
            i < old(self).rows@.len(),
            has_slot(old(self).data()[i as int], old(self).path@),
        ensures
            final(self).path == old(self).path,
            final(self).rows@.len() == old(self).rows@.len(),
            final(self).data() == old(self).data().update(
                i as int,
                put_at(old(self).data()[i as int], old(self).path@, value.model()),
            ),
    {
        let ghost before = self.rows@;
        assert(self.path@.skip(0) =~= self.path@);
        put_slot(&mut self.rows[i], &self.path, 0, value);
        assert(models(self.rows@) =~= models(before).update(
            i as int,
            put_at(models(before)[i as int], self.path@, value.model()),
        ));
    }
}

} // verus!
