//! Traversals of columns, with and without nulls.
use vstd::prelude::*;
use crate::array::ColumnArray;

verus! {

/// A traversal of the rows of a column that has no nulls.
pub struct NotNullArrayIter<'a> {
    pub array: &'a ColumnArray,
    /// The position of the next row.
    pub index: usize,
}

impl<'a> NotNullArrayIter<'a> {
    /// The positions that are still to come, in order.
    pub open spec fn remaining(self) -> Seq<usize> {
        Seq::new(
            if self.index <= self.array.rows() {
                (self.array.rows() - self.index) as nat
            } else {
                0
            },
            |i: int| (self.index + i) as usize,
        )
    }

    /// Returns `None` if the given column has nulls.
    pub fn new(array: &'a ColumnArray) -> (r: Option<NotNullArrayIter<'a>>)
        ensures
            r is None <==> array.nulls is Some,
            r matches Some(rows) ==> rows.array == array && rows.index == 0,
    {
        if array.has_nulls() {
            None
        } else {
            Some(NotNullArrayIter { array, index: 0 })
        }
    }

    /// The position of the next row, or `None` after the last row.
    pub fn next(&mut self) -> (r: Option<usize>)
        ensures
            final(self).array == old(self).array,
            old(self).remaining().len() == 0 ==> r is None && *final(self) == *old(self),
            old(self).remaining().len() > 0 ==> r == Some(old(self).remaining()[0])
                && final(self).remaining() == old(self).remaining().skip(1),
    {
        if self.index >= self.array.len() {
            return None;
        }
        let datum = self.index;
        self.index += 1;
        assert(self.remaining() =~= old(self).remaining().skip(1));
        Some(datum)
    }
}

/// How many of the rows are present.
pub open spec fn present_count(presence: Seq<bool>) -> nat
    decreases presence.len(),
{
    if presence.len() == 0 {
        0
    } else if presence[0] {
        1 + present_count(presence.skip(1))
    } else {
        present_count(presence.skip(1))
    }
}

/// The values, spread over the rows that are present: each present row
/// takes the next value, each absent row takes none.  Without a presence
/// sequence, every value is present.
pub open spec fn interleaved<V>(values: Seq<V>, presence: Option<Seq<bool>>) -> Seq<Option<V>>
    decreases
        (match presence {
            None => 0,
            Some(bits) => bits.len(),
        }),
{
    match presence {
        None => Seq::new(values.len(), |i: int| Some(values[i])),
        Some(bits) => if bits.len() == 0 {
            Seq::empty()
        } else if bits[0] {
            seq![Some(values[0])] + interleaved(values.skip(1), Some(bits.skip(1)))
        } else {
            seq![None] + interleaved(values, Some(bits.skip(1)))
        },
    }
}

/// The view of an optional bitmap.
pub open spec fn bits_of(nulls: Option<Vec<bool>>) -> Option<Seq<bool>> {
    match nulls {
        None => None,
        Some(bits) => Some(bits@),
    }
}

/// A traversal of values, with a presence sequence that tells where a row
/// without a value stands between them.
pub struct NullableValuesIterator<V> {
    pub values: Vec<V>,
    /// `true` where a row holds the next value.
    pub nulls: Option<Vec<bool>>,
    /// The position of the next value.
    pub value_index: usize,
    /// The position of the next presence bit.
    pub null_index: usize,
}

impl<V: Copy> NullableValuesIterator<V> {
    /// The values that are still to come.
    pub open spec fn values_left(self) -> Seq<V> {
        self.values@.skip(self.value_index as int)
    }

    /// The presence bits that are still to come.
    pub open spec fn presence_left(self) -> Option<Seq<bool>> {
        match self.nulls {
            None => None,
            Some(bits) => Some(bits@.skip(self.null_index as int)),
        }
    }

    /// Whether the positions are in range and there is a value left for
    /// every row that is still to come and present.
    pub open spec fn wf(self) -> bool {
        &&& self.value_index <= self.values@.len()
        &&& match self.nulls {
            None => true,
            Some(bits) => self.null_index <= bits@.len() && present_count(
                bits@.skip(self.null_index as int),
            ) <= self.values@.len() - self.value_index,
        }
    }

    /// The rows that are still to come.
    pub open spec fn remaining(self) -> Seq<Option<V>> {
        interleaved(self.values_left(), self.presence_left())
    }

    /// Pairs values with a presence sequence.  There must be a value for
    /// every present row.
    pub fn new(values: Vec<V>, nulls: Option<Vec<bool>>) -> (r: NullableValuesIterator<V>)
        requires
            nulls matches Some(bits) ==> present_count(bits@) <= values@.len(),
        ensures
            r.wf(),
            r.remaining() == interleaved(values@, bits_of(nulls)),
    {
        let r = NullableValuesIterator { values, nulls, value_index: 0, null_index: 0 };
        proof {
            assert(r.values_left() =~= r.values@);
            if r.nulls is Some {
                assert(r.nulls->Some_0@.skip(0) =~= r.nulls->Some_0@);
            }
        }
        r
    }

    /// The next row: `Some(Some(value))` for a present row, `Some(None)`
    /// for an absent one, `None` after the last row.
    pub fn next(&mut self) -> (r: Option<Option<V>>)
        requires
            old(self).wf(),
        ensures
            final(self).wf(),
            old(self).remaining().len() == 0 ==> r is None && final(self).remaining().len() == 0,
            old(self).remaining().len() > 0 ==> r == Some(old(self).remaining()[0])
                && final(self).remaining() == old(self).remaining().skip(1),
    {
        let ghost before = *self;
        match &self.nulls {
            None => {
                if self.value_index < self.values.len() {
                    let item = self.values[self.value_index];
                    self.value_index += 1;
                    assert(self.remaining() =~= before.remaining().skip(1));
                    Some(Some(item))
                } else {
                    None
                }
            },
            Some(bits) => {
                if self.null_index < bits.len() {
                    let ghost left = bits@.skip(self.null_index as int);
                    assert(left.skip(1) =~= bits@.skip(self.null_index + 1));
                    assert(left[0] == bits@[self.null_index as int]);
                    if bits[self.null_index] {
                        assert(present_count(left) >= 1);
                        assert(self.value_index < self.values.len());
                        let item = self.values[self.value_index];
                        assert(before.values_left().skip(1) =~= self.values@.skip(
                            self.value_index + 1,
                        ));
                        self.value_index += 1;
                        self.null_index += 1;
                        assert(before.remaining().skip(1) =~= self.remaining());
                        Some(Some(item))
                    } else {
                        self.null_index += 1;
                        assert(before.remaining().skip(1) =~= self.remaining());
                        Some(None)
                    }
                } else {
                    assert(bits@.skip(self.null_index as int).len() == 0);
                    None
                }
            },
        }
    }

    /// The number of rows that are still to come.
    pub fn len(&self) -> (n: usize)
        requires
            self.wf(),
        ensures
            n == self.remaining().len(),
    {
        match &self.nulls {
            None => self.values.len() - self.value_index,
            Some(bits) => {
                proof {
                    lemma_interleaved_len(
                        self.values_left(),
                        bits@.skip(self.null_index as int),
                    );
                }
                bits.len() - self.null_index
            },
        }
    }
}

/// With a presence sequence there are as many rows as presence bits.
pub proof fn lemma_interleaved_len<V>(values: Seq<V>, bits: Seq<bool>)
    ensures
        interleaved(values, Some(bits)).len() == bits.len(),
    decreases bits.len(),
{
    if bits.len() > 0 {
        if bits[0] {
            lemma_interleaved_len(values.skip(1), bits.skip(1));
        } else {
            lemma_interleaved_len(values, bits.skip(1));
        }
    }
}

/// How many of the rows before row `i` are present: the position, among
/// the values, of the value of row `i`.
pub open spec fn rank(presence: Seq<bool>, i: int) -> nat {
    present_count(presence.take(i))
}

/// A present row has a value among as many values as there are present
/// rows.
pub proof fn lemma_rank_in_range(presence: Seq<bool>, i: int)
    requires
        0 <= i < presence.len(),
        presence[i],
    ensures
        rank(presence, i) < present_count(presence),
    decreases presence.len(),
{
    assert(presence.take(i).len() == i);
    if i == 0 {
        assert(presence.take(0) =~= Seq::empty());
    } else {
        assert(presence.take(i).skip(1) =~= presence.skip(1).take(i - 1));
        lemma_rank_in_range(presence.skip(1), i - 1);
    }
}

/// Row `i` of interleaved values holds the value at its rank where the row
/// is present, and none where it is absent.
pub proof fn lemma_interleaved_row<V>(values: Seq<V>, presence: Seq<bool>, i: int)
    requires
        0 <= i < presence.len(),
        present_count(presence) <= values.len(),
    ensures
        interleaved(values, Some(presence)).len() == presence.len(),
        interleaved(values, Some(presence))[i] == if presence[i] {
            Some(values[rank(presence, i) as int])
        } else {
            None
        },
    decreases presence.len(),
{
    lemma_interleaved_len(values, presence);
    let rest = if presence[0] {
        values.skip(1)
    } else {
        values
    };
    lemma_interleaved_len(rest, presence.skip(1));
    let tail = interleaved(rest, Some(presence.skip(1)));
    if i == 0 {
        assert(presence.take(0) =~= Seq::empty());
    } else {
        assert(presence.take(i).skip(1) =~= presence.skip(1).take(i - 1));
        assert(presence.take(i)[0] == presence[0]);
        lemma_interleaved_row(rest, presence.skip(1), i - 1);
        assert(interleaved(values, Some(presence))[i] == tail[i - 1]);
        if presence[i] {
            lemma_rank_in_range(presence.skip(1), i - 1);
            let r = rank(presence.skip(1), i - 1) as int;
            assert(r < rest.len());
            if presence[0] {
                assert(rank(presence, i) == r + 1);
                assert(rest[r] == values[r + 1]);
            } else {
                assert(rank(presence, i) == r);
            }
        }
    }
}

} // verus!
