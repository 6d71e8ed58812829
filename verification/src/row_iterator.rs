//! Iterator on the rows of a sequence of batches.
//!
//! Reading rows one by one may be less efficient than decoding a batch with
//! [`RowType::from_record_batch`] and working on the rows of the batch, but
//! provides a more familiar interface.
use vstd::prelude::*;
use crate::array::RecordBatch;
use crate::deserialize::{
    least, lemma_decoded_len, lemma_written_whole, DeserializationError, Fault,
};
use crate::target::{written, DeserializationTarget};
use crate::value::{models, Datum, RowType, Value};

verus! {

/// The rows, each as a success.
pub open spec fn oks(rows: Seq<Datum>) -> Seq<Result<Datum, Fault>> {
    Seq::new(rows.len(), |i: int| Ok(rows[i]))
}

/// What a traversal of the batches from position `from` on yields, step
/// by step: the rows of each batch in turn; where a batch cannot be
/// decoded, its fault, and nothing after it.
pub open spec fn outcomes(row_type: RowType, batches: Seq<RecordBatch>, from: int) -> Seq<
    Result<Datum, Fault>,
>
    decreases batches.len() - from,
{
    if from < 0 || from >= batches.len() {
        Seq::empty()
    } else {
        match row_type.decoded(batches[from].array, batches[from].array.rows()) {
            Err(fault) => seq![Err(fault)],
            Ok(rows) => oks(rows) + outcomes(row_type, batches, from + 1),
        }
    }
}

/// Whether each batch is well formed and agrees with the shape on the
/// number of fields of its records.
pub open spec fn batches_ready(row_type: RowType, batches: Seq<RecordBatch>) -> bool {
    forall|i: int|
        0 <= i < batches.len() ==> (#[trigger] batches[i]).wf() && row_type.same_arity(
            batches[i].array,
        )
}

/// Iterator on the rows of a sequence of batches.
///
/// A batch is decoded as a whole when its first row is asked for, into a
/// buffer that is reused from batch to batch.  A batch without rows is
/// passed over.  The traversal goes forward once: after the last row of the
/// last batch, or after a batch that cannot be decoded, it has ended and
/// stays so.
pub struct RowIterator {
    /// The shape of the rows.
    pub row_type: RowType,
    /// The batches.
    pub reader: Vec<RecordBatch>,
    /// The position in `reader` of the next batch to decode.
    pub position: usize,
    /// The rows of the batch that was decoded last.
    pub batch: DeserializationTarget,
    /// Index in the batch
    pub index: usize,
    /// Maximum value of the index + 1
    pub decoded_items: usize,
}

fn resize(buffer: &mut DeserializationTarget, row_type: &RowType, rows: usize)
    ensures
        final(buffer).path == old(buffer).path,
        final(buffer).rows@.len() == rows,
{
    buffer.rows.truncate(rows);
    while buffer.rows.len() < rows
        invariant
            buffer.path == old(buffer).path,
            buffer.rows@.len() <= rows,
        decreases rows - buffer.rows@.len(),
    {
        buffer.rows.push(row_type.default_value());
    }
}

impl RowIterator {
    /// Whether the cursor lies within the decoded rows, the buffer is seen
    /// whole, and the batches are ready.
    pub open spec fn wf(self) -> bool {
        &&& self.position <= self.reader@.len()
        &&& self.index <= self.decoded_items <= self.batch.rows@.len()
        &&& self.batch.path@.len() == 0
        &&& batches_ready(self.row_type, self.reader@)
    }

    /// The decoded rows that are still to be yielded.
    pub open spec fn pending(self) -> Seq<Datum> {
        self.batch.data().subrange(self.index as int, self.decoded_items as int)
    }

    /// What the traversal still yields, step by step.
    pub open spec fn remaining(self) -> Seq<Result<Datum, Fault>> {
        oks(self.pending()) + outcomes(self.row_type, self.reader@, self.position as int)
    }

    /// Decodes the next batch into the buffer.  Returns `true` where there
    /// is no batch left.
    fn read_batch(&mut self) -> (r: Result<bool, DeserializationError>)
        requires
            old(self).wf(),
            old(self).index == old(self).decoded_items,
        ensures
            final(self).wf(),
            final(self).row_type == old(self).row_type,
            final(self).reader == old(self).reader,
            match r {
                Ok(ended) => {
                    &&& final(self).remaining() == old(self).remaining()
                    &&& ended <==> old(self).position >= old(self).reader@.len()
                    &&& !ended ==> final(self).position == old(self).position + 1
                    &&& !ended ==> old(self).row_type.decoded(
                        old(self).reader@[old(self).position as int].array,
                        old(self).reader@[old(self).position as int].array.rows(),
                    ) is Ok
                    &&& final(self).index == 0
                },
                Err(error) => {
                    &&& old(self).position < old(self).reader@.len()
                    &&& old(self).row_type.decoded(
                        old(self).reader@[old(self).position as int].array,
                        old(self).reader@[old(self).position as int].array.rows(),
                    ) matches Err(fault)
                    &&& error.reports(fault)
                    &&& old(self).remaining().len() == 1
                    &&& old(self).remaining()[0] == Err::<Datum, Fault>(fault)
                    &&& final(self).remaining().len() == 0
                },
            },
    {
        let ghost before = *self;
        assert(before.pending() =~= Seq::empty());
        assert(before.remaining() =~= outcomes(
            before.row_type,
            before.reader@,
            before.position as int,
        ));
        self.index = 0;
        self.decoded_items = 0;
        if self.position >= self.reader.len() {
            assert(self.pending() =~= Seq::empty());
            return Ok(true);
        }
        let rows = self.reader[self.position].num_rows();
        resize(&mut self.batch, &self.row_type, rows);
        let ghost filled = self.batch.data();
        let ghost source = self.reader@[self.position as int].array;
        proof {
            lemma_decoded_len(self.row_type, source, rows as nat, false);
        }
        let result = self.row_type.read_from_array(
            &self.reader[self.position].array,
            &mut self.batch,
        );
        match result {
            Err(error) => {
                self.position = self.reader.len();
                assert(self.pending() =~= Seq::empty());
                Err(error)
            },
            Ok(count) => {
                self.position += 1;
                self.decoded_items = count;
                proof {
                    let decoded = self.row_type.decoded(source, rows as nat)->Ok_0;
                    lemma_written_whole(filled, decoded);
                    assert(self.pending() =~= decoded);
                }
                Ok(false)
            },
        }
    }

    /// Returns an iterator on the rows of the given batches.
    ///
    /// The first batch is decoded at once, so that an error in it is
    /// returned here and not by the first step.
    pub fn new(reader: Vec<RecordBatch>, row_type: RowType) -> (r: Result<
        RowIterator,
        DeserializationError,
    >)
        requires
            batches_ready(row_type, reader@),
        ensures
            r is Err <==> reader@.len() > 0 && row_type.decoded(
                reader@[0].array,
                reader@[0].array.rows(),
            ) is Err,
            match r {
                Ok(rows) => {
                    &&& rows.wf()
                    &&& rows.row_type == row_type
                    &&& rows.reader == reader
                    &&& rows.remaining() == outcomes(row_type, reader@, 0)
                },
                Err(error) => {
                    &&& row_type.decoded(reader@[0].array, reader@[0].array.rows()) matches Err(
                        fault,
                    )
                    &&& error.reports(fault)
                },
            },
    {
        let mut row_iterator = RowIterator {
            row_type,
            reader,
            position: 0,
            batch: DeserializationTarget::new(Vec::new()),
            index: 0,
            decoded_items: 0,
        };
        assert(row_iterator.pending() =~= Seq::empty());
        assert(row_iterator.remaining() =~= outcomes(row_type, reader@, 0));
        match row_iterator.read_batch() {
            Err(error) => Err(error),
            Ok(_) => Ok(row_iterator),
        }
    }

    /// The next row, or `None` after the last row of the last batch, or
    /// the error of a batch that cannot be decoded.  After an error the
    /// traversal has ended.
    pub fn try_next(&mut self) -> (r: Result<Option<Value>, DeserializationError>)
        requires
            old(self).wf(),
        ensures
            final(self).wf(),
            final(self).row_type == old(self).row_type,
            final(self).reader == old(self).reader,
            old(self).remaining().len() == 0 ==> final(self).remaining().len() == 0
                && r matches Ok(None),
            old(self).remaining().len() > 0 ==> {
                &&& final(self).remaining() == old(self).remaining().skip(1)
                &&& match old(self).remaining()[0] {
                    Ok(row) => r matches Ok(Some(value)) && value.model() == row,
                    Err(fault) => r matches Err(error) && error.reports(fault),
                }
            },
    {
        // Exhausted the current batch, read the next one.
        while self.index == self.decoded_items
            invariant
                self.wf(),
                self.row_type == old(self).row_type,
                self.reader == old(self).reader,
                self.remaining() == old(self).remaining(),
            decreases self.reader@.len() - self.position,
        {
            match self.read_batch() {
                Err(error) => {
                    assert(old(self).remaining().skip(1) =~= Seq::empty());
                    return Err(error);
                },
                Ok(ended) => {
                    if ended {
                        assert(self.pending() =~= Seq::empty());
                        return Ok(None);
                    }
                },
            }
        }
        let ghost before = *self;
        assert(before.pending()[0] == self.batch.data()[self.index as int]);
        assert(before.remaining()[0] == Ok::<Datum, Fault>(before.pending()[0]));
        let item = self.batch.rows[self.index].duplicate();
        self.index += 1;
        assert(self.pending() =~= before.pending().skip(1));
        assert(self.remaining() =~= before.remaining().skip(1));
        Ok(Some(item))
    }

    /// The next row, or `None` after the last row of the last batch.
    ///
    /// Every batch that is left must be one that can be decoded.
    pub fn next(&mut self) -> (r: Option<Value>)
        requires
            old(self).wf(),
            forall|i: int|
                0 <= i < old(self).remaining().len() ==> (#[trigger] old(self).remaining()[i]) is Ok,
        ensures
            final(self).wf(),
            final(self).row_type == old(self).row_type,
            final(self).reader == old(self).reader,
            old(self).remaining().len() == 0 ==> r is None && final(self).remaining().len() == 0,
            old(self).remaining().len() > 0 ==> {
                &&& final(self).remaining() == old(self).remaining().skip(1)
                &&& r matches Some(value)
                &&& Ok::<Datum, Fault>(value.model()) == old(self).remaining()[0]
            },
    {
        match self.try_next() {
            Ok(item) => item,
            Err(_) => None,
        }
    }
}

} // verus!
