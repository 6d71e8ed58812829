//! Row-oriented access to columnar data.
//!
//! Columnar storage keeps every value of one field together, with a bitmap
//! that tells which rows are absent.  Such a layout is efficient, but
//! cumbersome to consume.  This crate "zips" the columns of a batch back
//! into one value per row, through nested lists, records,
//! dictionary-encoded columns and optional values.
//!
//! # Usage principles
//!
//! A [`value::RowType`] says what shape a row is expected to have.
//! [`value::RowType::check_datatype`] tells whether a column of a given
//! [`datatypes::DataType`] can be decoded into that shape, and names every
//! mismatch if it cannot.  [`value::RowType::from_array`] then decodes an
//! [`array::ColumnArray`] into rows, each a [`value::Value`];
//! [`value::RowType::read_from_array`] does so into a buffer of the caller,
//! seen through a [`target::DeserializationTarget`];
//! [`row_iterator::RowIterator`] walks the rows of a sequence of batches.
//!
//! # What is proved
//!
//! Every function of this crate is verified against its contract.  What a
//! column decodes to is defined once, by
//! [`value::RowType::decoded_as`]; the decoders are proved to compute it,
//! and [`laws`] proves what follows from it for every column.  Columns are
//! taken to be well formed ([`array::ColumnArray::wf`]), which
//! [`array::ColumnArray::is_well_formed`] checks.
//!
//! Floating-point numbers are carried as their IEEE 754 bit patterns.
use vstd::prelude::*;

pub mod array;
pub mod array_iterators;
pub mod columns;
pub mod datatypes;
pub mod deserialize;
pub mod dictionaries;
pub mod laws;
pub mod lists;
pub mod records;
pub mod row_iterator;
pub mod scalars;
pub mod target;
pub mod text;
pub mod typecheck;
pub mod value;

verus! {

/// Timezone-less timestamp
#[derive(Clone, Copy, Debug, PartialEq, Eq, Hash, PartialOrd, Ord)]
pub struct Timestamp {
    pub seconds: i64,
    pub nanoseconds: i64,
}

impl Default for Timestamp {
    fn default() -> (r: Self)
        ensures
            r.seconds == 0,
            r.nanoseconds == 0,
    {
        Timestamp { seconds: 0, nanoseconds: 0 }
    }
}

/// Scale-less decimal number
///
/// To get a meaningful value, it should be divided by 10^(the schema's scale)
#[derive(Clone, Copy, Debug, PartialEq, Eq, Hash, PartialOrd, Ord)]
pub struct NaiveDecimal128(pub i128);

impl Default for NaiveDecimal128 {
    fn default() -> (r: Self)
        ensures
            r.0 == 0,
    {
        NaiveDecimal128(0)
    }
}

/// Days since epoch
#[derive(Clone, Copy, Debug, PartialEq, Eq, Hash, PartialOrd, Ord)]
pub struct Date(pub i64);

impl Default for Date {
    fn default() -> (r: Self)
        ensures
            r.0 == 0,
    {
        Date(0)
    }
}

/// Array wrapper that implements [`Default`]
#[derive(Clone, Copy, Debug, PartialEq, Eq, Hash, PartialOrd, Ord)]
pub struct FixedSizeBinary<const N: usize>(pub [u8; N]);

impl<const N: usize> Default for FixedSizeBinary<N> {
    fn default() -> (r: Self)
        ensures
            forall|i: int| 0 <= i < N ==> r.0@[i] == 0,
    {
        FixedSizeBinary([0; N])
    }
}

impl<const N: usize> FixedSizeBinary<N> {
    /// The byte string as an array of `N` bytes.  A byte string of another
    /// length is refused, with both lengths in the error.
    pub fn try_from_slice(bytes: &[u8]) -> (r: Result<
        FixedSizeBinary<N>,
        crate::deserialize::DeserializationError,
    >)
        ensures
            bytes@.len() == N ==> (r matches Ok(array) && array.0@ == bytes@),
            bytes@.len() != N ==> (r matches Err(
                crate::deserialize::DeserializationError::MismatchedBinarySize { src, dst },
            ) && src == bytes@.len() && dst == N),
    {
        if bytes.len() != N {
            return Err(
                crate::deserialize::DeserializationError::MismatchedBinarySize {
                    src: bytes.len(),
                    dst: N,
                },
            );
        }
        let mut array = [0u8; N];
        let mut i: usize = 0;
        while i < N
            invariant
                i <= N,
                bytes@.len() == N,
                forall|j: int| 0 <= j < i ==> array@[j] == bytes@[j],
            decreases N - i,
        {
            array[i] = bytes[i];
            i += 1;
        }
        assert(array@ =~= bytes@);
        Ok(FixedSizeBinary(array))
    }
}

impl<const N: usize> From<[u8; N]> for FixedSizeBinary<N> {
    fn from(value: [u8; N]) -> (r: Self)
    {
        FixedSizeBinary(value)
    }
}

impl<const N: usize> vstd::std_specs::convert::FromSpecImpl<[u8; N]> for FixedSizeBinary<N> {
    open spec fn obeys_from_spec() -> bool {
        true
    }

    open spec fn from_spec(value: [u8; N]) -> Self {
        FixedSizeBinary(value)
    }
}

impl<const N: usize> From<FixedSizeBinary<N>> for [u8; N] {
    fn from(value: FixedSizeBinary<N>) -> (r: Self)
    {
        value.0
    }
}

impl<const N: usize> vstd::std_specs::convert::FromSpecImpl<FixedSizeBinary<N>> for [u8; N] {
    open spec fn obeys_from_spec() -> bool {
        true
    }

    open spec fn from_spec(value: FixedSizeBinary<N>) -> Self {
        value.0
    }
}

impl<const N: usize> std::ops::Deref for FixedSizeBinary<N> {
    type Target = [u8; N];

    fn deref(&self) -> (r: &Self::Target)
        ensures
            *r == self.0,
    {
        &self.0
    }
}

impl<const N: usize> std::ops::DerefMut for FixedSizeBinary<N> {
    fn deref_mut(&mut self) -> (r: &mut Self::Target)
        ensures
            *r == old(self).0,
            final(self).0 == *final(r),
    {
        &mut self.0
    }
}

} // verus!
