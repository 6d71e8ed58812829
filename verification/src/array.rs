//! Columns: the values of one field for every row of a batch.
use vstd::prelude::*;
use crate::datatypes::{duplicate_timezone, same_timezone, DataType, Field, TimeUnit};

verus! {

/// One named child column of a struct column or of a batch.
#[derive(Debug, PartialEq, Eq)]
pub struct StructField {
    pub name: String,
    pub column: ColumnArray,
}

/// The values of a column, by physical type.
///
/// A column holds a value at every row, also where the null bitmap marks the
/// row as absent; what it holds there is of no concern.
#[derive(Debug, PartialEq, Eq)]
#[allow(inconsistent_fields)]
pub enum ColumnValues {
    Boolean(Vec<bool>),
    Int8(Vec<i8>),
    Int16(Vec<i16>),
    Int32(Vec<i32>),
    Int64(Vec<i64>),
    UInt8(Vec<u8>),
    UInt16(Vec<u16>),
    UInt32(Vec<u32>),
    UInt64(Vec<u64>),
    /// Single-precision numbers, as IEEE 754 bit patterns.
    Float32(Vec<u32>),
    /// Double-precision numbers, as IEEE 754 bit patterns.
    Float64(Vec<u64>),
    /// Days since the epoch.
    Date32(Vec<i32>),
    /// Text; `large` tells the wide representation from the narrow one.
    Utf8 { large: bool, values: Vec<String> },
    /// Byte strings; `large` tells the wide representation from the narrow.
    Binary { large: bool, values: Vec<Vec<u8>> },
    /// Byte strings of `size` bytes each.
    FixedSizeBinary { size: i32, values: Vec<Vec<u8>> },
    /// Unscaled 128-bit decimals.
    Decimal128 { precision: u8, scale: i8, values: Vec<i128> },
    /// Counts of `unit` since the epoch.
    Timestamp { unit: TimeUnit, timezone: Option<String>, values: Vec<i64> },
    /// Lists: row `i` holds the items of `child` from `offsets[i]` up to
    /// `offsets[i + 1]`.  `large` tells 64-bit offsets from 32-bit ones.
    List { large: bool, offsets: Vec<i64>, child: Box<ColumnArray> },
    /// Structs of `rows` rows, one child column per field.
    Struct { rows: usize, fields: Vec<StructField> },
    /// Dictionary-encoded values: row `i` holds `values[keys[i]]`.
    Dictionary { key_type: DataType, keys: Vec<usize>, values: Box<ColumnArray> },
    /// `rows` values of any other type, known by the text of the type.
    /// Nothing is decoded from them.
    Other { data_type: String, rows: usize },
}

/// A column: its values and, where some rows are absent, the bitmap that
/// tells which rows are present.
#[derive(Debug, PartialEq, Eq)]
pub struct ColumnArray {
    /// `true` where the row holds a value.
    pub nulls: Option<Vec<bool>>,
    pub values: ColumnValues,
}

/// A group of rows, as one column per top-level field: a struct column
/// in which every row is present.
#[derive(Debug, PartialEq, Eq)]
pub struct RecordBatch {
    pub array: ColumnArray,
}

/// Whether `offsets` delimit `rows` consecutive spans that together cover
/// exactly `items` items: one more offset than rows, starting at zero,
/// never decreasing, ending at `items`.
pub open spec fn offsets_cover(offsets: Seq<i64>, rows: nat, items: nat) -> bool {
    &&& offsets.len() == rows + 1
    &&& offsets[0] == 0
    &&& offsets[rows as int] == items
    &&& forall|i: int| 0 <= i < rows ==> offsets[i] <= #[trigger] offsets[i + 1]
}

/// Whether every byte string has `size` bytes.
pub open spec fn all_of_size(values: Seq<Vec<u8>>, size: int) -> bool {
    forall|i: int| 0 <= i < values.len() ==> (#[trigger] values[i])@.len() == size
}

/// Whether every child column is well formed and has `rows` rows.
pub open spec fn fields_aligned(fields: Seq<StructField>, rows: nat) -> bool {
    forall|k: int|
        0 <= k < fields.len() ==> (#[trigger] fields[k]).column.wf() && fields[k].column.rows()
            == rows
}

impl ColumnArray {
    /// The number of rows.
    pub open spec fn rows(self) -> nat {
        match self.values {
            ColumnValues::Boolean(v) => v@.len(),
            ColumnValues::Int8(v) => v@.len(),
            ColumnValues::Int16(v) => v@.len(),
            ColumnValues::Int32(v) => v@.len(),
            ColumnValues::Int64(v) => v@.len(),
            ColumnValues::UInt8(v) => v@.len(),
            ColumnValues::UInt16(v) => v@.len(),
            ColumnValues::UInt32(v) => v@.len(),
            ColumnValues::UInt64(v) => v@.len(),
            ColumnValues::Float32(v) => v@.len(),
            ColumnValues::Float64(v) => v@.len(),
            ColumnValues::Date32(v) => v@.len(),
            ColumnValues::Utf8 { values, .. } => values@.len(),
            ColumnValues::Binary { values, .. } => values@.len(),
            ColumnValues::FixedSizeBinary { values, .. } => values@.len(),
            ColumnValues::Decimal128 { values, .. } => values@.len(),
            ColumnValues::Timestamp { values, .. } => values@.len(),
            ColumnValues::List { offsets, .. } => if offsets@.len() > 0 {
                (offsets@.len() - 1) as nat
            } else {
                0
            },
            ColumnValues::Struct { rows, .. } => rows as nat,
            ColumnValues::Dictionary { keys, .. } => keys@.len(),
            ColumnValues::Other { rows, .. } => rows as nat,
        }
    }

    /// Whether row `i` holds a value: every row does where there is no null
    /// bitmap.
    pub open spec fn present(self, i: int) -> bool {
        match self.nulls {
            None => true,
            Some(bitmap) => bitmap@[i],
        }
    }

    /// Whether the column is consistent with itself: the bitmap has one bit
    /// per row, fixed-size values have their size, list offsets cover the
    /// child exactly, struct children have the struct's row count, and every
    /// child column is well formed in turn.
    pub open spec fn wf(self) -> bool
        decreases self,
    {
        &&& self.nulls matches Some(bitmap) ==> bitmap@.len() == self.rows()
        &&& match self.values {
            ColumnValues::FixedSizeBinary { size, values } => size >= 0 && all_of_size(
                values@,
                size as int,
            ),
            ColumnValues::List { offsets, child, .. } => child.wf() && offsets_cover(
                offsets@,
                self.rows(),
                child.rows(),
            ),
            ColumnValues::Struct { rows, fields } => forall|k: int|
                0 <= k < fields@.len() ==> (#[trigger] fields@[k]).column.wf()
                    && fields@[k].column.rows() == rows,
            ColumnValues::Dictionary { values, .. } => values.wf(),
            _ => true,
        }
    }

    /// Whether `data_type` is the physical type of the column: of its
    /// values and, recursively, of its child columns.
    pub open spec fn has_type(self, data_type: DataType) -> bool
        decreases self,
    {
        match (self.values, data_type) {
            (ColumnValues::Boolean(_), DataType::Boolean) => true,
            (ColumnValues::Int8(_), DataType::Int8) => true,
            (ColumnValues::Int16(_), DataType::Int16) => true,
            (ColumnValues::Int32(_), DataType::Int32) => true,
            (ColumnValues::Int64(_), DataType::Int64) => true,
            (ColumnValues::UInt8(_), DataType::UInt8) => true,
            (ColumnValues::UInt16(_), DataType::UInt16) => true,
            (ColumnValues::UInt32(_), DataType::UInt32) => true,
            (ColumnValues::UInt64(_), DataType::UInt64) => true,
            (ColumnValues::Float32(_), DataType::Float32) => true,
            (ColumnValues::Float64(_), DataType::Float64) => true,
            (ColumnValues::Date32(_), DataType::Date32) => true,
            (ColumnValues::Utf8 { large, .. }, DataType::Utf8) => !large,
            (ColumnValues::Utf8 { large, .. }, DataType::LargeUtf8) => large,
            (ColumnValues::Binary { large, .. }, DataType::Binary) => !large,
            (ColumnValues::Binary { large, .. }, DataType::LargeBinary) => large,
            (ColumnValues::FixedSizeBinary { size, .. }, DataType::FixedSizeBinary(n)) => size
                == n,
            (
                ColumnValues::Decimal128 { precision, scale, .. },
                DataType::Decimal128(p, s),
            ) => precision == p && scale == s,
            (ColumnValues::Timestamp { unit, timezone, .. }, DataType::Timestamp(u, tz)) => unit
                == u && same_timezone(timezone, tz),
            (ColumnValues::List { large, child, .. }, DataType::List(item)) => !large
                && child.has_type(*item),
            (ColumnValues::List { large, child, .. }, DataType::LargeList(item)) => large
                && child.has_type(*item),
            (ColumnValues::Struct { fields, .. }, DataType::Struct(members)) => {
                &&& fields@.len() == members@.len()
                &&& forall|k: int|
                    0 <= k < fields@.len() ==> (#[trigger] fields@[k]).name@ == members@[k].name@
                        && fields@[k].column.has_type(members@[k].data_type)
            },
            (ColumnValues::Dictionary { key_type, values, .. }, DataType::Dictionary(k, v)) =>
                key_type.same(*k) && values.has_type(*v),
            (ColumnValues::Other { data_type: text, .. }, DataType::Other(other)) => text@
                == other@,
            _ => false,
        }
    }

    /// The number of rows.
    pub fn len(&self) -> (n: usize)
        ensures
            n == self.rows(),
    {
        match &self.values {
            ColumnValues::Boolean(v) => v.len(),
            ColumnValues::Int8(v) => v.len(),
            ColumnValues::Int16(v) => v.len(),
            ColumnValues::Int32(v) => v.len(),
            ColumnValues::Int64(v) => v.len(),
            ColumnValues::UInt8(v) => v.len(),
            ColumnValues::UInt16(v) => v.len(),
            ColumnValues::UInt32(v) => v.len(),
            ColumnValues::UInt64(v) => v.len(),
            ColumnValues::Float32(v) => v.len(),
            ColumnValues::Float64(v) => v.len(),
            ColumnValues::Date32(v) => v.len(),
            ColumnValues::Utf8 { values, .. } => values.len(),
            ColumnValues::Binary { values, .. } => values.len(),
            ColumnValues::FixedSizeBinary { values, .. } => values.len(),
            ColumnValues::Decimal128 { values, .. } => values.len(),
            ColumnValues::Timestamp { values, .. } => values.len(),
            ColumnValues::List { offsets, .. } => if offsets.len() > 0 {
                offsets.len() - 1
            } else {
                0
            },
            ColumnValues::Struct { rows, .. } => *rows,
            ColumnValues::Dictionary { keys, .. } => keys.len(),
            ColumnValues::Other { rows, .. } => *rows,
        }
    }

    /// Whether the column has no rows.
    pub fn is_empty(&self) -> (r: bool)
        ensures
            r == (self.rows() == 0),
    {
        self.len() == 0
    }

    /// Whether the column carries a null bitmap.
    pub fn has_nulls(&self) -> (r: bool)
        ensures
            r == (self.nulls is Some),
    {
        self.nulls.is_some()
    }

    /// Whether row `i` holds a value.
    pub fn is_present(&self, i: usize) -> (r: bool)
        requires
            self.wf(),
            i < self.rows(),
        ensures
            r == self.present(i as int),
    {
        match &self.nulls {
            None => true,
            Some(bitmap) => bitmap[i],
        }
    }

    /// The physical type of the column.
    #[verifier::loop_isolation(false)]
    pub fn data_type(&self) -> (r: DataType)
        ensures
            self.has_type(r),
        decreases self,
    {
        match &self.values {
            ColumnValues::Boolean(_) => DataType::Boolean,
            ColumnValues::Int8(_) => DataType::Int8,
            ColumnValues::Int16(_) => DataType::Int16,
            ColumnValues::Int32(_) => DataType::Int32,
            ColumnValues::Int64(_) => DataType::Int64,
            ColumnValues::UInt8(_) => DataType::UInt8,
            ColumnValues::UInt16(_) => DataType::UInt16,
            ColumnValues::UInt32(_) => DataType::UInt32,
            ColumnValues::UInt64(_) => DataType::UInt64,
            ColumnValues::Float32(_) => DataType::Float32,
            ColumnValues::Float64(_) => DataType::Float64,
            ColumnValues::Date32(_) => DataType::Date32,
            ColumnValues::Utf8 { large, .. } => if *large {
                DataType::LargeUtf8
            } else {
                DataType::Utf8
            },
            ColumnValues::Binary { large, .. } => if *large {
                DataType::LargeBinary
            } else {
                DataType::Binary
            },
            ColumnValues::FixedSizeBinary { size, .. } => DataType::FixedSizeBinary(*size),
            ColumnValues::Decimal128 { precision, scale, .. } => DataType::Decimal128(
                *precision,
                *scale,
            ),
            ColumnValues::Timestamp { unit, timezone, .. } => DataType::Timestamp(
                *unit,
                duplicate_timezone(timezone),
            ),
            ColumnValues::List { large, child, .. } => {
                let item = child.data_type();
                if *large {
                    DataType::LargeList(Box::new(item))
                } else {
                    DataType::List(Box::new(item))
                }
            },
            ColumnValues::Struct { fields, .. } => {
                let mut members: Vec<Field> = Vec::with_capacity(fields.len());
                let mut k: usize = 0;
                while k < fields.len()
                    invariant
                        k <= fields.len(),
                        decreases_to!(*self => *fields),
                        members@.len() == k,
                        forall|j: int|
                            0 <= j < k ==> (#[trigger] fields@[j]).name@ == members@[j].name@
                                && fields@[j].column.has_type(members@[j].data_type),
                    decreases fields.len() - k,
                {
                    proof {
                        broadcast use vstd::std_specs::vec::axiom_vec_index_decreases;
                        assert(decreases_to!(*fields => fields[k as int]));
                        assert(decreases_to!(fields[k as int] => fields[k as int].column));
                    }
                    members.push(
                        Field {
                            name: fields[k].name.clone(),
                            data_type: fields[k].column.data_type(),
                        },
                    );
                    k += 1;
                }
                DataType::Struct(members)
            },
            ColumnValues::Dictionary { key_type, values, .. } => DataType::Dictionary(
                Box::new(key_type.duplicate()),
                Box::new(values.data_type()),
            ),
            ColumnValues::Other { data_type, .. } => DataType::Other(data_type.clone()),
        }
    }

    /// Checks that the column is well formed.
    #[verifier::loop_isolation(false)]
    pub fn is_well_formed(&self) -> (r: bool)
        ensures
            r == self.wf(),
        decreases self,
    {
        let rows = self.len();
        let bitmap_fits = match &self.nulls {
            None => true,
            Some(bitmap) => bitmap.len() == rows,
        };
        if !bitmap_fits {
            return false;
        }
        match &self.values {
            ColumnValues::FixedSizeBinary { size, values } => {
                if *size < 0 {
                    return false;
                }
                let mut i: usize = 0;
                while i < values.len()
                    invariant
                        i <= values.len(),
                        *size >= 0,
                        all_of_size(values@.take(i as int), *size as int),
                    decreases values.len() - i,
                {
                    if values[i].len() as u64 != *size as u64 {
                        return false;
                    }
                    assert forall|j: int| 0 <= j < i + 1 implies (#[trigger] values@.take(
                        i + 1,
                    )[j])@.len() == *size as int by {
                        if j < i {
                            assert(values@.take(i as int)[j] == values@[j]);
                        }
                    }
                    i += 1;
                }
                assert(values@.take(values@.len() as int) =~= values@);
                true
            },
            ColumnValues::List { offsets, child, .. } => {
                if !child.is_well_formed() {
                    return false;
                }
                if offsets.len() == 0 || offsets[0] != 0 {
                    return false;
                }
                let mut i: usize = 0;
                while i < rows
                    invariant
                        i <= rows,
                        rows + 1 == offsets.len(),
                        forall|j: int| 0 <= j < i ==> offsets@[j] <= #[trigger] offsets@[j + 1],
                    decreases rows - i,
                {
                    if offsets[i] > offsets[i + 1] {
                        return false;
                    }
                    i += 1;
                }
                let last = offsets[rows];
                last >= 0 && last as u64 == child.len() as u64
            },
            ColumnValues::Struct { rows, fields } => {
                let mut k: usize = 0;
                while k < fields.len()
                    invariant
                        k <= fields.len(),
                        decreases_to!(*self => *fields),
                        fields_aligned(fields@.take(k as int), *rows as nat),
                    decreases fields.len() - k,
                {
                    proof {
                        broadcast use vstd::std_specs::vec::axiom_vec_index_decreases;
                        assert(decreases_to!(*fields => fields[k as int]));
                        assert(decreases_to!(fields[k as int] => fields[k as int].column));
                    }
                    if !fields[k].column.is_well_formed() || fields[k].column.len() != *rows {
                        assert(!fields_aligned(fields@, *rows as nat)) by {
                            let field = fields@[k as int];
                            assert(!(field.column.wf() && field.column.rows() == *rows));
                        }
                        return false;
                    }
                    assert forall|j: int| 0 <= j < k + 1 implies (#[trigger] fields@.take(
                        k + 1,
                    )[j]).column.wf() && fields@.take(k + 1)[j].column.rows() == *rows by {
                        if j < k {
                            assert(fields@.take(k as int)[j] == fields@[j]);
                        }
                    }
                    k += 1;
                }
                assert(fields@.take(fields@.len() as int) =~= fields@);
                true
            },
            ColumnValues::Dictionary { values, .. } => values.is_well_formed(),
            _ => true,
        }
    }
}

impl RecordBatch {
    /// Whether the batch is a well-formed struct column without nulls.
    pub open spec fn wf(self) -> bool {
        &&& self.array.values is Struct
        &&& self.array.nulls is None
        &&& self.array.wf()
    }

    /// The batch of `rows` rows with the given columns.
    pub fn new(rows: usize, columns: Vec<StructField>) -> (r: RecordBatch)
        ensures
            r.array.nulls is None,
            r.array.values == (ColumnValues::Struct { rows, fields: columns }),
    {
        RecordBatch { array: ColumnArray { nulls: None, values: ColumnValues::Struct { rows, fields: columns } } }
    }

    /// The number of rows.
    pub fn num_rows(&self) -> (n: usize)
        ensures
            n == self.array.rows(),
    {
        self.array.len()
    }

    /// Checks that the batch is well formed.
    pub fn is_well_formed(&self) -> (r: bool)
        ensures
            r == self.wf(),
    {
        let is_struct = match &self.array.values {
            ColumnValues::Struct { .. } => true,
            _ => false,
        };
        is_struct && !self.array.has_nulls() && self.array.is_well_formed()
    }

    /// The batch as a struct column.
    pub fn into_struct_array(self) -> (array: ColumnArray)
        ensures
            array == self.array,
    {
        self.array
    }
}

} // verus!
