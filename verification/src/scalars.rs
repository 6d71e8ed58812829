//! Decoding one row of a column of scalars.
use vstd::prelude::*;
use vstd::string::StringExecFns;
use crate::array::{ColumnArray, ColumnValues};
use crate::datatypes::TimeUnit;
use crate::deserialize::{DeserializationError, Fault, DECIMAL_PRECISION, DECIMAL_SCALE};
use crate::text::{int_text, push_int};
use crate::value::{duplicate_bytes, Datum, RowType, Value};
use crate::{Date, NaiveDecimal128, Timestamp};

verus! {

/// The number of nanoseconds in a second.
pub const NANOSECONDS_PER_SECOND: i64 = 1_000_000_000;

/// The quotient of the division that truncates toward zero; `b` is
/// positive.
pub open spec fn tdiv(a: int, b: int) -> int {
    if a >= 0 {
        a / b
    } else {
        -((-a) / b)
    }
}

/// The remainder of the division that truncates toward zero: it has the
/// sign of `a`; `b` is positive.
pub open spec fn tmod(a: int, b: int) -> int {
    if a >= 0 {
        a % b
    } else {
        -((-a) % b)
    }
}

/// A count of `unit` since the epoch, split in seconds and nanoseconds.
/// Both parts carry the sign of a negative count.
pub open spec fn split_timestamp(count: int, unit: TimeUnit) -> Datum {
    Datum::Timestamp {
        seconds: tdiv(count, unit.ratio()),
        nanoseconds: tmod(count, unit.ratio()) * (NANOSECONDS_PER_SECOND as int / unit.ratio()),
    }
}

/// A decimal count of nanoseconds, split in seconds and nanoseconds, where
/// the seconds fit 64 bits.
pub open spec fn split_decimal(count: int) -> Result<Datum, Fault> {
    let seconds = tdiv(count, NANOSECONDS_PER_SECOND as int);
    if i64::MIN <= seconds <= i64::MAX {
        Ok(
            Datum::Timestamp {
                seconds,
                nanoseconds: tmod(count, NANOSECONDS_PER_SECOND as int),
            },
        )
    } else {
        Err(Fault::TimestampOverflow { seconds })
    }
}

/// Splits a decimal with nine digits after the point, a count of
/// nanoseconds, in seconds and nanoseconds.
pub fn timestamp_from_decimal128(s: i128) -> (r: Result<Timestamp, DeserializationError>)
    ensures
        match split_decimal(s as int) {
            Ok(datum) => r matches Ok(t) && Value::Timestamp(t).model() == datum,
            Err(fault) => r matches Err(e) && e.reports(fault),
        },
{
    let dividend: i128 = 1_000_000_000;
    let seconds = s / dividend;
    let nanoseconds = s % dividend;
    if seconds < -9223372036854775808 || seconds > 9223372036854775807 {
        Err(DeserializationError::TimestampOverflow { seconds })
    } else {
        Ok(Timestamp { seconds: seconds as i64, nanoseconds: nanoseconds as i64 })
    }
}

/// Splits a count of `unit` in seconds and nanoseconds.
pub fn timestamp_from_count(count: i64, unit: &TimeUnit) -> (r: Timestamp)
    ensures
        r.seconds == tdiv(count as int, unit.ratio()),
        r.nanoseconds == tmod(count as int, unit.ratio()) * (NANOSECONDS_PER_SECOND as int
            / unit.ratio()),
        Value::Timestamp(r).model() == split_timestamp(count as int, *unit),
{
    match unit {
        TimeUnit::Second => {
            assert(tdiv(count as int, 1) == count && tmod(count as int, 1) == 0) by {
                let a = count as int;
                assert(a / 1 == a && a % 1 == 0 && (-a) / 1 == -a && (-a) % 1 == 0)
                    by (nonlinear_arith);
            }
            Timestamp { seconds: count, nanoseconds: 0 }
        },
        TimeUnit::Millisecond => Timestamp {
            seconds: count / 1_000,
            nanoseconds: (count % 1_000) * 1_000_000,
        },
        TimeUnit::Microsecond => Timestamp {
            seconds: count / 1_000_000,
            nanoseconds: (count % 1_000_000) * 1_000,
        },
        TimeUnit::Nanosecond => Timestamp {
            seconds: count / 1_000_000_000,
            nanoseconds: count % 1_000_000_000,
        },
    }
}

impl ColumnValues {
    /// The name of the physical kind.
    pub open spec fn kind_text(self) -> Seq<char> {
        match self {
            ColumnValues::Boolean(_) => "Boolean"@,
            ColumnValues::Int8(_) => "Int8"@,
            ColumnValues::Int16(_) => "Int16"@,
            ColumnValues::Int32(_) => "Int32"@,
            ColumnValues::Int64(_) => "Int64"@,
            ColumnValues::UInt8(_) => "UInt8"@,
            ColumnValues::UInt16(_) => "UInt16"@,
            ColumnValues::UInt32(_) => "UInt32"@,
            ColumnValues::UInt64(_) => "UInt64"@,
            ColumnValues::Float32(_) => "Float32"@,
            ColumnValues::Float64(_) => "Float64"@,
            ColumnValues::Date32(_) => "Date32"@,
            ColumnValues::Utf8 { large, .. } => if large {
                "LargeUtf8"@
            } else {
                "Utf8"@
            },
            ColumnValues::Binary { large, .. } => if large {
                "LargeBinary"@
            } else {
                "Binary"@
            },
            ColumnValues::FixedSizeBinary { .. } => "FixedSizeBinary"@,
            ColumnValues::Decimal128 { .. } => "Decimal128"@,
            ColumnValues::Timestamp { .. } => "Timestamp"@,
            ColumnValues::List { large, .. } => if large {
                "LargeList"@
            } else {
                "List"@
            },
            ColumnValues::Struct { .. } => "Struct"@,
            ColumnValues::Dictionary { .. } => "Dictionary"@,
            ColumnValues::Other { data_type, .. } => data_type@,
        }
    }

    /// The name of the physical kind.
    pub fn kind(&self) -> (r: &str)
        ensures
            r@ == self.kind_text(),
    {
        match self {
            ColumnValues::Boolean(_) => "Boolean",
            ColumnValues::Int8(_) => "Int8",
            ColumnValues::Int16(_) => "Int16",
            ColumnValues::Int32(_) => "Int32",
            ColumnValues::Int64(_) => "Int64",
            ColumnValues::UInt8(_) => "UInt8",
            ColumnValues::UInt16(_) => "UInt16",
            ColumnValues::UInt32(_) => "UInt32",
            ColumnValues::UInt64(_) => "UInt64",
            ColumnValues::Float32(_) => "Float32",
            ColumnValues::Float64(_) => "Float64",
            ColumnValues::Date32(_) => "Date32",
            ColumnValues::Utf8 { large, .. } => if *large {
                "LargeUtf8"
            } else {
                "Utf8"
            },
            ColumnValues::Binary { large, .. } => if *large {
                "LargeBinary"
            } else {
                "Binary"
            },
            ColumnValues::FixedSizeBinary { .. } => "FixedSizeBinary",
            ColumnValues::Decimal128 { .. } => "Decimal128",
            ColumnValues::Timestamp { .. } => "Timestamp",
            ColumnValues::List { large, .. } => if *large {
                "LargeList"
            } else {
                "List"
            },
            ColumnValues::Struct { .. } => "Struct",
            ColumnValues::Dictionary { .. } => "Dictionary",
            ColumnValues::Other { data_type, .. } => data_type.as_str(),
        }
    }
}

impl RowType {
    /// Whether the shape is a scalar: neither a list, nor a record, nor
    /// optional.
    pub open spec fn is_scalar(self) -> bool {
        !(self is List || self is Struct || self is Optional)
    }

    /// The text of the error for a column with nulls.
    pub open spec fn null_text(self) -> Seq<char> {
        self.name_text() + " column contains nulls"@
    }

    /// The text of the error for a column of a physical kind that the shape
    /// is not decoded from.
    pub open spec fn cast_text(self, values: ColumnValues) -> Seq<char> {
        "Could not cast "@ + values.kind_text() + " array to "@ + self.name_text()
    }

    /// Whether a scalar shape is decoded from values of this physical kind,
    /// row by row.
    pub open spec fn reads(self, values: ColumnValues) -> bool {
        match (self, values) {
            (RowType::Boolean, ColumnValues::Boolean(_)) => true,
            (RowType::Int8, ColumnValues::Int8(_)) => true,
            (RowType::Int16, ColumnValues::Int16(_)) => true,
            (RowType::Int32, ColumnValues::Int32(_)) => true,
            (RowType::Int64, ColumnValues::Int64(_)) => true,
            (RowType::UInt8, ColumnValues::UInt8(_)) => true,
            (RowType::UInt16, ColumnValues::UInt16(_)) => true,
            (RowType::UInt32, ColumnValues::UInt32(_)) => true,
            (RowType::UInt64, ColumnValues::UInt64(_)) => true,
            (RowType::Float32, ColumnValues::Float32(_)) => true,
            (RowType::Float64, ColumnValues::Float64(_)) => true,
            (RowType::Date, ColumnValues::Date32(_)) => true,
            (RowType::String, ColumnValues::Utf8 { .. }) => true,
            (RowType::Binary, ColumnValues::Binary { .. }) => true,
            (RowType::FixedSizeBinary(_), ColumnValues::FixedSizeBinary { .. }) => true,
            (RowType::Decimal128, ColumnValues::Decimal128 { .. }) => true,
            (RowType::Timestamp, ColumnValues::Timestamp { .. }) => true,
            (RowType::Timestamp, ColumnValues::Decimal128 { precision, scale, .. }) => precision
                == DECIMAL_PRECISION && scale == DECIMAL_SCALE,
            _ => false,
        }
    }

    /// The fault of a scalar shape on values that it does not read: a
    /// timestamp says which decimal type it wants, every other shape names
    /// the kind that it found.
    pub open spec fn cast_fault(self, values: ColumnValues) -> Fault {
        match (self, values) {
            (RowType::Timestamp, ColumnValues::Decimal128 { precision, scale, .. }) =>
                Fault::MismatchedColumnDataType(
                "Timestamp can only be decoded from Decimal128(38, 9), not Decimal128("@ + int_text(
                    precision as int,
                ) + ", "@ + int_text(scale as int) + ")"@,
            ),
            _ => Fault::MismatchedColumnDataType(self.cast_text(values)),
        }
    }

    /// What row `i` of a column decodes to, for a scalar shape that reads
    /// the column.
    ///
    /// Numbers, text and byte strings are taken as they are.  A date is
    /// widened.  A fixed-size byte string must have the size of the shape.
    /// A timestamp is split in seconds and nanoseconds.
    pub open spec fn converted(self, src: ColumnArray, i: int) -> Result<Datum, Fault> {
        match (self, src.values) {
            (RowType::Boolean, ColumnValues::Boolean(v)) => Ok(Datum::Boolean(v@[i])),
            (RowType::Int8, ColumnValues::Int8(v)) => Ok(Datum::Int8(v@[i])),
            (RowType::Int16, ColumnValues::Int16(v)) => Ok(Datum::Int16(v@[i])),
            (RowType::Int32, ColumnValues::Int32(v)) => Ok(Datum::Int32(v@[i])),
            (RowType::Int64, ColumnValues::Int64(v)) => Ok(Datum::Int64(v@[i])),
            (RowType::UInt8, ColumnValues::UInt8(v)) => Ok(Datum::UInt8(v@[i])),
            (RowType::UInt16, ColumnValues::UInt16(v)) => Ok(Datum::UInt16(v@[i])),
            (RowType::UInt32, ColumnValues::UInt32(v)) => Ok(Datum::UInt32(v@[i])),
            (RowType::UInt64, ColumnValues::UInt64(v)) => Ok(Datum::UInt64(v@[i])),
            (RowType::Float32, ColumnValues::Float32(v)) => Ok(Datum::Float32(v@[i])),
            (RowType::Float64, ColumnValues::Float64(v)) => Ok(Datum::Float64(v@[i])),
            (RowType::Date, ColumnValues::Date32(v)) => Ok(Datum::Date(v@[i] as int)),
            (RowType::String, ColumnValues::Utf8 { values, .. }) => Ok(Datum::String(values@[i]@)),
            (RowType::Binary, ColumnValues::Binary { values, .. }) => Ok(
                Datum::Binary(values@[i]@),
            ),
            (RowType::FixedSizeBinary(n), ColumnValues::FixedSizeBinary { values, .. }) => if values@[i]@.len()
                == n {
                Ok(Datum::FixedSizeBinary(values@[i]@))
            } else {
                Err(Fault::MismatchedBinarySize { src: values@[i]@.len(), dst: n as nat })
            },
            (RowType::Decimal128, ColumnValues::Decimal128 { values, .. }) => Ok(
                Datum::Decimal128(values@[i] as int),
            ),
            (RowType::Timestamp, ColumnValues::Timestamp { unit, values, .. }) => Ok(
                split_timestamp(values@[i] as int, unit),
            ),
            (RowType::Timestamp, ColumnValues::Decimal128 { values, .. }) => split_decimal(
                values@[i] as int,
            ),
            _ => Ok(Datum::Null),
        }
    }

    /// Whether the shape reads the values of the column row by row.
    pub fn reads_column(&self, src: &ColumnArray) -> (r: bool)
        ensures
            r == self.reads(src.values),
    {
        match (self, &src.values) {
            (RowType::Boolean, ColumnValues::Boolean(_)) => true,
            (RowType::Int8, ColumnValues::Int8(_)) => true,
            (RowType::Int16, ColumnValues::Int16(_)) => true,
            (RowType::Int32, ColumnValues::Int32(_)) => true,
            (RowType::Int64, ColumnValues::Int64(_)) => true,
            (RowType::UInt8, ColumnValues::UInt8(_)) => true,
            (RowType::UInt16, ColumnValues::UInt16(_)) => true,
            (RowType::UInt32, ColumnValues::UInt32(_)) => true,
            (RowType::UInt64, ColumnValues::UInt64(_)) => true,
            (RowType::Float32, ColumnValues::Float32(_)) => true,
            (RowType::Float64, ColumnValues::Float64(_)) => true,
            (RowType::Date, ColumnValues::Date32(_)) => true,
            (RowType::String, ColumnValues::Utf8 { .. }) => true,
            (RowType::Binary, ColumnValues::Binary { .. }) => true,
            (RowType::FixedSizeBinary(_), ColumnValues::FixedSizeBinary { .. }) => true,
            (RowType::Decimal128, ColumnValues::Decimal128 { .. }) => true,
            (RowType::Timestamp, ColumnValues::Timestamp { .. }) => true,
            (RowType::Timestamp, ColumnValues::Decimal128 { precision, scale, .. }) => *precision
                == DECIMAL_PRECISION && *scale == DECIMAL_SCALE,
            _ => false,
        }
    }

    /// The error of a shape on a column of a physical kind, named `kind`,
    /// that it is not decoded from.
    pub fn mismatch_error(&self, kind: &str) -> (e: DeserializationError)
        ensures
            e.reports(
                Fault::MismatchedColumnDataType(
                    "Could not cast "@ + kind@ + " array to "@ + self.name_text(),
                ),
            ),
    {
        let mut message = String::from_str("Could not cast ");
        message.append(kind);
        message.append(" array to ");
        self.push_name(&mut message);
        assert(message@ =~= "Could not cast "@ + kind@ + " array to "@ + self.name_text());
        DeserializationError::MismatchedColumnDataType(message)
    }

    /// The error of a scalar shape on a column that it does not read.
    pub fn cast_error(&self, src: &ColumnArray) -> (e: DeserializationError)
        ensures
            e.reports(self.cast_fault(src.values)),
    {
        match (self, &src.values) {
            (RowType::Timestamp, ColumnValues::Decimal128 { precision, scale, .. }) => {
                let mut message = String::from_str(
                    "Timestamp can only be decoded from Decimal128(38, 9), not Decimal128(",
                );
                push_int(&mut message, *precision as i128);
                message.append(", ");
                push_int(&mut message, *scale as i128);
                message.append(")");
                assert(message@ =~= "Timestamp can only be decoded from Decimal128(38, 9), not Decimal128("@
                    + int_text(*precision as int) + ", "@ + int_text(*scale as int) + ")"@);
                DeserializationError::MismatchedColumnDataType(message)
            },
            _ => self.mismatch_error(src.values.kind()),
        }
    }

    /// The error of a shape that is not optional on a column with nulls.
    pub fn null_error(&self) -> (e: DeserializationError)
        ensures
            e.reports(Fault::UnexpectedNull(self.null_text())),
    {
        let mut message = self.name();
        message.append(" column contains nulls");
        DeserializationError::UnexpectedNull(message)
    }

    /// Decodes row `i` of a column that the shape reads.
    pub fn convert(&self, src: &ColumnArray, i: usize) -> (r: Result<Value, DeserializationError>)
        requires
            self.reads(src.values),
            i < src.rows(),
        ensures
            match self.converted(*src, i as int) {
                Ok(datum) => r matches Ok(v) && v.model() == datum,
                Err(fault) => r matches Err(e) && e.reports(fault),
            },
    {
        match (self, &src.values) {
            (RowType::Boolean, ColumnValues::Boolean(v)) => Ok(Value::Boolean(v[i])),
            (RowType::Int8, ColumnValues::Int8(v)) => Ok(Value::Int8(v[i])),
            (RowType::Int16, ColumnValues::Int16(v)) => Ok(Value::Int16(v[i])),
            (RowType::Int32, ColumnValues::Int32(v)) => Ok(Value::Int32(v[i])),
            (RowType::Int64, ColumnValues::Int64(v)) => Ok(Value::Int64(v[i])),
            (RowType::UInt8, ColumnValues::UInt8(v)) => Ok(Value::UInt8(v[i])),
            (RowType::UInt16, ColumnValues::UInt16(v)) => Ok(Value::UInt16(v[i])),
            (RowType::UInt32, ColumnValues::UInt32(v)) => Ok(Value::UInt32(v[i])),
            (RowType::UInt64, ColumnValues::UInt64(v)) => Ok(Value::UInt64(v[i])),
            (RowType::Float32, ColumnValues::Float32(v)) => Ok(Value::Float32(v[i])),
            (RowType::Float64, ColumnValues::Float64(v)) => Ok(Value::Float64(v[i])),
            (RowType::Date, ColumnValues::Date32(v)) => Ok(Value::Date(Date(v[i] as i64))),
            (RowType::String, ColumnValues::Utf8 { values, .. }) => Ok(
                Value::String(values[i].clone()),
            ),
            (RowType::Binary, ColumnValues::Binary { values, .. }) => Ok(
                Value::Binary(duplicate_bytes(&values[i])),
            ),
            (RowType::FixedSizeBinary(n), ColumnValues::FixedSizeBinary { values, .. }) => {
                if values[i].len() == *n {
                    Ok(Value::FixedSizeBinary(duplicate_bytes(&values[i])))
                } else {
                    Err(DeserializationError::MismatchedBinarySize { src: values[i].len(), dst: *n })
                }
            },
            (RowType::Decimal128, ColumnValues::Decimal128 { values, .. }) => Ok(
                Value::Decimal128(NaiveDecimal128(values[i])),
            ),
            (RowType::Timestamp, ColumnValues::Timestamp { unit, values, .. }) => Ok(
                Value::Timestamp(timestamp_from_count(values[i], unit)),
            ),
            (RowType::Timestamp, ColumnValues::Decimal128 { values, .. }) => {
                match timestamp_from_decimal128(values[i]) {
                    Ok(t) => Ok(Value::Timestamp(t)),
                    Err(e) => Err(e),
                }
            },
            _ => Ok(Value::Null),
        }
    }
}

} // verus!
