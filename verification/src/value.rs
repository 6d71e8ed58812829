//! Row shapes and row values.
//!
//! A [`RowType`] says what a row is expected to look like; a [`Value`] is one
//! decoded row, or one part of it.  Contracts speak of values through their
//! mathematical model, [`Datum`].
use vstd::prelude::*;
use vstd::string::StringExecFns;
use crate::text::{nat_text, push_nat};
use crate::{Date, NaiveDecimal128, Timestamp};

verus! {

/// The shape that a row, or a part of a row, is expected to have.
#[derive(Debug, PartialEq, Eq)]
pub enum RowType {
    Boolean,
    Int8,
    Int16,
    Int32,
    Int64,
    UInt8,
    UInt16,
    UInt32,
    UInt64,
    /// A single-precision number, held as its IEEE 754 bit pattern.
    Float32,
    /// A double-precision number, held as its IEEE 754 bit pattern.
    Float64,
    /// Days since the epoch.
    Date,
    /// Text.
    String,
    /// A byte string of any length.
    Binary,
    /// A byte string of exactly this many bytes.
    FixedSizeBinary(usize),
    /// A scale-less 128-bit decimal.
    Decimal128,
    /// Seconds and nanoseconds since the epoch.
    Timestamp,
    /// A list of items of one shape.
    List(Box<RowType>),
    /// A record of named fields.
    Struct(RecordShape),
    /// A value of the inner shape, or no value.
    Optional(Box<RowType>),
}

/// The shape of a record: its name and its fields, in the order of the
/// physical columns.
#[derive(Debug, PartialEq, Eq)]
pub struct RecordShape {
    pub name: String,
    pub fields: Vec<RecordField>,
}

/// One field of a record shape.
#[derive(Debug, PartialEq, Eq)]
pub struct RecordField {
    pub name: String,
    pub row_type: RowType,
}

/// One decoded row, or one part of it.
#[derive(Debug, PartialEq, Eq)]
pub enum Value {
    /// No value: what an absent row decodes to in an optional shape.
    Null,
    Boolean(bool),
    Int8(i8),
    Int16(i16),
    Int32(i32),
    Int64(i64),
    UInt8(u8),
    UInt16(u16),
    UInt32(u32),
    UInt64(u64),
    /// The IEEE 754 bit pattern of a single-precision number.
    Float32(u32),
    /// The IEEE 754 bit pattern of a double-precision number.
    Float64(u64),
    Date(Date),
    String(String),
    Binary(Vec<u8>),
    FixedSizeBinary(Vec<u8>),
    Decimal128(NaiveDecimal128),
    Timestamp(Timestamp),
    List(Vec<Value>),
    /// The values of the fields of a record, in the order of its shape.
    Struct(Vec<Value>),
}

/// The mathematical model of a [`Value`].
pub ghost enum Datum {
    Null,
    Boolean(bool),
    Int8(i8),
    Int16(i16),
    Int32(i32),
    Int64(i64),
    UInt8(u8),
    UInt16(u16),
    UInt32(u32),
    UInt64(u64),
    Float32(u32),
    Float64(u64),
    Date(int),
    String(Seq<char>),
    Binary(Seq<u8>),
    FixedSizeBinary(Seq<u8>),
    Decimal128(int),
    Timestamp { seconds: int, nanoseconds: int },
    List(Seq<Datum>),
    Struct(Seq<Datum>),
}

/// The models of a sequence of values, one for one.
pub open spec fn models(values: Seq<Value>) -> Seq<Datum>
    decreases values,
{
    Seq::new(
        values.len(),
        |i: int|
            if 0 <= i < values.len() {
                values[i].model()
            } else {
                Datum::Null
            },
    )
}

/// The default values of the first `n` fields.
pub open spec fn default_data(fields: Seq<RecordField>, n: nat) -> Seq<Datum>
    decreases fields, n,
{
    Seq::new(
        n,
        |k: int|
            if 0 <= k < fields.len() {
                fields[k].row_type.default_datum()
            } else {
                Datum::Null
            },
    )
}

impl Value {
    /// What the value stands for.
    pub open spec fn model(self) -> Datum
        decreases self,
    {
        match self {
            Value::Null => Datum::Null,
            Value::Boolean(x) => Datum::Boolean(x),
            Value::Int8(x) => Datum::Int8(x),
            Value::Int16(x) => Datum::Int16(x),
            Value::Int32(x) => Datum::Int32(x),
            Value::Int64(x) => Datum::Int64(x),
            Value::UInt8(x) => Datum::UInt8(x),
            Value::UInt16(x) => Datum::UInt16(x),
            Value::UInt32(x) => Datum::UInt32(x),
            Value::UInt64(x) => Datum::UInt64(x),
            Value::Float32(x) => Datum::Float32(x),
            Value::Float64(x) => Datum::Float64(x),
            Value::Date(x) => Datum::Date(x.0 as int),
            Value::String(x) => Datum::String(x@),
            Value::Binary(x) => Datum::Binary(x@),
            Value::FixedSizeBinary(x) => Datum::FixedSizeBinary(x@),
            Value::Decimal128(x) => Datum::Decimal128(x.0 as int),
            Value::Timestamp(x) => Datum::Timestamp {
                seconds: x.seconds as int,
                nanoseconds: x.nanoseconds as int,
            },
            Value::List(items) => Datum::List(models(items@)),
            Value::Struct(fields) => Datum::Struct(models(fields@)),
        }
    }

    /// A copy of the value.
    pub fn duplicate(&self) -> (r: Value)
        ensures
            r.model() == self.model(),
        decreases self,
    {
        match self {
            Value::Null => Value::Null,
            Value::Boolean(x) => Value::Boolean(*x),
            Value::Int8(x) => Value::Int8(*x),
            Value::Int16(x) => Value::Int16(*x),
            Value::Int32(x) => Value::Int32(*x),
            Value::Int64(x) => Value::Int64(*x),
            Value::UInt8(x) => Value::UInt8(*x),
            Value::UInt16(x) => Value::UInt16(*x),
            Value::UInt32(x) => Value::UInt32(*x),
            Value::UInt64(x) => Value::UInt64(*x),
            Value::Float32(x) => Value::Float32(*x),
            Value::Float64(x) => Value::Float64(*x),
            Value::Date(x) => Value::Date(Date(x.0)),
            Value::String(x) => Value::String(x.clone()),
            Value::Binary(x) => Value::Binary(duplicate_bytes(x)),
            Value::FixedSizeBinary(x) => Value::FixedSizeBinary(duplicate_bytes(x)),
            Value::Decimal128(x) => Value::Decimal128(NaiveDecimal128(x.0)),
            Value::Timestamp(x) => Value::Timestamp(
                Timestamp { seconds: x.seconds, nanoseconds: x.nanoseconds },
            ),
            Value::List(items) => Value::List(duplicate_all(items)),
            Value::Struct(fields) => Value::Struct(duplicate_all(fields)),
        }
    }
}

impl Clone for Value {
    fn clone(&self) -> (r: Value)
        ensures
            r.model() == self.model(),
    {
        self.duplicate()
    }
}

/// A copy of a byte string.
pub fn duplicate_bytes(bytes: &Vec<u8>) -> (r: Vec<u8>)
    ensures
        r@ == bytes@,
{
    let mut out: Vec<u8> = Vec::with_capacity(bytes.len());
    let mut i: usize = 0;
    while i < bytes.len()
        invariant
            i <= bytes.len(),
            out@ == bytes@.take(i as int),
        decreases bytes.len() - i,
    {
        out.push(bytes[i]);
        assert(out@ =~= bytes@.take(i + 1));
        i += 1;
    }
    assert(bytes@.take(bytes@.len() as int) =~= bytes@);
    out
}

/// Copies of the values, in their order.
pub fn duplicate_all(values: &Vec<Value>) -> (r: Vec<Value>)
    ensures
        models(r@) == models(values@),
    decreases values,
{
    let mut out: Vec<Value> = Vec::with_capacity(values.len());
    let mut i: usize = 0;
    while i < values.len()
        invariant
            i <= values.len(),
            out@.len() == i,
            forall|j: int| 0 <= j < i ==> out@[j].model() == values@[j].model(),
        decreases values.len() - i,
    {
        out.push(values[i].duplicate());
        i += 1;
    }
    assert(models(out@) =~= models(values@));
    out
}

impl RowType {
    /// The name of the shape, as diagnostics show it.
    pub open spec fn name_text(self) -> Seq<char>
        decreases self,
    {
        match self {
            RowType::Boolean => "bool"@,
            RowType::Int8 => "i8"@,
            RowType::Int16 => "i16"@,
            RowType::Int32 => "i32"@,
            RowType::Int64 => "i64"@,
            RowType::UInt8 => "u8"@,
            RowType::UInt16 => "u16"@,
            RowType::UInt32 => "u32"@,
            RowType::UInt64 => "u64"@,
            RowType::Float32 => "f32"@,
            RowType::Float64 => "f64"@,
            RowType::Date => "Date"@,
            RowType::String => "String"@,
            RowType::Binary => "Box<[u8]>"@,
            RowType::FixedSizeBinary(n) => "[u8; "@ + nat_text(n as nat) + "]"@,
            RowType::Decimal128 => "NaiveDecimal128"@,
            RowType::Timestamp => "Timestamp"@,
            RowType::List(inner) => "Vec<"@ + inner.name_text() + ">"@,
            RowType::Struct(shape) => shape.name@,
            RowType::Optional(inner) => "Option<"@ + inner.name_text() + ">"@,
        }
    }

    /// The value that a destination holds for this shape before anything is
    /// decoded into it: zero, empty, or no value.
    pub open spec fn default_datum(self) -> Datum
        decreases self,
    {
        match self {
            RowType::Boolean => Datum::Boolean(false),
            RowType::Int8 => Datum::Int8(0),
            RowType::Int16 => Datum::Int16(0),
            RowType::Int32 => Datum::Int32(0),
            RowType::Int64 => Datum::Int64(0),
            RowType::UInt8 => Datum::UInt8(0),
            RowType::UInt16 => Datum::UInt16(0),
            RowType::UInt32 => Datum::UInt32(0),
            RowType::UInt64 => Datum::UInt64(0),
            RowType::Float32 => Datum::Float32(0),
            RowType::Float64 => Datum::Float64(0),
            RowType::Date => Datum::Date(0),
            RowType::String => Datum::String(Seq::empty()),
            RowType::Binary => Datum::Binary(Seq::empty()),
            RowType::FixedSizeBinary(n) => Datum::FixedSizeBinary(Seq::new(n as nat, |i: int| 0u8)),
            RowType::Decimal128 => Datum::Decimal128(0),
            RowType::Timestamp => Datum::Timestamp { seconds: 0, nanoseconds: 0 },
            RowType::List(_) => Datum::List(Seq::empty()),
            RowType::Struct(shape) => Datum::Struct(
                default_data(shape.fields@, shape.fields@.len()),
            ),
            RowType::Optional(_) => Datum::Null,
        }
    }

    /// Appends the name of the shape to `out`.
    pub fn push_name(&self, out: &mut String)
        ensures
            final(out)@ == old(out)@ + self.name_text(),
        decreases self,
    {
        let ghost before = out@;
        match self {
            RowType::Boolean => out.append("bool"),
            RowType::Int8 => out.append("i8"),
            RowType::Int16 => out.append("i16"),
            RowType::Int32 => out.append("i32"),
            RowType::Int64 => out.append("i64"),
            RowType::UInt8 => out.append("u8"),
            RowType::UInt16 => out.append("u16"),
            RowType::UInt32 => out.append("u32"),
            RowType::UInt64 => out.append("u64"),
            RowType::Float32 => out.append("f32"),
            RowType::Float64 => out.append("f64"),
            RowType::Date => out.append("Date"),
            RowType::String => out.append("String"),
            RowType::Binary => out.append("Box<[u8]>"),
            RowType::FixedSizeBinary(n) => {
                out.append("[u8; ");
                push_nat(out, *n as u128);
                out.append("]");
                assert(out@ =~= before + self.name_text());
            },
            RowType::Decimal128 => out.append("NaiveDecimal128"),
            RowType::Timestamp => out.append("Timestamp"),
            RowType::List(inner) => {
                out.append("Vec<");
                inner.push_name(out);
                out.append(">");
                assert(out@ =~= before + self.name_text());
            },
            RowType::Struct(shape) => out.append(shape.name.as_str()),
            RowType::Optional(inner) => {
                out.append("Option<");
                inner.push_name(out);
                out.append(">");
                assert(out@ =~= before + self.name_text());
            },
        }
    }

    /// The name of the shape, as diagnostics show it.
    pub fn name(&self) -> (r: String)
        ensures
            r@ == self.name_text(),
    {
        let mut out = String::new();
        self.push_name(&mut out);
        assert(out@ =~= self.name_text());
        out
    }

    /// The default value of the shape.
    #[verifier::loop_isolation(false)]
    pub fn default_value(&self) -> (r: Value)
        ensures
            r.model() == self.default_datum(),
        decreases self,
    {
        match self {
            RowType::Boolean => Value::Boolean(false),
            RowType::Int8 => Value::Int8(0),
            RowType::Int16 => Value::Int16(0),
            RowType::Int32 => Value::Int32(0),
            RowType::Int64 => Value::Int64(0),
            RowType::UInt8 => Value::UInt8(0),
            RowType::UInt16 => Value::UInt16(0),
            RowType::UInt32 => Value::UInt32(0),
            RowType::UInt64 => Value::UInt64(0),
            RowType::Float32 => Value::Float32(0),
            RowType::Float64 => Value::Float64(0),
            RowType::Date => Value::Date(Date(0)),
            RowType::String => Value::String(String::new()),
            RowType::Binary => Value::Binary(Vec::new()),
            RowType::FixedSizeBinary(n) => {
                let mut bytes: Vec<u8> = Vec::new();
                let mut i: usize = 0;
                while i < *n
                    invariant
                        i <= *n,
                        bytes@ == Seq::new(i as nat, |j: int| 0u8),
                    decreases *n - i,
                {
                    bytes.push(0);
                    assert(bytes@ =~= Seq::new((i + 1) as nat, |j: int| 0u8));
                    i += 1;
                }
                Value::FixedSizeBinary(bytes)
            },
            RowType::Decimal128 => Value::Decimal128(NaiveDecimal128(0)),
            RowType::Timestamp => Value::Timestamp(Timestamp { seconds: 0, nanoseconds: 0 }),
            RowType::List(_) => {
                let items: Vec<Value> = Vec::new();
                assert(models(items@) =~= Seq::<Datum>::empty());
                Value::List(items)
            },
            RowType::Struct(shape) => {
                let mut fields: Vec<Value> = Vec::with_capacity(shape.fields.len());
                let mut k: usize = 0;
                while k < shape.fields.len()
                    invariant
                        k <= shape.fields.len(),
                        decreases_to!(*self => shape.fields),
                        fields@.len() == k,
                        forall|j: int|
                            0 <= j < k ==> fields@[j].model()
                                == shape.fields@[j].row_type.default_datum(),
                    decreases shape.fields.len() - k,
                {
                    proof {
                        broadcast use vstd::std_specs::vec::axiom_vec_index_decreases;
                        assert(decreases_to!(shape.fields => shape.fields[k as int]));
                        assert(decreases_to!(shape.fields[k as int] => shape.fields[k as int].row_type));
                    }
                    fields.push(shape.fields[k].row_type.default_value());
                    k += 1;
                }
                assert(models(fields@) =~= default_data(shape.fields@, shape.fields@.len()));
                Value::Struct(fields)
            },
            RowType::Optional(_) => Value::Null,
        }
    }
}

} // verus!
