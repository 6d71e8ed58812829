//! Descriptors of the physical layout of a column.
use vstd::prelude::*;
use vstd::string::StringExecFns;
use crate::text::{int_text, push_int};

verus! {

/// The unit in which a timestamp column counts.
#[derive(Clone, Copy, Debug, PartialEq, Eq, Hash)]
pub enum TimeUnit {
    Second,
    Millisecond,
    Microsecond,
    Nanosecond,
}

impl TimeUnit {
    /// The name of the unit.
    pub open spec fn text(self) -> Seq<char> {
        match self {
            TimeUnit::Second => "Second"@,
            TimeUnit::Millisecond => "Millisecond"@,
            TimeUnit::Microsecond => "Microsecond"@,
            TimeUnit::Nanosecond => "Nanosecond"@,
        }
    }

    /// How many of this unit make one second.
    pub open spec fn ratio(self) -> int {
        match self {
            TimeUnit::Second => 1,
            TimeUnit::Millisecond => 1_000,
            TimeUnit::Microsecond => 1_000_000,
            TimeUnit::Nanosecond => 1_000_000_000,
        }
    }

    /// The name of the unit.
    pub fn name(&self) -> (r: &'static str)
        ensures
            r@ == self.text(),
    {
        match self {
            TimeUnit::Second => "Second",
            TimeUnit::Millisecond => "Millisecond",
            TimeUnit::Microsecond => "Microsecond",
            TimeUnit::Nanosecond => "Nanosecond",
        }
    }

    /// Whether `self` and `other` are the same unit.
    pub fn is(&self, other: &TimeUnit) -> (r: bool)
        ensures
            r == (*self == *other),
    {
        match (self, other) {
            (TimeUnit::Second, TimeUnit::Second) => true,
            (TimeUnit::Millisecond, TimeUnit::Millisecond) => true,
            (TimeUnit::Microsecond, TimeUnit::Microsecond) => true,
            (TimeUnit::Nanosecond, TimeUnit::Nanosecond) => true,
            _ => false,
        }
    }
}

/// The physical type of a column.
///
/// Floating-point columns are described here like any other; their values
/// travel through this crate as IEEE 754 bit patterns.
#[derive(Debug, PartialEq, Eq, Hash)]
pub enum DataType {
    Boolean,
    Int8,
    Int16,
    Int32,
    Int64,
    UInt8,
    UInt16,
    UInt32,
    UInt64,
    Float32,
    Float64,
    /// Days since the epoch, in 32 bits.
    Date32,
    Utf8,
    LargeUtf8,
    Binary,
    LargeBinary,
    /// Byte strings that all have the given length.
    FixedSizeBinary(i32),
    /// 128-bit decimals with the given precision and scale.
    Decimal128(u8, i8),
    /// A count of the given unit since the epoch, with an optional time zone.
    Timestamp(TimeUnit, Option<String>),
    /// Lists with 32-bit offsets.
    List(Box<DataType>),
    /// Lists with 64-bit offsets.
    LargeList(Box<DataType>),
    /// An ordered list of named fields.
    Struct(Vec<Field>),
    /// Keys of the first type that index values of the second.
    Dictionary(Box<DataType>, Box<DataType>),
    /// Any other type, known by its text.  Nothing is decoded from it.
    Other(String),
}

/// A named member of a struct type.
#[derive(Debug, PartialEq, Eq, Hash)]
pub struct Field {
    pub name: String,
    pub data_type: DataType,
}

/// The names and types of the top-level columns of a batch.
#[derive(Debug, PartialEq, Eq, Hash)]
pub struct Schema {
    pub fields: Vec<Field>,
}

/// The text of an optional time zone.
pub open spec fn timezone_text(timezone: Option<String>) -> Seq<char> {
    match timezone {
        None => "None"@,
        Some(tz) => "Some(\""@ + tz@ + "\")"@,
    }
}

/// Whether two optional time zones are the same.
pub open spec fn same_timezone(a: Option<String>, b: Option<String>) -> bool {
    match (a, b) {
        (None, None) => true,
        (Some(x), Some(y)) => x@ == y@,
        _ => false,
    }
}

/// The texts of the first `n` fields, each as `name: type`, separated by
/// `", "`.
pub open spec fn fields_text(fields: Seq<Field>, n: nat) -> Seq<char>
    decreases fields, n,
{
    if n == 0 || n > fields.len() {
        Seq::<char>::empty()
    } else if n == 1 {
        fields[0].name@ + ": "@ + fields[0].data_type.text()
    } else {
        fields_text(fields, (n - 1) as nat) + ", "@ + fields[n - 1].name@ + ": "@ + fields[n
            - 1].data_type.text()
    }
}

/// Whether the first `n` fields of two lists agree in name and type.
pub open spec fn same_fields(a: Seq<Field>, b: Seq<Field>, n: nat) -> bool
    decreases a, n,
{
    if n == 0 || n > a.len() || n > b.len() {
        n == 0
    } else {
        &&& same_fields(a, b, (n - 1) as nat)
        &&& a[n - 1].name@ == b[n - 1].name@
        &&& a[n - 1].data_type.same(b[n - 1].data_type)
    }
}

impl Clone for DataType {
    fn clone(&self) -> (r: DataType)
        ensures
            self.same(r),
    {
        self.duplicate()
    }
}

impl Clone for Field {
    fn clone(&self) -> (r: Field)
        ensures
            self.name@ == r.name@,
            self.data_type.same(r.data_type),
    {
        Field { name: self.name.clone(), data_type: self.data_type.duplicate() }
    }
}

/// Lists that agree on their first `n` fields agree on their first `m`,
/// for `m` up to `n`.
pub proof fn lemma_same_fields_prefix(a: Seq<Field>, b: Seq<Field>, m: nat, n: nat)
    requires
        m <= n,
        n <= a.len(),
        n <= b.len(),
        same_fields(a, b, n),
    ensures
        same_fields(a, b, m),
    decreases n,
{
    if m < n {
        lemma_same_fields_prefix(a, b, m, (n - 1) as nat);
    }
}

/// Appends the text of the struct type with these fields to `out`.
pub fn push_struct_text(fields: &Vec<Field>, out: &mut String)
    ensures
        final(out)@ == old(out)@ + DataType::Struct(*fields).text(),
    decreases fields, 1nat,
{
    let ghost before = out@;
    out.append("Struct([");
    let mut i: usize = 0;
    while i < fields.len()
        invariant
            i <= fields.len(),
            out@ == before + "Struct(["@ + fields_text(fields@, i as nat),
        decreases fields.len() - i,
    {
        proof {
            broadcast use vstd::std_specs::vec::axiom_vec_index_decreases;
            assert(decreases_to!(*fields => fields[i as int]));
            assert(decreases_to!(fields[i as int] => fields[i as int].data_type));
        }
        if i > 0 {
            out.append(", ");
        }
        out.append(fields[i].name.as_str());
        out.append(": ");
        fields[i].data_type.push_text(out);
        i += 1;
        assert(out@ =~= before + "Struct(["@ + fields_text(fields@, i as nat));
    }
    out.append("])");
    assert(out@ =~= before + DataType::Struct(*fields).text());
}

/// A copy of an optional time zone.
pub fn duplicate_timezone(timezone: &Option<String>) -> (r: Option<String>)
    ensures
        same_timezone(*timezone, r),
{
    match timezone {
        None => None,
        Some(tz) => Some(tz.clone()),
    }
}

/// A copy of a list of fields.
pub fn duplicate_fields(fields: &Vec<Field>) -> (r: Vec<Field>)
    ensures
        DataType::Struct(*fields).same(DataType::Struct(r)),
    decreases fields, 1nat,
{
    let mut out: Vec<Field> = Vec::with_capacity(fields.len());
    let mut i: usize = 0;
    while i < fields.len()
        invariant
            i <= fields.len(),
            out@.len() == i,
            forall|j: int|
                0 <= j < i ==> fields@[j].name@ == (#[trigger] out@[j]).name@
                    && fields@[j].data_type.same(out@[j].data_type),
        decreases fields.len() - i,
    {
        proof {
            broadcast use vstd::std_specs::vec::axiom_vec_index_decreases;
            assert(decreases_to!(*fields => fields[i as int]));
            assert(decreases_to!(fields[i as int] => fields[i as int].data_type));
        }
        out.push(Field { name: fields[i].name.clone(), data_type: fields[i].data_type.duplicate() });
        i += 1;
    }
    proof {
        lemma_same_fields_pointwise(fields@, out@, fields@.len());
    }
    out
}

/// Lists that agree at every position before `n` agree on their first `n`
/// fields.
pub proof fn lemma_same_fields_pointwise(a: Seq<Field>, b: Seq<Field>, n: nat)
    requires
        n <= a.len(),
        n <= b.len(),
        forall|j: int|
            0 <= j < n ==> a[j].name@ == (#[trigger] b[j]).name@ && a[j].data_type.same(
                b[j].data_type,
            ),
    ensures
        same_fields(a, b, n),
    decreases n,
{
    if n > 0 {
        lemma_same_fields_pointwise(a, b, (n - 1) as nat);
        assert(a[n - 1].name@ == b[n - 1].name@);
    }
}

/// Whether two field lists have the same length and agree, position by
/// position, in name and type.
pub fn same_field_lists(a: &Vec<Field>, b: &Vec<Field>) -> (r: bool)
    ensures
        r == DataType::Struct(*a).same(DataType::Struct(*b)),
    decreases a, 1nat,
{
    if a.len() != b.len() {
        return false;
    }
    let mut i: usize = 0;
    while i < a.len()
        invariant
            i <= a.len(),
            a.len() == b.len(),
            same_fields(a@, b@, i as nat),
        decreases a.len() - i,
    {
        proof {
            broadcast use vstd::std_specs::vec::axiom_vec_index_decreases;
            assert(decreases_to!(*a => a[i as int]));
            assert(decreases_to!(a[i as int] => a[i as int].data_type));
        }
        if !(a[i].name == b[i].name) || !a[i].data_type.is_same(&b[i].data_type) {
            assert(!same_fields(a@, b@, (i + 1) as nat));
            proof {
                if same_fields(a@, b@, a@.len()) {
                    lemma_same_fields_prefix(a@, b@, (i + 1) as nat, a@.len());
                }
            }
            return false;
        }
        i += 1;
    }
    true
}

impl DataType {
    /// How the type is written in diagnostics.
    pub open spec fn text(self) -> Seq<char>
        decreases self, 0nat,
    {
        match self {
            DataType::Boolean => "Boolean"@,
            DataType::Int8 => "Int8"@,
            DataType::Int16 => "Int16"@,
            DataType::Int32 => "Int32"@,
            DataType::Int64 => "Int64"@,
            DataType::UInt8 => "UInt8"@,
            DataType::UInt16 => "UInt16"@,
            DataType::UInt32 => "UInt32"@,
            DataType::UInt64 => "UInt64"@,
            DataType::Float32 => "Float32"@,
            DataType::Float64 => "Float64"@,
            DataType::Date32 => "Date32"@,
            DataType::Utf8 => "Utf8"@,
            DataType::LargeUtf8 => "LargeUtf8"@,
            DataType::Binary => "Binary"@,
            DataType::LargeBinary => "LargeBinary"@,
            DataType::FixedSizeBinary(size) => "FixedSizeBinary("@ + int_text(size as int) + ")"@,
            DataType::Decimal128(precision, scale) => "Decimal128("@ + int_text(precision as int)
                + ", "@ + int_text(scale as int) + ")"@,
            DataType::Timestamp(unit, timezone) => "Timestamp("@ + unit.text() + ", "@
                + timezone_text(timezone) + ")"@,
            DataType::List(inner) => "List("@ + inner.text() + ")"@,
            DataType::LargeList(inner) => "LargeList("@ + inner.text() + ")"@,
            DataType::Struct(fields) => "Struct(["@ + fields_text(fields@, fields@.len()) + "])"@,
            DataType::Dictionary(keys, values) => "Dictionary("@ + keys.text() + ", "@
                + values.text() + ")"@,
            DataType::Other(text) => text@,
        }
    }

    /// Whether two types are the same: the same kind, with the same
    /// parameters and, recursively, the same members.
    pub open spec fn same(self, other: DataType) -> bool
        decreases self, 0nat,
    {
        match (self, other) {
            (DataType::Boolean, DataType::Boolean) => true,
            (DataType::Int8, DataType::Int8) => true,
            (DataType::Int16, DataType::Int16) => true,
            (DataType::Int32, DataType::Int32) => true,
            (DataType::Int64, DataType::Int64) => true,
            (DataType::UInt8, DataType::UInt8) => true,
            (DataType::UInt16, DataType::UInt16) => true,
            (DataType::UInt32, DataType::UInt32) => true,
            (DataType::UInt64, DataType::UInt64) => true,
            (DataType::Float32, DataType::Float32) => true,
            (DataType::Float64, DataType::Float64) => true,
            (DataType::Date32, DataType::Date32) => true,
            (DataType::Utf8, DataType::Utf8) => true,
            (DataType::LargeUtf8, DataType::LargeUtf8) => true,
            (DataType::Binary, DataType::Binary) => true,
            (DataType::LargeBinary, DataType::LargeBinary) => true,
            (DataType::FixedSizeBinary(a), DataType::FixedSizeBinary(b)) => a == b,
            (DataType::Decimal128(p, s), DataType::Decimal128(q, t)) => p == q && s == t,
            (DataType::Timestamp(u, a), DataType::Timestamp(v, b)) => u == v && same_timezone(
                a,
                b,
            ),
            (DataType::List(a), DataType::List(b)) => a.same(*b),
            (DataType::LargeList(a), DataType::LargeList(b)) => a.same(*b),
            (DataType::Struct(a), DataType::Struct(b)) => a@.len() == b@.len() && same_fields(
                a@,
                b@,
                a@.len(),
            ),
            (DataType::Dictionary(k, v), DataType::Dictionary(l, w)) => k.same(*l) && v.same(*w),
            (DataType::Other(a), DataType::Other(b)) => a@ == b@,
            _ => false,
        }
    }

    /// Appends the text of the type to `out`.
    pub fn push_text(&self, out: &mut String)
        ensures
            final(out)@ == old(out)@ + self.text(),
        decreases self, 0nat,
    {
        let ghost before = out@;
        match self {
            DataType::Boolean => out.append("Boolean"),
            DataType::Int8 => out.append("Int8"),
            DataType::Int16 => out.append("Int16"),
            DataType::Int32 => out.append("Int32"),
            DataType::Int64 => out.append("Int64"),
            DataType::UInt8 => out.append("UInt8"),
            DataType::UInt16 => out.append("UInt16"),
            DataType::UInt32 => out.append("UInt32"),
            DataType::UInt64 => out.append("UInt64"),
            DataType::Float32 => out.append("Float32"),
            DataType::Float64 => out.append("Float64"),
            DataType::Date32 => out.append("Date32"),
            DataType::Utf8 => out.append("Utf8"),
            DataType::LargeUtf8 => out.append("LargeUtf8"),
            DataType::Binary => out.append("Binary"),
            DataType::LargeBinary => out.append("LargeBinary"),
            DataType::FixedSizeBinary(size) => {
                out.append("FixedSizeBinary(");
                push_int(out, *size as i128);
                out.append(")");
                assert(out@ =~= before + self.text());
            },
            DataType::Decimal128(precision, scale) => {
                out.append("Decimal128(");
                push_int(out, *precision as i128);
                out.append(", ");
                push_int(out, *scale as i128);
                out.append(")");
                assert(out@ =~= before + self.text());
            },
            DataType::Timestamp(unit, timezone) => {
                out.append("Timestamp(");
                out.append(unit.name());
                out.append(", ");
                match timezone {
                    None => out.append("None"),
                    Some(tz) => {
                        out.append("Some(\"");
                        out.append(tz.as_str());
                        out.append("\")");
                    },
                }
                out.append(")");
                assert(out@ =~= before + self.text());
            },
            DataType::List(inner) => {
                out.append("List(");
                inner.push_text(out);
                out.append(")");
                assert(out@ =~= before + self.text());
            },
            DataType::LargeList(inner) => {
                out.append("LargeList(");
                inner.push_text(out);
                out.append(")");
                assert(out@ =~= before + self.text());
            },
            DataType::Struct(fields) => {
                push_struct_text(fields, out);
            },
            DataType::Dictionary(keys, values) => {
                out.append("Dictionary(");
                keys.push_text(out);
                out.append(", ");
                values.push_text(out);
                out.append(")");
                assert(out@ =~= before + self.text());
            },
            DataType::Other(text) => out.append(text.as_str()),
        }
    }

    /// Whether `self` and `other` are the same type.
    pub fn is_same(&self, other: &DataType) -> (r: bool)
        ensures
            r == self.same(*other),
        decreases self, 0nat,
    {
        match (self, other) {
            (DataType::Boolean, DataType::Boolean) => true,
            (DataType::Int8, DataType::Int8) => true,
            (DataType::Int16, DataType::Int16) => true,
            (DataType::Int32, DataType::Int32) => true,
            (DataType::Int64, DataType::Int64) => true,
            (DataType::UInt8, DataType::UInt8) => true,
            (DataType::UInt16, DataType::UInt16) => true,
            (DataType::UInt32, DataType::UInt32) => true,
            (DataType::UInt64, DataType::UInt64) => true,
            (DataType::Float32, DataType::Float32) => true,
            (DataType::Float64, DataType::Float64) => true,
            (DataType::Date32, DataType::Date32) => true,
            (DataType::Utf8, DataType::Utf8) => true,
            (DataType::LargeUtf8, DataType::LargeUtf8) => true,
            (DataType::Binary, DataType::Binary) => true,
            (DataType::LargeBinary, DataType::LargeBinary) => true,
            (DataType::FixedSizeBinary(a), DataType::FixedSizeBinary(b)) => *a == *b,
            (DataType::Decimal128(p, s), DataType::Decimal128(q, t)) => *p == *q && *s == *t,
            (DataType::Timestamp(u, a), DataType::Timestamp(v, b)) => {
                let zones = match (a, b) {
                    (None, None) => true,
                    (Some(x), Some(y)) => *x == *y,
                    _ => false,
                };
                u.is(v) && zones
            },
            (DataType::List(a), DataType::List(b)) => a.is_same(b),
            (DataType::LargeList(a), DataType::LargeList(b)) => a.is_same(b),
            (DataType::Struct(a), DataType::Struct(b)) => same_field_lists(a, b),
            (DataType::Dictionary(k, v), DataType::Dictionary(l, w)) => k.is_same(l) && v.is_same(
                w,
            ),
            (DataType::Other(a), DataType::Other(b)) => *a == *b,
            _ => false,
        }
    }

    /// A copy of the type.
    pub fn duplicate(&self) -> (r: DataType)
        ensures
            self.same(r),
        decreases self, 0nat,
    {
        match self {
            DataType::Boolean => DataType::Boolean,
            DataType::Int8 => DataType::Int8,
            DataType::Int16 => DataType::Int16,
            DataType::Int32 => DataType::Int32,
            DataType::Int64 => DataType::Int64,
            DataType::UInt8 => DataType::UInt8,
            DataType::UInt16 => DataType::UInt16,
            DataType::UInt32 => DataType::UInt32,
            DataType::UInt64 => DataType::UInt64,
            DataType::Float32 => DataType::Float32,
            DataType::Float64 => DataType::Float64,
            DataType::Date32 => DataType::Date32,
            DataType::Utf8 => DataType::Utf8,
            DataType::LargeUtf8 => DataType::LargeUtf8,
            DataType::Binary => DataType::Binary,
            DataType::LargeBinary => DataType::LargeBinary,
            DataType::FixedSizeBinary(size) => DataType::FixedSizeBinary(*size),
            DataType::Decimal128(precision, scale) => DataType::Decimal128(*precision, *scale),
            DataType::Timestamp(unit, timezone) => DataType::Timestamp(
                *unit,
                duplicate_timezone(timezone),
            ),
            DataType::List(inner) => DataType::List(Box::new(inner.duplicate())),
            DataType::LargeList(inner) => DataType::LargeList(Box::new(inner.duplicate())),
            DataType::Struct(fields) => DataType::Struct(duplicate_fields(fields)),
            DataType::Dictionary(keys, values) => DataType::Dictionary(
                Box::new(keys.duplicate()),
                Box::new(values.duplicate()),
            ),
            DataType::Other(text) => DataType::Other(text.clone()),
        }
    }

    /// The text of the type, as diagnostics show it.
    pub fn describe(&self) -> (r: String)
        ensures
            r@ == self.text(),
    {
        let mut out = String::new();
        self.push_text(&mut out);
        assert(out@ =~= self.text());
        out
    }
}

} // verus!
