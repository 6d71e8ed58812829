//! The names of the columns that a row shape is read from.
use vstd::prelude::*;
use vstd::string::StringExecFns;
use crate::value::{RecordField, RowType};

verus! {

/// The texts of a list of names.
pub open spec fn texts(names: Seq<String>) -> Seq<Seq<char>> {
    names.map_values(|name: String| name@)
}

/// The name of a column under a prefix: the prefix and the name, with a
/// dot between them unless the prefix is empty.
pub open spec fn field_prefix(prefix: Seq<char>, name: Seq<char>) -> Seq<char> {
    if prefix.len() == 0 {
        name
    } else {
        prefix + "."@ + name
    }
}

/// The names of the columns that the first `n` fields are read from.
pub open spec fn fields_columns(fields: Seq<RecordField>, prefix: Seq<char>, n: nat) -> Seq<
    Seq<char>,
>
    decreases fields, n,
{
    if n == 0 || n > fields.len() {
        Seq::empty()
    } else {
        fields_columns(fields, prefix, (n - 1) as nat) + fields[n - 1].row_type.column_names(
            field_prefix(prefix, fields[n - 1].name@),
        )
    }
}

impl RowType {
    /// The names of the columns that the shape is read from, where
    /// `prefix` names the column of the shape itself: a scalar is read
    /// from that column, a list from the columns of its items, a record
    /// from the columns of its fields, each under the name of the field
    /// after the prefix and a dot.
    pub open spec fn column_names(self, prefix: Seq<char>) -> Seq<Seq<char>>
        decreases self, 0nat,
    {
        match self {
            RowType::Optional(inner) => inner.column_names(prefix),
            RowType::List(inner) => inner.column_names(prefix),
            RowType::Struct(shape) => fields_columns(shape.fields@, prefix, shape.fields@.len()),
            _ => seq![prefix],
        }
    }

    fn push_columns(&self, prefix: &str, columns: &mut Vec<String>)
        ensures
            texts(final(columns)@) == texts(old(columns)@) + self.column_names(prefix@),
        decreases self,
    {
        let ghost before = columns@;
        match self {
            RowType::Optional(inner) => inner.push_columns(prefix, columns),
            RowType::List(inner) => inner.push_columns(prefix, columns),
            RowType::Struct(shape) => {
                let mut k: usize = 0;
                assert(texts(columns@) =~= texts(before) + fields_columns(shape.fields@, prefix@, 0));
                while k < shape.fields.len()
                    invariant
                        k <= shape.fields.len(),
                        decreases_to!(*self => shape.fields),
                        texts(columns@) == texts(before) + fields_columns(
                            shape.fields@,
                            prefix@,
                            k as nat,
                        ),
                    decreases shape.fields.len() - k,
                {
                    proof {
                        broadcast use vstd::std_specs::vec::axiom_vec_index_decreases;
                        assert(decreases_to!(shape.fields => shape.fields[k as int]));
                        assert(decreases_to!(shape.fields[k as int] => shape.fields[k as int].row_type));
                    }
                    let field = &shape.fields[k];
                    let mut field_name_prefix = String::from_str(prefix);
                    if !prefix.is_empty() {
                        field_name_prefix.append(".");
                    }
                    field_name_prefix.append(field.name.as_str());
                    assert(field_name_prefix@ =~= field_prefix(prefix@, field.name@));
                    field.row_type.push_columns(field_name_prefix.as_str(), columns);
                    k += 1;
                    assert(texts(columns@) =~= texts(before) + fields_columns(
                        shape.fields@,
                        prefix@,
                        k as nat,
                    ));
                }
            },
            _ => {
                columns.push(String::from_str(prefix));
                assert(texts(columns@) =~= texts(before) + seq![prefix@]);
            },
        }
    }

    /// The names of the columns that the shape is read from, each under
    /// `prefix`.  Nested field names are separated by dots.
    ///
    /// For scalars, this method simply returns the prefix.
    pub fn columns_with_prefix(&self, prefix: &str) -> (r: Vec<String>)
        ensures
            texts(r@) == self.column_names(prefix@),
    {
        let mut columns: Vec<String> = Vec::new();
        self.push_columns(prefix, &mut columns);
        assert(texts(columns@) =~= self.column_names(prefix@));
        columns
    }

    /// The names of all the columns that the shape is read from.
    pub fn columns(&self) -> (r: Vec<String>)
        ensures
            texts(r@) == self.column_names(""@),
    {
        self.columns_with_prefix("")
    }
}

} // verus!
