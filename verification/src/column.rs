//! Columnar values: one typed column of optional (nullable) values per
//! expression node and batch.
//!
//! A column is read-only once produced; evaluators never mutate an input
//! column. A struct column holds one child column per field, all of the
//! struct's length.

use vstd::prelude::*;

use crate::types::DataType;
use crate::types::DataTypeV;
use crate::types::Field;
use crate::types::FieldV;
use crate::types::TimeUnit;
use crate::types::fields_view;
use crate::types::lemma_fields_view;

verus! {

broadcast use vstd::std_specs::vec::group_vec_axioms, vstd::seq::group_seq_axioms;

/// One column of a batch: the values of one expression, in row order, with
/// `None` for null.
#[derive(Debug, PartialEq)]
pub enum Column {
    Boolean(Vec<Option<bool>>),
    Int32(Vec<Option<i32>>),
    Int64(Vec<Option<i64>>),
    UInt32(Vec<Option<u32>>),
    UInt64(Vec<Option<u64>>),
    Utf8(Vec<Option<String>>),
    /// Timestamps carry their unit and a value count since the epoch.
    Timestamp(TimeUnit, Vec<Option<i64>>),
    /// Durations carry their unit and a signed count of units.
    Duration(TimeUnit, Vec<Option<i64>>),
    /// A struct column: the fields, one child column per field, and the
    /// row count all children share.
    Struct(Vec<Field>, Vec<Column>, usize),
}

/// Mathematical view of a [`Column`].
pub enum ColumnV {
    Boolean(Seq<Option<bool>>),
    Int32(Seq<Option<i32>>),
    Int64(Seq<Option<i64>>),
    UInt32(Seq<Option<u32>>),
    UInt64(Seq<Option<u64>>),
    Utf8(Seq<Option<Seq<char>>>),
    Timestamp(TimeUnit, Seq<Option<i64>>),
    Duration(TimeUnit, Seq<Option<i64>>),
    Struct(Seq<FieldV>, Seq<ColumnV>, nat),
}

pub open spec fn opt_string_view(o: Option<String>) -> Option<Seq<char>> {
    match o {
        Some(s) => Some(s@),
        None => None,
    }
}

pub open spec fn column_view(c: Column) -> ColumnV
    decreases c,
{
    match c {
        Column::Boolean(v) => ColumnV::Boolean(v@),
        Column::Int32(v) => ColumnV::Int32(v@),
        Column::Int64(v) => ColumnV::Int64(v@),
        Column::UInt32(v) => ColumnV::UInt32(v@),
        Column::UInt64(v) => ColumnV::UInt64(v@),
        Column::Utf8(v) => ColumnV::Utf8(v@.map_values(|o: Option<String>| opt_string_view(o))),
        Column::Timestamp(u, v) => ColumnV::Timestamp(u, v@),
        Column::Duration(u, v) => ColumnV::Duration(u, v@),
        Column::Struct(fields, children, len) => ColumnV::Struct(
            fields_view(fields@),
            columns_view_rec(children@),
            len as nat,
        ),
    }
}

pub open spec fn columns_view_rec(cs: Seq<Column>) -> Seq<ColumnV>
    decreases cs,
{
    if cs.len() == 0 {
        Seq::empty()
    } else {
        columns_view_rec(cs.subrange(0, cs.len() - 1)).push(column_view(cs[cs.len() - 1]))
    }
}

/// `columns_view_rec` maps `column_view` over the sequence.
pub proof fn lemma_columns_view(cs: Seq<Column>)
    ensures
        columns_view_rec(cs).len() == cs.len(),
        forall|i: int| 0 <= i < cs.len() ==> columns_view_rec(cs)[i] == column_view(cs[i]),
    decreases cs.len(),
{
    if cs.len() > 0 {
        lemma_columns_view(cs.subrange(0, cs.len() - 1));
    }
}

impl View for Column {
    type V = ColumnV;

    open spec fn view(&self) -> ColumnV {
        column_view(*self)
    }
}

/// The logical type of a column.
pub open spec fn col_type(c: ColumnV) -> DataTypeV {
    match c {
        ColumnV::Boolean(_) => DataTypeV::Boolean,
        ColumnV::Int32(_) => DataTypeV::Int32,
        ColumnV::Int64(_) => DataTypeV::Int64,
        ColumnV::UInt32(_) => DataTypeV::UInt32,
        ColumnV::UInt64(_) => DataTypeV::UInt64,
        ColumnV::Utf8(_) => DataTypeV::Utf8,
        ColumnV::Timestamp(u, _) => DataTypeV::Timestamp(u),
        ColumnV::Duration(u, _) => DataTypeV::Duration(u),
        ColumnV::Struct(fields, _, _) => DataTypeV::Struct(fields),
    }
}

/// The number of rows of a column.
pub open spec fn col_len(c: ColumnV) -> nat {
    match c {
        ColumnV::Boolean(v) => v.len(),
        ColumnV::Int32(v) => v.len(),
        ColumnV::Int64(v) => v.len(),
        ColumnV::UInt32(v) => v.len(),
        ColumnV::UInt64(v) => v.len(),
        ColumnV::Utf8(v) => v.len(),
        ColumnV::Timestamp(_, v) => v.len(),
        ColumnV::Duration(_, v) => v.len(),
        ColumnV::Struct(_, _, len) => len,
    }
}

impl Column {
    /// The number of rows.
    pub fn len(&self) -> (r: usize)
        ensures
            r == col_len(self@),
    {
        match self {
            Column::Boolean(v) => v.len(),
            Column::Int32(v) => v.len(),
            Column::Int64(v) => v.len(),
            Column::UInt32(v) => v.len(),
            Column::UInt64(v) => v.len(),
            Column::Utf8(v) => v.len(),
            Column::Timestamp(_, v) => v.len(),
            Column::Duration(_, v) => v.len(),
            Column::Struct(_, _, len) => *len,
        }
    }

    /// Whether the column's logical type is exactly `t`.
    pub fn has_type(&self, t: &DataType) -> (r: bool)
        ensures
            r == (col_type(self@) == t@),
    {
        match (self, t) {
            (Column::Boolean(_), DataType::Boolean) => true,
            (Column::Int32(_), DataType::Int32) => true,
            (Column::Int64(_), DataType::Int64) => true,
            (Column::UInt32(_), DataType::UInt32) => true,
            (Column::UInt64(_), DataType::UInt64) => true,
            (Column::Utf8(_), DataType::Utf8) => true,
            (Column::Timestamp(u1, _), DataType::Timestamp(u2)) => u1 == u2,
            (Column::Duration(u1, _), DataType::Duration(u2)) => u1 == u2,
            (Column::Struct(f1, _, _), DataType::Struct(f2)) => crate::classes::fields_eq(
                f1,
                f2,
            ),
            _ => false,
        }
    }
}

/// A copy of a vector of copyable optional values.
fn copy_opt_vec<T: Copy>(v: &Vec<Option<T>>) -> (r: Vec<Option<T>>)
    ensures
        r@ == v@,
{
    let mut out: Vec<Option<T>> = Vec::new();
    let mut i: usize = 0;
    while i < v.len()
        invariant
            0 <= i <= v@.len(),
            out@ =~= v@.subrange(0, i as int),
        decreases v@.len() - i,
    {
        out.push(v[i]);
        proof {
            assert(out@ =~= v@.subrange(0, i + 1));
        }
        i = i + 1;
    }
    proof {
        assert(v@.subrange(0, v@.len() as int) == v@);
    }
    out
}

fn copy_opt_string_vec(v: &Vec<Option<String>>) -> (r: Vec<Option<String>>)
    ensures
        r@.map_values(|o: Option<String>| opt_string_view(o)) == v@.map_values(
            |o: Option<String>| opt_string_view(o),
        ),
{
    let ghost sv = v@.map_values(|o: Option<String>| opt_string_view(o));
    let mut out: Vec<Option<String>> = Vec::new();
    let mut i: usize = 0;
    while i < v.len()
        invariant
            0 <= i <= v@.len(),
            sv == v@.map_values(|o: Option<String>| opt_string_view(o)),
            out@.len() == i,
            forall|k: int| 0 <= k < i ==> opt_string_view(#[trigger] out@[k]) == sv[k],
        decreases v@.len() - i,
    {
        let item = match &v[i] {
            Some(s) => Some(s.clone()),
            None => None,
        };
        out.push(item);
        proof {
            assert(sv[i as int] == opt_string_view(v@[i as int]));
        }
        i = i + 1;
    }
    proof {
        assert(out@.map_values(|o: Option<String>| opt_string_view(o)) =~= sv);
    }
    out
}

/// A copy of a column whose view is the same.
///
/// Struct children are copied recursively; production code would share the
/// reference-counted buffers instead, which changes nothing the contracts
/// can see.
#[verifier::loop_isolation(false)]
pub fn duplicate_column(c: &Column) -> (r: Column)
    ensures
        r@ == c@,
    decreases *c,
{
    match c {
        Column::Boolean(v) => Column::Boolean(copy_opt_vec(v)),
        Column::Int32(v) => Column::Int32(copy_opt_vec(v)),
        Column::Int64(v) => Column::Int64(copy_opt_vec(v)),
        Column::UInt32(v) => Column::UInt32(copy_opt_vec(v)),
        Column::UInt64(v) => Column::UInt64(copy_opt_vec(v)),
        Column::Utf8(v) => Column::Utf8(copy_opt_string_vec(v)),
        Column::Timestamp(u, v) => Column::Timestamp(*u, copy_opt_vec(v)),
        Column::Duration(u, v) => Column::Duration(*u, copy_opt_vec(v)),
        Column::Struct(fields, children, len) => {
            let fields_copy = copy_fields(fields);
            let mut out: Vec<Column> = Vec::new();
            let n = children.len();
            let mut i: usize = 0;
            while i < n
                invariant
                    n == children@.len(),
                    0 <= i <= n,
                    out@.len() == i,
                    forall|k: int| 0 <= k < i ==> (#[trigger] out@[k])@ == children@[k]@,
                decreases n - i,
            {
                proof {
                    assert(decreases_to!(*children => children@));
                    assert(decreases_to!(children@ => children@[i as int]));
                }
                let copied = duplicate_column(&children[i]);
                out.push(copied);
                i = i + 1;
            }
            proof {
                lemma_columns_view(out@);
                lemma_columns_view(children@);
                assert(columns_view_rec(out@) =~= columns_view_rec(children@));
            }
            Column::Struct(fields_copy, out, *len)
        },
    }
}

/// A copy of a field list whose view is the same.
pub fn copy_fields(fields: &Vec<Field>) -> (r: Vec<Field>)
    ensures
        fields_view(r@) == fields_view(fields@),
        r@.len() == fields@.len(),
{
    let mut out: Vec<Field> = Vec::new();
    let mut i: usize = 0;
    while i < fields.len()
        invariant
            0 <= i <= fields@.len(),
            out@.len() == i,
            forall|k: int|
                0 <= k < i ==> #[trigger] crate::types::field_view(out@[k])
                    == crate::types::field_view(fields@[k]),
        decreases fields@.len() - i,
    {
        let f = &fields[i];
        out.push(
            Field {
                name: f.name.clone(),
                data_type: crate::classes::duplicate_data_type(&f.data_type),
            },
        );
        i = i + 1;
    }
    proof {
        lemma_fields_view(out@);
        lemma_fields_view(fields@);
        assert(fields_view(out@) =~= fields_view(fields@));
    }
    out
}


/// Well-formedness of a column: a struct column has one child per field,
/// each child carrying the field's type and the struct's row count.
pub open spec fn col_wf(c: ColumnV) -> bool
    decreases c,
{
    match c {
        ColumnV::Struct(fields, children, len) => {
            &&& children.len() == fields.len()
            &&& forall|i: int|
                0 <= i < children.len() ==> col_type(#[trigger] children[i])
                    == fields[i].data_type
            &&& forall|i: int|
                0 <= i < children.len() ==> col_len(#[trigger] children[i]) == len
            &&& forall|i: int| 0 <= i < children.len() ==> col_wf(#[trigger] children[i])
        },
        _ => true,
    }
}

/// Well-formedness of a batch: one well-formed column per schema field,
/// typed by the field and as long as the batch.
pub open spec fn batch_wf(b: Batch) -> bool {
    &&& b.columns@.len() == b.fields@.len()
    &&& forall|i: int|
        0 <= i < b.columns@.len() ==> col_type((#[trigger] b.columns@[i])@)
            == crate::types::field_view(b.fields@[i]).data_type
    &&& forall|i: int|
        0 <= i < b.columns@.len() ==> col_len((#[trigger] b.columns@[i])@) == b.num_rows
    &&& forall|i: int| 0 <= i < b.columns@.len() ==> col_wf((#[trigger] b.columns@[i])@)
}

/// One batch of columnar input: the input schema and one column per field.
#[derive(Debug)]
pub struct Batch {
    pub fields: Vec<Field>,
    pub columns: Vec<Column>,
    pub num_rows: usize,
}

} // verus!
