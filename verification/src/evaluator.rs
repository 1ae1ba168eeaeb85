//! Evaluator instances: one type-specialized, stateless-per-call runtime
//! object per expression node. Each reads already-produced columns from
//! the execution context by index and returns one output column.
//!
//! The ordering comparison (`gte_primitive`) is monomorphized per
//! ordered column type, strings included; its output is null wherever
//! either input is null.

use vstd::prelude::*;

use crate::column::Batch;
use crate::column::col_type;
use crate::types::DataType;
use crate::types::TimeUnit;
use crate::column::Column;
use crate::column::ColumnV;
use crate::errors::EvaluationError;
use crate::work_area::WorkArea;

verus! {

broadcast use vstd::std_specs::vec::group_vec_axioms, vstd::seq::group_seq_axioms;

/// A literal scalar already narrowed to the node's declared result type.
#[derive(Debug, Clone, Copy, PartialEq, Eq, Structural)]
pub enum NumericScalar {
    I32(i32),
    I64(i64),
    U32(u32),
    U64(u64),
    /// A timestamp literal: unit and count since the epoch.
    Timestamp(TimeUnit, i64),
    /// A duration literal: unit and signed count of units.
    Duration(TimeUnit, i64),
}

/// A bound, type-specialized evaluator for one expression node. All type
/// validation happened at instantiation time; evaluation is a pure
/// function of the batch and the earlier columns.
#[derive(Debug, PartialEq)]
pub enum Evaluator {
    /// Fetch the input column at `index` in the batch schema; it must
    /// carry exactly the type resolved at instantiation time.
    Column { index: usize, data_type: DataType },
    /// A constant boolean column broadcast to the batch length.
    BooleanLiteral { value: bool },
    /// A constant string column broadcast to the batch length.
    StringLiteral { value: String },
    /// A constant numeric column broadcast to the batch length.
    NumericLiteral { value: NumericScalar },
    /// Elementwise `>=` over two same-typed ordered columns.
    GtePrimitive { lhs: usize, rhs: usize },
    /// Project one field's column out of a struct column.
    FieldRef { input: usize, field: usize },
}

/// Elementwise `>=` with null propagation, over the value sequences of
/// two same-length columns; one definition per primitive type, matching
/// the monomorphized kernels.
pub open spec fn gte_rows_i32(a: Seq<Option<i32>>, b: Seq<Option<i32>>) -> Seq<Option<bool>> {
    Seq::new(
        a.len(),
        |i: int|
            match (a[i], b[i]) {
                (Some(x), Some(y)) => Some(x >= y),
                _ => None,
            },
    )
}

pub open spec fn gte_rows_i64(a: Seq<Option<i64>>, b: Seq<Option<i64>>) -> Seq<Option<bool>> {
    Seq::new(
        a.len(),
        |i: int|
            match (a[i], b[i]) {
                (Some(x), Some(y)) => Some(x >= y),
                _ => None,
            },
    )
}

pub open spec fn gte_rows_u32(a: Seq<Option<u32>>, b: Seq<Option<u32>>) -> Seq<Option<bool>> {
    Seq::new(
        a.len(),
        |i: int|
            match (a[i], b[i]) {
                (Some(x), Some(y)) => Some(x >= y),
                _ => None,
            },
    )
}

pub open spec fn gte_rows_u64(a: Seq<Option<u64>>, b: Seq<Option<u64>>) -> Seq<Option<bool>> {
    Seq::new(
        a.len(),
        |i: int|
            match (a[i], b[i]) {
                (Some(x), Some(y)) => Some(x >= y),
                _ => None,
            },
    )
}


/// Lexicographic `>=` over character sequences. Rust orders strings by
/// UTF-8 bytes, which orders exactly like code points, so this is the
/// order `>=` on `str` computes.
pub open spec fn lex_ge(a: Seq<char>, b: Seq<char>) -> bool
    decreases a.len(),
{
    if b.len() == 0 {
        true
    } else if a.len() == 0 {
        false
    } else if a[0] > b[0] {
        true
    } else if a[0] < b[0] {
        false
    } else {
        lex_ge(a.subrange(1, a.len() as int), b.subrange(1, b.len() as int))
    }
}

/// A string comparison proved against [`lex_ge`].
pub fn str_ge(a: &str, b: &str) -> (r: bool)
    ensures
        r == lex_ge(a@, b@),
{
    let an = a.unicode_len();
    let bn = b.unicode_len();
    let mut i: usize = 0;
    while i < an && i < bn
        invariant
            0 <= i <= an,
            0 <= i <= bn,
            an == a@.len(),
            bn == b@.len(),
            forall|j: int| 0 <= j < i ==> a@[j] == b@[j],
        decreases an - i,
    {
        let ca = a.get_char(i);
        let cb = b.get_char(i);
        if ca > cb {
            proof {
                lemma_lex_ge_skip(a@, b@, i as int);
            }
            return true;
        }
        if ca < cb {
            proof {
                lemma_lex_ge_skip(a@, b@, i as int);
            }
            return false;
        }
        i = i + 1;
    }
    proof {
        lemma_lex_ge_skip(a@, b@, i as int);
    }
    an >= bn
}

/// Comparing sequences with an equal prefix compares the remainders.
proof fn lemma_lex_ge_skip(a: Seq<char>, b: Seq<char>, i: int)
    requires
        0 <= i <= a.len(),
        i <= b.len(),
        forall|j: int| 0 <= j < i ==> a[j] == b[j],
    ensures
        lex_ge(a, b) == lex_ge(a.subrange(i, a.len() as int), b.subrange(i, b.len() as int)),
    decreases i,
{
    if i == 0 {
        assert(a.subrange(0, a.len() as int) =~= a);
        assert(b.subrange(0, b.len() as int) =~= b);
    } else {
        let a1 = a.subrange(1, a.len() as int);
        let b1 = b.subrange(1, b.len() as int);
        assert(forall|j: int| 0 <= j < i - 1 ==> a1[j] == b1[j]);
        lemma_lex_ge_skip(a1, b1, i - 1);
        assert(a1.subrange(i - 1, a1.len() as int) =~= a.subrange(i, a.len() as int));
        assert(b1.subrange(i - 1, b1.len() as int) =~= b.subrange(i, b.len() as int));
    }
}

pub open spec fn gte_rows_utf8(a: Seq<Option<Seq<char>>>, b: Seq<Option<Seq<char>>>) -> Seq<
    Option<bool>,
> {
    Seq::new(
        a.len(),
        |i: int|
            match (a[i], b[i]) {
                (Some(x), Some(y)) => Some(lex_ge(x, y)),
                _ => None,
            },
    )
}

/// The output of the ordering comparison on two columns: a boolean column
/// that is null wherever either input is null, or nothing where the
/// columns are not two same-typed, same-length ordered columns.
pub open spec fn gte_col(a: ColumnV, b: ColumnV) -> Option<ColumnV> {
    match (a, b) {
        (ColumnV::Int32(x), ColumnV::Int32(y)) => if x.len() == y.len() {
            Some(ColumnV::Boolean(gte_rows_i32(x, y)))
        } else {
            None
        },
        (ColumnV::Int64(x), ColumnV::Int64(y)) => if x.len() == y.len() {
            Some(ColumnV::Boolean(gte_rows_i64(x, y)))
        } else {
            None
        },
        (ColumnV::UInt32(x), ColumnV::UInt32(y)) => if x.len() == y.len() {
            Some(ColumnV::Boolean(gte_rows_u32(x, y)))
        } else {
            None
        },
        (ColumnV::UInt64(x), ColumnV::UInt64(y)) => if x.len() == y.len() {
            Some(ColumnV::Boolean(gte_rows_u64(x, y)))
        } else {
            None
        },
        (ColumnV::Utf8(x), ColumnV::Utf8(y)) => if x.len() == y.len() {
            Some(ColumnV::Boolean(gte_rows_utf8(x, y)))
        } else {
            None
        },
        (ColumnV::Timestamp(u1, x), ColumnV::Timestamp(u2, y)) => if u1 == u2 && x.len()
            == y.len() {
            Some(ColumnV::Boolean(gte_rows_i64(x, y)))
        } else {
            None
        },
        _ => None,
    }
}

/// What one evaluator produces over one batch, given the columns of the
/// earlier expressions; `None` is an evaluation failure.
pub open spec fn spec_evaluate(ev: Evaluator, batch: Batch, prior: Seq<ColumnV>) -> Option<
    ColumnV,
> {
    match ev {
        Evaluator::Column { index, data_type } => if index < batch.columns@.len()
            && col_type(batch.columns@[index as int]@) == data_type@ {
            Some(batch.columns@[index as int]@)
        } else {
            None
        },
        Evaluator::BooleanLiteral { value } => Some(
            ColumnV::Boolean(Seq::new(batch.num_rows as nat, |i: int| Some(value))),
        ),
        Evaluator::StringLiteral { value } => Some(
            ColumnV::Utf8(Seq::new(batch.num_rows as nat, |i: int| Some(value@))),
        ),
        Evaluator::NumericLiteral { value } => Some(
            match value {
                NumericScalar::I32(v) => ColumnV::Int32(
                    Seq::new(batch.num_rows as nat, |i: int| Some(v)),
                ),
                NumericScalar::I64(v) => ColumnV::Int64(
                    Seq::new(batch.num_rows as nat, |i: int| Some(v)),
                ),
                NumericScalar::U32(v) => ColumnV::UInt32(
                    Seq::new(batch.num_rows as nat, |i: int| Some(v)),
                ),
                NumericScalar::U64(v) => ColumnV::UInt64(
                    Seq::new(batch.num_rows as nat, |i: int| Some(v)),
                ),
                NumericScalar::Timestamp(u, v) => ColumnV::Timestamp(
                    u,
                    Seq::new(batch.num_rows as nat, |i: int| Some(v)),
                ),
                NumericScalar::Duration(u, v) => ColumnV::Duration(
                    u,
                    Seq::new(batch.num_rows as nat, |i: int| Some(v)),
                ),
            },
        ),
        Evaluator::GtePrimitive { lhs, rhs } => if lhs < prior.len() && rhs < prior.len() {
            gte_col(prior[lhs as int], prior[rhs as int])
        } else {
            None
        },
        Evaluator::FieldRef { input, field } => if input < prior.len() {
            match prior[input as int] {
                ColumnV::Struct(fields, children, len) => if field < children.len() {
                    Some(children[field as int])
                } else {
                    None
                },
                _ => None,
            }
        } else {
            None
        },
    }
}

/// Evaluate one bound evaluator over one batch.
///
/// The output is exactly what [`spec_evaluate`] says; in particular, for
/// the ordering comparison, the output at a row is null if and only if
/// either input at that row is null, and `Some(x >= y)` otherwise.
pub fn evaluate(ev: &Evaluator, batch: &Batch, work_area: &WorkArea) -> (r: Result<
    Column,
    EvaluationError,
>)
    ensures
        match r {
            Ok(c) => spec_evaluate(*ev, *batch, work_area.columns_spec()) == Some(c@),
            Err(_) => spec_evaluate(*ev, *batch, work_area.columns_spec()) is None,
        },
{
    match ev {
        Evaluator::Column { index, data_type } => {
            if *index < batch.columns.len() && batch.columns[*index].has_type(data_type) {
                Ok(crate::column::duplicate_column(&batch.columns[*index]))
            } else {
                Err(EvaluationError::ExprEvaluation)
            }
        },
        Evaluator::BooleanLiteral { value } => {
            let mut out: Vec<Option<bool>> = Vec::new();
            let mut i: usize = 0;
            while i < batch.num_rows
                invariant
                    0 <= i <= batch.num_rows,
                    out@ =~= Seq::new(i as nat, |k: int| Some(*value)),
                decreases batch.num_rows - i,
            {
                out.push(Some(*value));
                proof {
                    assert(out@ =~= Seq::new((i + 1) as nat, |k: int| Some(*value)));
                }
                i = i + 1;
            }
            Ok(Column::Boolean(out))
        },
        Evaluator::StringLiteral { value } => {
            let mut out: Vec<Option<String>> = Vec::new();
            let mut i: usize = 0;
            while i < batch.num_rows
                invariant
                    0 <= i <= batch.num_rows,
                    out@.len() == i,
                    forall|k: int|
                        0 <= k < i ==> crate::column::opt_string_view(#[trigger] out@[k])
                            == Some(value@),
                decreases batch.num_rows - i,
            {
                out.push(Some(value.clone()));
                i = i + 1;
            }
            proof {
                assert(out@.map_values(|o: Option<String>| crate::column::opt_string_view(o))
                    =~= Seq::new(batch.num_rows as nat, |i: int| Some(value@)));
            }
            Ok(Column::Utf8(out))
        },
        Evaluator::NumericLiteral { value } => {
            match value {
                NumericScalar::I32(v) => {
                    let out = broadcast_i32(*v, batch.num_rows);
                    Ok(Column::Int32(out))
                },
                NumericScalar::I64(v) => {
                    let out = broadcast_i64(*v, batch.num_rows);
                    Ok(Column::Int64(out))
                },
                NumericScalar::U32(v) => {
                    let out = broadcast_u32(*v, batch.num_rows);
                    Ok(Column::UInt32(out))
                },
                NumericScalar::U64(v) => {
                    let out = broadcast_u64(*v, batch.num_rows);
                    Ok(Column::UInt64(out))
                },
                NumericScalar::Timestamp(u, v) => {
                    let out = broadcast_i64(*v, batch.num_rows);
                    Ok(Column::Timestamp(*u, out))
                },
                NumericScalar::Duration(u, v) => {
                    let out = broadcast_i64(*v, batch.num_rows);
                    Ok(Column::Duration(*u, out))
                },
            }
        },
        Evaluator::GtePrimitive { lhs, rhs } => {
            if !(*lhs < work_area.len() && *rhs < work_area.len()) {
                return Err(EvaluationError::ExprEvaluation);
            }
            let a = work_area.fetch(*lhs);
            let b = work_area.fetch(*rhs);
            match (a, b) {
                (Column::Int32(x), Column::Int32(y)) => {
                    if x.len() != y.len() {
                        return Err(EvaluationError::ExprEvaluation);
                    }
                    Ok(Column::Boolean(gte_i32(x, y)))
                },
                (Column::Int64(x), Column::Int64(y)) => {
                    if x.len() != y.len() {
                        return Err(EvaluationError::ExprEvaluation);
                    }
                    Ok(Column::Boolean(gte_i64(x, y)))
                },
                (Column::UInt32(x), Column::UInt32(y)) => {
                    if x.len() != y.len() {
                        return Err(EvaluationError::ExprEvaluation);
                    }
                    Ok(Column::Boolean(gte_u32(x, y)))
                },
                (Column::UInt64(x), Column::UInt64(y)) => {
                    if x.len() != y.len() {
                        return Err(EvaluationError::ExprEvaluation);
                    }
                    Ok(Column::Boolean(gte_u64(x, y)))
                },
                (Column::Utf8(x), Column::Utf8(y)) => {
                    if x.len() != y.len() {
                        return Err(EvaluationError::ExprEvaluation);
                    }
                    Ok(Column::Boolean(gte_utf8(x, y)))
                },
                (Column::Timestamp(u1, x), Column::Timestamp(u2, y)) => {
                    if !(u1 == u2) || x.len() != y.len() {
                        return Err(EvaluationError::ExprEvaluation);
                    }
                    Ok(Column::Boolean(gte_i64(x, y)))
                },
                _ => Err(EvaluationError::ExprEvaluation),
            }
        },
        Evaluator::FieldRef { input, field } => {
            if !(*input < work_area.len()) {
                return Err(EvaluationError::ExprEvaluation);
            }
            let c = work_area.fetch(*input);
            match c {
                Column::Struct(fields, children, len) => {
                    proof {
                        crate::column::lemma_columns_view(children@);
                    }
                    if *field < children.len() {
                        Ok(crate::column::duplicate_column(&children[*field]))
                    } else {
                        Err(EvaluationError::ExprEvaluation)
                    }
                },
                _ => Err(EvaluationError::ExprEvaluation),
            }
        },
    }
}

fn broadcast_i32(v: i32, n: usize) -> (r: Vec<Option<i32>>)
    ensures
        r@ == Seq::new(n as nat, |i: int| Some(v)),
{
    let mut out: Vec<Option<i32>> = Vec::new();
    let mut i: usize = 0;
    while i < n
        invariant
            0 <= i <= n,
            out@ =~= Seq::new(i as nat, |k: int| Some(v)),
        decreases n - i,
    {
        out.push(Some(v));
        proof {
            assert(out@ =~= Seq::new((i + 1) as nat, |k: int| Some(v)));
        }
        i = i + 1;
    }
    out
}

fn broadcast_i64(v: i64, n: usize) -> (r: Vec<Option<i64>>)
    ensures
        r@ == Seq::new(n as nat, |i: int| Some(v)),
{
    let mut out: Vec<Option<i64>> = Vec::new();
    let mut i: usize = 0;
    while i < n
        invariant
            0 <= i <= n,
            out@ =~= Seq::new(i as nat, |k: int| Some(v)),
        decreases n - i,
    {
        out.push(Some(v));
        proof {
            assert(out@ =~= Seq::new((i + 1) as nat, |k: int| Some(v)));
        }
        i = i + 1;
    }
    out
}

fn broadcast_u32(v: u32, n: usize) -> (r: Vec<Option<u32>>)
    ensures
        r@ == Seq::new(n as nat, |i: int| Some(v)),
{
    let mut out: Vec<Option<u32>> = Vec::new();
    let mut i: usize = 0;
    while i < n
        invariant
            0 <= i <= n,
            out@ =~= Seq::new(i as nat, |k: int| Some(v)),
        decreases n - i,
    {
        out.push(Some(v));
        proof {
            assert(out@ =~= Seq::new((i + 1) as nat, |k: int| Some(v)));
        }
        i = i + 1;
    }
    out
}

fn broadcast_u64(v: u64, n: usize) -> (r: Vec<Option<u64>>)
    ensures
        r@ == Seq::new(n as nat, |i: int| Some(v)),
{
    let mut out: Vec<Option<u64>> = Vec::new();
    let mut i: usize = 0;
    while i < n
        invariant
            0 <= i <= n,
            out@ =~= Seq::new(i as nat, |k: int| Some(v)),
        decreases n - i,
    {
        out.push(Some(v));
        proof {
            assert(out@ =~= Seq::new((i + 1) as nat, |k: int| Some(v)));
        }
        i = i + 1;
    }
    out
}

fn gte_i32(a: &Vec<Option<i32>>, b: &Vec<Option<i32>>) -> (r: Vec<Option<bool>>)
    requires
        a@.len() == b@.len(),
    ensures
        r@ == gte_rows_i32(a@, b@),
{
    let ghost goal = gte_rows_i32(a@, b@);
    let mut out: Vec<Option<bool>> = Vec::new();
    let mut i: usize = 0;
    while i < a.len()
        invariant
            0 <= i <= a@.len(),
            a@.len() == b@.len(),
            goal == gte_rows_i32(a@, b@),
            goal.len() == a@.len(),
            out@ =~= goal.subrange(0, i as int),
        decreases a@.len() - i,
    {
        let item = match (a[i], b[i]) {
            (Some(x), Some(y)) => Some(x >= y),
            _ => None,
        };
        out.push(item);
        proof {
            assert(goal[i as int] == (match (a@[i as int], b@[i as int]) {
                (Some(x), Some(y)) => Some(x >= y),
                _ => None,
            }));
            assert(out@ =~= goal.subrange(0, i + 1));
        }
        i = i + 1;
    }
    proof {
        assert(goal.subrange(0, goal.len() as int) == goal);
    }
    out
}

fn gte_i64(a: &Vec<Option<i64>>, b: &Vec<Option<i64>>) -> (r: Vec<Option<bool>>)
    requires
        a@.len() == b@.len(),
    ensures
        r@ == gte_rows_i64(a@, b@),
{
    let ghost goal = gte_rows_i64(a@, b@);
    let mut out: Vec<Option<bool>> = Vec::new();
    let mut i: usize = 0;
    while i < a.len()
        invariant
            0 <= i <= a@.len(),
            a@.len() == b@.len(),
            goal == gte_rows_i64(a@, b@),
            goal.len() == a@.len(),
            out@ =~= goal.subrange(0, i as int),
        decreases a@.len() - i,
    {
        let item = match (a[i], b[i]) {
            (Some(x), Some(y)) => Some(x >= y),
            _ => None,
        };
        out.push(item);
        proof {
            assert(goal[i as int] == (match (a@[i as int], b@[i as int]) {
                (Some(x), Some(y)) => Some(x >= y),
                _ => None,
            }));
            assert(out@ =~= goal.subrange(0, i + 1));
        }
        i = i + 1;
    }
    proof {
        assert(goal.subrange(0, goal.len() as int) == goal);
    }
    out
}

fn gte_u32(a: &Vec<Option<u32>>, b: &Vec<Option<u32>>) -> (r: Vec<Option<bool>>)
    requires
        a@.len() == b@.len(),
    ensures
        r@ == gte_rows_u32(a@, b@),
{
    let ghost goal = gte_rows_u32(a@, b@);
    let mut out: Vec<Option<bool>> = Vec::new();
    let mut i: usize = 0;
    while i < a.len()
        invariant
            0 <= i <= a@.len(),
            a@.len() == b@.len(),
            goal == gte_rows_u32(a@, b@),
            goal.len() == a@.len(),
            out@ =~= goal.subrange(0, i as int),
        decreases a@.len() - i,
    {
        let item = match (a[i], b[i]) {
            (Some(x), Some(y)) => Some(x >= y),
            _ => None,
        };
        out.push(item);
        proof {
            assert(goal[i as int] == (match (a@[i as int], b@[i as int]) {
                (Some(x), Some(y)) => Some(x >= y),
                _ => None,
            }));
            assert(out@ =~= goal.subrange(0, i + 1));
        }
        i = i + 1;
    }
    proof {
        assert(goal.subrange(0, goal.len() as int) == goal);
    }
    out
}

fn gte_u64(a: &Vec<Option<u64>>, b: &Vec<Option<u64>>) -> (r: Vec<Option<bool>>)
    requires
        a@.len() == b@.len(),
    ensures
        r@ == gte_rows_u64(a@, b@),
{
    let ghost goal = gte_rows_u64(a@, b@);
    let mut out: Vec<Option<bool>> = Vec::new();
    let mut i: usize = 0;
    while i < a.len()
        invariant
            0 <= i <= a@.len(),
            a@.len() == b@.len(),
            goal == gte_rows_u64(a@, b@),
            goal.len() == a@.len(),
            out@ =~= goal.subrange(0, i as int),
        decreases a@.len() - i,
    {
        let item = match (a[i], b[i]) {
            (Some(x), Some(y)) => Some(x >= y),
            _ => None,
        };
        out.push(item);
        proof {
            assert(goal[i as int] == (match (a@[i as int], b@[i as int]) {
                (Some(x), Some(y)) => Some(x >= y),
                _ => None,
            }));
            assert(out@ =~= goal.subrange(0, i + 1));
        }
        i = i + 1;
    }
    proof {
        assert(goal.subrange(0, goal.len() as int) == goal);
    }
    out
}

fn gte_utf8(a: &Vec<Option<String>>, b: &Vec<Option<String>>) -> (r: Vec<Option<bool>>)
    requires
        a@.len() == b@.len(),
    ensures
        r@ == gte_rows_utf8(
            a@.map_values(|o: Option<String>| crate::column::opt_string_view(o)),
            b@.map_values(|o: Option<String>| crate::column::opt_string_view(o)),
        ),
{
    let ghost av = a@.map_values(|o: Option<String>| crate::column::opt_string_view(o));
    let ghost bv = b@.map_values(|o: Option<String>| crate::column::opt_string_view(o));
    let ghost goal = gte_rows_utf8(av, bv);
    let mut out: Vec<Option<bool>> = Vec::new();
    let mut i: usize = 0;
    while i < a.len()
        invariant
            0 <= i <= a@.len(),
            a@.len() == b@.len(),
            av == a@.map_values(|o: Option<String>| crate::column::opt_string_view(o)),
            bv == b@.map_values(|o: Option<String>| crate::column::opt_string_view(o)),
            goal == gte_rows_utf8(av, bv),
            av.len() == a@.len(),
            bv.len() == b@.len(),
            goal.len() == a@.len(),
            out@ =~= goal.subrange(0, i as int),
        decreases a@.len() - i,
    {
        let item = match (&a[i], &b[i]) {
            (Some(x), Some(y)) => Some(str_ge(x.as_str(), y.as_str())),
            _ => None,
        };
        out.push(item);
        proof {
            assert(av[i as int] == crate::column::opt_string_view(a@[i as int]));
            assert(bv[i as int] == crate::column::opt_string_view(b@[i as int]));
            assert(goal[i as int] == (match (av[i as int], bv[i as int]) {
                (Some(x), Some(y)) => Some(lex_ge(x, y)),
                _ => None,
            }));
            assert(out@ =~= goal.subrange(0, i + 1));
        }
        i = i + 1;
    }
    proof {
        assert(goal.subrange(0, goal.len() as int) == goal);
    }
    out
}

} // verus!
