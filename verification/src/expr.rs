//! The physical expression intermediate representation: a flat,
//! index-addressed list of expression nodes in topological order.

use vstd::prelude::*;

use crate::types::DataType;
use crate::types::DataTypeV;
use crate::types::data_type_view;

verus! {

broadcast use vstd::std_specs::vec::group_vec_axioms, vstd::seq::group_seq_axioms;

/// The identifier (index) of an expression.
#[derive(Debug, Clone, Copy, PartialEq, Eq, Structural, PartialOrd, Ord, Hash)]
pub struct ExprId(pub usize);

impl From<usize> for ExprId {
    fn from(value: usize) -> (r: Self) {
        ExprId(value)
    }
}

impl vstd::std_specs::convert::FromSpecImpl<usize> for ExprId {
    open spec fn obeys_from_spec() -> bool {
        true
    }

    open spec fn from_spec(value: usize) -> Self {
        ExprId(value)
    }
}

/// An arbitrary-precision decimal literal, kept as text to avoid lossy
/// round-trips; narrowing to the node's declared result type happens only
/// when a literal evaluator materializes its constant column.
#[derive(Debug, PartialEq, Eq, Hash)]
pub struct Decimal {
    pub text: String,
}

impl View for Decimal {
    type V = Seq<char>;

    open spec fn view(&self) -> Seq<char> {
        self.text@
    }
}

/// What one expression node does.
#[derive(Debug, PartialEq, Eq, Hash)]
pub enum ExprKind {
    /// Apply the named instruction to the given children.
    Call(String),
    /// Reference an input column by name.
    Column(String),
    /// A boolean literal.
    BooleanLiteral(bool),
    /// A string literal.
    StringLiteral(String),
    /// A numeric literal.
    ///
    /// Other primitive literals (such as date times) may be expressed
    /// using numeric literals with an appropriate result type.
    NumericLiteral(Decimal),
}

/// Mathematical view of an [`ExprKind`].
pub enum ExprKindV {
    Call(Seq<char>),
    Column(Seq<char>),
    BooleanLiteral(bool),
    StringLiteral(Seq<char>),
    NumericLiteral(Seq<char>),
}

pub open spec fn expr_kind_view(k: ExprKind) -> ExprKindV {
    match k {
        ExprKind::Call(name) => ExprKindV::Call(name@),
        ExprKind::Column(name) => ExprKindV::Column(name@),
        ExprKind::BooleanLiteral(b) => ExprKindV::BooleanLiteral(b),
        ExprKind::StringLiteral(s) => ExprKindV::StringLiteral(s@),
        ExprKind::NumericLiteral(d) => ExprKindV::NumericLiteral(d.text@),
    }
}

impl View for ExprKind {
    type V = ExprKindV;

    open spec fn view(&self) -> ExprKindV {
        expr_kind_view(*self)
    }
}

impl ExprKind {
    /// The instruction name, if this node is a call.
    pub fn as_call(&self) -> (r: Option<&String>)
        ensures
            match r {
                Some(name) => self@ == ExprKindV::Call(name@),
                None => !(self@ matches ExprKindV::Call(_)),
            },
    {
        match self {
            ExprKind::Call(name) => Some(name),
            _ => None,
        }
    }

    /// The column name, if this node is a column reference.
    pub fn as_column(&self) -> (r: Option<&String>)
        ensures
            match r {
                Some(name) => self@ == ExprKindV::Column(name@),
                None => !(self@ matches ExprKindV::Column(_)),
            },
    {
        match self {
            ExprKind::Column(name) => Some(name),
            _ => None,
        }
    }

    /// The payload, if this node is a boolean literal.
    pub fn as_boolean_literal(&self) -> (r: Option<bool>)
        ensures
            match r {
                Some(b) => self@ == ExprKindV::BooleanLiteral(b),
                None => !(self@ matches ExprKindV::BooleanLiteral(_)),
            },
    {
        match self {
            ExprKind::BooleanLiteral(b) => Some(*b),
            _ => None,
        }
    }

    /// The payload, if this node is a string literal.
    pub fn as_string_literal(&self) -> (r: Option<&String>)
        ensures
            match r {
                Some(s) => self@ == ExprKindV::StringLiteral(s@),
                None => !(self@ matches ExprKindV::StringLiteral(_)),
            },
    {
        match self {
            ExprKind::StringLiteral(s) => Some(s),
            _ => None,
        }
    }

    /// The payload, if this node is a numeric literal.
    pub fn as_numeric_literal(&self) -> (r: Option<&Decimal>)
        ensures
            match r {
                Some(d) => self@ == ExprKindV::NumericLiteral(d@),
                None => !(self@ matches ExprKindV::NumericLiteral(_)),
            },
    {
        match self {
            ExprKind::NumericLiteral(d) => Some(d),
            _ => None,
        }
    }
}

/// A physical expression node: how one column of values is computed from
/// zero or more earlier columns.
#[derive(Debug, PartialEq)]
pub struct Expr {
    pub kind: ExprKind,
    /// Arguments to the expression: indices referencing earlier
    /// expressions.
    pub args: Vec<ExprId>,
    /// The type produced by the expression.
    pub result_type: DataType,
}

/// Mathematical view of an [`Expr`].
pub struct ExprV {
    pub kind: ExprKindV,
    pub args: Seq<usize>,
    pub result_type: DataTypeV,
}

pub open spec fn expr_view(e: Expr) -> ExprV {
    ExprV {
        kind: expr_kind_view(e.kind),
        args: e.args@.map_values(|id: ExprId| id.0),
        result_type: data_type_view(e.result_type),
    }
}

impl View for Expr {
    type V = ExprV;

    open spec fn view(&self) -> ExprV {
        expr_view(*self)
    }
}

/// The topological invariant of a node list: every argument index of node
/// `i` is strictly less than `i`, so the flat list is a directed acyclic
/// graph in a valid topological order.
pub open spec fn well_ordered(exprs: Seq<ExprV>) -> bool {
    forall|i: int, j: int|
        0 <= i < exprs.len() && 0 <= j < exprs[i].args.len() ==> (#[trigger] exprs[i].args[j])
            < i
}

pub open spec fn exprs_view(exprs: Seq<Expr>) -> Seq<ExprV> {
    exprs.map_values(|e: Expr| expr_view(e))
}

/// Whether a node list satisfies the topological invariant; a list that
/// does not must be rejected before evaluation.
pub fn validate_topology(exprs: &Vec<Expr>) -> (r: bool)
    ensures
        r == well_ordered(exprs_view(exprs@)),
{
    let ghost ev = exprs_view(exprs@);
    let mut i: usize = 0;
    while i < exprs.len()
        invariant
            0 <= i <= exprs@.len(),
            ev == exprs_view(exprs@),
            ev.len() == exprs@.len(),
            forall|k: int| 0 <= k < exprs@.len() ==> ev[k] == expr_view(exprs@[k]),
            forall|k: int, j: int|
                0 <= k < i && 0 <= j < ev[k].args.len() ==> (#[trigger] ev[k].args[j]) < k,
        decreases exprs@.len() - i,
    {
        let e = &exprs[i];
        let mut j: usize = 0;
        while j < e.args.len()
            invariant
                0 <= j <= e.args@.len(),
                e == exprs@[i as int],
                0 <= i < exprs@.len(),
                ev == exprs_view(exprs@),
                ev.len() == exprs@.len(),
                forall|k: int| 0 <= k < exprs@.len() ==> ev[k] == expr_view(exprs@[k]),
                ev[i as int].args =~= e.args@.map_values(|id: ExprId| id.0),
                forall|l: int| 0 <= l < j ==> (#[trigger] ev[i as int].args[l]) < i,
            decreases e.args@.len() - j,
        {
            if e.args[j].0 >= i {
                proof {
                    assert(ev[i as int].args[j as int] == e.args@[j as int].0);
                    assert(!well_ordered(ev));
                }
                return false;
            }
            proof {
                assert(ev[i as int].args[j as int] == e.args@[j as int].0);
            }
            j = j + 1;
        }
        i = i + 1;
    }
    true
}

} // verus!
