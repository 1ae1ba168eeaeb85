//! Error types of the two strictly separated failure phases: instantiation
//! (once, while binding a plan node to an evaluator) and evaluation (per
//! batch).

use vstd::prelude::*;

use crate::types::DataType;

verus! {

/// Failure while building an evaluator from a call site. Unrecoverable for
/// the plan: compilation of the whole plan fails.
#[derive(Debug, PartialEq, Eq)]
pub enum InstantiationError {
    /// The instruction name is not in the registry.
    UnknownInstruction { name: String },
    /// The call site has a different number of value arguments than the
    /// instruction unpacks.
    WrongArgumentCount { name: String, expected: usize, actual: usize },
    /// The call site does not carry exactly the literal argument the
    /// instruction expects.
    InvalidLiteral { name: String },
    /// A named struct field does not exist.
    NoSuchField { field_name: String },
    /// A named input column does not exist.
    NoSuchColumn { name: String },
    /// The resolved type does not match the node's declared result type.
    UnexpectedResultType { name: String, actual: DataType, expected: DataType },
    /// The argument is not a struct, but the instruction needs one.
    InvalidNonStructArgumentType { actual: DataType },
    /// The instruction has no implementation specialized to this type.
    UnsupportedArgumentType { name: String, actual: DataType },
    /// An argument index does not refer to an earlier expression.
    ArgumentOutOfOrder { index: usize },
    /// A literal node's declared result type does not fit the literal.
    UnsupportedLiteralType { expected: DataType },
    /// A numeric literal's text cannot be narrowed to the declared result
    /// type.
    InvalidNumericLiteral { text: String },
}

/// Failure while evaluating one node over one batch; aborts the batch for
/// the whole pipeline.
#[derive(Debug, PartialEq, Eq, Structural)]
pub enum EvaluationError {
    /// The underlying columnar computation failed.
    ExprEvaluation,
}

} // verus!
