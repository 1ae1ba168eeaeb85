//! Physical-expression compilation and evaluation core of a temporal
//! feature-query engine.
//!
//! The crate has three layers:
//!
//! * a type system ([`types`], [`parse`], [`format`], [`classes`]) that turns
//!   textual type annotations into type values, formats them back, and
//!   constrains polymorphic instantiation through type classes;
//! * a physical expression intermediate representation ([`expr`],
//!   [`plan_doc`]): a flat, index-addressed list of expression nodes with a
//!   stable, lossless document encoding;
//! * an evaluation layer ([`registry`], [`compile`], [`evaluator`],
//!   [`column`], [`work_area`]) that binds each node to a type-specialized
//!   evaluator once per plan and then runs the whole node list over a batch
//!   of columnar values.
//!
//! The [`metrics`] module holds the small instrumentation surface that
//! evaluators may use to report named counters and gauges.

pub mod classes;
pub mod column;
pub mod compile;
pub mod errors;
pub mod evaluator;
pub mod expr;
pub mod format;
pub mod metrics;
pub mod parse;
pub mod plan_doc;
pub mod registry;
pub mod roundtrip;
pub mod types;
pub mod work_area;
