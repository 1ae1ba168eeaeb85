//! The scheduler-facing surface: resolve every expression node to a bound
//! evaluator ("compile", failing with instantiation errors), and evaluate
//! all nodes for one batch ("run", failing with evaluation errors).
//!
//! All type validation happens here, once per plan; the per-batch path in
//! [`crate::evaluator`] re-checks nothing.

use vstd::prelude::*;

use crate::column::Batch;
use crate::column::Column;
use crate::column::ColumnV;
use crate::errors::EvaluationError;
use crate::errors::InstantiationError;
use crate::evaluator::Evaluator;
use crate::evaluator::NumericScalar;
use crate::evaluator::spec_evaluate;
use crate::expr::Expr;
use crate::expr::ExprKind;
use crate::expr::ExprKindV;
use crate::expr::ExprV;
use crate::expr::exprs_view;
use crate::registry::InstructionKind;
use crate::registry::Registry;
use crate::registry::lookup_spec;
use crate::types::DataType;
use crate::types::DataTypeV;
use crate::types::Field;
use crate::types::FieldV;
use crate::types::fields_view;
use crate::work_area::WorkArea;
use crate::work_area::cols_view;

verus! {

broadcast use vstd::std_specs::vec::group_vec_axioms, vstd::seq::group_seq_axioms;

/// A declared value argument of a call site: the index of the expression
/// producing it, and its statically known type.
#[derive(Debug)]
pub struct ValueRef {
    pub index: usize,
    pub data_type: DataType,
}

/// The description of one call site handed to an instruction factory: the
/// string-literal arguments, the declared value arguments with their
/// types, the node's declared result type, and the instruction name for
/// diagnostics.
#[derive(Debug)]
pub struct StaticInfo {
    pub name: String,
    pub literal_args: Vec<String>,
    pub value_args: Vec<ValueRef>,
    pub result_type: DataType,
}

/// Index of the first field with the given name, or `-1`.
pub open spec fn find_field(fields: Seq<FieldV>, name: Seq<char>) -> int
    decreases fields.len(),
{
    if fields.len() == 0 {
        -1
    } else if fields[0].name == name {
        0
    } else {
        let r = find_field(fields.subrange(1, fields.len() as int), name);
        if r < 0 {
            -1
        } else {
            r + 1
        }
    }
}

pub proof fn lemma_find_field(fields: Seq<FieldV>, name: Seq<char>)
    ensures
        find_field(fields, name) >= 0 <==> exists|i: int|
            0 <= i < fields.len() && fields[i].name == name,
        find_field(fields, name) >= 0 ==> 0 <= find_field(fields, name) < fields.len()
            && fields[find_field(fields, name)].name == name && forall|j: int|
            0 <= j < find_field(fields, name) ==> fields[j].name != name,
    decreases fields.len(),
{
    if fields.len() == 0 {
    } else if fields[0].name == name {
    } else {
        let rest = fields.subrange(1, fields.len() as int);
        lemma_find_field(rest, name);
        assert(forall|i: int| 1 <= i < fields.len() ==> fields[i] == rest[i - 1]);
        if exists|i: int| 0 <= i < fields.len() && fields[i].name == name {
            let w = choose|i: int| 0 <= i < fields.len() && fields[i].name == name;
            assert(rest[w - 1].name == name);
        }
        if exists|i: int| 0 <= i < rest.len() && rest[i].name == name {
            let w = choose|i: int| 0 <= i < rest.len() && rest[i].name == name;
            assert(fields[w + 1].name == name);
        }
    }
}

/// The types the ordering comparison is specialized for: the ordered
/// types whose columns this core carries. Floating-point columns are
/// outside the verified core, and the narrow integer and large-string
/// payloads have no column representation here.
pub open spec fn gte_supported(d: DataTypeV) -> bool {
    match d {
        DataTypeV::Int32 | DataTypeV::Int64 | DataTypeV::UInt32 | DataTypeV::UInt64 => true,
        DataTypeV::Utf8 => true,
        DataTypeV::Timestamp(_) => true,
        _ => false,
    }
}

fn gte_supported_exec(d: &DataType) -> (r: bool)
    ensures
        r == gte_supported(d@),
{
    matches!(
        d,
        DataType::Int32 | DataType::Int64 | DataType::UInt32 | DataType::UInt64
            | DataType::Utf8 | DataType::Timestamp(_)
    )
}

/// Factory of the ordering comparison: exactly two same-typed value
/// arguments of a supported ordered type, boolean result. The type check
/// happens here, once per plan, never per batch.
pub fn create_gte_primitive(info: &StaticInfo) -> (r: Result<Evaluator, InstantiationError>)
    ensures
        ({
            let vals = info.value_args@;
            &&& vals.len() != 2 ==> (r matches Err(InstantiationError::WrongArgumentCount {
                name, expected, actual }) && name@ == info.name@ && expected == 2 && actual
                == vals.len())
            &&& vals.len() == 2 && vals[0].data_type@ != vals[1].data_type@ ==> (r matches
            Err(InstantiationError::UnexpectedResultType { name, actual, expected })
                && name@ == info.name@ && actual@ == vals[1].data_type@ && expected@
                == vals[0].data_type@)
            &&& vals.len() == 2 && vals[0].data_type@ == vals[1].data_type@
                && !gte_supported(vals[0].data_type@) ==> (r matches Err(
            InstantiationError::UnsupportedArgumentType { name, actual }) && name@
                == info.name@ && actual@ == vals[0].data_type@)
            &&& vals.len() == 2 && vals[0].data_type@ == vals[1].data_type@ && gte_supported(
                vals[0].data_type@,
            ) && info.result_type@ != DataTypeV::Boolean ==> (r matches Err(
            InstantiationError::UnexpectedResultType { name, actual, expected }) && name@
                == info.name@ && actual@ == DataTypeV::Boolean && expected@
                == info.result_type@)
            &&& vals.len() == 2 && vals[0].data_type@ == vals[1].data_type@ && gte_supported(
                vals[0].data_type@,
            ) && info.result_type@ == DataTypeV::Boolean ==> r == Ok::<Evaluator, InstantiationError>(
                Evaluator::GtePrimitive { lhs: vals[0].index, rhs: vals[1].index },
            )
        }),
{
    if info.value_args.len() != 2 {
        return Err(
            InstantiationError::WrongArgumentCount {
                name: info.name.clone(),
                expected: 2,
                actual: info.value_args.len(),
            },
        );
    }
    let lhs = &info.value_args[0];
    let rhs = &info.value_args[1];
    if !crate::classes::data_type_eq(&lhs.data_type, &rhs.data_type) {
        return Err(
            InstantiationError::UnexpectedResultType {
                name: info.name.clone(),
                actual: crate::classes::duplicate_data_type(&rhs.data_type),
                expected: crate::classes::duplicate_data_type(&lhs.data_type),
            },
        );
    }
    if !gte_supported_exec(&lhs.data_type) {
        return Err(
            InstantiationError::UnsupportedArgumentType {
                name: info.name.clone(),
                actual: crate::classes::duplicate_data_type(&lhs.data_type),
            },
        );
    }
    if !matches!(&info.result_type, DataType::Boolean) {
        return Err(
            InstantiationError::UnexpectedResultType {
                name: info.name.clone(),
                actual: DataType::Boolean,
                expected: crate::classes::duplicate_data_type(&info.result_type),
            },
        );
    }
    Ok(Evaluator::GtePrimitive { lhs: lhs.index, rhs: rhs.index })
}

/// Factory of struct-field projection: one string literal naming the
/// field, one struct-typed value argument; the resolved field's type must
/// equal the node's declared result type.
#[verifier::loop_isolation(false)]
pub fn create_field_ref(info: &StaticInfo) -> (r: Result<Evaluator, InstantiationError>)
    ensures
        ({
            let lits = info.literal_args@;
            let vals = info.value_args@;
            &&& lits.len() != 1 ==> (r matches Err(InstantiationError::InvalidLiteral {
                name }) && name@ == info.name@)
            &&& lits.len() == 1 && vals.len() != 1 ==> (r matches Err(
            InstantiationError::WrongArgumentCount { name, expected, actual }) && name@
                == info.name@ && expected == 1 && actual == vals.len())
            &&& lits.len() == 1 && vals.len() == 1 && !(vals[0].data_type@ matches
            DataTypeV::Struct(_)) ==> (r matches Err(
            InstantiationError::InvalidNonStructArgumentType { actual }) && actual@
                == vals[0].data_type@)
            &&& lits.len() == 1 && vals.len() == 1 && (vals[0].data_type@ matches
            DataTypeV::Struct(fields)) ==> ({
                let fields = vals[0].data_type@->Struct_0;
                let fi = find_field(fields, lits[0]@);
                &&& fi < 0 ==> (r matches Err(InstantiationError::NoSuchField {
                    field_name }) && field_name@ == lits[0]@)
                &&& fi >= 0 && fields[fi].data_type != info.result_type@ ==> (r matches Err(
                InstantiationError::UnexpectedResultType { name, actual, expected })
                    && name@ == info.name@ && actual@ == fields[fi].data_type && expected@
                    == info.result_type@)
                &&& fi >= 0 && fields[fi].data_type == info.result_type@ ==> (r matches Ok(
                    ev,
                ) && ev matches Evaluator::FieldRef { input, field } && input
                    == vals[0].index && field as int == fi)
            })
        }),
{
    if info.literal_args.len() != 1 {
        return Err(InstantiationError::InvalidLiteral { name: info.name.clone() });
    }
    if info.value_args.len() != 1 {
        return Err(
            InstantiationError::WrongArgumentCount {
                name: info.name.clone(),
                expected: 1,
                actual: info.value_args.len(),
            },
        );
    }
    let field_name = &info.literal_args[0];
    let input = &info.value_args[0];
    match &input.data_type {
        DataType::Struct(fields) => {
            let ghost fv = fields_view(fields@);
            proof {
                crate::types::lemma_fields_view(fields@);
                lemma_find_field(fv, field_name@);
            }
            let n = fields.len();
            let mut i: usize = 0;
            while i < n
                invariant
                    0 <= i <= n,
                    forall|j: int| 0 <= j < i ==> fv[j].name != field_name@,
                decreases n - i,
            {
                if crate::parse::str_eq(fields[i].name.as_str(), field_name.as_str()) {
                    proof {
                        assert(fv[i as int].name == field_name@);
                        lemma_find_field(fv, field_name@);
                        let fe = find_field(fv, field_name@);
                        assert(fe >= 0);
                        if fe < i {
                            assert(fv[fe].name == field_name@);
                            assert(false);
                        } else if fe > i {
                            assert(fv[i as int].name != field_name@);
                            assert(false);
                        }
                        assert(fe == i);
                    }
                    let field = &fields[i];
                    if !crate::classes::data_type_eq(&field.data_type, &info.result_type) {
                        return Err(
                            InstantiationError::UnexpectedResultType {
                                name: info.name.clone(),
                                actual: crate::classes::duplicate_data_type(
                                    &field.data_type,
                                ),
                                expected: crate::classes::duplicate_data_type(
                                    &info.result_type,
                                ),
                            },
                        );
                    }
                    return Ok(Evaluator::FieldRef { input: input.index, field: i });
                }
                i = i + 1;
            }
            proof {
                assert(forall|j: int| 0 <= j < n ==> fv[j].name != field_name@);
                lemma_find_field(fv, field_name@);
                assert(find_field(fv, field_name@) < 0);
            }
            Err(InstantiationError::NoSuchField { field_name: field_name.clone() })
        },
        other => {
            Err(
                InstantiationError::InvalidNonStructArgumentType {
                    actual: crate::classes::duplicate_data_type(other),
                },
            )
        },
    }
}

/// The indices of the value arguments of a call: every argument whose
/// node is not a string literal (string literals are passed to the
/// factory as literal arguments instead).
pub open spec fn val_indices(plan: Seq<ExprV>, args: Seq<usize>) -> Seq<usize>
    decreases args.len(),
{
    if args.len() == 0 {
        Seq::empty()
    } else {
        let init = val_indices(plan, args.subrange(0, args.len() - 1));
        let a = args[args.len() - 1];
        if plan[a as int].kind matches ExprKindV::StringLiteral(_) {
            init
        } else {
            init.push(a)
        }
    }
}

/// The texts of the string-literal arguments of a call, in order.
pub open spec fn lit_texts(plan: Seq<ExprV>, args: Seq<usize>) -> Seq<Seq<char>>
    decreases args.len(),
{
    if args.len() == 0 {
        Seq::empty()
    } else {
        let init = lit_texts(plan, args.subrange(0, args.len() - 1));
        let a = args[args.len() - 1];
        if plan[a as int].kind matches ExprKindV::StringLiteral(s) {
            init.push(plan[a as int].kind->StringLiteral_0)
        } else {
            init
        }
    }
}

/// Valid integer literal text: an optional minus sign, then only digits,
/// at least one.
pub open spec fn is_digit(c: char) -> bool {
    '0' <= c && c <= '9'
}

pub open spec fn digits_val(s: Seq<char>) -> int
    decreases s.len(),
{
    if s.len() == 0 {
        0
    } else {
        digits_val(s.subrange(0, s.len() - 1)) * 10 + (s[s.len() - 1] as int - '0' as int)
    }
}

pub open spec fn all_digits(s: Seq<char>) -> bool {
    forall|i: int| 0 <= i < s.len() ==> is_digit(#[trigger] s[i])
}

pub open spec fn is_int_text(s: Seq<char>) -> bool {
    if s.len() > 0 && s[0] == '-' {
        s.len() >= 2 && all_digits(s.subrange(1, s.len() as int))
    } else {
        s.len() >= 1 && all_digits(s)
    }
}

/// The signed value of valid integer literal text.
pub open spec fn int_text_val(s: Seq<char>) -> int {
    if s.len() > 0 && s[0] == '-' {
        -digits_val(s.subrange(1, s.len() as int))
    } else {
        digits_val(s)
    }
}

/// All digit strings denote nonnegative values.
proof fn lemma_digits_val_nonneg(s: Seq<char>)
    requires
        all_digits(s),
    ensures
        digits_val(s) >= 0,
    decreases s.len(),
{
    if s.len() > 0 {
        let init = s.subrange(0, s.len() - 1);
        assert(all_digits(init));
        lemma_digits_val_nonneg(init);
    }
}

/// A digit string is worth at least any of its prefixes.
proof fn lemma_digits_val_prefix_le(s: Seq<char>, k: int)
    requires
        all_digits(s),
        0 <= k <= s.len(),
    ensures
        digits_val(s.subrange(0, k)) <= digits_val(s),
    decreases s.len() - k,
{
    if k == s.len() {
        assert(s.subrange(0, k) =~= s);
    } else {
        assert(s.subrange(0, k + 1).subrange(0, k) =~= s.subrange(0, k));
        assert(all_digits(s.subrange(0, k + 1)));
        assert(all_digits(s.subrange(0, k)));
        lemma_digits_val_nonneg(s.subrange(0, k));
        assert(is_digit(s.subrange(0, k + 1)[k]));
        assert(digits_val(s.subrange(0, k)) <= digits_val(s.subrange(0, k + 1)));
        lemma_digits_val_prefix_le(s, k + 1);
    }
}

/// Parse integer literal text into its sign and magnitude.
///
/// Succeeds exactly on valid integer text whose magnitude fits an
/// unsigned 64-bit count (every target type's range lies inside that).
#[verifier::loop_isolation(false)]
pub fn parse_int_parts(s: &str) -> (r: Option<(bool, u64)>)
    ensures
        match r {
            Some((neg, mag)) => {
                &&& is_int_text(s@)
                &&& neg == (s@[0] == '-')
                &&& int_text_val(s@) == if neg {
                    -(mag as int)
                } else {
                    mag as int
                }
            },
            None => !(is_int_text(s@) && -(u64::MAX as int) <= int_text_val(s@)
                <= u64::MAX as int),
        },
{
    let n = s.unicode_len();
    let neg = n > 0 && s.get_char(0) == '-';
    let start: usize = if neg {
        1
    } else {
        0
    };
    let ghost digits = s@.subrange(start as int, n as int);
    if n == start {
        return None;
    }
    let mut mag: u128 = 0;
    let mut over: bool = false;
    let mut i: usize = start;
    proof {
        assert(digits.subrange(0, 0) =~= Seq::<char>::empty());
    }
    while i < n
        invariant
            start <= i <= n,
            digits == s@.subrange(start as int, n as int),
            all_digits(digits.subrange(0, i - start)),
            !over ==> mag as int == digits_val(digits.subrange(0, i - start)) && mag
                <= u64::MAX as u128,
            over ==> digits_val(digits.subrange(0, i - start)) > u64::MAX as int,
        decreases n - i,
    {
        let c = s.get_char(i);
        if !('0' <= c && c <= '9') {
            proof {
                assert(digits[i - start] == s@[i as int]);
                assert(!is_digit(s@[i as int]));
                assert(!all_digits(digits));
            }
            return None;
        }
        let d = (c as u32 - '0' as u32) as u128;
        proof {
            assert(digits.subrange(0, i - start + 1).subrange(0, i - start) =~= digits.subrange(
                0,
                i - start,
            ));
            assert(digits.subrange(0, i - start + 1)[i - start] == s@[i as int]);
            if over {
                assert(all_digits(digits.subrange(0, i - start)));
                lemma_digits_val_nonneg(digits.subrange(0, i - start));
            }
        }
        if !over {
            mag = mag * 10 + d;
            if mag > u64::MAX as u128 {
                over = true;
            }
        }
        i = i + 1;
    }
    proof {
        assert(digits.subrange(0, n - start) =~= digits);
        if neg {
            assert(s@.subrange(1, n as int) =~= digits);
        } else {
            assert(digits =~= s@);
        }
    }
    if over {
        return None;
    }
    Some((neg, mag as u64))
}

/// Whether integer literal text can be narrowed to the target type: the
/// text is valid and its value lies in the target's range. Timestamps and
/// durations are expressed as signed 64-bit counts of their unit.
pub open spec fn numeric_literal_fits(text: Seq<char>, target: DataTypeV) -> bool {
    &&& is_int_text(text)
    &&& match target {
        DataTypeV::Int32 => i32::MIN <= int_text_val(text) <= i32::MAX,
        DataTypeV::Int64 => i64::MIN <= int_text_val(text) <= i64::MAX,
        DataTypeV::UInt32 => 0 <= int_text_val(text) <= u32::MAX,
        DataTypeV::UInt64 => 0 <= int_text_val(text) <= u64::MAX,
        DataTypeV::Timestamp(_) => i64::MIN <= int_text_val(text) <= i64::MAX,
        DataTypeV::Duration(_) => i64::MIN <= int_text_val(text) <= i64::MAX,
        _ => false,
    }
}

/// The scalar that integer literal text narrows to under the target type.
pub open spec fn numeric_literal_ok(text: Seq<char>, target: DataTypeV, sc: NumericScalar) -> bool {
    &&& numeric_literal_fits(text, target)
    &&& match target {
        DataTypeV::Int32 => sc == NumericScalar::I32(int_text_val(text) as i32),
        DataTypeV::Int64 => sc == NumericScalar::I64(int_text_val(text) as i64),
        DataTypeV::UInt32 => sc == NumericScalar::U32(int_text_val(text) as u32),
        DataTypeV::UInt64 => sc == NumericScalar::U64(int_text_val(text) as u64),
        DataTypeV::Timestamp(u) => sc == NumericScalar::Timestamp(
            u,
            int_text_val(text) as i64,
        ),
        DataTypeV::Duration(u) => sc == NumericScalar::Duration(
            u,
            int_text_val(text) as i64,
        ),
        _ => false,
    }
}

/// Narrow a parsed sign and magnitude to a signed 64-bit count.
fn narrow_i64(neg: bool, mag: u64) -> (r: Option<i64>)
    ensures
        ({
            let v: int = if neg {
                -(mag as int)
            } else {
                mag as int
            };
            match r {
                Some(w) => i64::MIN <= v <= i64::MAX && w as int == v,
                None => !(i64::MIN <= v <= i64::MAX),
            }
        }),
{
    if neg {
        if mag <= 9223372036854775807 {
            Some(-(mag as i64))
        } else if mag == 9223372036854775808 {
            Some(i64::MIN)
        } else {
            None
        }
    } else {
        if mag <= 9223372036854775807 {
            Some(mag as i64)
        } else {
            None
        }
    }
}

/// Narrow integer literal text to the node's declared result type; this is
/// the only place a literal's representation is converted.
pub fn materialize_numeric(text: &str, target: &DataType) -> (r: Option<NumericScalar>)
    ensures
        match r {
            Some(sc) => numeric_literal_ok(text@, target@, sc),
            None => !numeric_literal_fits(text@, target@),
        },
{
    let (neg, mag) = match parse_int_parts(text) {
        Some(p) => p,
        None => {
            return None;
        },
    };
    match target {
        DataType::Int32 => {
            if neg {
                if mag <= 2147483648 {
                    Some(NumericScalar::I32((-(mag as i64)) as i32))
                } else {
                    None
                }
            } else {
                if mag <= 2147483647 {
                    Some(NumericScalar::I32(mag as i32))
                } else {
                    None
                }
            }
        },
        DataType::Int64 => match narrow_i64(neg, mag) {
            Some(w) => Some(NumericScalar::I64(w)),
            None => None,
        },
        DataType::UInt32 => {
            if (!neg || mag == 0) && mag <= 4294967295 {
                Some(NumericScalar::U32(mag as u32))
            } else {
                None
            }
        },
        DataType::UInt64 => {
            if !neg || mag == 0 {
                Some(NumericScalar::U64(mag))
            } else {
                None
            }
        },
        DataType::Timestamp(u) => match narrow_i64(neg, mag) {
            Some(w) => Some(NumericScalar::Timestamp(*u, w)),
            None => None,
        },
        DataType::Duration(u) => match narrow_i64(neg, mag) {
            Some(w) => Some(NumericScalar::Duration(*u, w)),
            None => None,
        },
        _ => None,
    }
}

/// Index of the first schema field with the given name, if any.
fn find_schema_column(schema: &Vec<Field>, name: &str) -> (r: Option<usize>)
    ensures
        match r {
            Some(c) => c == find_field(fields_view(schema@), name@) && c < schema@.len(),
            None => find_field(fields_view(schema@), name@) < 0,
        },
{
    let ghost sv = fields_view(schema@);
    proof {
        crate::types::lemma_fields_view(schema@);
    }
    let m = schema.len();
    let mut ci: usize = 0;
    while ci < m
        invariant
            0 <= ci <= m,
            m == schema@.len(),
            sv == fields_view(schema@),
            sv.len() == m,
            forall|k: int| 0 <= k < m ==> sv[k] == crate::types::field_view(schema@[k]),
            forall|l: int| 0 <= l < ci ==> (#[trigger] sv[l].name) != name@,
        decreases m - ci,
    {
        if crate::parse::str_eq(schema[ci].name.as_str(), name) {
            proof {
                assert(sv[ci as int].name == name@);
                lemma_find_field(sv, name@);
                let fe = find_field(sv, name@);
                assert(fe >= 0);
                if fe < ci {
                    assert(sv[fe].name == name@);
                    assert(false);
                } else if fe > ci {
                    assert(sv[ci as int].name != name@);
                    assert(false);
                }
            }
            return Some(ci);
        }
        ci = ci + 1;
    }
    proof {
        lemma_find_field(sv, name@);
        assert(find_field(sv, name@) < 0);
    }
    None
}

/// Every argument of the node refers to an earlier expression.
pub open spec fn args_ok(e: ExprV, i: int) -> bool {
    forall|j: int| 0 <= j < e.args.len() ==> (#[trigger] e.args[j]) < i
}

/// What binding node `i` of the plan to `ev` means: the exact evaluator
/// each well-formed node compiles to.
pub open spec fn node_ok(
    plan: Seq<ExprV>,
    schema: Seq<FieldV>,
    entries: Seq<crate::registry::EvaluatorFactory>,
    i: int,
    ev: Evaluator,
) -> bool {
    let e = plan[i];
    &&& args_ok(e, i)
    &&& match e.kind {
        ExprKindV::Column(name) => {
            let ci = find_field(schema, name);
            &&& ci >= 0
            &&& schema[ci].data_type == e.result_type
            &&& ev matches Evaluator::Column { index, data_type } && index == ci as usize
                && data_type@ == e.result_type
        },
        ExprKindV::BooleanLiteral(b) => e.result_type == DataTypeV::Boolean && ev == (
        Evaluator::BooleanLiteral { value: b }),
        ExprKindV::StringLiteral(s) => e.result_type == DataTypeV::Utf8 && (ev matches
        Evaluator::StringLiteral { value } && value@ == s),
        ExprKindV::NumericLiteral(text) => ev matches Evaluator::NumericLiteral { value }
            && numeric_literal_ok(text, e.result_type, value),
        ExprKindV::Call(name) => {
            let vals = val_indices(plan, e.args);
            let lits = lit_texts(plan, e.args);
            match lookup_spec(entries, name) {
                Some(InstructionKind::GtePrimitive) => {
                    &&& vals.len() == 2
                    &&& plan[vals[0] as int].result_type == plan[vals[1] as int].result_type
                    &&& gte_supported(plan[vals[0] as int].result_type)
                    &&& e.result_type == DataTypeV::Boolean
                    &&& ev == (Evaluator::GtePrimitive { lhs: vals[0], rhs: vals[1] })
                },
                Some(InstructionKind::FieldRef) => {
                    &&& lits.len() == 1
                    &&& vals.len() == 1
                    &&& plan[vals[0] as int].result_type matches DataTypeV::Struct(_)
                    &&& {
                        let fields = plan[vals[0] as int].result_type->Struct_0;
                        let fi = find_field(fields, lits[0]);
                        &&& fi >= 0
                        &&& fields[fi].data_type == e.result_type
                        &&& ev matches Evaluator::FieldRef { input, field } && input == vals[0]
                            && field as int == fi
                    }
                },
                None => false,
            }
        },
    }
}

/// Whether node `i` can be bound to any evaluator.
pub open spec fn node_can(
    plan: Seq<ExprV>,
    schema: Seq<FieldV>,
    entries: Seq<crate::registry::EvaluatorFactory>,
    i: int,
) -> bool {
    exists|ev: Evaluator| node_ok(plan, schema, entries, i, ev)
}

/// Resolve every node of the plan to a bound evaluator, in order, against
/// the input schema and the registry. The whole plan compiles or none of
/// it does; a node list violating the topological invariant is rejected
/// here, before any evaluation.
#[verifier::loop_isolation(false)]
#[verifier::rlimit(60)]
pub fn compile(plan: &Vec<Expr>, schema: &Vec<Field>, registry: &Registry) -> (r: Result<
    Vec<Evaluator>,
    InstantiationError,
>)
    ensures
        match r {
            Ok(evs) => {
                &&& evs@.len() == plan@.len()
                &&& forall|i: int|
                    0 <= i < plan@.len() ==> node_ok(
                        exprs_view(plan@),
                        fields_view(schema@),
                        registry.entries_spec(),
                        i,
                        #[trigger] evs@[i],
                    )
                &&& crate::expr::well_ordered(exprs_view(plan@))
            },
            Err(_) => exists|i: int|
                0 <= i < plan@.len() && !node_can(
                    exprs_view(plan@),
                    fields_view(schema@),
                    registry.entries_spec(),
                    i,
                ),
        },
{
    let ghost pv = exprs_view(plan@);
    let ghost sv = fields_view(schema@);
    let ghost entries = registry.entries_spec();
    proof {
        assert(pv.len() == plan@.len());
        assert(forall|k: int| 0 <= k < plan@.len() ==> pv[k] == crate::expr::expr_view(
            #[trigger] plan@[k],
        ));
        crate::types::lemma_fields_view(schema@);
    }
    let mut evs: Vec<Evaluator> = Vec::new();
    let n = plan.len();
    let mut i: usize = 0;
    while i < n
        invariant
            0 <= i <= n,
            evs@.len() == i,
            forall|k: int| 0 <= k < i ==> node_ok(pv, sv, entries, k, #[trigger] evs@[k]),
        decreases n - i,
    {
        let e = &plan[i];
        let ghost ev_e = pv[i as int];
        proof {
            assert(ev_e.args.len() == e.args@.len());
            assert(forall|j: int|
                0 <= j < e.args@.len() ==> ev_e.args[j] == (#[trigger] e.args@[j]).0);
        }
        let mut j: usize = 0;
        while j < e.args.len()
            invariant
                0 <= j <= e.args@.len(),
                e == plan@[i as int],
                0 <= i < plan@.len(),
                forall|l: int| 0 <= l < j ==> (#[trigger] ev_e.args[l]) < i,
            decreases e.args@.len() - j,
        {
            if e.args[j].0 >= i {
                proof {
                    assert(ev_e.args[j as int] >= i);
                    assert(!node_can(pv, sv, entries, i as int)) by {
                        if node_can(pv, sv, entries, i as int) {
                            let ev = choose|ev: Evaluator|
                                node_ok(pv, sv, entries, i as int, ev);
                            assert(args_ok(ev_e, i as int));
                        }
                    }
                }
                return Err(InstantiationError::ArgumentOutOfOrder { index: e.args[j].0 });
            }
            j = j + 1;
        }
        proof {
            assert(args_ok(ev_e, i as int));
        }
        let bound: Evaluator = match &e.kind {
            ExprKind::Column(name) => {
                let ghost namev = name@;
                let c = match find_schema_column(schema, name.as_str()) {
                    None => {
                        proof {
                            assert(!node_can(pv, sv, entries, i as int)) by {
                                if node_can(pv, sv, entries, i as int) {
                                    let ev = choose|ev: Evaluator|
                                        node_ok(pv, sv, entries, i as int, ev);
                                }
                            }
                        }
                        return Err(InstantiationError::NoSuchColumn { name: name.clone() });
                    },
                    Some(c) => c,
                };
                if !crate::classes::data_type_eq(&schema[c].data_type, &e.result_type) {
                    proof {
                        assert(sv[c as int].data_type != ev_e.result_type);
                        assert(!node_can(pv, sv, entries, i as int)) by {
                            if node_can(pv, sv, entries, i as int) {
                                let ev = choose|ev: Evaluator|
                                    node_ok(pv, sv, entries, i as int, ev);
                            }
                        }
                    }
                    return Err(
                        InstantiationError::UnexpectedResultType {
                            name: name.clone(),
                            actual: crate::classes::duplicate_data_type(
                                &schema[c].data_type,
                            ),
                            expected: crate::classes::duplicate_data_type(&e.result_type),
                        },
                    );
                }
                Evaluator::Column {
                    index: c,
                    data_type: crate::classes::duplicate_data_type(&e.result_type),
                }
            },
            ExprKind::BooleanLiteral(b) => {
                if !matches!(&e.result_type, DataType::Boolean) {
                    proof {
                        assert(!node_can(pv, sv, entries, i as int)) by {
                            if node_can(pv, sv, entries, i as int) {
                                let ev = choose|ev: Evaluator|
                                    node_ok(pv, sv, entries, i as int, ev);
                            }
                        }
                    }
                    return Err(
                        InstantiationError::UnsupportedLiteralType {
                            expected: crate::classes::duplicate_data_type(&e.result_type),
                        },
                    );
                }
                Evaluator::BooleanLiteral { value: *b }
            },
            ExprKind::StringLiteral(s) => {
                if !matches!(&e.result_type, DataType::Utf8) {
                    proof {
                        assert(!node_can(pv, sv, entries, i as int)) by {
                            if node_can(pv, sv, entries, i as int) {
                                let ev = choose|ev: Evaluator|
                                    node_ok(pv, sv, entries, i as int, ev);
                            }
                        }
                    }
                    return Err(
                        InstantiationError::UnsupportedLiteralType {
                            expected: crate::classes::duplicate_data_type(&e.result_type),
                        },
                    );
                }
                Evaluator::StringLiteral { value: s.clone() }
            },
            ExprKind::NumericLiteral(d) => {
                match materialize_numeric(d.text.as_str(), &e.result_type) {
                    Some(sc) => Evaluator::NumericLiteral { value: sc },
                    None => {
                        proof {
                            assert(!node_can(pv, sv, entries, i as int)) by {
                                if node_can(pv, sv, entries, i as int) {
                                    let ev = choose|ev: Evaluator|
                                        node_ok(pv, sv, entries, i as int, ev);
                                }
                            }
                        }
                        return Err(
                            InstantiationError::InvalidNumericLiteral {
                                text: d.text.clone(),
                            },
                        );
                    },
                }
            },
            ExprKind::Call(name) => {
                let ghost argsv = ev_e.args;
                let mut literal_args: Vec<String> = Vec::new();
                let mut value_args: Vec<ValueRef> = Vec::new();
                let mut j: usize = 0;
                while j < e.args.len()
                    invariant
                        0 <= j <= e.args@.len(),
                        e == plan@[i as int],
                        0 <= i < plan@.len(),
                        argsv.len() == e.args@.len(),
                        forall|l: int|
                            0 <= l < e.args@.len() ==> (#[trigger] argsv[l]) == e.args@[l].0
                                && argsv[l] < i,
                        value_args@.len() == val_indices(pv, argsv.subrange(0, j as int)).len(),
                        forall|l: int|
                            0 <= l < value_args@.len() ==> (#[trigger] value_args@[l]).index
                                == val_indices(pv, argsv.subrange(0, j as int))[l]
                                && value_args@[l].data_type@ == pv[val_indices(
                                pv,
                                argsv.subrange(0, j as int),
                            )[l] as int].result_type,
                        literal_args@.len() == lit_texts(pv, argsv.subrange(0, j as int)).len(),
                        forall|l: int|
                            0 <= l < literal_args@.len() ==> (#[trigger] literal_args@[l])@
                                == lit_texts(pv, argsv.subrange(0, j as int))[l],
                    decreases e.args@.len() - j,
                {
                    let a = e.args[j].0;
                    proof {
                        assert(argsv.subrange(0, j + 1).subrange(0, j as int) =~= argsv.subrange(
                            0,
                            j as int,
                        ));
                        assert(argsv.subrange(0, j + 1)[j as int] == argsv[j as int]);
                        assert(pv[a as int] == crate::expr::expr_view(plan@[a as int]));
                    }
                    match &plan[a].kind {
                        ExprKind::StringLiteral(s) => {
                            literal_args.push(s.clone());
                        },
                        _ => {
                            value_args.push(
                                ValueRef {
                                    index: a,
                                    data_type: crate::classes::duplicate_data_type(
                                        &plan[a].result_type,
                                    ),
                                },
                            );
                        },
                    }
                    j = j + 1;
                }
                proof {
                    assert(argsv.subrange(0, argsv.len() as int) =~= argsv);
                }
                let info = StaticInfo {
                    name: name.clone(),
                    literal_args,
                    value_args,
                    result_type: crate::classes::duplicate_data_type(&e.result_type),
                };
                let ghost vals = val_indices(pv, argsv);
                let ghost lits = lit_texts(pv, argsv);
                match registry.lookup(name.as_str()) {
                    None => {
                        proof {
                            assert(!node_can(pv, sv, entries, i as int)) by {
                                if node_can(pv, sv, entries, i as int) {
                                    let ev = choose|ev: Evaluator|
                                        node_ok(pv, sv, entries, i as int, ev);
                                }
                            }
                        }
                        return Err(
                            InstantiationError::UnknownInstruction { name: name.clone() },
                        );
                    },
                    Some(InstructionKind::GtePrimitive) => {
                        match create_gte_primitive(&info) {
                            Ok(ev) => {
                                proof {
                                    assert(ev == (Evaluator::GtePrimitive {
                                        lhs: vals[0],
                                        rhs: vals[1],
                                    }));
                                }
                                ev
                            },
                            Err(err) => {
                                proof {
                                    assert(!node_can(pv, sv, entries, i as int)) by {
                                        if node_can(pv, sv, entries, i as int) {
                                            let ev = choose|ev: Evaluator|
                                                node_ok(pv, sv, entries, i as int, ev);
                                        }
                                    }
                                }
                                return Err(err);
                            },
                        }
                    },
                    Some(InstructionKind::FieldRef) => {
                        match create_field_ref(&info) {
                            Ok(ev) => {
                                proof {
                                    let fields = pv[vals[0] as int].result_type->Struct_0;
                                    let fi = find_field(fields, lits[0]);
                                    assert(ev matches Evaluator::FieldRef { input, field }
                                        && input == vals[0] && field as int == fi);
                                }
                                ev
                            },
                            Err(err) => {
                                proof {
                                    assert(!node_can(pv, sv, entries, i as int)) by {
                                        if node_can(pv, sv, entries, i as int) {
                                            let ev = choose|ev: Evaluator|
                                                node_ok(pv, sv, entries, i as int, ev);
                                        }
                                    }
                                }
                                return Err(err);
                            },
                        }
                    },
                }
            },
        };
        proof {
            assert(node_ok(pv, sv, entries, i as int, bound));
        }
        evs.push(bound);
        i = i + 1;
    }
    proof {
        assert forall|k: int, j: int|
            0 <= k < pv.len() && 0 <= j < pv[k].args.len() implies (#[trigger] pv[k].args[j])
            < k by {
            assert(node_ok(pv, sv, entries, k, evs@[k]));
            assert(args_ok(pv[k], k));
        }
        assert(crate::expr::well_ordered(pv));
    }
    Ok(evs)
}

/// The columns of a full pass over the plan: each node evaluated in index
/// order against the columns of the earlier nodes, or `None` where one
/// evaluation fails.
pub open spec fn spec_run(evs: Seq<Evaluator>, batch: Batch, upto: int) -> Option<Seq<ColumnV>>
    decreases upto,
{
    if upto <= 0 {
        Some(Seq::empty())
    } else {
        match spec_run(evs, batch, upto - 1) {
            None => None,
            Some(pre) => match spec_evaluate(evs[upto - 1], batch, pre) {
                Some(c) => Some(pre.push(c)),
                None => None,
            },
        }
    }
}

/// Evaluate every node for one batch, strictly in index order, recording
/// each column before the next node runs. A failure aborts the whole
/// batch: there is no partial output.
#[verifier::loop_isolation(false)]
pub fn run(evs: &Vec<Evaluator>, batch: &Batch) -> (r: Result<Vec<Column>, EvaluationError>)
    ensures
        match r {
            Ok(cols) => spec_run(evs@, *batch, evs@.len() as int) == Some(cols_view(cols@))
                && cols@.len() == evs@.len(),
            Err(_) => spec_run(evs@, *batch, evs@.len() as int) is None,
        },
{
    let mut work_area = WorkArea::new();
    let n = evs.len();
    let mut i: usize = 0;
    while i < n
        invariant
            0 <= i <= n,
            spec_run(evs@, *batch, i as int) == Some(work_area.columns_spec()),
            work_area.columns_spec().len() == i,
        decreases n - i,
    {
        let column = match crate::evaluator::evaluate(&evs[i], batch, &work_area) {
            Ok(c) => c,
            Err(e) => {
                proof {
                    lemma_spec_run_none(evs@, *batch, i + 1, evs@.len() as int);
                }
                return Err(e);
            },
        };
        work_area.record(i, column);
        i = i + 1;
    }
    let cols = work_area.into_columns();
    Ok(cols)
}


/// The hard invariant of evaluation, proved: over a well-formed batch,
/// every column a compiled plan produces carries exactly its node's
/// declared result type, the batch's row count, and is itself
/// well-formed.
pub proof fn lemma_run_preserves_types(
    evs: Seq<Evaluator>,
    batch: Batch,
    plan: Seq<ExprV>,
    schema: Seq<FieldV>,
    entries: Seq<crate::registry::EvaluatorFactory>,
    cols: Seq<ColumnV>,
    upto: int,
)
    requires
        0 <= upto <= plan.len(),
        evs.len() == plan.len(),
        forall|i: int|
            0 <= i < plan.len() ==> node_ok(plan, schema, entries, i, #[trigger] evs[i]),
        crate::column::batch_wf(batch),
        spec_run(evs, batch, upto) == Some(cols),
    ensures
        cols.len() == upto,
        forall|i: int|
            0 <= i < upto ==> crate::column::col_type(#[trigger] cols[i])
                == plan[i].result_type,
        forall|i: int|
            0 <= i < upto ==> crate::column::col_len(#[trigger] cols[i]) == batch.num_rows,
        forall|i: int| 0 <= i < upto ==> crate::column::col_wf(#[trigger] cols[i]),
    decreases upto,
{
    if upto > 0 {
        let i = upto - 1;
        let pre = spec_run(evs, batch, i)->Some_0;
        lemma_run_preserves_types(evs, batch, plan, schema, entries, pre, i);
        let c = spec_evaluate(evs[i], batch, pre)->Some_0;
        assert(cols == pre.push(c));
        let e = plan[i];
        assert(node_ok(plan, schema, entries, i, evs[i]));
        match e.kind {
            ExprKindV::Column(name) => {
                assert(crate::column::col_type(c) == e.result_type);
            },
            ExprKindV::BooleanLiteral(b) => {},
            ExprKindV::StringLiteral(s) => {},
            ExprKindV::NumericLiteral(text) => {},
            ExprKindV::Call(name) => {
                match lookup_spec(entries, name) {
                    Some(InstructionKind::GtePrimitive) => {
                        let vals = val_indices(plan, e.args);
                        let lhs = vals[0];
                        let rhs = vals[1];
                        assert(crate::column::col_len(pre[lhs as int]) == batch.num_rows);
                        assert(crate::column::col_len(pre[rhs as int]) == batch.num_rows);
                        assert(crate::column::col_type(c) == DataTypeV::Boolean);
                        assert(crate::column::col_len(c) == batch.num_rows);
                    },
                    Some(InstructionKind::FieldRef) => {
                        let vals = val_indices(plan, e.args);
                        let input = vals[0];
                        let lits = lit_texts(plan, e.args);
                        let fields = plan[input as int].result_type->Struct_0;
                        let fi = find_field(fields, lits[0]);
                        lemma_find_field(fields, lits[0]);
                        assert(0 <= fi < fields.len());
                        assert(crate::column::col_type(pre[input as int])
                            == plan[input as int].result_type);
                        assert(crate::column::col_wf(pre[input as int]));
                        assert(crate::column::col_len(pre[input as int]) == batch.num_rows);
                        let sc = pre[input as int];
                        assert(sc matches ColumnV::Struct(_, _, _));
                        let fs2 = sc->Struct_0;
                        let children = sc->Struct_1;
                        let slen = sc->Struct_2;
                        assert(DataTypeV::Struct(fs2) == plan[input as int].result_type);
                        assert(fs2 == fields);
                        let fld = evs[i]->FieldRef_field;
                        assert(fld as int == fi);
                        assert(c == children[fld as int]);
                        assert(c == children[fi]);
                        assert(crate::column::col_type(children[fi]) == fs2[fi].data_type);
                        assert(crate::column::col_len(children[fi]) == slen);
                        assert(slen == batch.num_rows);
                        assert(crate::column::col_type(c) == fields[fi].data_type);
                        assert(crate::column::col_len(c) == batch.num_rows);
                        assert(crate::column::col_wf(c));
                    },
                    None => {
                        assert(false);
                    },
                }
            },
        }
        assert(forall|j: int| 0 <= j < i ==> cols[j] == pre[j]);
    } else {
        assert(cols =~= Seq::<ColumnV>::empty());
    }
}

/// Once one prefix fails, every longer prefix fails.
proof fn lemma_spec_run_none(evs: Seq<Evaluator>, batch: Batch, from: int, upto: int)
    requires
        0 < from <= upto,
        spec_run(evs, batch, from) is None,
    ensures
        spec_run(evs, batch, upto) is None,
    decreases upto - from,
{
    if from < upto {
        lemma_spec_run_none(evs, batch, from + 1, upto);
    }
}

} // verus!
