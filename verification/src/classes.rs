//! Type classes and the type computations used while instantiating a
//! polymorphic instruction: membership tests, structural type equality,
//! and the least upper bound of the concrete types bound to one type
//! variable.
//!
//! The error type value is absorbing: any computation with an error
//! operand yields the error value again and emits no new diagnostic.

use vstd::prelude::*;

use crate::types::Collection;
use crate::types::DataType;
use crate::types::DataTypeV;
use crate::types::FenlType;
use crate::types::FenlTypeV;
use crate::types::Field;
use crate::types::TypeClass;
use crate::types::TypeVariable;
use crate::types::fenl_type_view;
use crate::types::field_view;
use crate::types::fields_view;
use crate::types::lemma_fields_view;

verus! {

broadcast use vstd::std_specs::vec::group_vec_axioms, vstd::seq::group_seq_axioms;

pub open spec fn is_signed_integer(d: DataTypeV) -> bool {
    match d {
        DataTypeV::Int8 | DataTypeV::Int32 | DataTypeV::Int64 => true,
        _ => false,
    }
}

pub open spec fn is_unsigned_integer(d: DataTypeV) -> bool {
    match d {
        DataTypeV::UInt8 | DataTypeV::UInt16 | DataTypeV::UInt32 | DataTypeV::UInt64 => true,
        _ => false,
    }
}

pub open spec fn is_float(d: DataTypeV) -> bool {
    match d {
        DataTypeV::Float32 | DataTypeV::Float64 => true,
        _ => false,
    }
}

pub open spec fn is_integer(d: DataTypeV) -> bool {
    is_signed_integer(d) || is_unsigned_integer(d)
}

pub open spec fn is_numeric(d: DataTypeV) -> bool {
    is_integer(d) || is_float(d)
}

pub open spec fn is_string(d: DataTypeV) -> bool {
    match d {
        DataTypeV::Utf8 | DataTypeV::LargeUtf8 => true,
        _ => false,
    }
}

pub open spec fn is_timedelta(d: DataTypeV) -> bool {
    match d {
        DataTypeV::Duration(_) | DataTypeV::Interval(_) => true,
        _ => false,
    }
}

/// Ordered types: numbers, timestamps and strings.
pub open spec fn is_ordered(d: DataTypeV) -> bool {
    is_numeric(d) || is_string(d) || (d matches DataTypeV::Timestamp(_))
}

/// Key types: integers, strings and booleans.
pub open spec fn is_key(d: DataTypeV) -> bool {
    is_integer(d) || is_string(d) || d == DataTypeV::Boolean
}

/// Which concrete types a type variable constrained by the class may bind
/// to. The error class marks an instantiation that already failed, so it
/// accepts nothing further.
pub open spec fn class_accepts(c: TypeClass, d: DataTypeV) -> bool {
    match c {
        TypeClass::Any => true,
        TypeClass::Key => is_key(d),
        TypeClass::Number => is_numeric(d),
        TypeClass::Signed => is_signed_integer(d) || is_float(d),
        TypeClass::Float => is_float(d),
        TypeClass::TimeDelta => is_timedelta(d),
        TypeClass::Ordered => is_ordered(d),
        TypeClass::Error => false,
    }
}

impl TypeClass {
    /// Whether a type variable constrained by this class may bind to `d`.
    pub fn accepts(&self, d: &DataType) -> (r: bool)
        ensures
            r == class_accepts(*self, d@),
    {
        match self {
            TypeClass::Any => true,
            TypeClass::Key => {
                is_integer_exec(d) || is_string_exec(d) || matches!(d, DataType::Boolean)
            },
            TypeClass::Number => is_numeric_exec(d),
            TypeClass::Signed => is_signed_integer_exec(d) || is_float_exec(d),
            TypeClass::Float => is_float_exec(d),
            TypeClass::TimeDelta => {
                matches!(d, DataType::Duration(_) | DataType::Interval(_))
            },
            TypeClass::Ordered => {
                is_numeric_exec(d) || is_string_exec(d) || matches!(
                    d,
                    DataType::Timestamp(_),
                )
            },
            TypeClass::Error => false,
        }
    }
}

fn is_signed_integer_exec(d: &DataType) -> (r: bool)
    ensures
        r == is_signed_integer(d@),
{
    matches!(d, DataType::Int8 | DataType::Int32 | DataType::Int64)
}

fn is_unsigned_integer_exec(d: &DataType) -> (r: bool)
    ensures
        r == is_unsigned_integer(d@),
{
    matches!(d, DataType::UInt8 | DataType::UInt16 | DataType::UInt32 | DataType::UInt64)
}

fn is_float_exec(d: &DataType) -> (r: bool)
    ensures
        r == is_float(d@),
{
    matches!(d, DataType::Float32 | DataType::Float64)
}

fn is_integer_exec(d: &DataType) -> (r: bool)
    ensures
        r == is_integer(d@),
{
    is_signed_integer_exec(d) || is_unsigned_integer_exec(d)
}

fn is_numeric_exec(d: &DataType) -> (r: bool)
    ensures
        r == is_numeric(d@),
{
    is_integer_exec(d) || is_float_exec(d)
}

fn is_string_exec(d: &DataType) -> (r: bool)
    ensures
        r == is_string(d@),
{
    matches!(d, DataType::Utf8 | DataType::LargeUtf8)
}

/// Structural equality of concrete types.
pub fn data_type_eq(a: &DataType, b: &DataType) -> (r: bool)
    ensures
        r == (a@ == b@),
    decreases *a,
{
    match (a, b) {
        (DataType::Null, DataType::Null) => true,
        (DataType::Boolean, DataType::Boolean) => true,
        (DataType::Int8, DataType::Int8) => true,
        (DataType::Int32, DataType::Int32) => true,
        (DataType::Int64, DataType::Int64) => true,
        (DataType::UInt8, DataType::UInt8) => true,
        (DataType::UInt16, DataType::UInt16) => true,
        (DataType::UInt32, DataType::UInt32) => true,
        (DataType::UInt64, DataType::UInt64) => true,
        (DataType::Float32, DataType::Float32) => true,
        (DataType::Float64, DataType::Float64) => true,
        (DataType::Utf8, DataType::Utf8) => true,
        (DataType::LargeUtf8, DataType::LargeUtf8) => true,
        (DataType::Date32, DataType::Date32) => true,
        (DataType::Timestamp(u1), DataType::Timestamp(u2)) => u1 == u2,
        (DataType::Duration(u1), DataType::Duration(u2)) => u1 == u2,
        (DataType::Interval(u1), DataType::Interval(u2)) => u1 == u2,
        (DataType::Struct(f1), DataType::Struct(f2)) => fields_eq(f1, f2),
        (DataType::List(x), DataType::List(y)) => data_type_eq(x, y),
        (DataType::Mapping(k1, v1), DataType::Mapping(k2, v2)) => {
            data_type_eq(k1, k2) && data_type_eq(v1, v2)
        },
        _ => false,
    }
}

/// Structural equality of field lists.
pub fn fields_eq(f1: &Vec<Field>, f2: &Vec<Field>) -> (r: bool)
    ensures
        r == (fields_view(f1@) == fields_view(f2@)),
    decreases f1@,
{
    proof {
        lemma_fields_view(f1@);
        lemma_fields_view(f2@);
    }
    if f1.len() != f2.len() {
        proof {
            assert(fields_view(f1@).len() != fields_view(f2@).len());
        }
        return false;
    }
    let n = f1.len();
    let mut i: usize = 0;
    while i < n
        invariant
            n == f1@.len(),
            n == f2@.len(),
            0 <= i <= n,
            fields_view(f1@).len() == n,
            fields_view(f2@).len() == n,
            forall|k: int| 0 <= k < n ==> fields_view(f1@)[k] == field_view(f1@[k]),
            forall|k: int| 0 <= k < n ==> fields_view(f2@)[k] == field_view(f2@[k]),
            forall|k: int|
                0 <= k < i ==> #[trigger] fields_view(f1@)[k] == fields_view(f2@)[k],
        decreases n - i,
    {
        let a = &f1[i];
        let b = &f2[i];
        let names_eq = a.name == b.name;
        if !names_eq {
            proof {
                assert(fields_view(f1@)[i as int].name != fields_view(f2@)[i as int].name);
            }
            return false;
        }
        if !data_type_eq(&a.data_type, &b.data_type) {
            proof {
                assert(fields_view(f1@)[i as int].data_type != fields_view(
                    f2@,
                )[i as int].data_type);
            }
            return false;
        }
        i = i + 1;
    }
    proof {
        assert(fields_view(f1@) =~= fields_view(f2@));
    }
    true
}

/// Structural equality of type values.
pub fn fenl_type_eq(a: &FenlType, b: &FenlType) -> (r: bool)
    ensures
        r == (a@ == b@),
{
    match (a, b) {
        (FenlType::Window, FenlType::Window) => true,
        (FenlType::Json, FenlType::Json) => true,
        (FenlType::Error, FenlType::Error) => true,
        (FenlType::Concrete(x), FenlType::Concrete(y)) => data_type_eq(x, y),
        (FenlType::TypeRef(x), FenlType::TypeRef(y)) => x.0 == y.0,
        (FenlType::Collection(c1, v1), FenlType::Collection(c2, v2)) => {
            let ceq = match (c1, c2) {
                (Collection::List, Collection::List) => true,
                (Collection::Mapping, Collection::Mapping) => true,
                _ => false,
            };
            ceq && type_vars_eq(v1, v2)
        },
        _ => false,
    }
}

/// Structural equality of type-variable lists.
fn type_vars_eq(v1: &Vec<TypeVariable>, v2: &Vec<TypeVariable>) -> (r: bool)
    ensures
        r == (v1@.map_values(|tv: TypeVariable| tv.0@) == v2@.map_values(
            |tv: TypeVariable| tv.0@,
        )),
{
    let ghost s1 = v1@.map_values(|tv: TypeVariable| tv.0@);
    let ghost s2 = v2@.map_values(|tv: TypeVariable| tv.0@);
    if v1.len() != v2.len() {
        proof {
            assert(s1.len() != s2.len());
        }
        return false;
    }
    let n = v1.len();
    let mut i: usize = 0;
    while i < n
        invariant
            n == v1@.len(),
            n == v2@.len(),
            0 <= i <= n,
            s1 == v1@.map_values(|tv: TypeVariable| tv.0@),
            s2 == v2@.map_values(|tv: TypeVariable| tv.0@),
            forall|k: int| 0 <= k < i ==> #[trigger] s1[k] == s2[k],
        decreases n - i,
    {
        let eq_here = v1[i].0 == v2[i].0;
        proof {
            assert(s1[i as int] == v1@[i as int].0@);
            assert(s2[i as int] == v2@[i as int].0@);
        }
        if !eq_here {
            proof {
                assert(s1[i as int] != s2[i as int]);
            }
            return false;
        }
        i = i + 1;
    }
    proof {
        assert(s1 =~= s2);
    }
    true
}

/// A structurally equal copy of a concrete type.
#[verifier::loop_isolation(false)]
pub fn duplicate_data_type(d: &DataType) -> (r: DataType)
    ensures
        r@ == d@,
    decreases *d,
{
    match d {
        DataType::Null => DataType::Null,
        DataType::Boolean => DataType::Boolean,
        DataType::Int8 => DataType::Int8,
        DataType::Int32 => DataType::Int32,
        DataType::Int64 => DataType::Int64,
        DataType::UInt8 => DataType::UInt8,
        DataType::UInt16 => DataType::UInt16,
        DataType::UInt32 => DataType::UInt32,
        DataType::UInt64 => DataType::UInt64,
        DataType::Float32 => DataType::Float32,
        DataType::Float64 => DataType::Float64,
        DataType::Utf8 => DataType::Utf8,
        DataType::LargeUtf8 => DataType::LargeUtf8,
        DataType::Date32 => DataType::Date32,
        DataType::Timestamp(u) => DataType::Timestamp(*u),
        DataType::Duration(u) => DataType::Duration(*u),
        DataType::Interval(u) => DataType::Interval(*u),
        DataType::Struct(fields) => {
            let mut out: Vec<Field> = Vec::new();
            let n = fields.len();
            let mut i: usize = 0;
            while i < n
                invariant
                    n == fields@.len(),
                    0 <= i <= n,
                    out@.len() == i,
                    forall|k: int|
                        0 <= k < i ==> #[trigger] field_view(out@[k]) == field_view(
                            fields@[k],
                        ),
                decreases n - i,
            {
                proof {
                    assert(decreases_to!(*fields => fields@));
                    assert(decreases_to!(fields@ => fields@[i as int]));
                }
                let f = &fields[i];
                let copied = Field {
                    name: f.name.clone(),
                    data_type: duplicate_data_type(&f.data_type),
                };
                out.push(copied);
                i = i + 1;
            }
            proof {
                lemma_fields_view(out@);
                lemma_fields_view(fields@);
                assert(fields_view(out@) =~= fields_view(fields@));
            }
            DataType::Struct(out)
        },
        DataType::List(item) => DataType::List(Box::new(duplicate_data_type(item))),
        DataType::Mapping(k, v) => DataType::Mapping(
            Box::new(duplicate_data_type(k)),
            Box::new(duplicate_data_type(v)),
        ),
    }
}

/// A structurally equal copy of a type value.
pub fn duplicate_fenl_type(t: &FenlType) -> (r: FenlType)
    ensures
        r@ == t@,
{
    match t {
        FenlType::Window => FenlType::Window,
        FenlType::Json => FenlType::Json,
        FenlType::Error => FenlType::Error,
        FenlType::Concrete(d) => FenlType::Concrete(duplicate_data_type(d)),
        FenlType::TypeRef(v) => FenlType::TypeRef(TypeVariable(v.0.clone())),
        FenlType::Collection(c, vars) => {
            let ghost s = vars@.map_values(|tv: TypeVariable| tv.0@);
            let mut out: Vec<TypeVariable> = Vec::new();
            let n = vars.len();
            let mut i: usize = 0;
            while i < n
                invariant
                    n == vars@.len(),
                    0 <= i <= n,
                    out@.len() == i,
                    s == vars@.map_values(|tv: TypeVariable| tv.0@),
                    forall|k: int| 0 <= k < i ==> #[trigger] out@[k].0@ == s[k],
                decreases n - i,
            {
                out.push(TypeVariable(vars[i].0.clone()));
                proof {
                    assert(s[i as int] == vars@[i as int].0@);
                }
                i = i + 1;
            }
            proof {
                assert(out@.map_values(|tv: TypeVariable| tv.0@) =~= s);
            }
            FenlType::Collection(*c, out)
        },
    }
}

/// Rank of a signed integer type in the widening chain `i8 < i32 < i64`.
pub open spec fn signed_rank(d: DataTypeV) -> int {
    match d {
        DataTypeV::Int8 => 0,
        DataTypeV::Int32 => 1,
        _ => 2,
    }
}

/// Rank of an unsigned integer type in `u8 < u16 < u32 < u64`.
pub open spec fn unsigned_rank(d: DataTypeV) -> int {
    match d {
        DataTypeV::UInt8 => 0,
        DataTypeV::UInt16 => 1,
        DataTypeV::UInt32 => 2,
        _ => 3,
    }
}

/// The least upper bound of two numeric types: equal types stay; two
/// signed or two unsigned integers widen to the larger; a float operand
/// widens the pair to `f64` (unless both already are the same float); and
/// mixed signedness widens to `i64`.
pub open spec fn numeric_lub(a: DataTypeV, b: DataTypeV) -> DataTypeV {
    if a == b {
        a
    } else if is_float(a) || is_float(b) {
        DataTypeV::Float64
    } else if is_signed_integer(a) && is_signed_integer(b) {
        if signed_rank(a) >= signed_rank(b) {
            a
        } else {
            b
        }
    } else if is_unsigned_integer(a) && is_unsigned_integer(b) {
        if unsigned_rank(a) >= unsigned_rank(b) {
            a
        } else {
            b
        }
    } else {
        DataTypeV::Int64
    }
}

fn signed_rank_exec(d: &DataType) -> (r: u8)
    ensures
        r as int == signed_rank(d@),
{
    match d {
        DataType::Int8 => 0,
        DataType::Int32 => 1,
        _ => 2,
    }
}

fn unsigned_rank_exec(d: &DataType) -> (r: u8)
    ensures
        r as int == unsigned_rank(d@),
{
    match d {
        DataType::UInt8 => 0,
        DataType::UInt16 => 1,
        DataType::UInt32 => 2,
        _ => 3,
    }
}

fn numeric_lub_exec(a: &DataType, b: &DataType) -> (r: DataType)
    ensures
        r@ == numeric_lub(a@, b@),
{
    if data_type_eq(a, b) {
        duplicate_data_type(a)
    } else if is_float_exec(a) || is_float_exec(b) {
        DataType::Float64
    } else if is_signed_integer_exec(a) && is_signed_integer_exec(b) {
        if signed_rank_exec(a) >= signed_rank_exec(b) {
            duplicate_data_type(a)
        } else {
            duplicate_data_type(b)
        }
    } else if is_unsigned_integer_exec(a) && is_unsigned_integer_exec(b) {
        if unsigned_rank_exec(a) >= unsigned_rank_exec(b) {
            duplicate_data_type(a)
        } else {
            duplicate_data_type(b)
        }
    } else {
        DataType::Int64
    }
}

/// The least upper bound of two type values.
pub open spec fn spec_lub(a: FenlTypeV, b: FenlTypeV) -> FenlTypeV {
    if a is Error || b is Error {
        FenlTypeV::Error
    } else if a matches FenlTypeV::Concrete(x) && b matches FenlTypeV::Concrete(y)
        && is_numeric(x) && is_numeric(y) {
        FenlTypeV::Concrete(numeric_lub(a->Concrete_0, b->Concrete_0))
    } else if a == b {
        a
    } else {
        FenlTypeV::Error
    }
}

/// Whether the least upper bound of `a` and `b` reports a new diagnostic:
/// only where two live, incompatible types meet. An error operand absorbs
/// silently.
pub open spec fn lub_adds_diagnostic(a: FenlTypeV, b: FenlTypeV) -> bool {
    &&& !(a is Error)
    &&& !(b is Error)
    &&& !(a matches FenlTypeV::Concrete(x) && b matches FenlTypeV::Concrete(y) && is_numeric(
        x,
    ) && is_numeric(y))
    &&& a != b
}

/// The least upper bound of the types bound to one type variable.
///
/// The error type value is absorbing: with an error operand the result is
/// the error value and `diagnostics` is left exactly as it was, because
/// that failure was already reported once.
pub fn least_upper_bound(a: &FenlType, b: &FenlType, diagnostics: &mut Vec<String>) -> (r:
    FenlType)
    ensures
        r@ == spec_lub(a@, b@),
        a@ is Error || b@ is Error ==> r@ is Error && final(diagnostics)@ == old(
            diagnostics,
        )@,
        !lub_adds_diagnostic(a@, b@) ==> final(diagnostics)@ == old(diagnostics)@,
        lub_adds_diagnostic(a@, b@) ==> final(diagnostics)@.len() == old(diagnostics)@.len()
            + 1 && final(diagnostics)@.subrange(0, old(diagnostics)@.len() as int) == old(
            diagnostics,
        )@ && final(diagnostics)@[old(diagnostics)@.len() as int]@
            == "no common supertype"@,
{
    if a.is_error() || b.is_error() {
        return FenlType::Error;
    }
    let both_numeric = match (a, b) {
        (FenlType::Concrete(x), FenlType::Concrete(y)) => {
            is_numeric_exec(x) && is_numeric_exec(y)
        },
        _ => false,
    };
    if both_numeric {
        match (a, b) {
            (FenlType::Concrete(x), FenlType::Concrete(y)) => {
                return FenlType::Concrete(numeric_lub_exec(x, y));
            },
            _ => {},
        }
    }
    if fenl_type_eq(a, b) {
        return duplicate_fenl_type(a);
    }
    diagnostics.push(String::from_str("no common supertype"));
    proof {
        assert(diagnostics@.subrange(0, old(diagnostics)@.len() as int) =~= old(
            diagnostics,
        )@);
    }
    FenlType::Error
}

pub open spec fn fenl_types_view(s: Seq<FenlType>) -> Seq<FenlTypeV> {
    s.map_values(|t: FenlType| fenl_type_view(t))
}

/// The least upper bound of a nonempty argument list, folded left to
/// right.
pub open spec fn spec_lub_fold(s: Seq<FenlTypeV>) -> FenlTypeV
    decreases s.len(),
{
    if s.len() <= 1 {
        s[0]
    } else {
        spec_lub(spec_lub_fold(s.subrange(0, s.len() - 1)), s[s.len() - 1])
    }
}

/// What instantiating a class-constrained type variable against argument
/// types yields: the least upper bound if it is concrete and the class
/// accepts it, the error type value otherwise.
pub open spec fn spec_instantiate(c: TypeClass, s: Seq<FenlTypeV>) -> FenlTypeV {
    let l = spec_lub_fold(s);
    match l {
        FenlTypeV::Concrete(d) => if class_accepts(c, d) {
            l
        } else {
            FenlTypeV::Error
        },
        _ => FenlTypeV::Error,
    }
}

/// Bind a type variable constrained by `class` to the concrete type that
/// covers all the argument types, or the error type value where none
/// does. Diagnostics already present are kept; an error operand adds
/// none.
pub fn instantiate(class: TypeClass, arguments: &Vec<FenlType>, diagnostics: &mut Vec<
    String,
>) -> (r: FenlType)
    requires
        arguments@.len() >= 1,
    ensures
        r@ == spec_instantiate(class, fenl_types_view(arguments@)),
        final(diagnostics)@.len() >= old(diagnostics)@.len(),
        final(diagnostics)@.subrange(0, old(diagnostics)@.len() as int) == old(
            diagnostics,
        )@,
{
    let ghost s = fenl_types_view(arguments@);
    let mut acc = duplicate_fenl_type(&arguments[0]);
    let mut i: usize = 1;
    proof {
        assert(s.subrange(0, 1) =~= seq![s[0]]);
        assert(spec_lub_fold(s.subrange(0, 1)) == s[0]);
        assert(diagnostics@.subrange(0, old(diagnostics)@.len() as int) =~= old(
            diagnostics,
        )@);
    }
    while i < arguments.len()
        invariant
            1 <= i <= arguments@.len(),
            s == fenl_types_view(arguments@),
            s.len() == arguments@.len(),
            forall|k: int| 0 <= k < s.len() ==> s[k] == arguments@[k]@,
            acc@ == spec_lub_fold(s.subrange(0, i as int)),
            diagnostics@.len() >= old(diagnostics)@.len(),
            diagnostics@.subrange(0, old(diagnostics)@.len() as int) == old(diagnostics)@,
        decreases arguments@.len() - i,
    {
        let ghost before = diagnostics@;
        let next = least_upper_bound(&acc, &arguments[i], diagnostics);
        acc = next;
        proof {
            assert(s.subrange(0, i + 1).subrange(0, i as int) == s.subrange(0, i as int));
            assert(s.subrange(0, i + 1)[i as int] == s[i as int]);
            assert(diagnostics@.subrange(0, old(diagnostics)@.len() as int) =~= old(
                diagnostics,
            )@);
        }
        i = i + 1;
    }
    proof {
        assert(s.subrange(0, s.len() as int) == s);
    }
    match &acc {
        FenlType::Concrete(d) => {
            if class.accepts(d) {
                acc
            } else {
                FenlType::Error
            }
        },
        _ => FenlType::Error,
    }
}

} // verus!
