//! Parsing of textual type annotations into type values.
//!
//! Fixed keywords map to concrete types; `list<..>` and `map<..>` parse
//! their parameters recursively; any other text is a fresh type variable
//! named after that text. Malformed collection syntax (wrong arity, a
//! parameter that is itself a pseudo-type or collection, a mix of concrete
//! and variable parameters) is rejected with the error type value.
//!
//! [`spec_parse`] is the mathematical model; `FenlType::from_str` is proved
//! to return exactly what it says.

use vstd::prelude::*;

use crate::types::Collection;
use crate::types::DataType;
use crate::types::DataTypeV;
use crate::types::FenlType;
use crate::types::FenlTypeV;
use crate::types::IntervalUnit;
use crate::types::TimeUnit;
use crate::types::TypeClass;
use crate::types::TypeVariable;

verus! {

broadcast use vstd::std_specs::vec::group_vec_axioms, vstd::seq::group_seq_axioms;

/// What a reserved keyword parses to, or `None` for non-keywords.
pub open spec fn spec_keyword(s: Seq<char>) -> Option<FenlTypeV> {
    if s == "bool"@ {
        Some(FenlTypeV::Concrete(DataTypeV::Boolean))
    } else if s == "i8"@ {
        Some(FenlTypeV::Concrete(DataTypeV::Int8))
    } else if s == "i32"@ {
        Some(FenlTypeV::Concrete(DataTypeV::Int32))
    } else if s == "i64"@ {
        Some(FenlTypeV::Concrete(DataTypeV::Int64))
    } else if s == "u8"@ {
        Some(FenlTypeV::Concrete(DataTypeV::UInt8))
    } else if s == "u16"@ {
        Some(FenlTypeV::Concrete(DataTypeV::UInt16))
    } else if s == "u32"@ {
        Some(FenlTypeV::Concrete(DataTypeV::UInt32))
    } else if s == "u64"@ {
        Some(FenlTypeV::Concrete(DataTypeV::UInt64))
    } else if s == "f32"@ {
        Some(FenlTypeV::Concrete(DataTypeV::Float32))
    } else if s == "f64"@ {
        Some(FenlTypeV::Concrete(DataTypeV::Float64))
    } else if s == "string"@ {
        Some(FenlTypeV::Concrete(DataTypeV::Utf8))
    } else if s == "large_string"@ {
        Some(FenlTypeV::Concrete(DataTypeV::LargeUtf8))
    } else if s == "interval_days"@ {
        Some(FenlTypeV::Concrete(DataTypeV::Interval(IntervalUnit::DayTime)))
    } else if s == "interval_months"@ {
        Some(FenlTypeV::Concrete(DataTypeV::Interval(IntervalUnit::YearMonth)))
    } else if s == "timestamp_s"@ {
        Some(FenlTypeV::Concrete(DataTypeV::Timestamp(TimeUnit::Second)))
    } else if s == "timestamp_ms"@ {
        Some(FenlTypeV::Concrete(DataTypeV::Timestamp(TimeUnit::Millisecond)))
    } else if s == "timestamp_us"@ {
        Some(FenlTypeV::Concrete(DataTypeV::Timestamp(TimeUnit::Microsecond)))
    } else if s == "timestamp_ns"@ {
        Some(FenlTypeV::Concrete(DataTypeV::Timestamp(TimeUnit::Nanosecond)))
    } else if s == "duration_s"@ {
        Some(FenlTypeV::Concrete(DataTypeV::Duration(TimeUnit::Second)))
    } else if s == "duration_ms"@ {
        Some(FenlTypeV::Concrete(DataTypeV::Duration(TimeUnit::Millisecond)))
    } else if s == "duration_us"@ {
        Some(FenlTypeV::Concrete(DataTypeV::Duration(TimeUnit::Microsecond)))
    } else if s == "duration_ns"@ {
        Some(FenlTypeV::Concrete(DataTypeV::Duration(TimeUnit::Nanosecond)))
    } else if s == "window"@ {
        Some(FenlTypeV::Window)
    } else if s == "json"@ {
        Some(FenlTypeV::Json)
    } else {
        None
    }
}

/// Whether the text has the `list<...>` shape.
pub open spec fn is_list_shape(s: Seq<char>) -> bool {
    s.len() >= 6 && s.subrange(0, 5) == "list<"@ && s[s.len() - 1] == '>'
}

/// Whether the text has the `map<...>` shape.
pub open spec fn is_map_shape(s: Seq<char>) -> bool {
    s.len() >= 5 && s.subrange(0, 4) == "map<"@ && s[s.len() - 1] == '>'
}

pub open spec fn has_comma(s: Seq<char>) -> bool {
    exists|i: int| 0 <= i < s.len() && s[i] == ','
}

/// Index of the first comma, or `-1` if there is none.
pub open spec fn first_comma(s: Seq<char>) -> int
    decreases s.len(),
{
    if s.len() == 0 {
        -1
    } else if s[0] == ',' {
        0
    } else {
        let r = first_comma(s.subrange(1, s.len() as int));
        if r < 0 {
            -1
        } else {
            r + 1
        }
    }
}

pub proof fn lemma_first_comma(s: Seq<char>)
    ensures
        first_comma(s) >= 0 <==> has_comma(s),
        first_comma(s) == -1 <==> !has_comma(s),
        first_comma(s) >= 0 ==> 0 <= first_comma(s) < s.len() && s[first_comma(s)] == ','
            && forall|j: int| 0 <= j < first_comma(s) ==> s[j] != ',',
    decreases s.len(),
{
    if s.len() == 0 {
    } else if s[0] == ',' {
    } else {
        let rest = s.subrange(1, s.len() as int);
        lemma_first_comma(rest);
        assert(forall|i: int| 1 <= i < s.len() ==> s[i] == rest[i - 1]);
        if has_comma(s) {
            let w = choose|i: int| 0 <= i < s.len() && s[i] == ',';
            assert(rest[w - 1] == ',');
            assert(has_comma(rest));
        }
        if has_comma(rest) {
            let w = choose|i: int| 0 <= i < rest.len() && rest[i] == ',';
            assert(s[w + 1] == ',');
            assert(has_comma(s));
        }
    }
}

/// The whitespace characters trimmed from collection parameters: the
/// ASCII whitespace set.
pub open spec fn is_space(c: char) -> bool {
    c == ' ' || c == '\t' || c == '\n' || c == '\u{B}' || c == '\u{C}' || c == '\r'
}

fn is_space_exec(c: char) -> (r: bool)
    ensures
        r == is_space(c),
{
    c == ' ' || c == '\t' || c == '\n' || c == '\u{B}' || c == '\u{C}' || c == '\r'
}

/// Number of leading whitespace characters.
pub open spec fn leading_spaces(s: Seq<char>) -> int
    decreases s.len(),
{
    if s.len() == 0 || !is_space(s[0]) {
        0
    } else {
        1 + leading_spaces(s.subrange(1, s.len() as int))
    }
}

/// Number of trailing whitespace characters.
pub open spec fn trailing_spaces(s: Seq<char>) -> int
    decreases s.len(),
{
    if s.len() == 0 || !is_space(s[s.len() - 1]) {
        0
    } else {
        1 + trailing_spaces(s.subrange(0, s.len() - 1))
    }
}

/// The text with leading and trailing whitespace removed.
pub open spec fn trim_spec(s: Seq<char>) -> Seq<char> {
    if leading_spaces(s) == s.len() {
        Seq::empty()
    } else {
        s.subrange(leading_spaces(s), s.len() - trailing_spaces(s))
    }
}

pub proof fn lemma_leading_spaces(s: Seq<char>)
    ensures
        0 <= leading_spaces(s) <= s.len(),
        forall|i: int| 0 <= i < leading_spaces(s) ==> is_space(#[trigger] s[i]),
        leading_spaces(s) < s.len() ==> !is_space(s[leading_spaces(s)]),
    decreases s.len(),
{
    if s.len() > 0 && is_space(s[0]) {
        let rest = s.subrange(1, s.len() as int);
        lemma_leading_spaces(rest);
        assert(forall|i: int| 1 <= i < s.len() ==> s[i] == rest[i - 1]);
    }
}

pub proof fn lemma_trailing_spaces(s: Seq<char>)
    ensures
        0 <= trailing_spaces(s) <= s.len(),
        forall|i: int| s.len() - trailing_spaces(s) <= i < s.len() ==> is_space(
            #[trigger] s[i],
        ),
        trailing_spaces(s) < s.len() ==> !is_space(s[s.len() - trailing_spaces(s) - 1]),
    decreases s.len(),
{
    if s.len() > 0 && is_space(s[s.len() - 1]) {
        let rest = s.subrange(0, s.len() - 1);
        lemma_trailing_spaces(rest);
        assert(forall|i: int| 0 <= i < s.len() - 1 ==> s[i] == rest[i]);
    }
}

/// Trimming never lengthens the text.
pub proof fn lemma_trim_le(s: Seq<char>)
    ensures
        trim_spec(s).len() <= s.len(),
        leading_spaces(s) < s.len() ==> leading_spaces(s) + trailing_spaces(s) <= s.len(),
{
    lemma_leading_spaces(s);
    lemma_trailing_spaces(s);
    if leading_spaces(s) < s.len() {
        if leading_spaces(s) + trailing_spaces(s) > s.len() {
            assert(is_space(s[leading_spaces(s)]));
        }
    }
}

/// What a textual annotation parses to; `None` stands for rejection with
/// the error type value.
pub open spec fn spec_parse(s: Seq<char>) -> Option<FenlTypeV>
    decreases s.len(),
    via spec_parse_decreases
{
    if spec_keyword(s) is Some {
        spec_keyword(s)
    } else if is_list_shape(s) {
        let inner = s.subrange(5, s.len() - 1);
        if has_comma(inner) {
            None
        } else {
            match spec_parse(trim_spec(inner)) {
                Some(FenlTypeV::Concrete(dt)) => Some(
                    FenlTypeV::Concrete(DataTypeV::List(Box::new(dt))),
                ),
                Some(FenlTypeV::TypeRef(v)) => Some(
                    FenlTypeV::Collection(Collection::List, seq![v]),
                ),
                _ => None,
            }
        }
    } else if is_map_shape(s) {
        let inner = s.subrange(4, s.len() - 1);
        let fc = first_comma(inner);
        if fc < 0 {
            None
        } else if has_comma(inner.subrange(fc + 1, inner.len() as int)) {
            None
        } else {
            let k = spec_parse(trim_spec(inner.subrange(0, fc)));
            let v = spec_parse(trim_spec(inner.subrange(fc + 1, inner.len() as int)));
            match (k, v) {
                (Some(FenlTypeV::Concrete(kt)), Some(FenlTypeV::Concrete(vt))) => Some(
                    FenlTypeV::Concrete(DataTypeV::Mapping(Box::new(kt), Box::new(vt))),
                ),
                (Some(FenlTypeV::TypeRef(kv)), Some(FenlTypeV::TypeRef(vv))) => Some(
                    FenlTypeV::Collection(Collection::Mapping, seq![kv, vv]),
                ),
                (Some(_), Some(_)) => None,
                _ => None,
            }
        }
    } else {
        Some(FenlTypeV::TypeRef(s))
    }
}

#[via_fn]
proof fn spec_parse_decreases(s: Seq<char>) {
    if spec_keyword(s) is None {
        if is_list_shape(s) {
            let inner = s.subrange(5, s.len() - 1);
            lemma_trim_le(inner);
        } else if is_map_shape(s) {
            let inner = s.subrange(4, s.len() - 1);
            let fc = first_comma(inner);
            if fc >= 0 {
                lemma_first_comma(inner);
                lemma_trim_le(inner.subrange(0, fc));
                lemma_trim_le(inner.subrange(fc + 1, inner.len() as int));
            }
        }
    }
}

/// Whether two string slices hold the same characters.
///
/// Relies only on vstd string operations; used by the parser to match
/// keywords and shapes.
pub fn str_eq(a: &str, b: &str) -> (r: bool)
    ensures
        r == (a@ == b@),
{
    let sa = String::from_str(a);
    let sb = String::from_str(b);
    let r = sa == sb;
    proof {
        if a@ =~= b@ {
            assert(r);
        }
    }
    r
}

/// The index of the first comma of `s`, if any.
fn find_comma(s: &str) -> (r: Option<usize>)
    ensures
        match r {
            Some(i) => first_comma(s@) == i,
            None => first_comma(s@) == -1,
        },
{
    proof {
        lemma_first_comma(s@);
    }
    let n = s.unicode_len();
    let mut i: usize = 0;
    while i < n
        invariant
            n == s@.len(),
            0 <= i <= n,
            forall|j: int| 0 <= j < i ==> s@[j] != ',',
        decreases n - i,
    {
        if s.get_char(i) == ',' {
            proof {
                lemma_first_comma(s@);
                assert(has_comma(s@));
                let fc = first_comma(s@);
                if fc < i {
                    assert(s@[fc] != ',');
                } else if fc > i {
                    assert(s@[i as int] != ',');
                }
            }
            return Some(i);
        }
        i = i + 1;
    }
    None
}

/// `s` with leading and trailing spaces removed.
fn trim_str<'a>(s: &'a str) -> (r: &'a str)
    ensures
        r@ == trim_spec(s@),
{
    proof {
        lemma_leading_spaces(s@);
        lemma_trailing_spaces(s@);
        lemma_trim_le(s@);
    }
    let n = s.unicode_len();
    let mut lo: usize = 0;
    while lo < n && is_space_exec(s.get_char(lo))
        invariant
            n == s@.len(),
            0 <= lo <= n,
            forall|j: int| 0 <= j < lo ==> is_space(#[trigger] s@[j]),
            lo <= leading_spaces(s@),
        decreases n - lo,
    {
        proof {
            i_lemma_leading_at_least(s@, lo + 1int);
        }
        lo = lo + 1;
    }
    if lo == n {
        proof {
            assert(leading_spaces(s@) == n);
        }
        let r = s.substring_char(n, n);
        proof {
            assert(r@ =~= trim_spec(s@));
        }
        return r;
    }
    proof {
        assert(leading_spaces(s@) == lo) by {
            if leading_spaces(s@) > lo {
                assert(is_space(s@[lo as int]));
            }
        }
    }
    let mut hi: usize = n;
    while hi > lo && is_space_exec(s.get_char(hi - 1))
        invariant
            n == s@.len(),
            lo <= hi <= n,
            lo == leading_spaces(s@),
            lo < n,
            !is_space(s@[lo as int]),
            forall|j: int| hi <= j < n ==> is_space(#[trigger] s@[j]),
            n - hi <= trailing_spaces(s@),
        decreases hi,
    {
        proof {
            i_lemma_trailing_at_least(s@, n - hi + 1int);
        }
        hi = hi - 1;
    }
    proof {
        assert(trailing_spaces(s@) == n - hi) by {
            if trailing_spaces(s@) > n - hi {
                assert(is_space(s@[hi - 1]));
            }
        }
        assert(hi - lo >= 0);
    }
    let r = s.substring_char(lo, hi);
    proof {
        assert(r@ =~= trim_spec(s@));
    }
    r
}

/// At least `k` leading characters are spaces only if `leading_spaces`
/// says so.
proof fn i_lemma_leading_at_least(s: Seq<char>, k: int)
    requires
        0 <= k <= s.len(),
        forall|j: int| 0 <= j < k ==> is_space(#[trigger] s[j]),
    ensures
        leading_spaces(s) >= k,
    decreases k,
{
    lemma_leading_spaces(s);
    if k > 0 {
        assert(is_space(s[0]));
        let rest = s.subrange(1, s.len() as int);
        assert(forall|j: int|
            0 <= j < k - 1 ==> rest[j] == s[j + 1] && is_space(#[trigger] s[j + 1]));
        i_lemma_leading_at_least(rest, k - 1);
    }
}

proof fn i_lemma_trailing_at_least(s: Seq<char>, k: int)
    requires
        0 <= k <= s.len(),
        forall|j: int| s.len() - k <= j < s.len() ==> is_space(#[trigger] s[j]),
    ensures
        trailing_spaces(s) >= k,
    decreases k,
{
    lemma_trailing_spaces(s);
    if k > 0 {
        assert(is_space(s[s.len() - 1]));
        let rest = s.subrange(0, s.len() - 1);
        assert(forall|j: int|
            rest.len() - (k - 1) <= j < rest.len() ==> rest[j] == s[j] && is_space(
                #[trigger] s[j],
            ));
        i_lemma_trailing_at_least(rest, k - 1);
    }
}

/// The keyword table of the annotation grammar.
fn keyword_type(s: &str) -> (r: Option<FenlType>)
    ensures
        match r {
            Some(t) => spec_keyword(s@) == Some(t@),
            None => spec_keyword(s@) is None,
        },
{
    if str_eq(s, "bool") {
        Some(FenlType::Concrete(DataType::Boolean))
    } else if str_eq(s, "i8") {
        Some(FenlType::Concrete(DataType::Int8))
    } else if str_eq(s, "i32") {
        Some(FenlType::Concrete(DataType::Int32))
    } else if str_eq(s, "i64") {
        Some(FenlType::Concrete(DataType::Int64))
    } else if str_eq(s, "u8") {
        Some(FenlType::Concrete(DataType::UInt8))
    } else if str_eq(s, "u16") {
        Some(FenlType::Concrete(DataType::UInt16))
    } else if str_eq(s, "u32") {
        Some(FenlType::Concrete(DataType::UInt32))
    } else if str_eq(s, "u64") {
        Some(FenlType::Concrete(DataType::UInt64))
    } else if str_eq(s, "f32") {
        Some(FenlType::Concrete(DataType::Float32))
    } else if str_eq(s, "f64") {
        Some(FenlType::Concrete(DataType::Float64))
    } else if str_eq(s, "string") {
        Some(FenlType::Concrete(DataType::Utf8))
    } else if str_eq(s, "large_string") {
        Some(FenlType::Concrete(DataType::LargeUtf8))
    } else if str_eq(s, "interval_days") {
        Some(FenlType::Concrete(DataType::Interval(IntervalUnit::DayTime)))
    } else if str_eq(s, "interval_months") {
        Some(FenlType::Concrete(DataType::Interval(IntervalUnit::YearMonth)))
    } else if str_eq(s, "timestamp_s") {
        Some(FenlType::Concrete(DataType::Timestamp(TimeUnit::Second)))
    } else if str_eq(s, "timestamp_ms") {
        Some(FenlType::Concrete(DataType::Timestamp(TimeUnit::Millisecond)))
    } else if str_eq(s, "timestamp_us") {
        Some(FenlType::Concrete(DataType::Timestamp(TimeUnit::Microsecond)))
    } else if str_eq(s, "timestamp_ns") {
        Some(FenlType::Concrete(DataType::Timestamp(TimeUnit::Nanosecond)))
    } else if str_eq(s, "duration_s") {
        Some(FenlType::Concrete(DataType::Duration(TimeUnit::Second)))
    } else if str_eq(s, "duration_ms") {
        Some(FenlType::Concrete(DataType::Duration(TimeUnit::Millisecond)))
    } else if str_eq(s, "duration_us") {
        Some(FenlType::Concrete(DataType::Duration(TimeUnit::Microsecond)))
    } else if str_eq(s, "duration_ns") {
        Some(FenlType::Concrete(DataType::Duration(TimeUnit::Nanosecond)))
    } else if str_eq(s, "window") {
        Some(FenlType::Window)
    } else if str_eq(s, "json") {
        Some(FenlType::Json)
    } else {
        None
    }
}

impl FenlType {
    /// Parse a textual type annotation.
    ///
    /// Returns `Err(FenlType::Error)` exactly on malformed collection
    /// syntax; any non-keyword, non-collection text becomes a type
    /// variable.
    pub fn from_str(s: &str) -> (r: Result<FenlType, FenlType>)
        ensures
            match r {
                Ok(t) => spec_parse(s@) == Some(t@),
                Err(e) => spec_parse(s@) is None && e == FenlType::Error,
            },
        decreases s@.len(),
    {
        if let Some(t) = keyword_type(s) {
            return Ok(t);
        }
        let n = s.unicode_len();
        let is_list = n >= 6 && str_eq(s.substring_char(0, 5), "list<") && s.get_char(n - 1)
            == '>';
        if is_list {
            let inner = s.substring_char(5, n - 1);
            if find_comma(inner).is_some() {
                proof {
                    lemma_first_comma(inner@);
                }
                return Err(FenlType::Error);
            }
            proof {
                lemma_first_comma(inner@);
                lemma_trim_le(inner@);
            }
            let trimmed = trim_str(inner);
            match Self::from_str(trimmed) {
                Ok(FenlType::Concrete(dt)) => {
                    return Ok(FenlType::Concrete(DataType::List(Box::new(dt))));
                },
                Ok(FenlType::TypeRef(v)) => {
                    let vars = vec![v];
                    proof {
                        assert(vars@.map_values(|tv: TypeVariable| tv.0@) =~= seq![
                            vars@[0].0@,
                        ]);
                    }
                    return Ok(FenlType::Collection(Collection::List, vars));
                },
                Ok(_) => {
                    return Err(FenlType::Error);
                },
                Err(e) => {
                    return Err(e);
                },
            }
        }
        let is_map = n >= 5 && str_eq(s.substring_char(0, 4), "map<") && s.get_char(n - 1)
            == '>';
        if is_map {
            let inner = s.substring_char(4, n - 1);
            let fc = match find_comma(inner) {
                None => {
                    return Err(FenlType::Error);
                },
                Some(fc) => fc,
            };
            proof {
                lemma_first_comma(inner@);
            }
            let m = inner.unicode_len();
            let value_part = inner.substring_char(fc + 1, m);
            if find_comma(value_part).is_some() {
                proof {
                    lemma_first_comma(value_part@);
                }
                return Err(FenlType::Error);
            }
            proof {
                lemma_first_comma(value_part@);
                lemma_trim_le(inner@.subrange(0, fc as int));
                lemma_trim_le(value_part@);
            }
            let key_part = inner.substring_char(0, fc);
            let key_type = match Self::from_str(trim_str(key_part)) {
                Ok(t) => t,
                Err(e) => {
                    return Err(e);
                },
            };
            let value_type = match Self::from_str(trim_str(value_part)) {
                Ok(t) => t,
                Err(e) => {
                    return Err(e);
                },
            };
            match (key_type, value_type) {
                (FenlType::Concrete(kt), FenlType::Concrete(vt)) => {
                    return Ok(
                        FenlType::Concrete(DataType::Mapping(Box::new(kt), Box::new(vt))),
                    );
                },
                (FenlType::TypeRef(kv), FenlType::TypeRef(vv)) => {
                    let vars = vec![kv, vv];
                    proof {
                        assert(vars@.map_values(|tv: TypeVariable| tv.0@) =~= seq![
                            vars@[0].0@,
                            vars@[1].0@,
                        ]);
                    }
                    return Ok(FenlType::Collection(Collection::Mapping, vars));
                },
                (_, _) => {
                    return Err(FenlType::Error);
                },
            }
        }
        Ok(FenlType::TypeRef(TypeVariable(s.to_owned())))
    }
}

/// What a type-class keyword parses to, or `None` for anything else.
pub open spec fn spec_parse_type_class(s: Seq<char>) -> Option<TypeClass> {
    if s == "number"@ {
        Some(TypeClass::Number)
    } else if s == "key"@ {
        Some(TypeClass::Key)
    } else if s == "any"@ {
        Some(TypeClass::Any)
    } else if s == "signed"@ {
        Some(TypeClass::Signed)
    } else if s == "float"@ {
        Some(TypeClass::Float)
    } else if s == "timedelta"@ {
        Some(TypeClass::TimeDelta)
    } else if s == "ordered"@ {
        Some(TypeClass::Ordered)
    } else {
        None
    }
}

impl TypeClass {
    /// Parse a type-class name; unknown names yield the error class, which
    /// marks an already-reported failure.
    pub fn from_str(s: &str) -> (r: Result<TypeClass, TypeClass>)
        ensures
            match r {
                Ok(c) => spec_parse_type_class(s@) == Some(c),
                Err(e) => spec_parse_type_class(s@) is None && e == TypeClass::Error,
            },
    {
        if str_eq(s, "number") {
            Ok(TypeClass::Number)
        } else if str_eq(s, "key") {
            Ok(TypeClass::Key)
        } else if str_eq(s, "any") {
            Ok(TypeClass::Any)
        } else if str_eq(s, "signed") {
            Ok(TypeClass::Signed)
        } else if str_eq(s, "float") {
            Ok(TypeClass::Float)
        } else if str_eq(s, "timedelta") {
            Ok(TypeClass::TimeDelta)
        } else if str_eq(s, "ordered") {
            Ok(TypeClass::Ordered)
        } else {
            Err(TypeClass::Error)
        }
    }
}

} // verus!
