//! Formatting of type values back to the textual annotation syntax.
//!
//! Formatting is partial: the annotation grammar has no spelling for some
//! concrete types (`i8`, `u8`, `u16` and concrete lists), so formatting them
//! reports "unsupported for display" by returning `None` instead of
//! aborting. Everything a formatter returns is pinned, character by
//! character, by the `spec_format_*` functions.

use vstd::prelude::*;

use crate::types::Collection;
use crate::types::DataType;
use crate::types::DataTypeV;
use crate::types::Field;
use crate::types::FieldV;
use crate::types::FenlType;
use crate::types::FenlTypeV;
use crate::types::IntervalUnit;
use crate::types::TimeUnit;
use crate::types::TypeClass;

verus! {

broadcast use vstd::std_specs::vec::group_vec_axioms, vstd::seq::group_seq_axioms;

/// The suffix naming a time unit in `timestamp_*` and `duration_*` keywords.
pub open spec fn spec_timeunit_suffix(u: TimeUnit) -> Seq<char> {
    match u {
        TimeUnit::Second => "s"@,
        TimeUnit::Millisecond => "ms"@,
        TimeUnit::Microsecond => "us"@,
        TimeUnit::Nanosecond => "ns"@,
    }
}

pub fn timeunit_suffix(u: TimeUnit) -> (r: &'static str)
    ensures
        r@ == spec_timeunit_suffix(u),
{
    match u {
        TimeUnit::Second => "s",
        TimeUnit::Millisecond => "ms",
        TimeUnit::Microsecond => "us",
        TimeUnit::Nanosecond => "ns",
    }
}

/// The text of a collection kind.
pub open spec fn spec_collection_text(c: Collection) -> Seq<char> {
    match c {
        Collection::List => "list"@,
        Collection::Mapping => "map"@,
    }
}

impl Collection {
    pub fn display_string(&self) -> (r: String)
        ensures
            r@ == spec_collection_text(*self),
    {
        let mut out = String::new();
        match self {
            Collection::List => out.append("list"),
            Collection::Mapping => out.append("map"),
        }
        out
    }
}

/// What a concrete type formats to, or `None` where the annotation grammar
/// has no spelling for it.
pub open spec fn spec_format_data_type(d: DataTypeV) -> Option<Seq<char>>
    decreases d,
{
    match d {
        DataTypeV::Null => Some("null"@),
        DataTypeV::Boolean => Some("bool"@),
        DataTypeV::Utf8 => Some("string"@),
        DataTypeV::LargeUtf8 => Some("large_string"@),
        DataTypeV::Int32 => Some("i32"@),
        DataTypeV::Int64 => Some("i64"@),
        DataTypeV::UInt32 => Some("u32"@),
        DataTypeV::UInt64 => Some("u64"@),
        DataTypeV::Float32 => Some("f32"@),
        DataTypeV::Float64 => Some("f64"@),
        DataTypeV::Interval(IntervalUnit::DayTime) => Some("interval_days"@),
        DataTypeV::Interval(IntervalUnit::YearMonth) => Some("interval_months"@),
        DataTypeV::Duration(u) => Some("duration_"@ + spec_timeunit_suffix(u)),
        DataTypeV::Timestamp(u) => Some("timestamp_"@ + spec_timeunit_suffix(u)),
        DataTypeV::Date32 => Some("date32"@),
        DataTypeV::Struct(fields) => match spec_format_fields(fields) {
            Some(inner) => Some("{"@ + inner + "}"@),
            None => None,
        },
        DataTypeV::Mapping(k, v) => match (
            spec_format_data_type(*k),
            spec_format_data_type(*v),
        ) {
            (Some(ks), Some(vs)) => Some("map<"@ + ks + ", "@ + vs + ">"@),
            _ => None,
        },
        _ => None,
    }
}

/// The `name: type` items of a struct type, joined with `", "`.
pub open spec fn spec_format_fields(fields: Seq<FieldV>) -> Option<Seq<char>>
    decreases fields,
{
    if fields.len() == 0 {
        Some(Seq::empty())
    } else if fields.len() == 1 {
        spec_format_field(fields[0])
    } else {
        match (
            spec_format_fields(fields.subrange(0, fields.len() - 1)),
            spec_format_field(fields[fields.len() - 1]),
        ) {
            (Some(init), Some(last)) => Some(init + ", "@ + last),
            _ => None,
        }
    }
}

pub open spec fn spec_format_field(f: FieldV) -> Option<Seq<char>>
    decreases f,
{
    match spec_format_data_type(f.data_type) {
        Some(t) => Some(f.name + ": "@ + t),
        None => None,
    }
}

/// What a type value formats to, or `None` where a concrete type in it has
/// no spelling.
pub open spec fn spec_format_fenl_type(t: FenlTypeV) -> Option<Seq<char>> {
    match t {
        FenlTypeV::Json => Some("json"@),
        FenlTypeV::Window => Some("window"@),
        FenlTypeV::TypeRef(name) => Some(name),
        FenlTypeV::Concrete(d) => spec_format_data_type(d),
        FenlTypeV::Error => Some("error"@),
        FenlTypeV::Collection(c, vars) => Some(
            spec_collection_text(c) + "<"@ + spec_join_vars(vars) + ">"@,
        ),
    }
}

/// Type-variable names joined with `", "`.
pub open spec fn spec_join_vars(vars: Seq<Seq<char>>) -> Seq<char>
    decreases vars.len(),
{
    if vars.len() == 0 {
        Seq::empty()
    } else if vars.len() == 1 {
        vars[0]
    } else {
        spec_join_vars(vars.subrange(0, vars.len() - 1)) + ", "@ + vars[vars.len() - 1]
    }
}

/// If a prefix of the fields already fails to format, the whole list does.
proof fn lemma_format_fields_none_prefix(fields: Seq<FieldV>, k: int)
    requires
        0 < k <= fields.len(),
        spec_format_fields(fields.subrange(0, k)) is None,
    ensures
        spec_format_fields(fields) is None,
    decreases fields.len() - k,
{
    if k == fields.len() {
        assert(fields.subrange(0, k) == fields);
    } else {
        assert(fields.subrange(0, k + 1).subrange(0, k) == fields.subrange(0, k));
        assert(spec_format_fields(fields.subrange(0, k + 1)) is None);
        lemma_format_fields_none_prefix(fields, k + 1);
    }
}

/// A wrapper for formatting concrete types.
pub struct FormatDataType<'a>(pub &'a DataType);

impl<'a> FormatDataType<'a> {
    /// The textual form of the wrapped type, or `None` where the grammar
    /// has no spelling for it.
    pub fn to_text(&self) -> (r: Option<String>)
        ensures
            match r {
                Some(s) => spec_format_data_type(self.0@) == Some(s@),
                None => spec_format_data_type(self.0@) is None,
            },
    {
        format_data_type(self.0)
    }
}

/// A wrapper for formatting struct fields.
pub struct FormatStruct<'a>(pub &'a Vec<Field>);

impl<'a> FormatStruct<'a> {
    /// The `{name: type, ...}` form of the wrapped fields, or `None` where
    /// a field's type has no spelling.
    pub fn to_text(&self) -> (r: Option<String>)
        ensures
            match r {
                Some(s) => spec_format_data_type(DataTypeV::Struct(crate::types::fields_view(self.0@)))
                    == Some(s@),
                None => spec_format_data_type(DataTypeV::Struct(crate::types::fields_view(self.0@)))
                    is None,
            },
    {
        format_struct_fields(self.0)
    }
}

pub fn format_data_type(d: &DataType) -> (r: Option<String>)
    ensures
        match r {
            Some(s) => spec_format_data_type(d@) == Some(s@),
            None => spec_format_data_type(d@) is None,
        },
    decreases *d,
{
    let mut out = String::new();
    match d {
        DataType::Null => out.append("null"),
        DataType::Boolean => out.append("bool"),
        DataType::Utf8 => out.append("string"),
        DataType::LargeUtf8 => out.append("large_string"),
        DataType::Int32 => out.append("i32"),
        DataType::Int64 => out.append("i64"),
        DataType::UInt32 => out.append("u32"),
        DataType::UInt64 => out.append("u64"),
        DataType::Float32 => out.append("f32"),
        DataType::Float64 => out.append("f64"),
        DataType::Interval(IntervalUnit::DayTime) => out.append("interval_days"),
        DataType::Interval(IntervalUnit::YearMonth) => out.append("interval_months"),
        DataType::Duration(u) => {
            out.append("duration_");
            out.append(timeunit_suffix(*u));
        },
        DataType::Timestamp(u) => {
            out.append("timestamp_");
            out.append(timeunit_suffix(*u));
        },
        DataType::Date32 => out.append("date32"),
        DataType::Struct(fields) => {
            return format_struct_fields(fields);
        },
        DataType::Mapping(k, v) => {
            let ks = format_data_type(k);
            let vs = format_data_type(v);
            match (ks, vs) {
                (Some(ks), Some(vs)) => {
                    out.append("map<");
                    out.append(ks.as_str());
                    out.append(", ");
                    out.append(vs.as_str());
                    out.append(">");
                },
                _ => {
                    return None;
                },
            }
        },
        _ => {
            return None;
        },
    }
    Some(out)
}

fn format_struct_fields(fields: &Vec<Field>) -> (r: Option<String>)
    ensures
        match r {
            Some(s) => spec_format_data_type(DataTypeV::Struct(crate::types::fields_view(fields@)))
                == Some(s@),
            None => spec_format_data_type(DataTypeV::Struct(crate::types::fields_view(fields@)))
                is None,
        },
    decreases fields@,
{
    let ghost fv = crate::types::fields_view(fields@);
    proof {
        crate::types::lemma_fields_view(fields@);
    }
    let mut out = String::new();
    out.append("{");
    let mut i: usize = 0;
    let ghost mut joined: Seq<char> = Seq::empty();
    while i < fields.len()
        invariant
            0 <= i <= fields@.len(),
            fv == crate::types::fields_view(fields@),
            fv.len() == fields@.len(),
            forall|j: int| 0 <= j < fields@.len() ==> fv[j] == crate::types::field_view(
                fields@[j],
            ),
            spec_format_fields(fv.subrange(0, i as int)) == Some(joined),
            out@ == "{"@ + joined,
        decreases fields@.len() - i,
    {
        let f = &fields[i];
        let t = format_data_type(&f.data_type);
        match t {
            Some(t) => {
                if i > 0 {
                    out.append(", ");
                }
                out.append(f.name.as_str());
                out.append(": ");
                out.append(t.as_str());
                proof {
                    let prev = joined;
                    if i == 0 {
                        joined = f@.name + ": "@ + t@;
                    } else {
                        joined = prev + ", "@ + (f@.name + ": "@ + t@);
                    }
                    assert(fv.subrange(0, i + 1).subrange(0, i as int) == fv.subrange(
                        0,
                        i as int,
                    ));
                    assert(fv.subrange(0, i + 1)[i as int] == fv[i as int]);
                    assert(spec_format_field(fv[i as int]) == Some(f@.name + ": "@ + t@));
                    assert(spec_format_fields(fv.subrange(0, i + 1)) == Some(joined));
                    assert(out@ == "{"@ + joined);
                }
            },
            None => {
                proof {
                    assert(fv.subrange(0, i + 1).subrange(0, i as int) == fv.subrange(
                        0,
                        i as int,
                    ));
                    assert(fv.subrange(0, i + 1)[i as int] == fv[i as int]);
                    assert(spec_format_fields(fv.subrange(0, i + 1)) is None);
                    lemma_format_fields_none_prefix(fv, i + 1);
                }
                return None;
            },
        }
        i = i + 1;
    }
    out.append("}");
    proof {
        assert(fv.subrange(0, fv.len() as int) == fv);
        assert(out@ == "{"@ + joined + "}"@);
    }
    Some(out)
}

impl FenlType {
    /// The textual form of this type, or `None` where a concrete type in it
    /// has no spelling in the annotation grammar.
    pub fn display_string(&self) -> (r: Option<String>)
        ensures
            match r {
                Some(s) => spec_format_fenl_type(self@) == Some(s@),
                None => spec_format_fenl_type(self@) is None,
            },
    {
        match self {
            FenlType::Json => {
                let mut out = String::new();
                out.append("json");
                Some(out)
            },
            FenlType::Window => {
                let mut out = String::new();
                out.append("window");
                Some(out)
            },
            FenlType::Error => {
                let mut out = String::new();
                out.append("error");
                Some(out)
            },
            FenlType::TypeRef(v) => {
                let mut out = String::new();
                out.append(v.0.as_str());
                Some(out)
            },
            FenlType::Concrete(d) => format_data_type(d),
            FenlType::Collection(c, vars) => {
                let ghost vv = vars@.map_values(|v: crate::types::TypeVariable| v.0@);
                let mut out = c.display_string();
                out.append("<");
                let ghost mut joined: Seq<char> = Seq::empty();
                let mut i: usize = 0;
                while i < vars.len()
                    invariant
                        0 <= i <= vars@.len(),
                        vv == vars@.map_values(|v: crate::types::TypeVariable| v.0@),
                        vv.len() == vars@.len(),
                        forall|j: int| 0 <= j < vars@.len() ==> vv[j] == vars@[j].0@,
                        spec_join_vars(vv.subrange(0, i as int)) == joined,
                        out@ == spec_collection_text(*c) + "<"@ + joined,
                    decreases vars@.len() - i,
                {
                    if i > 0 {
                        out.append(", ");
                    }
                    out.append(vars[i].0.as_str());
                    proof {
                        let prev = joined;
                        if i == 0 {
                            joined = vv[i as int];
                        } else {
                            joined = prev + ", "@ + vv[i as int];
                        }
                        assert(vv.subrange(0, i + 1).subrange(0, i as int) == vv.subrange(
                            0,
                            i as int,
                        ));
                        assert(vv.subrange(0, i + 1)[i as int] == vv[i as int]);
                        assert(spec_join_vars(vv.subrange(0, i + 1)) == joined);
                    }
                    i = i + 1;
                }
                out.append(">");
                proof {
                    assert(vv.subrange(0, vv.len() as int) == vv);
                }
                Some(out)
            },
        }
    }
}

/// The text of a type class.
pub open spec fn spec_type_class_text(c: TypeClass) -> Seq<char> {
    match c {
        TypeClass::Number => "number"@,
        TypeClass::Key => "key"@,
        TypeClass::Any => "any"@,
        TypeClass::Signed => "signed"@,
        TypeClass::Float => "float"@,
        TypeClass::TimeDelta => "timedelta"@,
        TypeClass::Ordered => "ordered"@,
        TypeClass::Error => "error"@,
    }
}

impl TypeClass {
    pub fn display_string(&self) -> (r: String)
        ensures
            r@ == spec_type_class_text(*self),
    {
        let mut out = String::new();
        match self {
            TypeClass::Number => out.append("number"),
            TypeClass::Key => out.append("key"),
            TypeClass::Any => out.append("any"),
            TypeClass::Signed => out.append("signed"),
            TypeClass::Float => out.append("float"),
            TypeClass::TimeDelta => out.append("timedelta"),
            TypeClass::Ordered => out.append("ordered"),
            TypeClass::Error => out.append("error"),
        }
        out
    }
}

} // verus!
