//! The round-trip laws tying [`crate::parse`] and [`crate::format`]
//! together.
//!
//! Formatting is partial and parsing folds unknown names into type
//! variables, so the laws hold on the exactly enumerated sets below:
//! [`round_trippable`] lists the type values whose formatted text parses
//! back to the same value, and [`canonical_text`] lists the texts that
//! format back to themselves after parsing. Excluded, deliberately: the
//! concrete types without a spelling (`i8`, `u8`, `u16`, concrete lists),
//! the format-only spellings (`null`, `date32`, struct texts, `error`,
//! whose parses are type variables or differ), and texts that are not in
//! the trimmed, `", "`-separated canonical form.

use vstd::prelude::*;

use crate::format::spec_format_data_type;
use crate::format::spec_format_fenl_type;
use crate::format::spec_join_vars;
use crate::parse::first_comma;
use crate::parse::has_comma;
use crate::parse::is_list_shape;
use crate::parse::is_map_shape;
use crate::parse::leading_spaces;
use crate::parse::lemma_first_comma;
use crate::parse::spec_keyword;
use crate::parse::spec_parse;
use crate::parse::trailing_spaces;
use crate::parse::trim_spec;
use crate::types::Collection;
use crate::types::DataTypeV;
use crate::types::FenlTypeV;

verus! {

broadcast use vstd::seq::group_seq_axioms, vstd::string::group_string_axioms;

/// Concrete types whose formatted text is a single parse keyword.
pub open spec fn simple_concrete(d: DataTypeV) -> bool {
    match d {
        DataTypeV::Boolean => true,
        DataTypeV::Int32 => true,
        DataTypeV::Int64 => true,
        DataTypeV::UInt32 => true,
        DataTypeV::UInt64 => true,
        DataTypeV::Float32 => true,
        DataTypeV::Float64 => true,
        DataTypeV::Utf8 => true,
        DataTypeV::LargeUtf8 => true,
        DataTypeV::Interval(_) => true,
        DataTypeV::Duration(_) => true,
        DataTypeV::Timestamp(_) => true,
        _ => false,
    }
}

/// Texts that parse to a type variable of the same name.
pub open spec fn var_text(v: Seq<char>) -> bool {
    spec_keyword(v) is None && !is_list_shape(v) && !is_map_shape(v)
}

/// Variable names that survive as collection parameters: no comma (the
/// parameter separator) and no space at either edge (trimmed away).
pub open spec fn var_item(v: Seq<char>) -> bool {
    var_text(v) && !has_comma(v) && leading_spaces(v) == 0 && trailing_spaces(v) == 0
}

/// The type values whose formatted text parses back to the same value.
pub open spec fn round_trippable(t: FenlTypeV) -> bool {
    match t {
        FenlTypeV::Window => true,
        FenlTypeV::Json => true,
        FenlTypeV::Concrete(d) => match d {
            DataTypeV::Mapping(k, v) => simple_concrete(*k) && simple_concrete(*v),
            _ => simple_concrete(d),
        },
        FenlTypeV::TypeRef(v) => var_text(v),
        FenlTypeV::Collection(Collection::List, vars) => vars.len() == 1 && var_item(
            vars[0],
        ),
        FenlTypeV::Collection(Collection::Mapping, vars) => vars.len() == 2 && var_item(
            vars[0],
        ) && var_item(vars[1]),
        FenlTypeV::Error => false,
    }
}


/// Lengths and distinguishing characters of the grammar's keywords; enough
/// to tell any two keywords apart and to tell keywords from collection
/// shapes.
proof fn lemma_keyword_chars()
    ensures
        "bool"@.len() == 4 && "bool"@[0] == 'b',
        "i8"@.len() == 2 && "i8"@[0] == 'i',
        "i32"@.len() == 3 && "i32"@[0] == 'i' && "i32"@[1] == '3',
        "i64"@.len() == 3 && "i64"@[0] == 'i' && "i64"@[1] == '6',
        "u8"@.len() == 2 && "u8"@[0] == 'u',
        "u16"@.len() == 3 && "u16"@[0] == 'u' && "u16"@[1] == '1',
        "u32"@.len() == 3 && "u32"@[0] == 'u' && "u32"@[1] == '3',
        "u64"@.len() == 3 && "u64"@[0] == 'u' && "u64"@[1] == '6',
        "f32"@.len() == 3 && "f32"@[0] == 'f' && "f32"@[1] == '3',
        "f64"@.len() == 3 && "f64"@[0] == 'f' && "f64"@[1] == '6',
        "string"@.len() == 6 && "string"@[0] == 's' && "string"@[3] == 'i' && "string"@[4]
            == 'n',
        "large_string"@.len() == 12 && "large_string"@[0] == 'l' && "large_string"@[1]
            == 'a' && "large_string"@[3] == 'g' && "large_string"@[4] == 'e',
        "interval_days"@.len() == 13 && "interval_days"@[0] == 'i' && "interval_days"@[3]
            == 'e' && "interval_days"@[4] == 'r',
        "interval_months"@.len() == 15 && "interval_months"@[0] == 'i'
            && "interval_months"@[3] == 'e' && "interval_months"@[4] == 'r',
        "timestamp_s"@.len() == 11 && "timestamp_s"@[0] == 't' && "timestamp_s"@[3] == 'e'
            && "timestamp_s"@[4] == 's',
        "timestamp_ms"@.len() == 12 && "timestamp_ms"@[0] == 't' && "timestamp_ms"@[3]
            == 'e' && "timestamp_ms"@[4] == 's' && "timestamp_ms"@[10] == 'm',
        "timestamp_us"@.len() == 12 && "timestamp_us"@[0] == 't' && "timestamp_us"@[3]
            == 'e' && "timestamp_us"@[4] == 's' && "timestamp_us"@[10] == 'u',
        "timestamp_ns"@.len() == 12 && "timestamp_ns"@[0] == 't' && "timestamp_ns"@[3]
            == 'e' && "timestamp_ns"@[4] == 's' && "timestamp_ns"@[10] == 'n',
        "duration_s"@.len() == 10 && "duration_s"@[0] == 'd' && "duration_s"@[3] == 'a'
            && "duration_s"@[4] == 't',
        "duration_ms"@.len() == 11 && "duration_ms"@[0] == 'd' && "duration_ms"@[3] == 'a'
            && "duration_ms"@[4] == 't' && "duration_ms"@[9] == 'm',
        "duration_us"@.len() == 11 && "duration_us"@[0] == 'd' && "duration_us"@[3] == 'a'
            && "duration_us"@[4] == 't' && "duration_us"@[9] == 'u',
        "duration_ns"@.len() == 11 && "duration_ns"@[0] == 'd' && "duration_ns"@[3] == 'a'
            && "duration_ns"@[4] == 't' && "duration_ns"@[9] == 'n',
        "window"@.len() == 6 && "window"@[0] == 'w' && "window"@[3] == 'd' && "window"@[4]
            == 'o',
        "json"@.len() == 4 && "json"@[0] == 'j',
{
    reveal_strlit("bool");
    reveal_strlit("i8");
    reveal_strlit("i32");
    reveal_strlit("i64");
    reveal_strlit("u8");
    reveal_strlit("u16");
    reveal_strlit("u32");
    reveal_strlit("u64");
    reveal_strlit("f32");
    reveal_strlit("f64");
    reveal_strlit("string");
    reveal_strlit("large_string");
    reveal_strlit("interval_days");
    reveal_strlit("interval_months");
    reveal_strlit("timestamp_s");
    reveal_strlit("timestamp_ms");
    reveal_strlit("timestamp_us");
    reveal_strlit("timestamp_ns");
    reveal_strlit("duration_s");
    reveal_strlit("duration_ms");
    reveal_strlit("duration_us");
    reveal_strlit("duration_ns");
    reveal_strlit("window");
    reveal_strlit("json");
}

/// A simple concrete type formats to its keyword: a nonempty, comma-free,
/// space-free text that the keyword table maps back to the type.
#[verifier::rlimit(60)]
proof fn lemma_simple_concrete(d: DataTypeV)
    requires
        simple_concrete(d),
    ensures
        spec_format_data_type(d) is Some,
        ({
            let s = spec_format_data_type(d)->Some_0;
            &&& spec_keyword(s) == Some(FenlTypeV::Concrete(d))
            &&& !has_comma(s)
            &&& s.len() > 0
            &&& leading_spaces(s) == 0
            &&& trailing_spaces(s) == 0
            &&& trim_spec(s) == s
        }),
{
    lemma_keyword_chars();
    reveal_strlit("bool");
    reveal_strlit("i8");
    reveal_strlit("i32");
    reveal_strlit("i64");
    reveal_strlit("u8");
    reveal_strlit("u16");
    reveal_strlit("u32");
    reveal_strlit("u64");
    reveal_strlit("f32");
    reveal_strlit("f64");
    reveal_strlit("string");
    reveal_strlit("large_string");
    reveal_strlit("interval_days");
    reveal_strlit("interval_months");
    reveal_strlit("timestamp_s");
    reveal_strlit("timestamp_ms");
    reveal_strlit("timestamp_us");
    reveal_strlit("timestamp_ns");
    reveal_strlit("duration_s");
    reveal_strlit("duration_ms");
    reveal_strlit("duration_us");
    reveal_strlit("duration_ns");
    reveal_strlit("window");
    reveal_strlit("json");
    reveal_strlit("duration_");
    reveal_strlit("timestamp_");
    reveal_strlit("s");
    reveal_strlit("ms");
    reveal_strlit("us");
    reveal_strlit("ns");
    let s = spec_format_data_type(d)->Some_0;
    match d {
        DataTypeV::Duration(u) => {
            match u {
                crate::types::TimeUnit::Second => {
                    assert(s =~= "duration_s"@);
                },
                crate::types::TimeUnit::Millisecond => {
                    assert(s =~= "duration_ms"@);
                },
                crate::types::TimeUnit::Microsecond => {
                    assert(s =~= "duration_us"@);
                },
                crate::types::TimeUnit::Nanosecond => {
                    assert(s =~= "duration_ns"@);
                },
            }
        },
        DataTypeV::Timestamp(u) => {
            match u {
                crate::types::TimeUnit::Second => {
                    assert(s =~= "timestamp_s"@);
                },
                crate::types::TimeUnit::Millisecond => {
                    assert(s =~= "timestamp_ms"@);
                },
                crate::types::TimeUnit::Microsecond => {
                    assert(s =~= "timestamp_us"@);
                },
                crate::types::TimeUnit::Nanosecond => {
                    assert(s =~= "timestamp_ns"@);
                },
            }
        },
        _ => {},
    }
    assert(!has_comma(s)) by {
        if has_comma(s) {
            let i = choose|i: int| 0 <= i < s.len() && s[i] == ',';
            assert(s[i] != ',');
        }
    }
    assert(leading_spaces(s) == 0);
    assert(trailing_spaces(s) == 0);
    lemma_trim_id(s);
}

/// The first comma is pinned by its characteristic properties.
proof fn lemma_first_comma_at(s: Seq<char>, p: int)
    requires
        0 <= p < s.len(),
        s[p] == ',',
        forall|j: int| 0 <= j < p ==> s[j] != ',',
    ensures
        first_comma(s) == p,
{
    lemma_first_comma(s);
    assert(has_comma(s));
    let fc = first_comma(s);
    if fc < p {
        assert(s[fc] != ',');
    } else if fc > p {
        assert(s[p] != ',');
    }
}

/// A comma-free, space-free text is its own trim.
proof fn lemma_trim_id(v: Seq<char>)
    requires
        leading_spaces(v) == 0,
        trailing_spaces(v) == 0,
    ensures
        trim_spec(v) == v,
{
    if v.len() == 0 {
        assert(trim_spec(v) =~= v);
    } else {
        assert(trim_spec(v) =~= v);
    }
}

/// Trimming `" " + v` for a space-free `v` gives `v` back.
proof fn lemma_trim_space_prefix(v: Seq<char>)
    requires
        leading_spaces(v) == 0,
        trailing_spaces(v) == 0,
    ensures
        trim_spec(" "@ + v) == v,
{
    reveal_strlit(" ");
    let r = " "@ + v;
    assert(r[0] == ' ');
    assert(r.subrange(1, r.len() as int) =~= v);
    assert(leading_spaces(r) == 1 + leading_spaces(v));
    if v.len() == 0 {
        assert(leading_spaces(r) == r.len());
        assert(trim_spec(r) =~= v);
    } else {
        assert(!crate::parse::is_space(v[v.len() - 1])) by {
            crate::parse::lemma_trailing_spaces(v);
        }
        assert(r[r.len() - 1] == v[v.len() - 1]);
        assert(trailing_spaces(r) == 0);
        assert(trim_spec(r) =~= v);
    }
}

/// Round-trip law, first direction: parsing the formatted text of a
/// round-trippable type value gives the value back.
#[verifier::rlimit(60)]
pub proof fn lemma_parse_format_roundtrip(t: FenlTypeV)
    requires
        round_trippable(t),
    ensures
        spec_format_fenl_type(t) is Some,
        spec_parse(spec_format_fenl_type(t)->Some_0) == Some(t),
{
    reveal_strlit("bool");
    reveal_strlit("i8");
    reveal_strlit("i32");
    reveal_strlit("i64");
    reveal_strlit("u8");
    reveal_strlit("u16");
    reveal_strlit("u32");
    reveal_strlit("u64");
    reveal_strlit("f32");
    reveal_strlit("f64");
    reveal_strlit("string");
    reveal_strlit("large_string");
    reveal_strlit("interval_days");
    reveal_strlit("interval_months");
    reveal_strlit("timestamp_s");
    reveal_strlit("timestamp_ms");
    reveal_strlit("timestamp_us");
    reveal_strlit("timestamp_ns");
    reveal_strlit("duration_s");
    reveal_strlit("duration_ms");
    reveal_strlit("duration_us");
    reveal_strlit("duration_ns");
    reveal_strlit("window");
    reveal_strlit("json");
    reveal_strlit("list");
    reveal_strlit("map");
    reveal_strlit("list<");
    reveal_strlit("map<");
    reveal_strlit("<");
    reveal_strlit(">");
    reveal_strlit(", ");
    reveal_strlit(" ");
    lemma_keyword_chars();
    match t {
        FenlTypeV::Window => {
            assert(spec_parse("window"@) == Some(t));
        },
        FenlTypeV::Json => {
            assert(spec_keyword("json"@) == Some(FenlTypeV::Json));
            assert(spec_parse("json"@) == Some(t));
        },
        FenlTypeV::TypeRef(v) => {
            assert(spec_parse(v) == Some(t));
        },
        FenlTypeV::Concrete(d) => {
            match d {
                DataTypeV::Mapping(k, v) => {
                    lemma_simple_concrete(*k);
                    lemma_simple_concrete(*v);
                    let ks = spec_format_data_type(*k)->Some_0;
                    let vs = spec_format_data_type(*v)->Some_0;
                    let s = "map<"@ + ks + ", "@ + vs + ">"@;
                    assert(spec_format_fenl_type(t) == Some(s));
                    lemma_parse_map_text(ks, vs);
                    let inner = s.subrange(4, s.len() - 1);
                    let fc = first_comma(inner);
                    assert(spec_parse(trim_spec(inner.subrange(0, fc))) == Some(
                        FenlTypeV::Concrete(*k),
                    ));
                    assert(spec_parse(
                        trim_spec(inner.subrange(fc + 1, inner.len() as int)),
                    ) == Some(FenlTypeV::Concrete(*v)));
                    assert(spec_parse(s) == Some(
                        FenlTypeV::Concrete(
                            DataTypeV::Mapping(Box::new(*k), Box::new(*v)),
                        ),
                    ));
                    assert(DataTypeV::Mapping(Box::new(*k), Box::new(*v)) == d);
                },
                _ => {
                    lemma_simple_concrete(d);
                    let s = spec_format_data_type(d)->Some_0;
                    assert(spec_parse(s) == Some(t));
                },
            }
        },
        FenlTypeV::Collection(c, vars) => {
            match c {
                Collection::List => {
                    let v = vars[0];
                    let s = "list<"@ + v + ">"@;
                    assert(spec_join_vars(vars) == v);
                    assert(spec_format_fenl_type(t) == Some(s));
                    assert(spec_keyword(s) is None) by {
                        lemma_shape_not_keyword(s);
                        assert(s[0] == 'l');
                        assert(s[1] == 'i');
                        assert(s[2] == 's');
                        assert(s[3] == 't');
                        assert(s[4] == '<');
                    }
                    assert(is_list_shape(s)) by {
                        assert(s[s.len() - 1] == '>');
                        assert(s.subrange(0, 5) =~= "list<"@);
                    }
                    let inner = s.subrange(5, s.len() - 1);
                    assert(inner =~= v);
                    assert(!has_comma(inner));
                    lemma_trim_id(v);
                    assert(spec_parse(v) == Some(FenlTypeV::TypeRef(v)));
                    assert(seq![v] =~= vars);
                    assert(spec_parse(s) == Some(t));
                },
                Collection::Mapping => {
                    let kv = vars[0];
                    let vv = vars[1];
                    assert(spec_join_vars(vars) == kv + ", "@ + vv) by {
                        assert(vars.subrange(0, 1) =~= seq![kv]);
                        assert(spec_join_vars(seq![kv]) == kv);
                    }
                    let s = "map<"@ + kv + ", "@ + vv + ">"@;
                    assert(spec_format_fenl_type(t) == Some(s)) by {
                        assert("map<"@ + (kv + ", "@ + vv) + ">"@ =~= s);
                    }
                    lemma_parse_map_text(kv, vv);
                    let inner = s.subrange(4, s.len() - 1);
                    let fc = first_comma(inner);
                    assert(spec_parse(trim_spec(inner.subrange(0, fc))) == Some(
                        FenlTypeV::TypeRef(kv),
                    ));
                    assert(spec_parse(
                        trim_spec(inner.subrange(fc + 1, inner.len() as int)),
                    ) == Some(FenlTypeV::TypeRef(vv)));
                    assert(seq![kv, vv] =~= vars);
                    assert(spec_parse(s) == Some(t));
                },
            }
        },
        FenlTypeV::Error => {},
    }
}

/// A list- or map-shaped text is no keyword.
proof fn lemma_shape_not_keyword(s: Seq<char>)
    requires
        (s.len() >= 6 && s[4] == '<') || (s.len() >= 5 && s[3] == '<'),
    ensures
        spec_keyword(s) is None,
{
    lemma_keyword_chars();
}

/// Parsing `"map<" + k + ", " + v + ">"` for comma-free, space-free,
/// nonempty-or-variable parameter texts reaches the parameter parses.
proof fn lemma_parse_map_text(ks: Seq<char>, vs: Seq<char>)
    requires
        !has_comma(ks),
        !has_comma(vs),
        leading_spaces(ks) == 0,
        trailing_spaces(ks) == 0,
        leading_spaces(vs) == 0,
        trailing_spaces(vs) == 0,
    ensures
        ({
            let s = "map<"@ + ks + ", "@ + vs + ">"@;
            let inner = s.subrange(4, s.len() - 1);
            let fc = first_comma(inner);
            &&& spec_keyword(s) is None
            &&& !is_list_shape(s)
            &&& is_map_shape(s)
            &&& fc == ks.len()
            &&& !has_comma(inner.subrange(fc + 1, inner.len() as int))
            &&& trim_spec(inner.subrange(0, fc)) == ks
            &&& trim_spec(inner.subrange(fc + 1, inner.len() as int)) == vs
        }),
{
    reveal_strlit("map<");
    reveal_strlit("list<");
    reveal_strlit(", ");
    reveal_strlit(" ");
    reveal_strlit(">");
    let s = "map<"@ + ks + ", "@ + vs + ">"@;
    assert(s[0] == 'm');
    assert(s[1] == 'a');
    assert(s[2] == 'p');
    assert(s[3] == '<');
    assert(s[s.len() - 1] == '>');
    lemma_shape_not_keyword(s);
    assert(!is_list_shape(s)) by {
        if is_list_shape(s) {
            assert(s.subrange(0, 5)[0] == 'l');
        }
    }
    assert(is_map_shape(s)) by {
        assert(s.subrange(0, 4) =~= "map<"@);
    }
    let inner = s.subrange(4, s.len() - 1);
    assert(inner =~= ks + ", "@ + vs);
    assert(inner[ks.len() as int] == ',');
    assert(forall|j: int| 0 <= j < ks.len() ==> inner[j] == ks[j]);
    assert forall|j: int| 0 <= j < ks.len() implies inner[j] != ',' by {
        if inner[j] == ',' {
            assert(ks[j] == ',');
            assert(has_comma(ks));
        }
    }
    lemma_first_comma_at(inner, ks.len() as int);
    let fc = first_comma(inner);
    let rest = inner.subrange(fc + 1, inner.len() as int);
    assert(rest =~= " "@ + vs);
    assert forall|j: int| 0 <= j < rest.len() implies rest[j] != ',' by {
        if j == 0 {
            assert(rest[0] == ' ');
        } else {
            assert(rest[j] == vs[j - 1]);
            if rest[j] == ',' {
                assert(has_comma(vs));
            }
        }
    }
    assert(!has_comma(rest)) by {
        if has_comma(rest) {
            let i = choose|i: int| 0 <= i < rest.len() && rest[i] == ',';
        }
    }
    assert(inner.subrange(0, fc) =~= ks);
    lemma_trim_id(ks);
    lemma_trim_space_prefix(vs);
}

/// Keyword texts that format back to themselves: every parse keyword but
/// the three whose concrete types have no spelling.
pub open spec fn keyword_display(s: Seq<char>) -> bool {
    spec_keyword(s) is Some && s != "i8"@ && s != "u8"@ && s != "u16"@
}

/// The texts in the canonical form that parsing followed by formatting
/// reproduces exactly: displayable keywords, variable names, `list<v>`
/// over a variable, and `map<k, v>` with exactly `", "` between two
/// variables or two displayable concrete keywords.
pub open spec fn canonical_text(s: Seq<char>) -> bool {
    ||| keyword_display(s)
    ||| var_text(s)
    ||| (is_list_shape(s) && var_item(s.subrange(5, s.len() - 1)))
    ||| (is_map_shape(s) && !is_list_shape(s) && {
        let inner = s.subrange(4, s.len() - 1);
        let fc = first_comma(inner);
        &&& fc >= 0
        &&& !has_comma(inner.subrange(fc + 1, inner.len() as int))
        &&& fc + 1 < inner.len()
        &&& inner[fc + 1] == ' '
        &&& {
            let k = inner.subrange(0, fc);
            let v = inner.subrange(fc + 2, inner.len() as int);
            ||| (var_item(k) && var_item(v))
            ||| (keyword_concrete_display(k) && keyword_concrete_display(v))
        }
    })
}

/// Keyword texts naming a displayable concrete type.
pub open spec fn keyword_concrete_display(s: Seq<char>) -> bool {
    keyword_display(s) && spec_keyword(s)->Some_0 matches FenlTypeV::Concrete(_)
}

/// A keyword naming a displayable concrete type is exactly that type's
/// formatted text, and is comma-free and space-free.
proof fn lemma_keyword_inverse(s: Seq<char>)
    requires
        keyword_concrete_display(s),
    ensures
        ({
            let d = spec_keyword(s)->Some_0->Concrete_0;
            &&& simple_concrete(d)
            &&& spec_format_data_type(d) == Some(s)
            &&& !has_comma(s)
            &&& leading_spaces(s) == 0
            &&& trailing_spaces(s) == 0
            &&& trim_spec(s) == s
        }),
{
    lemma_keyword_chars();
    let d = spec_keyword(s)->Some_0->Concrete_0;
    assert(simple_concrete(d));
    lemma_simple_concrete(d);
    let s0 = spec_format_data_type(d)->Some_0;
    assert(spec_keyword(s0) == Some(FenlTypeV::Concrete(d)));
    assert(s0 == s);
}

/// Round-trip law, second direction: formatting the parse of a canonical
/// text gives the text back.
#[verifier::rlimit(100)]
pub proof fn lemma_format_parse_roundtrip(s: Seq<char>)
    requires
        canonical_text(s),
    ensures
        spec_parse(s) is Some,
        spec_format_fenl_type(spec_parse(s)->Some_0) == Some(s),
{
    reveal_strlit("list<");
    reveal_strlit("map<");
    reveal_strlit("list");
    reveal_strlit("map");
    reveal_strlit("<");
    reveal_strlit(">");
    reveal_strlit(", ");
    reveal_strlit(" ");
    reveal_strlit("window");
    reveal_strlit("json");
    lemma_keyword_chars();
    if keyword_display(s) {
        let t = spec_keyword(s)->Some_0;
        assert(spec_parse(s) == Some(t));
        match t {
            FenlTypeV::Window => {
                assert(s == "window"@);
            },
            FenlTypeV::Json => {
                assert(s == "json"@);
            },
            FenlTypeV::Concrete(d) => {
                lemma_keyword_inverse(s);
            },
            _ => {
                assert(false);
            },
        }
    } else if var_text(s) {
        assert(spec_parse(s) == Some(FenlTypeV::TypeRef(s)));
    } else if is_list_shape(s) && var_item(s.subrange(5, s.len() - 1)) {
        let v = s.subrange(5, s.len() - 1);
        assert(s[4] == '<') by {
            assert(s.subrange(0, 5)[4] == '<');
        }
        lemma_shape_not_keyword(s);
        lemma_trim_id(v);
        assert(spec_parse(trim_spec(v)) == Some(FenlTypeV::TypeRef(v)));
        let t = FenlTypeV::Collection(Collection::List, seq![v]);
        assert(spec_parse(s) == Some(t));
        assert(spec_join_vars(seq![v]) == v);
        assert("list"@ + "<"@ + v + ">"@ =~= "list<"@ + v + ">"@);
        assert("list<"@ + v + ">"@ =~= s) by {
            assert(s.subrange(0, 5) == "list<"@);
            assert(forall|i: int| 0 <= i < 5 ==> s[i] == "list<"@[i]) by {
                assert(forall|i: int| 0 <= i < 5 ==> s.subrange(0, 5)[i] == s[i]);
            }
            assert(s[s.len() - 1] == '>');
        }
        assert(spec_format_fenl_type(t) == Some("list"@ + "<"@ + v + ">"@));
    } else {
        let inner = s.subrange(4, s.len() - 1);
        let fc = first_comma(inner);
        let k = inner.subrange(0, fc);
        let v = inner.subrange(fc + 2, inner.len() as int);
        assert(s[3] == '<') by {
            assert(s.subrange(0, 4)[3] == '<');
        }
        lemma_shape_not_keyword(s);
        lemma_first_comma(inner);
        assert(inner[fc] == ',');
        let rest = inner.subrange(fc + 1, inner.len() as int);
        assert(rest[0] == ' ');
        assert(rest.subrange(1, rest.len() as int) =~= v);
        let kp = inner.subrange(0, fc);
        if var_item(k) && var_item(v) {
            lemma_trim_id(k);
            lemma_trim_space_prefix(v);
            assert(trim_spec(rest) == v) by {
                assert(rest =~= " "@ + v);
            }
            assert(spec_parse(trim_spec(k)) == Some(FenlTypeV::TypeRef(k)));
            assert(spec_parse(trim_spec(rest)) == Some(FenlTypeV::TypeRef(v)));
            let t = FenlTypeV::Collection(Collection::Mapping, seq![k, v]);
            assert(spec_parse(s) == Some(t));
            assert(spec_join_vars(seq![k, v]) == k + ", "@ + v) by {
                assert(seq![k, v].subrange(0, 1) =~= seq![k]);
                assert(spec_join_vars(seq![k]) == k);
            }
            assert("map"@ + "<"@ + (k + ", "@ + v) + ">"@ =~= "map<"@ + k + ", "@ + v
                + ">"@);
            assert("map<"@ + k + ", "@ + v + ">"@ =~= s) by {
                assert(s.subrange(0, 4) == "map<"@);
                assert(forall|i: int| 0 <= i < 4 ==> s[i] == "map<"@[i]) by {
                    assert(forall|i: int| 0 <= i < 4 ==> s.subrange(0, 4)[i] == s[i]);
                }
                assert(s[s.len() - 1] == '>');
                assert(forall|i: int| 0 <= i < inner.len() ==> inner[i] == s[4 + i]);
                assert(forall|i: int| 0 <= i < fc ==> k[i] == inner[i]);
                assert(forall|i: int| 0 <= i < v.len() ==> v[i] == inner[fc + 2 + i]);
            }
            assert(spec_format_fenl_type(t) == Some("map"@ + "<"@ + (k + ", "@ + v)
                + ">"@));
        } else {
            lemma_keyword_inverse(k);
            lemma_keyword_inverse(v);
            let kd = spec_keyword(k)->Some_0->Concrete_0;
            let vd = spec_keyword(v)->Some_0->Concrete_0;
            lemma_trim_id(k);
            lemma_trim_space_prefix(v);
            assert(trim_spec(rest) == v) by {
                assert(rest =~= " "@ + v);
            }
            assert(spec_parse(trim_spec(k)) == Some(FenlTypeV::Concrete(kd)));
            assert(spec_parse(trim_spec(rest)) == Some(FenlTypeV::Concrete(vd)));
            let t = FenlTypeV::Concrete(
                DataTypeV::Mapping(Box::new(kd), Box::new(vd)),
            );
            assert(spec_parse(s) == Some(t));
            assert("map<"@ + k + ", "@ + v + ">"@ =~= s) by {
                assert(s.subrange(0, 4) == "map<"@);
                assert(forall|i: int| 0 <= i < 4 ==> s[i] == "map<"@[i]) by {
                    assert(forall|i: int| 0 <= i < 4 ==> s.subrange(0, 4)[i] == s[i]);
                }
                assert(s[s.len() - 1] == '>');
                assert(forall|i: int| 0 <= i < inner.len() ==> inner[i] == s[4 + i]);
                assert(forall|i: int| 0 <= i < fc ==> k[i] == inner[i]);
                assert(forall|i: int| 0 <= i < v.len() ==> v[i] == inner[fc + 2 + i]);
            }
            assert(spec_format_fenl_type(t) == Some("map<"@ + k + ", "@ + v + ">"@));
        }
    }
}

} // verus!
