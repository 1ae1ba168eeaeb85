//! The plan artifact format: a stable, lossless textual document for an
//! expression-node list, sufficient for exact round-trips.
//!
//! The document is a flat token stream. Kinds use
//! lowercase-with-underscore tags (`call`, `column`, `boolean_literal`,
//! `string_literal`, `numeric_literal`); numeric literals stay
//! arbitrary-precision decimal text; strings are length-prefixed
//! (`3:foo`), so no escaping is needed; every other token ends with one
//! space. Each node is its kind tag and payload, the argument-index
//! count and indices, and the result type in prefix form.
//!
//! [`encode_plan`] and [`decode_plan`] are proved to produce and consume
//! exactly what the `spec_*` functions describe.

use vstd::prelude::*;

use crate::expr::Decimal;
use crate::expr::Expr;
use crate::expr::ExprId;
use crate::expr::ExprKind;
use crate::expr::ExprKindV;
use crate::expr::ExprV;
use crate::expr::exprs_view;
use crate::format::spec_timeunit_suffix;
use crate::format::timeunit_suffix;
use crate::types::DataType;
use crate::types::DataTypeV;
use crate::types::Field;
use crate::types::FieldV;
use crate::types::IntervalUnit;
use crate::types::TimeUnit;
use crate::types::fields_view;
use crate::types::lemma_fields_view;

verus! {

broadcast use vstd::std_specs::vec::group_vec_axioms, vstd::seq::group_seq_axioms, vstd::string::group_string_axioms;

/// The digit character of one decimal digit.
pub open spec fn digit_char(d: nat) -> char {
    if d == 0 {
        '0'
    } else if d == 1 {
        '1'
    } else if d == 2 {
        '2'
    } else if d == 3 {
        '3'
    } else if d == 4 {
        '4'
    } else if d == 5 {
        '5'
    } else if d == 6 {
        '6'
    } else if d == 7 {
        '7'
    } else if d == 8 {
        '8'
    } else {
        '9'
    }
}

/// The canonical decimal text of a number, most significant digit first.
pub open spec fn spec_nat_text(n: nat) -> Seq<char>
    decreases n,
{
    if n < 10 {
        seq![digit_char(n)]
    } else {
        spec_nat_text(n / 10).push(digit_char(n % 10))
    }
}

/// A length-prefixed string token: `len:chars `.
pub open spec fn spec_str_enc(s: Seq<char>) -> Seq<char> {
    spec_nat_text(s.len()) + ":"@ + s + " "@
}

/// The prefix encoding of a concrete type.
pub open spec fn spec_dt_enc(d: DataTypeV) -> Seq<char>
    decreases d,
{
    match d {
        DataTypeV::Null => "null "@,
        DataTypeV::Boolean => "bool "@,
        DataTypeV::Int8 => "i8 "@,
        DataTypeV::Int32 => "i32 "@,
        DataTypeV::Int64 => "i64 "@,
        DataTypeV::UInt8 => "u8 "@,
        DataTypeV::UInt16 => "u16 "@,
        DataTypeV::UInt32 => "u32 "@,
        DataTypeV::UInt64 => "u64 "@,
        DataTypeV::Float32 => "f32 "@,
        DataTypeV::Float64 => "f64 "@,
        DataTypeV::Utf8 => "string "@,
        DataTypeV::LargeUtf8 => "large_string "@,
        DataTypeV::Date32 => "date32 "@,
        DataTypeV::Timestamp(u) => "timestamp_"@ + spec_timeunit_suffix(u) + " "@,
        DataTypeV::Duration(u) => "duration_"@ + spec_timeunit_suffix(u) + " "@,
        DataTypeV::Interval(IntervalUnit::DayTime) => "interval_days "@,
        DataTypeV::Interval(IntervalUnit::YearMonth) => "interval_months "@,
        DataTypeV::Struct(fields) => "struct "@ + spec_nat_text(fields.len()) + " "@
            + spec_fields_enc(fields),
        DataTypeV::List(item) => "list "@ + spec_dt_enc(*item),
        DataTypeV::Mapping(k, v) => "map "@ + spec_dt_enc(*k) + spec_dt_enc(*v),
    }
}

pub open spec fn spec_field_enc(f: FieldV) -> Seq<char>
    decreases f,
{
    spec_str_enc(f.name) + spec_dt_enc(f.data_type)
}

pub open spec fn spec_fields_enc(fields: Seq<FieldV>) -> Seq<char>
    decreases fields,
{
    if fields.len() == 0 {
        Seq::empty()
    } else {
        spec_fields_enc(fields.subrange(0, fields.len() - 1)) + spec_field_enc(
            fields[fields.len() - 1],
        )
    }
}

/// The encoding of one node's kind tag and payload.
pub open spec fn spec_kind_enc(k: ExprKindV) -> Seq<char> {
    match k {
        ExprKindV::Call(name) => "call "@ + spec_str_enc(name),
        ExprKindV::Column(name) => "column "@ + spec_str_enc(name),
        ExprKindV::BooleanLiteral(b) => if b {
            "boolean_literal true "@
        } else {
            "boolean_literal false "@
        },
        ExprKindV::StringLiteral(s) => "string_literal "@ + spec_str_enc(s),
        ExprKindV::NumericLiteral(t) => "numeric_literal "@ + spec_str_enc(t),
    }
}

/// The argument indices, each as a decimal token.
pub open spec fn spec_args_enc(args: Seq<usize>) -> Seq<char>
    decreases args.len(),
{
    if args.len() == 0 {
        Seq::empty()
    } else {
        spec_args_enc(args.subrange(0, args.len() - 1)) + spec_nat_text(
            args[args.len() - 1] as nat,
        ) + " "@
    }
}

/// The encoding of one node.
pub open spec fn spec_expr_enc(e: ExprV) -> Seq<char> {
    spec_kind_enc(e.kind) + spec_nat_text(e.args.len()) + " "@ + spec_args_enc(e.args)
        + spec_dt_enc(e.result_type)
}

pub open spec fn spec_exprs_enc(exprs: Seq<ExprV>) -> Seq<char>
    decreases exprs.len(),
{
    if exprs.len() == 0 {
        Seq::empty()
    } else {
        spec_exprs_enc(exprs.subrange(0, exprs.len() - 1)) + spec_expr_enc(
            exprs[exprs.len() - 1],
        )
    }
}

/// The document of a whole node list: the node count, then each node.
pub open spec fn spec_plan_enc(exprs: Seq<ExprV>) -> Seq<char> {
    spec_nat_text(exprs.len()) + " "@ + spec_exprs_enc(exprs)
}

fn digit_str(d: usize) -> (r: &'static str)
    requires
        d < 10,
    ensures
        r@ == seq![digit_char(d as nat)],
{
    let r: &'static str = match d {
        0 => "0",
        1 => "1",
        2 => "2",
        3 => "3",
        4 => "4",
        5 => "5",
        6 => "6",
        7 => "7",
        8 => "8",
        _ => "9",
    };
    proof {
        reveal_strlit("0");
        reveal_strlit("1");
        reveal_strlit("2");
        reveal_strlit("3");
        reveal_strlit("4");
        reveal_strlit("5");
        reveal_strlit("6");
        reveal_strlit("7");
        reveal_strlit("8");
        reveal_strlit("9");
        assert(r@ =~= seq![digit_char(d as nat)]);
    }
    r
}

/// Append the decimal text of `n`.
fn append_nat(out: &mut String, n: usize)
    ensures
        final(out)@ == old(out)@ + spec_nat_text(n as nat),
    decreases n,
{
    if n < 10 {
        out.append(digit_str(n));
        proof {
            assert(final(out)@ =~= old(out)@ + spec_nat_text(n as nat));
        }
    } else {
        append_nat(out, n / 10);
        out.append(digit_str(n % 10));
        proof {
            assert(final(out)@ =~= old(out)@ + spec_nat_text(n as nat));
        }
    }
}

/// Append a length-prefixed string token.
fn append_str_token(out: &mut String, s: &str)
    ensures
        final(out)@ == old(out)@ + spec_str_enc(s@),
{
    let n = s.unicode_len();
    append_nat(out, n);
    out.append(":");
    out.append(s);
    out.append(" ");
    proof {
        reveal_strlit(":");
        reveal_strlit(" ");
        assert(final(out)@ =~= old(out)@ + spec_str_enc(s@));
    }
}

/// Append the prefix encoding of a concrete type.
#[verifier::loop_isolation(false)]
fn append_dt(out: &mut String, d: &DataType)
    ensures
        final(out)@ == old(out)@ + spec_dt_enc(d@),
    decreases *d,
{
    match d {
        DataType::Null => out.append("null "),
        DataType::Boolean => out.append("bool "),
        DataType::Int8 => out.append("i8 "),
        DataType::Int32 => out.append("i32 "),
        DataType::Int64 => out.append("i64 "),
        DataType::UInt8 => out.append("u8 "),
        DataType::UInt16 => out.append("u16 "),
        DataType::UInt32 => out.append("u32 "),
        DataType::UInt64 => out.append("u64 "),
        DataType::Float32 => out.append("f32 "),
        DataType::Float64 => out.append("f64 "),
        DataType::Utf8 => out.append("string "),
        DataType::LargeUtf8 => out.append("large_string "),
        DataType::Date32 => out.append("date32 "),
        DataType::Timestamp(u) => {
            out.append("timestamp_");
            out.append(timeunit_suffix(*u));
            out.append(" ");
            proof {
                assert(final(out)@ =~= old(out)@ + spec_dt_enc(d@));
            }
        },
        DataType::Duration(u) => {
            out.append("duration_");
            out.append(timeunit_suffix(*u));
            out.append(" ");
            proof {
                assert(final(out)@ =~= old(out)@ + spec_dt_enc(d@));
            }
        },
        DataType::Interval(IntervalUnit::DayTime) => out.append("interval_days "),
        DataType::Interval(IntervalUnit::YearMonth) => out.append("interval_months "),
        DataType::Struct(fields) => {
            let ghost fv = fields_view(fields@);
            proof {
                lemma_fields_view(fields@);
            }
            out.append("struct ");
            append_nat(out, fields.len());
            out.append(" ");
            let ghost base = out@;
            let mut i: usize = 0;
            while i < fields.len()
                invariant
                    0 <= i <= fields@.len(),
                    out@ == base + spec_fields_enc(fv.subrange(0, i as int)),
                decreases fields@.len() - i,
            {
                proof {
                    assert(decreases_to!(fields@ => fields@[i as int]));
                }
                let f = &fields[i];
                append_str_token(out, f.name.as_str());
                append_dt(out, &f.data_type);
                proof {
                    assert(fv[i as int] == crate::types::field_view(fields@[i as int]));
                    assert(fv[i as int].name == f.name@);
                    assert(fv[i as int].data_type == f.data_type@);
                    assert(spec_field_enc(fv[i as int]) == spec_str_enc(f.name@)
                        + spec_dt_enc(f.data_type@));
                    assert(fv.subrange(0, i + 1).subrange(0, i as int) =~= fv.subrange(
                        0,
                        i as int,
                    ));
                    assert(fv.subrange(0, i + 1)[i as int] == fv[i as int]);
                    assert(out@ =~= base + spec_fields_enc(fv.subrange(0, i + 1)));
                }
                i = i + 1;
            }
            proof {
                assert(fv.subrange(0, fv.len() as int) =~= fv);
                assert(out@ =~= old(out)@ + spec_dt_enc(d@));
            }
        },
        DataType::List(item) => {
            out.append("list ");
            append_dt(out, item);
            proof {
                assert(final(out)@ =~= old(out)@ + spec_dt_enc(d@));
            }
        },
        DataType::Mapping(k, v) => {
            out.append("map ");
            append_dt(out, k);
            append_dt(out, v);
            proof {
                assert(final(out)@ =~= old(out)@ + spec_dt_enc(d@));
            }
        },
    }
}

/// Append the encoding of one node.
#[verifier::loop_isolation(false)]
#[verifier::rlimit(80)]
fn append_expr(out: &mut String, e: &Expr)
    ensures
        final(out)@ == old(out)@ + spec_expr_enc(e@),
{
    match &e.kind {
        ExprKind::Call(name) => {
            out.append("call ");
            append_str_token(out, name.as_str());
        },
        ExprKind::Column(name) => {
            out.append("column ");
            append_str_token(out, name.as_str());
        },
        ExprKind::BooleanLiteral(b) => {
            if *b {
                out.append("boolean_literal true ");
            } else {
                out.append("boolean_literal false ");
            }
        },
        ExprKind::StringLiteral(s) => {
            out.append("string_literal ");
            append_str_token(out, s.as_str());
        },
        ExprKind::NumericLiteral(d) => {
            out.append("numeric_literal ");
            append_str_token(out, d.text.as_str());
        },
    }
    proof {
        assert(out@ =~= old(out)@ + spec_kind_enc(e@.kind));
    }
    let ghost argsv = e@.args;
    append_nat(out, e.args.len());
    out.append(" ");
    let ghost base = out@;
    proof {
        assert(base =~= old(out)@ + spec_kind_enc(e@.kind) + spec_nat_text(e@.args.len())
            + " "@);
    }
    let mut i: usize = 0;
    while i < e.args.len()
        invariant
            0 <= i <= e.args@.len(),
            argsv.len() == e.args@.len(),
            forall|l: int| 0 <= l < e.args@.len() ==> (#[trigger] argsv[l]) == e.args@[l].0,
            out@ == base + spec_args_enc(argsv.subrange(0, i as int)),
        decreases e.args@.len() - i,
    {
        append_nat(out, e.args[i].0);
        out.append(" ");
        proof {
            assert(argsv.subrange(0, i + 1).subrange(0, i as int) =~= argsv.subrange(
                0,
                i as int,
            ));
            assert(argsv.subrange(0, i + 1)[i as int] == argsv[i as int]);
            assert(out@ =~= base + spec_args_enc(argsv.subrange(0, i + 1)));
        }
        i = i + 1;
    }
    proof {
        assert(argsv.subrange(0, argsv.len() as int) =~= argsv);
    }
    append_dt(out, &e.result_type);
    proof {
        assert(out@ =~= old(out)@ + spec_expr_enc(e@));
    }
}

/// Serialize a node list to its document text.
#[verifier::loop_isolation(false)]
pub fn encode_plan(plan: &Vec<Expr>) -> (r: String)
    ensures
        r@ == spec_plan_enc(exprs_view(plan@)),
{
    let ghost pv = exprs_view(plan@);
    proof {
        assert(pv.len() == plan@.len());
        assert(forall|k: int| 0 <= k < plan@.len() ==> pv[k] == crate::expr::expr_view(
            #[trigger] plan@[k],
        ));
    }
    let mut out = String::new();
    append_nat(&mut out, plan.len());
    out.append(" ");
    let ghost base = out@;
    proof {
        assert(base =~= spec_nat_text(pv.len()) + " "@);
    }
    let mut i: usize = 0;
    while i < plan.len()
        invariant
            0 <= i <= plan@.len(),
            out@ == base + spec_exprs_enc(pv.subrange(0, i as int)),
        decreases plan@.len() - i,
    {
        append_expr(&mut out, &plan[i]);
        proof {
            assert(pv.subrange(0, i + 1).subrange(0, i as int) =~= pv.subrange(0, i as int));
            assert(pv.subrange(0, i + 1)[i as int] == pv[i as int]);
            assert(out@ =~= base + spec_exprs_enc(pv.subrange(0, i + 1)));
        }
        i = i + 1;
    }
    proof {
        assert(pv.subrange(0, pv.len() as int) =~= pv);
        assert(out@ =~= spec_plan_enc(pv));
    }
    out
}

/// Greedily read decimal digits, capping at the largest index value.
pub open spec fn spec_read_nat(s: Seq<char>, pos: int, acc: int) -> Option<(int, int)>
    decreases s.len() - pos,
{
    if 0 <= pos < s.len() && crate::compile::is_digit(s[pos]) {
        let acc2 = acc * 10 + (s[pos] as int - '0' as int);
        if acc2 > usize::MAX as int {
            None
        } else {
            spec_read_nat(s, pos + 1, acc2)
        }
    } else {
        Some((acc, pos))
    }
}

pub open spec fn spec_expect(s: Seq<char>, pos: int, c: char) -> Option<int> {
    if 0 <= pos < s.len() && s[pos] == c {
        Some(pos + 1)
    } else {
        None
    }
}

/// A number token: at least one digit, then one space.
pub open spec fn spec_read_count(s: Seq<char>, pos: int) -> Option<(int, int)> {
    match spec_read_nat(s, pos, 0) {
        Some((v, p)) => if p > pos {
            match spec_expect(s, p, ' ') {
                Some(p2) => Some((v, p2)),
                None => None,
            }
        } else {
            None
        },
        None => None,
    }
}

pub open spec fn spec_match_token(s: Seq<char>, pos: int, tok: Seq<char>) -> Option<int> {
    if 0 <= pos && pos + tok.len() <= s.len() && s.subrange(pos, pos + tok.len()) == tok {
        Some(pos + tok.len())
    } else {
        None
    }
}

/// A length-prefixed string token, as written by `spec_str_enc`.
pub open spec fn spec_read_str(s: Seq<char>, pos: int) -> Option<(Seq<char>, int)> {
    match spec_read_nat(s, pos, 0) {
        Some((v, p1)) => if p1 > pos {
            match spec_expect(s, p1, ':') {
                Some(p2) => if p2 + v <= s.len() {
                    match spec_expect(s, p2 + v, ' ') {
                        Some(p3) => Some((s.subrange(p2, p2 + v), p3)),
                        None => None,
                    }
                } else {
                    None
                },
                None => None,
            }
        } else {
            None
        },
        None => None,
    }
}

/// A concrete type in prefix form. The fuel bounds nesting depth; the
/// decoders pass the text length, which no encoding's depth can reach.
pub open spec fn spec_read_dt(s: Seq<char>, pos: int, fuel: nat) -> Option<(DataTypeV, int)>
    decreases fuel, 0int,
{
    if fuel == 0 {
        None
    } else if spec_match_token(s, pos, "null "@) is Some {
        let p = spec_match_token(s, pos, "null "@)->Some_0;
        Some((DataTypeV::Null, p))
    } else if spec_match_token(s, pos, "bool "@) is Some {
        let p = spec_match_token(s, pos, "bool "@)->Some_0;
        Some((DataTypeV::Boolean, p))
    } else if spec_match_token(s, pos, "i8 "@) is Some {
        let p = spec_match_token(s, pos, "i8 "@)->Some_0;
        Some((DataTypeV::Int8, p))
    } else if spec_match_token(s, pos, "i32 "@) is Some {
        let p = spec_match_token(s, pos, "i32 "@)->Some_0;
        Some((DataTypeV::Int32, p))
    } else if spec_match_token(s, pos, "i64 "@) is Some {
        let p = spec_match_token(s, pos, "i64 "@)->Some_0;
        Some((DataTypeV::Int64, p))
    } else if spec_match_token(s, pos, "u8 "@) is Some {
        let p = spec_match_token(s, pos, "u8 "@)->Some_0;
        Some((DataTypeV::UInt8, p))
    } else if spec_match_token(s, pos, "u16 "@) is Some {
        let p = spec_match_token(s, pos, "u16 "@)->Some_0;
        Some((DataTypeV::UInt16, p))
    } else if spec_match_token(s, pos, "u32 "@) is Some {
        let p = spec_match_token(s, pos, "u32 "@)->Some_0;
        Some((DataTypeV::UInt32, p))
    } else if spec_match_token(s, pos, "u64 "@) is Some {
        let p = spec_match_token(s, pos, "u64 "@)->Some_0;
        Some((DataTypeV::UInt64, p))
    } else if spec_match_token(s, pos, "f32 "@) is Some {
        let p = spec_match_token(s, pos, "f32 "@)->Some_0;
        Some((DataTypeV::Float32, p))
    } else if spec_match_token(s, pos, "f64 "@) is Some {
        let p = spec_match_token(s, pos, "f64 "@)->Some_0;
        Some((DataTypeV::Float64, p))
    } else if spec_match_token(s, pos, "string "@) is Some {
        let p = spec_match_token(s, pos, "string "@)->Some_0;
        Some((DataTypeV::Utf8, p))
    } else if spec_match_token(s, pos, "large_string "@) is Some {
        let p = spec_match_token(s, pos, "large_string "@)->Some_0;
        Some((DataTypeV::LargeUtf8, p))
    } else if spec_match_token(s, pos, "date32 "@) is Some {
        let p = spec_match_token(s, pos, "date32 "@)->Some_0;
        Some((DataTypeV::Date32, p))
    } else if spec_match_token(s, pos, "timestamp_s "@) is Some {
        let p = spec_match_token(s, pos, "timestamp_s "@)->Some_0;
        Some((DataTypeV::Timestamp(TimeUnit::Second), p))
    } else if spec_match_token(s, pos, "timestamp_ms "@) is Some {
        let p = spec_match_token(s, pos, "timestamp_ms "@)->Some_0;
        Some((DataTypeV::Timestamp(TimeUnit::Millisecond), p))
    } else if spec_match_token(s, pos, "timestamp_us "@) is Some {
        let p = spec_match_token(s, pos, "timestamp_us "@)->Some_0;
        Some((DataTypeV::Timestamp(TimeUnit::Microsecond), p))
    } else if spec_match_token(s, pos, "timestamp_ns "@) is Some {
        let p = spec_match_token(s, pos, "timestamp_ns "@)->Some_0;
        Some((DataTypeV::Timestamp(TimeUnit::Nanosecond), p))
    } else if spec_match_token(s, pos, "duration_s "@) is Some {
        let p = spec_match_token(s, pos, "duration_s "@)->Some_0;
        Some((DataTypeV::Duration(TimeUnit::Second), p))
    } else if spec_match_token(s, pos, "duration_ms "@) is Some {
        let p = spec_match_token(s, pos, "duration_ms "@)->Some_0;
        Some((DataTypeV::Duration(TimeUnit::Millisecond), p))
    } else if spec_match_token(s, pos, "duration_us "@) is Some {
        let p = spec_match_token(s, pos, "duration_us "@)->Some_0;
        Some((DataTypeV::Duration(TimeUnit::Microsecond), p))
    } else if spec_match_token(s, pos, "duration_ns "@) is Some {
        let p = spec_match_token(s, pos, "duration_ns "@)->Some_0;
        Some((DataTypeV::Duration(TimeUnit::Nanosecond), p))
    } else if spec_match_token(s, pos, "interval_days "@) is Some {
        let p = spec_match_token(s, pos, "interval_days "@)->Some_0;
        Some((DataTypeV::Interval(IntervalUnit::DayTime), p))
    } else if spec_match_token(s, pos, "interval_months "@) is Some {
        let p = spec_match_token(s, pos, "interval_months "@)->Some_0;
        Some((DataTypeV::Interval(IntervalUnit::YearMonth), p))
    } else if spec_match_token(s, pos, "struct "@) is Some {
        let p = spec_match_token(s, pos, "struct "@)->Some_0;
        match spec_read_count(s, p) {
            Some((n, p2)) => match spec_read_fields(s, p2, n, (fuel - 1) as nat) {
                Some((fields, p3)) => Some((DataTypeV::Struct(fields), p3)),
                None => None,
            },
            None => None,
        }
    } else if spec_match_token(s, pos, "list "@) is Some {
        let p = spec_match_token(s, pos, "list "@)->Some_0;
        match spec_read_dt(s, p, (fuel - 1) as nat) {
            Some((item, p2)) => Some((DataTypeV::List(Box::new(item)), p2)),
            None => None,
        }
    } else if spec_match_token(s, pos, "map "@) is Some {
        let p = spec_match_token(s, pos, "map "@)->Some_0;
        match spec_read_dt(s, p, (fuel - 1) as nat) {
            Some((k, p2)) => match spec_read_dt(s, p2, (fuel - 1) as nat) {
                Some((v, p3)) => Some((DataTypeV::Mapping(Box::new(k), Box::new(v)), p3)),
                None => None,
            },
            None => None,
        }
    } else {
        None
    }
}

pub open spec fn spec_read_fields(s: Seq<char>, pos: int, n: int, fuel: nat) -> Option<
    (Seq<FieldV>, int),
>
    decreases fuel, n,
{
    if n <= 0 {
        Some((Seq::empty(), pos))
    } else if fuel == 0 {
        None
    } else {
        match spec_read_str(s, pos) {
            Some((name, p1)) => match spec_read_dt(s, p1, (fuel - 1) as nat) {
                Some((dt, p2)) => match spec_read_fields(s, p2, n - 1, fuel) {
                    Some((rest, p3)) => Some(
                        (seq![FieldV { name, data_type: dt }] + rest, p3),
                    ),
                    None => None,
                },
                None => None,
            },
            None => None,
        }
    }
}

pub open spec fn spec_read_args(s: Seq<char>, pos: int, n: int) -> Option<(Seq<usize>, int)>
    decreases n,
{
    if n <= 0 {
        Some((Seq::empty(), pos))
    } else {
        match spec_read_count(s, pos) {
            Some((v, p1)) => match spec_read_args(s, p1, n - 1) {
                Some((rest, p2)) => Some((seq![v as usize] + rest, p2)),
                None => None,
            },
            None => None,
        }
    }
}

/// One node: kind tag and payload, argument count and indices, result
/// type.
pub open spec fn spec_read_expr(s: Seq<char>, pos: int) -> Option<(ExprV, int)> {
    let kind_read: Option<(ExprKindV, int)> = if spec_match_token(s, pos, "call "@) is Some {
        let p = spec_match_token(s, pos, "call "@)->Some_0;
        match spec_read_str(s, p) {
            Some((name, p2)) => Some((ExprKindV::Call(name), p2)),
            None => None,
        }
    } else if spec_match_token(s, pos, "column "@) is Some {
        let p = spec_match_token(s, pos, "column "@)->Some_0;
        match spec_read_str(s, p) {
            Some((name, p2)) => Some((ExprKindV::Column(name), p2)),
            None => None,
        }
    } else if spec_match_token(s, pos, "boolean_literal true "@) is Some {
        let p = spec_match_token(s, pos, "boolean_literal true "@)->Some_0;
        Some((ExprKindV::BooleanLiteral(true), p))
    } else if spec_match_token(s, pos, "boolean_literal false "@) is Some {
        let p = spec_match_token(s, pos, "boolean_literal false "@)->Some_0;
        Some((ExprKindV::BooleanLiteral(false), p))
    } else if spec_match_token(s, pos, "string_literal "@) is Some {
        let p = spec_match_token(s, pos, "string_literal "@)->Some_0;
        match spec_read_str(s, p) {
            Some((t, p2)) => Some((ExprKindV::StringLiteral(t), p2)),
            None => None,
        }
    } else if spec_match_token(s, pos, "numeric_literal "@) is Some {
        let p = spec_match_token(s, pos, "numeric_literal "@)->Some_0;
        match spec_read_str(s, p) {
            Some((t, p2)) => Some((ExprKindV::NumericLiteral(t), p2)),
            None => None,
        }
    } else {
        None
    };
    match kind_read {
        Some((kind, p3)) => match spec_read_count(s, p3) {
            Some((n, p4)) => match spec_read_args(s, p4, n) {
                Some((args, p5)) => match spec_read_dt(s, p5, s.len() as nat) {
                    Some((dt, p6)) => Some((ExprV { kind, args, result_type: dt }, p6)),
                    None => None,
                },
                None => None,
            },
            None => None,
        },
        None => None,
    }
}

pub open spec fn spec_read_exprs(s: Seq<char>, pos: int, n: int) -> Option<(Seq<ExprV>, int)>
    decreases n,
{
    if n <= 0 {
        Some((Seq::empty(), pos))
    } else {
        match spec_read_expr(s, pos) {
            Some((e, p1)) => match spec_read_exprs(s, p1, n - 1) {
                Some((rest, p2)) => Some((seq![e] + rest, p2)),
                None => None,
            },
            None => None,
        }
    }
}

/// What a whole document decodes to: the node count, that many nodes, and
/// nothing after them.
pub open spec fn spec_decode_plan(s: Seq<char>) -> Option<Seq<ExprV>> {
    match spec_read_count(s, 0) {
        Some((n, p)) => match spec_read_exprs(s, p, n) {
            Some((es, p2)) => if p2 == s.len() {
                Some(es)
            } else {
                None
            },
            None => None,
        },
        None => None,
    }
}

/// Read decimal digits, mirroring `spec_read_nat`.
fn read_nat(s: &str, pos: usize, acc: u64) -> (r: Option<(usize, usize)>)
    requires
        acc <= usize::MAX,
    ensures
        match r {
            Some((v, p)) => spec_read_nat(s@, pos as int, acc as int) == Some(
                (v as int, p as int),
            ),
            None => spec_read_nat(s@, pos as int, acc as int) is None,
        },
    decreases s@.len() - pos,
{
    let n = s.unicode_len();
    if pos < n {
        let c = s.get_char(pos);
        if '0' <= c && c <= '9' {
            let d = (c as u32 - '0' as u32) as u64;
            if acc > (u64::MAX - d) / 10 {
                proof {
                    assert(acc as int * 10 + d > usize::MAX as int) by {
                        assert(acc * 10 + d > u64::MAX || acc as int * 10 + d
                            > usize::MAX as int) by (nonlinear_arith)
                            requires
                                acc > (u64::MAX - d) / 10,
                                d <= 9,
                        ;
                    }
                }
                return None;
            }
            let acc2 = acc * 10 + d;
            if acc2 > usize::MAX as u64 {
                return None;
            }
            return read_nat(s, pos + 1, acc2);
        }
        proof {
            assert(!crate::compile::is_digit(s@[pos as int]));
        }
        return Some((acc as usize, pos));
    }
    Some((acc as usize, pos))
}

fn expect_char(s: &str, pos: usize, c: char) -> (r: Option<usize>)
    ensures
        match r {
            Some(p) => spec_expect(s@, pos as int, c) == Some(p as int),
            None => spec_expect(s@, pos as int, c) is None,
        },
{
    let n = s.unicode_len();
    if pos < n && s.get_char(pos) == c {
        Some(pos + 1)
    } else {
        None
    }
}

fn read_count(s: &str, pos: usize) -> (r: Option<(usize, usize)>)
    ensures
        match r {
            Some((v, p)) => spec_read_count(s@, pos as int) == Some((v as int, p as int)),
            None => spec_read_count(s@, pos as int) is None,
        },
{
    let (v, p) = match read_nat(s, pos, 0) {
        Some(vp) => vp,
        None => {
            return None;
        },
    };
    if !(p > pos) {
        return None;
    }
    match expect_char(s, p, ' ') {
        Some(p2) => Some((v, p2)),
        None => None,
    }
}

fn match_token(s: &str, pos: usize, tok: &str) -> (r: Option<usize>)
    ensures
        match r {
            Some(p) => spec_match_token(s@, pos as int, tok@) == Some(p as int),
            None => spec_match_token(s@, pos as int, tok@) is None,
        },
{
    let n = s.unicode_len();
    let tl = tok.unicode_len();
    if pos <= n && tl <= n - pos {
        if crate::parse::str_eq(s.substring_char(pos, pos + tl), tok) {
            Some(pos + tl)
        } else {
            None
        }
    } else {
        None
    }
}

fn read_str(s: &str, pos: usize) -> (r: Option<(String, usize)>)
    ensures
        match r {
            Some((t, p)) => spec_read_str(s@, pos as int) == Some((t@, p as int)),
            None => spec_read_str(s@, pos as int) is None,
        },
{
    let (v, p1) = match read_nat(s, pos, 0) {
        Some(vp) => vp,
        None => {
            return None;
        },
    };
    if !(p1 > pos) {
        return None;
    }
    let p2 = match expect_char(s, p1, ':') {
        Some(p2) => p2,
        None => {
            return None;
        },
    };
    let n = s.unicode_len();
    if !(p2 <= n && v <= n - p2) {
        return None;
    }
    let content = s.substring_char(p2, p2 + v).to_owned();
    match expect_char(s, p2 + v, ' ') {
        Some(p3) => Some((content, p3)),
        None => None,
    }
}

/// Read a concrete type in prefix form, mirroring `spec_read_dt`.
#[verifier::rlimit(80)]
fn read_dt(s: &str, pos: usize, fuel: usize) -> (r: Option<(DataType, usize)>)
    ensures
        match r {
            Some((d, p)) => spec_read_dt(s@, pos as int, fuel as nat) == Some((d@, p as int)),
            None => spec_read_dt(s@, pos as int, fuel as nat) is None,
        },
    decreases fuel, 0int,
{
    if fuel == 0 {
        return None;
    }
    if let Some(p) = match_token(s, pos, "null ") {
        return Some((DataType::Null, p));
    }
    if let Some(p) = match_token(s, pos, "bool ") {
        return Some((DataType::Boolean, p));
    }
    if let Some(p) = match_token(s, pos, "i8 ") {
        return Some((DataType::Int8, p));
    }
    if let Some(p) = match_token(s, pos, "i32 ") {
        return Some((DataType::Int32, p));
    }
    if let Some(p) = match_token(s, pos, "i64 ") {
        return Some((DataType::Int64, p));
    }
    if let Some(p) = match_token(s, pos, "u8 ") {
        return Some((DataType::UInt8, p));
    }
    if let Some(p) = match_token(s, pos, "u16 ") {
        return Some((DataType::UInt16, p));
    }
    if let Some(p) = match_token(s, pos, "u32 ") {
        return Some((DataType::UInt32, p));
    }
    if let Some(p) = match_token(s, pos, "u64 ") {
        return Some((DataType::UInt64, p));
    }
    if let Some(p) = match_token(s, pos, "f32 ") {
        return Some((DataType::Float32, p));
    }
    if let Some(p) = match_token(s, pos, "f64 ") {
        return Some((DataType::Float64, p));
    }
    if let Some(p) = match_token(s, pos, "string ") {
        return Some((DataType::Utf8, p));
    }
    if let Some(p) = match_token(s, pos, "large_string ") {
        return Some((DataType::LargeUtf8, p));
    }
    if let Some(p) = match_token(s, pos, "date32 ") {
        return Some((DataType::Date32, p));
    }
    if let Some(p) = match_token(s, pos, "timestamp_s ") {
        return Some((DataType::Timestamp(TimeUnit::Second), p));
    }
    if let Some(p) = match_token(s, pos, "timestamp_ms ") {
        return Some((DataType::Timestamp(TimeUnit::Millisecond), p));
    }
    if let Some(p) = match_token(s, pos, "timestamp_us ") {
        return Some((DataType::Timestamp(TimeUnit::Microsecond), p));
    }
    if let Some(p) = match_token(s, pos, "timestamp_ns ") {
        return Some((DataType::Timestamp(TimeUnit::Nanosecond), p));
    }
    if let Some(p) = match_token(s, pos, "duration_s ") {
        return Some((DataType::Duration(TimeUnit::Second), p));
    }
    if let Some(p) = match_token(s, pos, "duration_ms ") {
        return Some((DataType::Duration(TimeUnit::Millisecond), p));
    }
    if let Some(p) = match_token(s, pos, "duration_us ") {
        return Some((DataType::Duration(TimeUnit::Microsecond), p));
    }
    if let Some(p) = match_token(s, pos, "duration_ns ") {
        return Some((DataType::Duration(TimeUnit::Nanosecond), p));
    }
    if let Some(p) = match_token(s, pos, "interval_days ") {
        return Some((DataType::Interval(IntervalUnit::DayTime), p));
    }
    if let Some(p) = match_token(s, pos, "interval_months ") {
        return Some((DataType::Interval(IntervalUnit::YearMonth), p));
    }
    if let Some(p) = match_token(s, pos, "struct ") {
        let (n, p2) = match read_count(s, p) {
            Some(np) => np,
            None => {
                return None;
            },
        };
        let (fields, p3) = match read_fields(s, p2, n, fuel - 1) {
            Some(fp) => fp,
            None => {
                return None;
            },
        };
        return Some((DataType::Struct(fields), p3));
    }
    if let Some(p) = match_token(s, pos, "list ") {
        let (item, p2) = match read_dt(s, p, fuel - 1) {
            Some(ip) => ip,
            None => {
                return None;
            },
        };
        return Some((DataType::List(Box::new(item)), p2));
    }
    if let Some(p) = match_token(s, pos, "map ") {
        let (k, p2) = match read_dt(s, p, fuel - 1) {
            Some(kp) => kp,
            None => {
                return None;
            },
        };
        let (v, p3) = match read_dt(s, p2, fuel - 1) {
            Some(vp) => vp,
            None => {
                return None;
            },
        };
        return Some((DataType::Mapping(Box::new(k), Box::new(v)), p3));
    }
    None
}

fn read_fields(s: &str, pos: usize, n: usize, fuel: usize) -> (r: Option<(Vec<Field>, usize)>)
    ensures
        match r {
            Some((fields, p)) => spec_read_fields(s@, pos as int, n as int, fuel as nat)
                == Some((fields_view(fields@), p as int)),
            None => spec_read_fields(s@, pos as int, n as int, fuel as nat) is None,
        },
    decreases fuel, n,
{
    if n == 0 {
        let out: Vec<Field> = Vec::new();
        proof {
            assert(fields_view(out@) =~= Seq::<FieldV>::empty());
        }
        return Some((out, pos));
    }
    if fuel == 0 {
        return None;
    }
    let (name, p1) = match read_str(s, pos) {
        Some(np) => np,
        None => {
            return None;
        },
    };
    let (dt, p2) = match read_dt(s, p1, fuel - 1) {
        Some(dp) => dp,
        None => {
            return None;
        },
    };
    let (rest, p3) = match read_fields(s, p2, n - 1, fuel) {
        Some(rp) => rp,
        None => {
            return None;
        },
    };
    let ghost restv = fields_view(rest@);
    let mut out: Vec<Field> = Vec::new();
    let first = Field { name, data_type: dt };
    let ghost firstv = crate::types::field_view(first);
    out.push(first);
    let mut rest_mut = rest;
    out.append(&mut rest_mut);
    proof {
        crate::types::lemma_fields_view(out@);
        crate::types::lemma_fields_view(rest@);
        assert(fields_view(out@) =~= seq![firstv] + restv);
    }
    Some((out, p3))
}

fn read_args(s: &str, pos: usize, n: usize) -> (r: Option<(Vec<ExprId>, usize)>)
    ensures
        match r {
            Some((args, p)) => spec_read_args(s@, pos as int, n as int) == Some(
                (args@.map_values(|id: ExprId| id.0), p as int),
            ),
            None => spec_read_args(s@, pos as int, n as int) is None,
        },
    decreases n,
{
    if n == 0 {
        let out: Vec<ExprId> = Vec::new();
        proof {
            assert(out@.map_values(|id: ExprId| id.0) =~= Seq::<usize>::empty());
        }
        return Some((out, pos));
    }
    let (v, p1) = match read_count(s, pos) {
        Some(vp) => vp,
        None => {
            return None;
        },
    };
    let (rest, p2) = match read_args(s, p1, n - 1) {
        Some(rp) => rp,
        None => {
            return None;
        },
    };
    let ghost restv = rest@.map_values(|id: ExprId| id.0);
    let mut out: Vec<ExprId> = Vec::new();
    out.push(ExprId(v));
    let mut rest_mut = rest;
    out.append(&mut rest_mut);
    proof {
        assert(out@.map_values(|id: ExprId| id.0) =~= seq![v] + restv);
    }
    Some((out, p2))
}

/// Read one node, mirroring `spec_read_expr`.
#[verifier::rlimit(80)]
fn read_expr(s: &str, pos: usize) -> (r: Option<(Expr, usize)>)
    ensures
        match r {
            Some((e, p)) => spec_read_expr(s@, pos as int) == Some((e@, p as int)),
            None => spec_read_expr(s@, pos as int) is None,
        },
{
    let kind: ExprKind;
    let p3: usize;
    if let Some(p) = match_token(s, pos, "call ") {
        let (name, p2) = match read_str(s, p) {
            Some(np) => np,
            None => {
                return None;
            },
        };
        kind = ExprKind::Call(name);
        p3 = p2;
    } else if let Some(p) = match_token(s, pos, "column ") {
        let (name, p2) = match read_str(s, p) {
            Some(np) => np,
            None => {
                return None;
            },
        };
        kind = ExprKind::Column(name);
        p3 = p2;
    } else if let Some(p) = match_token(s, pos, "boolean_literal true ") {
        kind = ExprKind::BooleanLiteral(true);
        p3 = p;
    } else if let Some(p) = match_token(s, pos, "boolean_literal false ") {
        kind = ExprKind::BooleanLiteral(false);
        p3 = p;
    } else if let Some(p) = match_token(s, pos, "string_literal ") {
        let (t, p2) = match read_str(s, p) {
            Some(tp) => tp,
            None => {
                return None;
            },
        };
        kind = ExprKind::StringLiteral(t);
        p3 = p2;
    } else if let Some(p) = match_token(s, pos, "numeric_literal ") {
        let (t, p2) = match read_str(s, p) {
            Some(tp) => tp,
            None => {
                return None;
            },
        };
        kind = ExprKind::NumericLiteral(Decimal { text: t });
        p3 = p2;
    } else {
        return None;
    }
    let (n, p4) = match read_count(s, p3) {
        Some(np) => np,
        None => {
            return None;
        },
    };
    let (args, p5) = match read_args(s, p4, n) {
        Some(ap) => ap,
        None => {
            return None;
        },
    };
    let fuel = s.unicode_len();
    let (dt, p6) = match read_dt(s, p5, fuel) {
        Some(dp) => dp,
        None => {
            return None;
        },
    };
    let e = Expr { kind, args, result_type: dt };
    Some((e, p6))
}

fn read_exprs(s: &str, pos: usize, n: usize) -> (r: Option<(Vec<Expr>, usize)>)
    ensures
        match r {
            Some((es, p)) => spec_read_exprs(s@, pos as int, n as int) == Some(
                (exprs_view(es@), p as int),
            ),
            None => spec_read_exprs(s@, pos as int, n as int) is None,
        },
    decreases n,
{
    if n == 0 {
        let out: Vec<Expr> = Vec::new();
        proof {
            assert(exprs_view(out@) =~= Seq::<ExprV>::empty());
        }
        return Some((out, pos));
    }
    let (e, p1) = match read_expr(s, pos) {
        Some(ep) => ep,
        None => {
            return None;
        },
    };
    let (rest, p2) = match read_exprs(s, p1, n - 1) {
        Some(rp) => rp,
        None => {
            return None;
        },
    };
    let ghost ev = e@;
    let ghost restv = exprs_view(rest@);
    let mut out: Vec<Expr> = Vec::new();
    out.push(e);
    let mut rest_mut = rest;
    out.append(&mut rest_mut);
    proof {
        assert(exprs_view(out@) =~= seq![ev] + restv);
    }
    Some((out, p2))
}

/// Deserialize a document back to its node list; exactly the node lists
/// that [`spec_decode_plan`] accepts come back, and nothing else.
pub fn decode_plan(s: &str) -> (r: Option<Vec<Expr>>)
    ensures
        match r {
            Some(plan) => spec_decode_plan(s@) == Some(exprs_view(plan@)),
            None => spec_decode_plan(s@) is None,
        },
{
    let (n, p) = match read_count(s, 0) {
        Some(np) => np,
        None => {
            return None;
        },
    };
    let (es, p2) = match read_exprs(s, p, n) {
        Some(ep) => ep,
        None => {
            return None;
        },
    };
    if p2 == s.unicode_len() {
        Some(es)
    } else {
        None
    }
}

} // verus!
