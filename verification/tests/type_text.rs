use sparrow_core::classes::least_upper_bound;
use sparrow_core::classes::instantiate;
use sparrow_core::format::FormatDataType;
use sparrow_core::format::FormatStruct;
use sparrow_core::types::Collection;
use sparrow_core::types::DataType;
use sparrow_core::types::FenlType;
use sparrow_core::types::Field;
use sparrow_core::types::IntervalUnit;
use sparrow_core::types::TimeUnit;
use sparrow_core::types::TypeClass;
use sparrow_core::types::TypeVariable;
use sparrow_core::types::WindowBehavior;

fn roundtrip_text(s: &str) {
    let t = FenlType::from_str(s).expect("should parse");
    let back = t.display_string().expect("should format");
    assert_eq!(back, s);
}

#[test]
fn keyword_texts_roundtrip() {
    for s in [
        "bool",
        "i32",
        "i64",
        "u32",
        "u64",
        "f32",
        "f64",
        "string",
        "large_string",
        "interval_days",
        "interval_months",
        "timestamp_s",
        "timestamp_ms",
        "timestamp_us",
        "timestamp_ns",
        "duration_s",
        "duration_ms",
        "duration_us",
        "duration_ns",
        "window",
        "json",
    ] {
        roundtrip_text(s);
    }
}

#[test]
fn collection_texts_roundtrip() {
    roundtrip_text("list<T>");
    roundtrip_text("map<K, V>");
    roundtrip_text("map<string, i32>");
    roundtrip_text("my_custom_type");
}

#[test]
fn types_roundtrip_through_text() {
    let samples = vec![
        FenlType::Concrete(DataType::Int32),
        FenlType::Concrete(DataType::Utf8),
        FenlType::Concrete(DataType::Timestamp(TimeUnit::Microsecond)),
        FenlType::Concrete(DataType::Interval(IntervalUnit::YearMonth)),
        FenlType::Concrete(DataType::Mapping(
            Box::new(DataType::Utf8),
            Box::new(DataType::Int64),
        )),
        FenlType::TypeRef(TypeVariable(String::from("T"))),
        FenlType::Collection(Collection::List, vec![TypeVariable(String::from("T"))]),
        FenlType::Collection(
            Collection::Mapping,
            vec![TypeVariable(String::from("K")), TypeVariable(String::from("V"))],
        ),
        FenlType::Window,
        FenlType::Json,
    ];
    for t in samples {
        let text = t.display_string().expect("should format");
        let back = FenlType::from_str(text.as_str()).expect("should parse");
        assert_eq!(back, t);
    }
}

#[test]
fn unknown_names_become_type_variables() {
    let t = FenlType::from_str("velocity").unwrap();
    assert_eq!(t, FenlType::TypeRef(TypeVariable(String::from("velocity"))));
}

#[test]
fn malformed_collections_are_rejected() {
    assert_eq!(FenlType::from_str("list<a, b>"), Err(FenlType::Error));
    assert_eq!(FenlType::from_str("map<k>"), Err(FenlType::Error));
    assert_eq!(FenlType::from_str("map<a, b, c>"), Err(FenlType::Error));
    // mixing a concrete parameter with a variable parameter is rejected
    assert_eq!(FenlType::from_str("map<string, V>"), Err(FenlType::Error));
    assert_eq!(FenlType::from_str("list<window>"), Err(FenlType::Error));
}

#[test]
fn list_of_concrete_parses_but_has_no_display() {
    let t = FenlType::from_str("list<i32>").unwrap();
    assert_eq!(t, FenlType::Concrete(DataType::List(Box::new(DataType::Int32))));
    // a concrete list has no spelling in the annotation grammar
    assert_eq!(t.display_string(), None);
    assert_eq!(FenlType::Concrete(DataType::Int8).display_string(), None);
}

#[test]
fn struct_formatting_renders_fields_in_order() {
    let fields = vec![
        Field { name: String::from("foo"), data_type: DataType::Int32 },
        Field { name: String::from("bar"), data_type: DataType::Utf8 },
    ];
    let t = DataType::Struct(fields);
    let text = FormatDataType(&t).to_text().unwrap();
    assert_eq!(text, "{foo: i32, bar: string}");
    match &t {
        DataType::Struct(fs) => {
            assert_eq!(FormatStruct(fs).to_text().unwrap(), "{foo: i32, bar: string}");
        }
        _ => unreachable!(),
    }
}

#[test]
fn fenl_type_accessors() {
    let t = FenlType::Concrete(DataType::Int64);
    assert!(!t.is_error());
    assert!(FenlType::Error.is_error());
    assert_eq!(t.arrow_type(), Some(&DataType::Int64));
    assert_eq!(FenlType::Window.arrow_type(), None);
    let s = FenlType::Concrete(DataType::Struct(vec![Field {
        name: String::from("x"),
        data_type: DataType::Int32,
    }]));
    assert_eq!(s.record_fields().unwrap().len(), 1);
    assert_eq!(t.record_fields(), None);
    assert_eq!(s.take_arrow_type().is_some(), true);
}

#[test]
fn type_class_text() {
    assert_eq!(TypeClass::from_str("ordered"), Ok(TypeClass::Ordered));
    assert_eq!(TypeClass::from_str("number"), Ok(TypeClass::Number));
    assert_eq!(TypeClass::from_str("nonsense"), Err(TypeClass::Error));
    assert_eq!(TypeClass::Ordered.display_string(), "ordered");
    assert_eq!(TypeClass::TimeDelta.display_string(), "timedelta");
}

#[test]
fn window_behavior_labels() {
    assert_eq!(WindowBehavior::Since.label(), "since");
    assert_eq!(WindowBehavior::Sliding.label(), "sliding");
}

#[test]
fn ordered_class_accepts_strings_numbers_and_timestamps() {
    let c = TypeClass::Ordered;
    assert!(c.accepts(&DataType::Utf8));
    assert!(c.accepts(&DataType::Int32));
    assert!(c.accepts(&DataType::Timestamp(TimeUnit::Second)));
    assert!(!c.accepts(&DataType::Struct(vec![])));
}

#[test]
fn instantiating_ordered_variable() {
    let mut diags: Vec<String> = Vec::new();
    for t in [
        FenlType::Concrete(DataType::Utf8),
        FenlType::Concrete(DataType::Int32),
        FenlType::Concrete(DataType::Timestamp(TimeUnit::Millisecond)),
    ] {
        let args = vec![t];
        let bound = instantiate(TypeClass::Ordered, &args, &mut diags);
        assert!(!bound.is_error());
    }
    let args = vec![FenlType::Concrete(DataType::Struct(vec![]))];
    let bound = instantiate(TypeClass::Ordered, &args, &mut diags);
    assert!(bound.is_error());
}

#[test]
fn error_type_is_absorbing_and_silent() {
    let mut diags: Vec<String> = Vec::new();
    let r = least_upper_bound(
        &FenlType::Error,
        &FenlType::Concrete(DataType::Int32),
        &mut diags,
    );
    assert!(r.is_error());
    assert_eq!(diags.len(), 0);
    let r = least_upper_bound(&FenlType::Concrete(DataType::Utf8), &FenlType::Error, &mut diags);
    assert!(r.is_error());
    assert_eq!(diags.len(), 0);
    // two live, incompatible types do report once
    let r = least_upper_bound(
        &FenlType::Concrete(DataType::Utf8),
        &FenlType::Window,
        &mut diags,
    );
    assert!(r.is_error());
    assert_eq!(diags.len(), 1);
    // an error operand after that adds nothing
    let r = least_upper_bound(&r, &FenlType::Concrete(DataType::Utf8), &mut diags);
    assert!(r.is_error());
    assert_eq!(diags.len(), 1);
}

#[test]
fn numeric_least_upper_bounds() {
    let mut diags: Vec<String> = Vec::new();
    let r = least_upper_bound(
        &FenlType::Concrete(DataType::Int32),
        &FenlType::Concrete(DataType::Int64),
        &mut diags,
    );
    assert_eq!(r, FenlType::Concrete(DataType::Int64));
    let r = least_upper_bound(
        &FenlType::Concrete(DataType::Int32),
        &FenlType::Concrete(DataType::Float32),
        &mut diags,
    );
    assert_eq!(r, FenlType::Concrete(DataType::Float64));
    let r = least_upper_bound(
        &FenlType::Concrete(DataType::UInt8),
        &FenlType::Concrete(DataType::UInt32),
        &mut diags,
    );
    assert_eq!(r, FenlType::Concrete(DataType::UInt32));
    assert_eq!(diags.len(), 0);
}

#[test]
fn empty_structs_format_to_empty_braces() {
    assert_eq!(FormatDataType(&DataType::Struct(vec![])).to_text().unwrap(), "{}");
}

#[test]
fn collection_parameters_are_trimmed() {
    let t = FenlType::from_str("map<\tk , v\n>").unwrap();
    assert_eq!(
        t,
        FenlType::Collection(
            Collection::Mapping,
            vec![TypeVariable(String::from("k")), TypeVariable(String::from("v"))],
        )
    );
    assert_eq!(t.display_string().unwrap(), "map<k, v>");
}

#[test]
fn empty_text_is_a_type_variable() {
    assert_eq!(
        FenlType::from_str(""),
        Ok(FenlType::TypeRef(TypeVariable(String::new())))
    );
}
