use nu_signature_core::error::UnsupportedKind;
use nu_signature_core::model::{
    CalendarFields, DateParts, PathMember, RangeEnd, RangeValue, Shape, Type, Value,
};
use nu_signature_core::shape::{shape_to_token, type_to_token};
use nu_signature_core::signature::option_to_token;
use nu_signature_core::value::value_to_token;

const S: &str = "nu_protocol::Span::unknown()";

fn lexes(src: &str) -> bool {
    src.parse::<proc_macro2::TokenStream>().is_ok()
}

#[test]
fn scalar_shape_lowers_to_its_variant() {
    assert_eq!(shape_to_token(&Shape::Int), "nu_protocol::SyntaxShape::Int");
    assert_eq!(shape_to_token(&Shape::ExternalArgument), "nu_protocol::SyntaxShape::ExternalArgument");
}

#[test]
fn list_shape_recurses_on_its_element() {
    let shape = Shape::List(Box::new(Shape::List(Box::new(Shape::String))));
    assert_eq!(
        shape_to_token(&shape),
        "nu_protocol::SyntaxShape::List(Box::new(nu_protocol::SyntaxShape::List(Box::new(nu_protocol::SyntaxShape::String))))"
    );
}

#[test]
fn record_and_table_shapes_keep_their_tags() {
    let fields = || vec![(String::from("a"), Shape::Int), (String::from("b"), Shape::Float)];
    let record = shape_to_token(&Shape::Record(fields()));
    let table = shape_to_token(&Shape::Table(fields()));
    assert_eq!(
        record,
        "nu_protocol::SyntaxShape::Record(vec![(String::from(\"a\"), nu_protocol::SyntaxShape::Int), (String::from(\"b\"), nu_protocol::SyntaxShape::Float)])"
    );
    assert_eq!(
        table,
        "nu_protocol::SyntaxShape::Table(vec![(String::from(\"a\"), nu_protocol::SyntaxShape::Int), (String::from(\"b\"), nu_protocol::SyntaxShape::Float)])"
    );
    assert!(lexes(&record) && lexes(&table));
}

#[test]
fn closure_keyword_and_one_of_shapes_lower() {
    assert_eq!(shape_to_token(&Shape::Closure(None)), "nu_protocol::SyntaxShape::Closure(None)");
    assert_eq!(
        shape_to_token(&Shape::Closure(Some(vec![Shape::Int, Shape::String]))),
        "nu_protocol::SyntaxShape::Closure(Some(vec![nu_protocol::SyntaxShape::Int, nu_protocol::SyntaxShape::String]))"
    );
    assert_eq!(
        shape_to_token(&Shape::Keyword(b"as".to_vec(), Box::new(Shape::String))),
        "nu_protocol::SyntaxShape::Keyword(vec![97u8, 115u8], Box::new(nu_protocol::SyntaxShape::String))"
    );
    assert_eq!(
        shape_to_token(&Shape::OneOf(vec![])),
        "nu_protocol::SyntaxShape::OneOf(vec![])"
    );
    assert_eq!(
        shape_to_token(&Shape::CompleterWrapper(Box::new(Shape::Int))),
        "nu_protocol::SyntaxShape::CompleterWrapper(Box::new(nu_protocol::SyntaxShape::Int), Default::default())"
    );
}

#[test]
fn record_type_lowers_fields_in_order() {
    let ty = Type::Record(vec![
        (String::from("a"), Type::Int),
        (String::from("b"), Type::List(Box::new(Type::String))),
    ]);
    let src = type_to_token(&ty);
    assert_eq!(
        src,
        "nu_protocol::Type::Record(vec![(String::from(\"a\"), nu_protocol::Type::Int), (String::from(\"b\"), nu_protocol::Type::List(Box::new(nu_protocol::Type::String)))].into_boxed_slice())"
    );
    assert!(lexes(&src));
}

#[test]
fn table_type_is_not_a_record() {
    assert_eq!(
        type_to_token(&Type::Table(vec![])),
        "nu_protocol::Type::Table(vec![].into_boxed_slice())"
    );
    assert_eq!(
        type_to_token(&Type::Custom(String::from("thing"))),
        "nu_protocol::Type::Custom(String::from(\"thing\").into_boxed_str())"
    );
}

#[test]
fn lowering_twice_gives_the_same_text() {
    let ty = Type::Table(vec![(String::from("x"), Type::Record(vec![]))]);
    assert_eq!(type_to_token(&ty), type_to_token(&ty));
    let v = Value::List(vec![Value::Int(3), Value::String(String::from("s"))]);
    assert_eq!(value_to_token(&v), value_to_token(&v));
}

#[test]
fn integer_values_carry_a_suffix() {
    assert_eq!(value_to_token(&Value::Int(5)).unwrap(), format!("nu_protocol::Value::int(5i64, {S})"));
    assert_eq!(value_to_token(&Value::Int(-12)).unwrap(), format!("nu_protocol::Value::int(-12i64, {S})"));
    assert_eq!(
        value_to_token(&Value::Int(i64::MIN)).unwrap(),
        format!("nu_protocol::Value::int(-9223372036854775808i64, {S})")
    );
    assert_eq!(
        value_to_token(&Value::Filesize(1024)).unwrap(),
        format!("nu_protocol::Value::filesize(1024i64, {S})")
    );
    assert_eq!(
        value_to_token(&Value::Duration(0)).unwrap(),
        format!("nu_protocol::Value::duration(0i64, {S})")
    );
}

#[test]
fn float_value_is_rebuilt_from_its_bits() {
    let bits = 1.5f64.to_bits();
    assert_eq!(bits, 4609434218613702656);
    assert_eq!(
        value_to_token(&Value::Float(bits)).unwrap(),
        format!("nu_protocol::Value::float(f64::from_bits(4609434218613702656u64), {S})")
    );
}

#[test]
fn bool_string_glob_and_nothing_values_lower() {
    assert_eq!(value_to_token(&Value::Bool(true)).unwrap(), format!("nu_protocol::Value::bool(true, {S})"));
    assert_eq!(
        value_to_token(&Value::String(String::from("say \"hi\""))).unwrap(),
        format!("nu_protocol::Value::string(String::from(\"say \\\"hi\\\"\"), {S})")
    );
    assert_eq!(
        value_to_token(&Value::Glob(String::from("*.rs"), false)).unwrap(),
        format!("nu_protocol::Value::glob(String::from(\"*.rs\"), false, {S})")
    );
    assert_eq!(value_to_token(&Value::Nothing).unwrap(), format!("nu_protocol::Value::nothing({S})"));
}

#[test]
fn list_and_record_values_keep_their_order() {
    let list = Value::List(vec![Value::Int(1), Value::String(String::from("x"))]);
    assert_eq!(
        value_to_token(&list).unwrap(),
        format!("nu_protocol::Value::list(vec![nu_protocol::Value::int(1i64, {S}), nu_protocol::Value::string(String::from(\"x\"), {S})], {S})")
    );
    let record = Value::Record(vec![(String::from("b"), Value::Int(2)), (String::from("a"), Value::Bool(false))]);
    let src = value_to_token(&record).unwrap();
    assert_eq!(
        src,
        format!("nu_protocol::Value::record(nu_protocol::Record::from_raw_cols_vals(vec![String::from(\"b\"), String::from(\"a\")], vec![nu_protocol::Value::int(2i64, {S}), nu_protocol::Value::bool(false, {S})], {S}, {S}).unwrap(), {S})")
    );
    assert!(lexes(&src));
}

#[test]
fn binary_and_cell_path_values_lower() {
    assert_eq!(
        value_to_token(&Value::Binary(vec![0, 255])).unwrap(),
        format!("nu_protocol::Value::binary(vec![0u8, 255u8], {S})")
    );
    let path = Value::CellPath(vec![
        PathMember::String { val: String::from("a"), optional: false },
        PathMember::Int { val: 2, optional: true },
    ]);
    assert_eq!(
        value_to_token(&path).unwrap(),
        format!("nu_protocol::Value::cell_path(nu_protocol::ast::CellPath {{ members: vec![nu_protocol::ast::PathMember::string(String::from(\"a\"), false, {S}), nu_protocol::ast::PathMember::int(2usize, true, {S})] }}, {S})")
    );
}

#[test]
fn date_value_is_rebuilt_in_two_steps() {
    let d = DateParts::new(fields(2024, 3, 9, 13, 5, 0, 0, -3600)).unwrap();
    let src = value_to_token(&Value::Date(d)).unwrap();
    assert_eq!(
        src,
        format!("nu_protocol::Value::date(chrono::NaiveDate::from_ymd_opt(2024, 3, 9).unwrap().and_hms_nano_opt(13, 5, 0, 0).unwrap().and_local_timezone(chrono::FixedOffset::east_opt(-3600).unwrap()).unwrap(), {S})")
    );
    assert!(lexes(&src));
}

#[test]
fn unbounded_range_ends_in_nothing_inclusive() {
    let r = Value::Range(RangeValue::Int { start: 1, step: 1, end: RangeEnd::Unbounded });
    assert_eq!(
        value_to_token(&r).unwrap(),
        format!("nu_protocol::Value::range(nu_protocol::Range::IntRange(nu_protocol::IntRange::new(nu_protocol::Value::int(1i64, {S}), nu_protocol::Value::int(1i64, {S}), nu_protocol::Value::nothing({S}), nu_protocol::ast::RangeInclusion::Inclusive, {S}).unwrap()), {S})")
    );
}

#[test]
fn exclusive_float_range_lowers() {
    let r = Value::Range(RangeValue::Float {
        start: 0f64.to_bits(),
        step: 1f64.to_bits(),
        end: RangeEnd::Excluded(2f64.to_bits()),
    });
    assert_eq!(
        value_to_token(&r).unwrap(),
        format!("nu_protocol::Value::range(nu_protocol::Range::FloatRange(nu_protocol::FloatRange::new(nu_protocol::Value::float(f64::from_bits(0u64), {S}), nu_protocol::Value::float(f64::from_bits(4607182418800017408u64), {S}), nu_protocol::Value::float(f64::from_bits(4611686018427387904u64), {S}), nu_protocol::ast::RangeInclusion::RightExclusive, {S}).unwrap()), {S})")
    );
}

#[test]
fn unsupported_values_are_refused() {
    assert_eq!(value_to_token(&Value::Closure), Err(UnsupportedKind::Closure));
    assert_eq!(value_to_token(&Value::Error), Err(UnsupportedKind::Error));
    assert_eq!(value_to_token(&Value::Custom), Err(UnsupportedKind::Custom));
}

#[test]
fn first_nested_unsupported_value_is_reported() {
    let v = Value::List(vec![Value::Int(1), Value::Error, Value::Closure]);
    assert_eq!(value_to_token(&v), Err(UnsupportedKind::Error));
    let r = Value::Record(vec![(String::from("f"), Value::List(vec![Value::Custom]))]);
    assert_eq!(value_to_token(&r), Err(UnsupportedKind::Custom));
}

#[test]
fn option_wraps_the_inner_text() {
    assert_eq!(
        option_to_token(&Some(Shape::Int), shape_to_token),
        "Some(nu_protocol::SyntaxShape::Int)"
    );
    assert_eq!(option_to_token(&None::<Shape>, shape_to_token), "None");
    assert_eq!(option_to_token(&Some(7), |x: &i32| x.to_string()), "Some(7)");
}

fn fields(
    year: i32,
    month: u32,
    day: u32,
    hour: u32,
    minute: u32,
    second: u32,
    nanosecond: u32,
    offset_seconds: i32,
) -> CalendarFields {
    CalendarFields { year, month, day, hour, minute, second, nanosecond, offset_seconds }
}

#[test]
fn invalid_calendar_dates_are_refused() {
    assert!(DateParts::new(fields(2024, 13, 1, 0, 0, 0, 0, 0)).is_none());
    assert!(DateParts::new(fields(2024, 0, 1, 0, 0, 0, 0, 0)).is_none());
    assert!(DateParts::new(fields(2023, 2, 29, 0, 0, 0, 0, 0)).is_none());
    assert!(DateParts::new(fields(1900, 2, 29, 0, 0, 0, 0, 0)).is_none());
    assert!(DateParts::new(fields(2024, 4, 31, 0, 0, 0, 0, 0)).is_none());
    assert!(DateParts::new(fields(2024, 1, 1, 24, 0, 0, 0, 0)).is_none());
    assert!(DateParts::new(fields(2024, 1, 1, 0, 60, 0, 0, 0)).is_none());
    assert!(DateParts::new(fields(2024, 1, 1, 0, 0, 60, 0, 0)).is_none());
    assert!(DateParts::new(fields(2024, 1, 1, 0, 0, 0, 2_000_000_000, 0)).is_none());
    assert!(DateParts::new(fields(2024, 1, 1, 0, 0, 30, 1_500_000_000, 0)).is_none());
    assert!(DateParts::new(fields(2024, 1, 1, 0, 0, 0, 0, 86_400)).is_none());
    assert!(DateParts::new(fields(2024, 1, 1, 0, 0, 0, 0, -86_400)).is_none());
}

#[test]
fn valid_calendar_dates_are_kept() {
    assert!(DateParts::new(fields(2024, 2, 29, 23, 59, 59, 999_999_999, 0)).is_some());
    assert!(DateParts::new(fields(2000, 2, 29, 0, 0, 0, 0, 0)).is_some());
    assert!(DateParts::new(fields(-4, 2, 29, 0, 0, 0, 0, 0)).is_some());
    assert!(DateParts::new(fields(2024, 6, 30, 23, 59, 59, 1_500_000_000, 3600)).is_some());
    let d = DateParts::new(fields(2024, 3, 9, 13, 5, 0, 0, -3600)).unwrap();
    assert_eq!(d.fields().offset_seconds, -3600);
}

#[test]
fn dates_whose_utc_time_leaves_the_range_are_refused() {
    assert!(DateParts::new(fields(262142, 12, 31, 23, 0, 0, 0, -7200)).is_none());
    assert!(DateParts::new(fields(262142, 12, 31, 23, 0, 0, 0, 0)).is_some());
    assert!(DateParts::new(fields(-262143, 1, 1, 0, 30, 0, 0, 3600)).is_none());
    assert!(DateParts::new(fields(-262143, 1, 1, 0, 30, 0, 0, -3600)).is_some());
    assert!(DateParts::new(fields(262143, 1, 1, 0, 0, 0, 0, 0)).is_none());
}

#[test]
fn string_values_escape_control_characters() {
    let src = value_to_token(&Value::String(String::from("a\\b\n\r\t\"\0z"))).unwrap();
    assert_eq!(
        src,
        format!("nu_protocol::Value::string(String::from(\"a\\\\b\\n\\r\\t\\\"\0z\"), {S})")
    );
    assert!(lexes(&src));
}
