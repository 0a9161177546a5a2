use nu_signature_core::driver::{failure_fragment, signature_fragment, Fragment};
use nu_signature_core::error::{SignatureError, UnsupportedKind};
use nu_signature_core::model::{Flag, PositionalArg, Shape, Signature, Type, Value};
use nu_signature_core::signature::{build_signature, is_implicit_rest_positional};

fn implicit_rest() -> PositionalArg {
    PositionalArg {
        name: String::from("args"),
        desc: String::from("all other arguments to the command"),
        shape: Shape::ExternalArgument,
        default_value: None,
    }
}

fn empty_signature(name: &str) -> Signature {
    Signature {
        name: String::from(name),
        description: String::new(),
        extra_description: String::new(),
        input_output_types: vec![],
        required_positional: vec![],
        optional_positional: vec![],
        rest_positional: None,
        named: vec![],
    }
}

fn greet() -> Signature {
    let mut sig = empty_signature("greet");
    sig.input_output_types = vec![(Type::Nothing, Type::String)];
    sig.required_positional = vec![PositionalArg {
        name: String::from("name"),
        desc: String::new(),
        shape: Shape::String,
        default_value: None,
    }];
    sig.named = vec![Flag {
        long: String::from("loud"),
        short: None,
        arg: None,
        required: false,
        desc: String::new(),
        default_value: None,
    }];
    sig.rest_positional = Some(implicit_rest());
    sig
}

const GREET_SRC: &str = "{ let mut sig = nu_protocol::Signature::build(\"greet\").category(nu_protocol::Category::Experimental).input_output_types(vec![(nu_protocol::Type::Nothing, nu_protocol::Type::String)]); sig.named = vec![nu_protocol::Flag { long: String::from(\"loud\"), arg: None, desc: String::from(\"\"), short: None, required: false, default_value: None, var_id: None }]; sig.required_positional = vec![nu_protocol::PositionalArg { name: String::from(\"name\"), shape: nu_protocol::SyntaxShape::String, desc: String::from(\"\"), var_id: None, default_value: None }]; sig }";

#[test]
fn greet_signature_end_to_end() {
    let src = build_signature("greet", &greet()).unwrap();
    assert_eq!(src, GREET_SRC);
    assert!(src.parse::<proc_macro2::TokenStream>().is_ok());
    let fragment = signature_fragment(Ok((String::from("greet"), greet())));
    assert!(!fragment.is_failure());
    assert_eq!(fragment.source(), GREET_SRC);
}

#[test]
fn bare_signature_has_no_chained_calls() {
    assert_eq!(
        build_signature("bare", &empty_signature("bare")).unwrap(),
        "{ let mut sig = nu_protocol::Signature::build(\"bare\").category(nu_protocol::Category::Experimental); sig }"
    );
}

#[test]
fn descriptions_are_chained_when_present() {
    let mut sig = empty_signature("d");
    sig.description = String::from("does a thing");
    sig.extra_description = String::from("more");
    assert_eq!(
        build_signature("d", &sig).unwrap(),
        "{ let mut sig = nu_protocol::Signature::build(\"d\").category(nu_protocol::Category::Experimental).description(\"does a thing\").extra_description(\"more\"); sig }"
    );
}

#[test]
fn implicit_rest_parameter_is_omitted() {
    assert!(is_implicit_rest_positional(&implicit_rest()));
    let mut with_rest = empty_signature("r");
    with_rest.rest_positional = Some(implicit_rest());
    assert_eq!(
        build_signature("r", &with_rest).unwrap(),
        build_signature("r", &empty_signature("r")).unwrap()
    );
}

#[test]
fn rest_parameter_differing_in_one_field_is_emitted() {
    let mut other_desc = implicit_rest();
    other_desc.desc = String::from("everything else");
    assert!(!is_implicit_rest_positional(&other_desc));
    let mut sig = empty_signature("r");
    sig.rest_positional = Some(other_desc);
    assert_eq!(
        build_signature("r", &sig).unwrap(),
        "{ let mut sig = nu_protocol::Signature::build(\"r\").category(nu_protocol::Category::Experimental); sig.rest_positional = Some(nu_protocol::PositionalArg { name: String::from(\"args\"), shape: nu_protocol::SyntaxShape::ExternalArgument, desc: String::from(\"everything else\"), var_id: None, default_value: None }); sig }"
    );

    let mut other_name = implicit_rest();
    other_name.name = String::from("rest");
    assert!(!is_implicit_rest_positional(&other_name));
    let mut other_shape = implicit_rest();
    other_shape.shape = Shape::String;
    assert!(!is_implicit_rest_positional(&other_shape));
    let mut with_default = implicit_rest();
    with_default.default_value = Some(Value::Nothing);
    assert!(!is_implicit_rest_positional(&with_default));
}

#[test]
fn flag_with_alias_shape_and_default_lowers() {
    let mut sig = empty_signature("f");
    sig.named = vec![Flag {
        long: String::from("count"),
        short: Some('c'),
        arg: Some(Shape::Int),
        required: true,
        desc: String::from("how many"),
        default_value: Some(Value::Int(3)),
    }];
    assert_eq!(
        build_signature("f", &sig).unwrap(),
        "{ let mut sig = nu_protocol::Signature::build(\"f\").category(nu_protocol::Category::Experimental); sig.named = vec![nu_protocol::Flag { long: String::from(\"count\"), arg: Some(nu_protocol::SyntaxShape::Int), desc: String::from(\"how many\"), short: Some('c'), required: true, default_value: Some(nu_protocol::Value::int(3i64, nu_protocol::Span::unknown())), var_id: None }]; sig }"
    );
}

#[test]
fn optional_positionals_keep_order_and_defaults() {
    let mut sig = empty_signature("o");
    sig.optional_positional = vec![
        PositionalArg { name: String::from("a"), desc: String::new(), shape: Shape::Int, default_value: None },
        PositionalArg {
            name: String::from("b"),
            desc: String::from("bee"),
            shape: Shape::Boolean,
            default_value: Some(Value::Bool(true)),
        },
    ];
    sig.input_output_types = vec![(Type::Any, Type::Any), (Type::String, Type::Int)];
    let src = build_signature("o", &sig).unwrap();
    assert_eq!(
        src,
        "{ let mut sig = nu_protocol::Signature::build(\"o\").category(nu_protocol::Category::Experimental).input_output_types(vec![(nu_protocol::Type::Any, nu_protocol::Type::Any), (nu_protocol::Type::String, nu_protocol::Type::Int)]); sig.optional_positional = vec![nu_protocol::PositionalArg { name: String::from(\"a\"), shape: nu_protocol::SyntaxShape::Int, desc: String::from(\"\"), var_id: None, default_value: None }, nu_protocol::PositionalArg { name: String::from(\"b\"), shape: nu_protocol::SyntaxShape::Boolean, desc: String::from(\"bee\"), var_id: None, default_value: Some(nu_protocol::Value::bool(true, nu_protocol::Span::unknown())) }]; sig }"
    );
    assert!(src.parse::<proc_macro2::TokenStream>().is_ok());
}

#[test]
fn unsupported_default_fails_the_whole_signature() {
    let mut sig = greet();
    sig.optional_positional = vec![PositionalArg {
        name: String::from("f"),
        desc: String::new(),
        shape: Shape::Any,
        default_value: Some(Value::Closure),
    }];
    assert_eq!(
        build_signature("greet", &sig),
        Err(SignatureError::UnsupportedValue(UnsupportedKind::Closure))
    );
    let fragment = signature_fragment(Ok((String::from("greet"), sig)));
    assert!(fragment.is_failure());
    assert_eq!(fragment.source(), "compile_error!(\"Closure not supported\")");
}

#[test]
fn parse_error_is_carried_verbatim() {
    let fragment = signature_fragment(Err(String::from("only extern expression expected")));
    assert!(matches!(
        &fragment,
        Fragment::Failure(SignatureError::Parse(m)) if m == "only extern expression expected"
    ));
    assert_eq!(fragment.source(), "compile_error!(\"only extern expression expected\")");
}

#[test]
fn failure_messages_are_escaped_into_the_fragment() {
    assert_eq!(
        failure_fragment(SignatureError::EscapeDecode('q')).source(),
        r#"compile_error!("Invalid escape sequence: \\q")"#
    );
    assert_eq!(
        failure_fragment(SignatureError::MissingLiteral).source(),
        "compile_error!(\"make_signature expects a literal string containing the signature\")"
    );
    assert_eq!(
        failure_fragment(SignatureError::TrailingInput).source(),
        "compile_error!(\"make_signature only expects a literal string containing the signature\")"
    );
    assert_eq!(
        SignatureError::UnsupportedValue(UnsupportedKind::Error).message(),
        "Error not supported"
    );
    assert_eq!(
        SignatureError::UnsupportedValue(UnsupportedKind::Custom).message(),
        "Custom not supported"
    );
    assert_eq!(
        SignatureError::MalformedLiteral.message(),
        "make_signature expects a well-formed string literal"
    );
}

#[test]
fn quote_alias_is_escaped() {
    let mut sig = empty_signature("q");
    sig.named = vec![Flag {
        long: String::from("quote"),
        short: Some('\''),
        arg: None,
        required: false,
        desc: String::from("it's"),
        default_value: None,
    }];
    let src = build_signature("q", &sig).unwrap();
    assert!(src.contains("short: Some('\\''),"));
    assert!(src.contains("desc: String::from(\"it's\"),"));
    assert!(src.parse::<proc_macro2::TokenStream>().is_ok());
}

#[test]
fn failure_message_decodes_back_through_the_literal_decoder() {
    let message = "line one\nsays \"no\" \\ done";
    let fragment = signature_fragment(Err(String::from(message)));
    let source = fragment.source();
    let literal = &source["compile_error!(".len()..source.len() - 1];
    assert_eq!(nu_signature_core::literal::literal_to_string(literal), Ok(String::from(message)));
}
