use nu_signature_core::driver::{decode_argument, ArgToken};
use nu_signature_core::error::SignatureError;
use nu_signature_core::literal::literal_to_string;

#[test]
fn escaped_quote_decodes_to_quote() {
    assert_eq!(literal_to_string(r#""a\"b""#), Ok(String::from("a\"b")));
}

#[test]
fn escaped_newline_decodes_to_one_newline() {
    assert_eq!(literal_to_string(r#""\n""#), Ok(String::from("\n")));
}

#[test]
fn all_five_escapes_decode() {
    assert_eq!(literal_to_string(r#""\\\"\n\r\t""#), Ok(String::from("\\\"\n\r\t")));
}

#[test]
fn unknown_escape_fails_with_its_character() {
    assert_eq!(literal_to_string(r#""\q""#), Err(SignatureError::EscapeDecode('q')));
}

#[test]
fn first_bad_escape_is_reported() {
    assert_eq!(literal_to_string(r#""a\xb\q""#), Err(SignatureError::EscapeDecode('x')));
}

#[test]
fn raw_literal_passes_backslash_through() {
    let decoded = literal_to_string(r#"r"a\nb""#).unwrap();
    assert_eq!(decoded, "a\\nb");
    assert_eq!(decoded.chars().count(), 4);
    assert!(!decoded.contains('\n'));
}

#[test]
fn raw_literal_with_fence_keeps_inner_quotes() {
    assert_eq!(literal_to_string(r###"r#"say "hi""#"###), Ok(String::from("say \"hi\"")));
    assert_eq!(literal_to_string(r###"r##"a"#b"##"###), Ok(String::from("a\"#b")));
}

#[test]
fn raw_literal_fence_must_match() {
    assert_eq!(literal_to_string(r###"r#"abc""###), Err(SignatureError::MalformedLiteral));
    assert_eq!(literal_to_string(r###"r"abc"#"###), Err(SignatureError::MalformedLiteral));
}

#[test]
fn empty_literals_decode_to_empty_text() {
    assert_eq!(literal_to_string(r#""""#), Ok(String::new()));
    assert_eq!(literal_to_string(r#"r"""#), Ok(String::new()));
}

#[test]
fn non_string_literal_is_malformed() {
    assert_eq!(literal_to_string("42"), Err(SignatureError::MalformedLiteral));
    assert_eq!(literal_to_string(""), Err(SignatureError::MalformedLiteral));
    assert_eq!(literal_to_string(r#""abc\""#), Err(SignatureError::MalformedLiteral));
}

#[test]
fn one_literal_argument_is_decoded() {
    let args = vec![ArgToken::Literal(String::from(r#""x [a: int];""#))];
    assert_eq!(decode_argument(&args), Ok(String::from("x [a: int];")));
}

#[test]
fn missing_literal_is_reported() {
    assert_eq!(decode_argument(&vec![]), Err(SignatureError::MissingLiteral));
    assert_eq!(decode_argument(&vec![ArgToken::Other]), Err(SignatureError::MissingLiteral));
}

#[test]
fn trailing_input_is_reported() {
    let args = vec![ArgToken::Literal(String::from(r#""x;""#)), ArgToken::Other];
    assert_eq!(decode_argument(&args), Err(SignatureError::TrailingInput));
}
