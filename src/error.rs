//! What can go wrong between the captured literal and the emitted signature.
use vstd::prelude::*;
use crate::text::{push_char, string_literal, string_literal_of};

verus! {

/// A kind of value that has no source form.
#[derive(Clone, Copy, Debug, PartialEq, Eq, Structural)]
pub enum UnsupportedKind {
    Closure,
    Error,
    Custom,
}

/// Why no signature could be emitted.
#[derive(Clone, Debug, PartialEq, Eq)]
pub enum SignatureError {
    /// The input does not start with a literal.
    MissingLiteral,
    /// More input follows the one literal.
    TrailingInput,
    /// The literal is not a well-formed string literal (a raw fence that does
    /// not match, missing quotes, a lone backslash at the end).
    MalformedLiteral,
    /// A backslash is followed by a character that is not one of the five
    /// recognised escapes.
    EscapeDecode(char),
    /// The parser rejected the decoded text; its message is kept verbatim.
    Parse(String),
    /// A default value of a kind that has no source form.
    UnsupportedValue(UnsupportedKind),
}

/// The human-readable text of an error.
pub open spec fn error_message(e: SignatureError) -> Seq<char> {
    match e {
        SignatureError::MissingLiteral =>
            "make_signature expects a literal string containing the signature"@,
        SignatureError::TrailingInput =>
            "make_signature only expects a literal string containing the signature"@,
        SignatureError::MalformedLiteral =>
            "make_signature expects a well-formed string literal"@,
        SignatureError::EscapeDecode(c) => "Invalid escape sequence: \\"@.push(c),
        SignatureError::Parse(m) => m@,
        SignatureError::UnsupportedValue(UnsupportedKind::Closure) => "Closure not supported"@,
        SignatureError::UnsupportedValue(UnsupportedKind::Error) => "Error not supported"@,
        SignatureError::UnsupportedValue(UnsupportedKind::Custom) => "Custom not supported"@,
    }
}

/// The failing fragment for an error: a `compile_error!` carrying its message.
pub open spec fn failure_source(e: SignatureError) -> Seq<char> {
    "compile_error!("@ + string_literal_of(error_message(e)) + ")"@
}

impl SignatureError {
    /// The human-readable text of this error.
    pub fn message(&self) -> (r: String)
        ensures
            r@ == error_message(*self),
    {
        match self {
            SignatureError::MissingLiteral => String::from_str(
                "make_signature expects a literal string containing the signature",
            ),
            SignatureError::TrailingInput => String::from_str(
                "make_signature only expects a literal string containing the signature",
            ),
            SignatureError::MalformedLiteral => String::from_str(
                "make_signature expects a well-formed string literal",
            ),
            SignatureError::EscapeDecode(c) => {
                let mut m = String::from_str("Invalid escape sequence: \\");
                push_char(&mut m, *c);
                m
            },
            SignatureError::Parse(m) => m.clone(),
            SignatureError::UnsupportedValue(UnsupportedKind::Closure) => String::from_str(
                "Closure not supported",
            ),
            SignatureError::UnsupportedValue(UnsupportedKind::Error) => String::from_str(
                "Error not supported",
            ),
            SignatureError::UnsupportedValue(UnsupportedKind::Custom) => String::from_str(
                "Custom not supported",
            ),
        }
    }

    /// The failing fragment for this error: `compile_error!("<message>")`,
    /// which makes the next compilation stage report the message.
    pub fn failure_source(&self) -> (r: String)
        ensures
            r@ == failure_source(*self),
    {
        let mut out = String::from_str("compile_error!(");
        let msg = self.message();
        let lit = string_literal(msg.as_str());
        out.append(lit.as_str());
        out.append(")");
        out
    }
}

} // verus!
