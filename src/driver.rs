//! The sequence of stages from the captured input to one emitted fragment:
//! take the single literal and decode it, hand the text to the parser, then
//! lower what it built or carry its failure.
use vstd::prelude::*;
use crate::error::{failure_source, SignatureError};
use crate::literal::{decoded, literal_to_string};
use crate::model::Signature;
use crate::signature::{build_signature, signature_src, signature_unsupported};

verus! {

/// One token of the input handed to the signature facility.
#[derive(Debug)]
pub enum ArgToken {
    /// A literal, as its source text (quotes and prefix included).
    Literal(String),
    /// Any other token.
    Other,
}

/// The text that the input denotes: it must be exactly one literal, which is
/// then decoded.
pub open spec fn argument_text(args: Seq<ArgToken>) -> Result<Seq<char>, SignatureError> {
    if args.len() == 0 || args[0] is Other {
        Err(SignatureError::MissingLiteral)
    } else if args.len() > 1 {
        Err(SignatureError::TrailingInput)
    } else {
        decoded(args[0]->Literal_0@)
    }
}

/// Takes the one literal of the input and decodes it.
///
/// Fails with `MissingLiteral` when the input does not start with a literal,
/// with `TrailingInput` when more follows it, and otherwise as
/// `literal_to_string` does.
pub fn decode_argument(args: &Vec<ArgToken>) -> (r: Result<String, SignatureError>)
    ensures
        match (r, argument_text(args@)) {
            (Ok(s), Ok(t)) => s@ == t,
            (Err(e), Err(f)) => e == f,
            _ => false,
        },
{
    if args.len() == 0 {
        return Err(SignatureError::MissingLiteral);
    }
    match &args[0] {
        ArgToken::Other => Err(SignatureError::MissingLiteral),
        ArgToken::Literal(text) => {
            if args.len() > 1 {
                Err(SignatureError::TrailingInput)
            } else {
                literal_to_string(text.as_str())
            }
        },
    }
}

/// What an emitted fragment is, as text.
pub enum Emitted {
    /// Source that builds the signature.
    Signature(Seq<char>),
    /// A failure, whose fragment carries the error's message.
    Failure(SignatureError),
}

/// The one fragment emitted for an invocation.
#[derive(Debug)]
pub enum Fragment {
    /// Source that builds the signature.
    Signature(String),
    /// A failure, to be emitted as `compile_error!` with the error's message.
    Failure(SignatureError),
}

impl View for Fragment {
    type V = Emitted;

    open spec fn view(&self) -> Emitted {
        match self {
            Fragment::Signature(s) => Emitted::Signature(s@),
            Fragment::Failure(e) => Emitted::Failure(*e),
        }
    }
}

/// The fragment for what the parser returned: its error carried verbatim, or
/// the lowered signature, or the first default value with no source form.
pub open spec fn emitted_of(parsed: Result<(String, Signature), String>) -> Emitted {
    match parsed {
        Err(m) => Emitted::Failure(SignatureError::Parse(m)),
        Ok((name, sig)) => match signature_unsupported(sig) {
            None => Emitted::Signature(signature_src(name@, sig)),
            Some(k) => Emitted::Failure(SignatureError::UnsupportedValue(k)),
        },
    }
}

/// The whole sequence for an input and a parser: decode the one literal, parse
/// the text, lower the result. Every stage's failure ends in one failure fragment.
pub open spec fn pipeline(
    args: Seq<ArgToken>,
    parser: spec_fn(Seq<char>) -> Result<(String, Signature), String>,
) -> Emitted {
    match argument_text(args) {
        Err(e) => Emitted::Failure(e),
        Ok(text) => emitted_of(parser(text)),
    }
}

/// The fragment for what the parser returned on the decoded text.
pub fn signature_fragment(parsed: Result<(String, Signature), String>) -> (r: Fragment)
    ensures
        r@ == emitted_of(parsed),
{
    match parsed {
        Err(m) => Fragment::Failure(SignatureError::Parse(m)),
        Ok((name, sig)) => match build_signature(name.as_str(), &sig) {
            Ok(s) => Fragment::Signature(s),
            Err(e) => Fragment::Failure(e),
        },
    }
}

/// The fragment for a failure before parsing.
pub fn failure_fragment(e: SignatureError) -> (r: Fragment)
    ensures
        r@ == Emitted::Failure(e),
{
    Fragment::Failure(e)
}

/// The source text of an emitted fragment.
pub open spec fn emitted_source(e: Emitted) -> Seq<char> {
    match e {
        Emitted::Signature(s) => s,
        Emitted::Failure(e) => failure_source(e),
    }
}

impl Fragment {
    /// Whether this is a failure fragment.
    pub fn is_failure(&self) -> (r: bool)
        ensures
            r == (self@ is Failure),
    {
        matches!(self, Fragment::Failure(_))
    }

    /// The source text to emit: the signature's source, or
    /// `compile_error!("<message>")` for a failure.
    pub fn source(&self) -> (r: String)
        ensures
            r@ == emitted_source(self@),
    {
        match self {
            Fragment::Signature(s) => s.clone(),
            Fragment::Failure(e) => e.failure_source(),
        }
    }
}

} // verus!
