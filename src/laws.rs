//! Properties that hold across the stages and of every input.
use vstd::prelude::*;
use crate::driver::{argument_text, pipeline, ArgToken, Emitted};
use crate::error::SignatureError;
use crate::literal::{decoded, escape_target, hashes, leading_hashes, unescaped};
use crate::text::{string_body_src, string_char_src, string_literal_of};
use crate::model::{Shape, Signature, Type, Value};
use crate::shape::{shape_src, type_src};
use crate::signature::{
    emitted_rest, is_implicit_rest, lemma_signature_unsupported_none, signature_representable,
    signature_src, signature_unsupported,
};
use crate::value::{first_unsupported, value_src};

verus! {

/// The pipeline emits a signature exactly when the input is one well-formed
/// literal, the parser accepts its text, and no default value in what the
/// parser built is a closure, an error or a custom value; the signature is then
/// the lowering of what the parser built. Otherwise it emits a failure, never a
/// made-up signature.
pub proof fn lemma_pipeline_emits_signature(
    args: Seq<ArgToken>,
    parser: spec_fn(Seq<char>) -> Result<(String, Signature), String>,
)
    ensures
        pipeline(args, parser) is Signature <==> {
            &&& argument_text(args) is Ok
            &&& parser(argument_text(args)->Ok_0) is Ok
            &&& signature_representable(parser(argument_text(args)->Ok_0)->Ok_0.1)
        },
        pipeline(args, parser) is Signature ==> pipeline(args, parser) == Emitted::Signature(
            signature_src(
                parser(argument_text(args)->Ok_0)->Ok_0.0@,
                parser(argument_text(args)->Ok_0)->Ok_0.1,
            ),
        ),
{
    if let Ok(text) = argument_text(args) {
        if let Ok((name, sig)) = parser(text) {
            lemma_signature_unsupported_none(sig);
        }
    }
}

/// Whatever the parser rejects ends in one failure fragment carrying the
/// parser's message verbatim.
pub proof fn lemma_parse_error_fails(
    args: Seq<ArgToken>,
    parser: spec_fn(Seq<char>) -> Result<(String, Signature), String>,
)
    requires
        argument_text(args) is Ok,
        parser(argument_text(args)->Ok_0) is Err,
    ensures
        pipeline(args, parser) == Emitted::Failure(
            SignatureError::Parse(parser(argument_text(args)->Ok_0)->Err_0),
        ),
{
}

/// Lowering a shape depends on the shape alone: the same shape always gives
/// the same text.
pub proof fn lemma_shape_lowering_deterministic(a: Shape, b: Shape)
    requires
        a == b,
    ensures
        shape_src(a) == shape_src(b),
{
}

/// Lowering a type depends on the type alone: the same type always gives the
/// same text.
pub proof fn lemma_type_lowering_deterministic(a: Type, b: Type)
    requires
        a == b,
    ensures
        type_src(a) == type_src(b),
{
}

/// Lowering a value depends on the value alone: the same value always gives
/// the same text, or the same unsupported kind.
pub proof fn lemma_value_lowering_deterministic(a: Value, b: Value)
    requires
        a == b,
    ensures
        value_src(a) == value_src(b),
        first_unsupported(a) == first_unsupported(b),
{
}

proof fn lemma_leading_hashes(n: nat, rest: Seq<char>)
    requires
        rest.len() > 0,
        rest[0] != '#',
    ensures
        leading_hashes(hashes(n) + rest) == n,
    decreases n,
{
    if n == 0 {
        assert(hashes(0) + rest =~= rest);
    } else {
        let s = hashes(n) + rest;
        assert(s.drop_first() =~= hashes((n - 1) as nat) + rest);
        lemma_leading_hashes((n - 1) as nat, rest);
    }
}

/// A raw literal with a fence of `n` hashes decodes to its content as it
/// stands, whatever the content holds (quotes, backslashes, hashes).
pub proof fn lemma_raw_literal_passthrough(n: nat, content: Seq<char>)
    ensures
        decoded(seq!['r'] + hashes(n) + seq!['"'] + content + seq!['"'] + hashes(n)) == Ok::<
            Seq<char>,
            SignatureError,
        >(content),
{
    let item = seq!['r'] + hashes(n) + seq!['"'] + content + seq!['"'] + hashes(n);
    let rest = seq!['"'] + content + seq!['"'] + hashes(n);
    assert(item.drop_first() =~= hashes(n) + rest);
    lemma_leading_hashes(n, rest);
    let len = item.len() as int;
    assert(item.subrange(len - n, len) =~= hashes(n));
    assert(item.subrange(n + 2int, len - n - 1) =~= content);
}

proof fn lemma_unescaped_plain(s: Seq<char>)
    requires
        forall|i: int| 0 <= i < s.len() ==> s[i] != '\\',
    ensures
        unescaped(s) == Ok::<Seq<char>, SignatureError>(s),
    decreases s.len(),
{
    if s.len() > 0 {
        lemma_unescaped_plain(s.drop_first());
        assert(seq![s[0]] + s.drop_first() =~= s);
    } else {
        assert(s =~= Seq::<char>::empty());
    }
}

/// A quoted literal whose content holds no backslash decodes to its content.
pub proof fn lemma_plain_quoted_literal(content: Seq<char>)
    requires
        forall|i: int| 0 <= i < content.len() ==> content[i] != '\\',
    ensures
        decoded(seq!['"'] + content + seq!['"']) == Ok::<Seq<char>, SignatureError>(content),
{
    let item = seq!['"'] + content + seq!['"'];
    assert(item.subrange(1, item.len() - 1) =~= content);
    lemma_unescaped_plain(content);
}

proof fn lemma_unescaped_string_body(s: Seq<char>)
    ensures
        unescaped(string_body_src(s)) == Ok::<Seq<char>, SignatureError>(s),
    decreases s.len(),
{
    if s.len() == 0 {
        assert(s =~= Seq::<char>::empty());
    } else {
        let c = s[0];
        let rest = string_body_src(s.drop_first());
        let body = string_body_src(s);
        lemma_unescaped_string_body(s.drop_first());
        assert(seq![c] + s.drop_first() =~= s);
        if string_char_src(c).len() == 2 {
            assert(body.subrange(2, body.len() as int) =~= rest);
            assert(escape_target(body[1]) == Some(c));
        } else {
            assert(body.drop_first() =~= rest);
        }
    }
}

/// Every string written as a literal by the generator decodes back to itself.
pub proof fn lemma_string_literal_round_trip(s: Seq<char>)
    ensures
        decoded(string_literal_of(s)) == Ok::<Seq<char>, SignatureError>(s),
{
    let item = string_literal_of(s);
    assert(item.subrange(1, item.len() - 1) =~= string_body_src(s));
    lemma_unescaped_string_body(s);
}

/// The implicit rest parameter is left out: the signature is written exactly
/// as if it had no rest parameter.
pub proof fn lemma_implicit_rest_omitted(name: Seq<char>, sig: Signature)
    requires
        sig.rest_positional matches Some(p) && is_implicit_rest(p),
    ensures
        signature_src(name, sig) == signature_src(name, Signature { rest_positional: None, ..sig }),
        signature_unsupported(sig) == signature_unsupported(
            Signature { rest_positional: None, ..sig },
        ),
{
}

/// Any other rest parameter is written out in full.
pub proof fn lemma_explicit_rest_emitted(sig: Signature)
    requires
        sig.rest_positional matches Some(p) && !is_implicit_rest(p),
    ensures
        emitted_rest(sig) == sig.rest_positional,
{
}

} // verus!
