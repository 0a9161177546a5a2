//! Lowering of a whole signature: its flags, its positional parameters and the
//! chain of calls that builds it.
use vstd::prelude::*;
use crate::error::{SignatureError, UnsupportedKind};
use crate::model::{Flag, PositionalArg, Shape, Signature, Type, Value};
use crate::shape::{
    owned_string_src, push_owned_string, push_shape, push_type, shape_src, shape_to_token, type_src,
};
use crate::text::{
    char_literal, char_literal_of, joined, lemma_joined_step, push_separator, string_literal,
    string_literal_of,
};
use crate::value::{
    bool_src, first_unsupported, lemma_first_unsupported_none, push_value, representable, value_src,
};

verus! {

/// `None`, or `Some(...)` around the source of the value.
pub open spec fn opt_value_src(v: Option<Value>) -> Seq<char> {
    match v {
        None => "None"@,
        Some(v) => "Some("@ + value_src(v) + ")"@,
    }
}

pub open spec fn opt_unsupported(v: Option<Value>) -> Option<UnsupportedKind> {
    match v {
        None => None,
        Some(v) => first_unsupported(v),
    }
}

/// `a` when it names an unsupported kind, else `b`.
pub open spec fn first_of(a: Option<UnsupportedKind>, b: Option<UnsupportedKind>) -> Option<
    UnsupportedKind,
> {
    match a {
        Some(k) => Some(k),
        None => b,
    }
}

/// `None`, or `Some(...)` around the source of the shape.
pub open spec fn opt_shape_src(s: Option<Shape>) -> Seq<char> {
    match s {
        None => "None"@,
        Some(s) => "Some("@ + shape_src(s) + ")"@,
    }
}

/// `None`, or `Some('c')`.
pub open spec fn opt_char_src(c: Option<char>) -> Seq<char> {
    match c {
        None => "None"@,
        Some(c) => "Some("@ + char_literal_of(c) + ")"@,
    }
}

/// The source of a flag; no variable is bound to it.
pub open spec fn flag_src(f: Flag) -> Seq<char> {
    "nu_protocol::Flag { long: "@ + owned_string_src(f.long@) + ", arg: "@ + opt_shape_src(f.arg)
        + ", desc: "@ + owned_string_src(f.desc@) + ", short: "@ + opt_char_src(f.short)
        + ", required: "@ + bool_src(f.required) + ", default_value: "@ + opt_value_src(
        f.default_value,
    ) + ", var_id: None }"@
}

/// The source of a positional parameter; no variable is bound to it.
pub open spec fn positional_src(p: PositionalArg) -> Seq<char> {
    "nu_protocol::PositionalArg { name: "@ + owned_string_src(p.name@) + ", shape: "@ + shape_src(
        p.shape,
    ) + ", desc: "@ + owned_string_src(p.desc@) + ", var_id: None, default_value: "@
        + opt_value_src(p.default_value) + " }"@
}

/// The sources of flags in order, separated by `", "`.
pub open spec fn flags_src(s: Seq<Flag>) -> Seq<char>
    decreases s.len(),
{
    if s.len() == 0 {
        Seq::empty()
    } else {
        joined(flags_src(s.drop_last()), s.len() - 1, flag_src(s.last()))
    }
}

/// The sources of positional parameters in order, separated by `", "`.
pub open spec fn positionals_src(s: Seq<PositionalArg>) -> Seq<char>
    decreases s.len(),
{
    if s.len() == 0 {
        Seq::empty()
    } else {
        joined(positionals_src(s.drop_last()), s.len() - 1, positional_src(s.last()))
    }
}

/// Input and output type pairs as `(input, output)`, separated by `", "`.
pub open spec fn io_types_src(s: Seq<(Type, Type)>) -> Seq<char>
    decreases s.len(),
{
    if s.len() == 0 {
        Seq::empty()
    } else {
        joined(
            io_types_src(s.drop_last()),
            s.len() - 1,
            "("@ + type_src(s.last().0) + ", "@ + type_src(s.last().1) + ")"@,
        )
    }
}

/// The first unsupported default value among flags, left to right.
pub open spec fn flags_unsupported(s: Seq<Flag>) -> Option<UnsupportedKind>
    decreases s.len(),
{
    if s.len() == 0 {
        None
    } else {
        first_of(flags_unsupported(s.drop_last()), opt_unsupported(s.last().default_value))
    }
}

/// The first unsupported default value among positional parameters, left to right.
pub open spec fn positionals_unsupported(s: Seq<PositionalArg>) -> Option<UnsupportedKind>
    decreases s.len(),
{
    if s.len() == 0 {
        None
    } else {
        first_of(
            positionals_unsupported(s.drop_last()),
            opt_unsupported(s.last().default_value),
        )
    }
}

/// Whether `p` is the rest parameter that the target adds by itself:
/// `args`, "all other arguments to the command", of external-argument shape,
/// without a default.
pub open spec fn is_implicit_rest(p: PositionalArg) -> bool {
    &&& p.name@ == "args"@
    &&& p.desc@ == "all other arguments to the command"@
    &&& p.shape is ExternalArgument
    &&& p.default_value is None
}

/// The rest parameter that is written out: none when it is the implicit one.
pub open spec fn emitted_rest(sig: Signature) -> Option<PositionalArg> {
    match sig.rest_positional {
        Some(p) => if is_implicit_rest(p) {
            None
        } else {
            Some(p)
        },
        None => None,
    }
}

/// The first unsupported default value in the order the signature is written
/// out: flags, required, optional, then the rest parameter.
pub open spec fn signature_unsupported(sig: Signature) -> Option<UnsupportedKind> {
    first_of(
        flags_unsupported(sig.named@),
        first_of(
            positionals_unsupported(sig.required_positional@),
            first_of(
                positionals_unsupported(sig.optional_positional@),
                match emitted_rest(sig) {
                    Some(p) => opt_unsupported(p.default_value),
                    None => None,
                },
            ),
        ),
    )
}

/// `text` when `present`, else nothing.
pub open spec fn when(present: bool, text: Seq<char>) -> Seq<char> {
    if present {
        text
    } else {
        Seq::empty()
    }
}

/// The base signature named `name`, with the description, extra description
/// and input/output types chained on only when they are not empty.
pub open spec fn signature_head_src(name: Seq<char>, sig: Signature) -> Seq<char> {
    "{ let mut sig = nu_protocol::Signature::build("@ + string_literal_of(name)
        + ").category(nu_protocol::Category::Experimental)"@ + when(
        sig.description@.len() > 0,
        ".description("@ + string_literal_of(sig.description@) + ")"@,
    ) + when(
        sig.extra_description@.len() > 0,
        ".extra_description("@ + string_literal_of(sig.extra_description@) + ")"@,
    ) + when(
        sig.input_output_types@.len() > 0,
        ".input_output_types(vec!["@ + io_types_src(sig.input_output_types@) + "])"@,
    ) + "; "@
}

/// The assignment of the rest parameter, when it is written out.
pub open spec fn rest_src(rest: Option<PositionalArg>) -> Seq<char> {
    match rest {
        Some(p) => "sig.rest_positional = Some("@ + positional_src(p) + "); "@,
        None => Seq::empty(),
    }
}

/// The assignment of the flags, when there are any.
pub open spec fn named_src(flags: Seq<Flag>) -> Seq<char> {
    when(flags.len() > 0, "sig.named = vec!["@ + flags_src(flags) + "]; "@)
}

/// The assignment `assignment` of positional parameters, when there are any.
pub open spec fn positional_list_src(assignment: Seq<char>, args: Seq<PositionalArg>) -> Seq<
    char,
> {
    when(args.len() > 0, assignment + positionals_src(args) + "]; "@)
}

/// The block that builds the signature named `name`: its head, then the
/// assignments of the flags and of each kind of positional parameter, each only
/// when there are any.
pub open spec fn signature_src(name: Seq<char>, sig: Signature) -> Seq<char> {
    signature_head_src(name, sig) + named_src(sig.named@) + positional_list_src(
        "sig.required_positional = vec!["@,
        sig.required_positional@,
    ) + positional_list_src("sig.optional_positional = vec!["@, sig.optional_positional@)
        + rest_src(emitted_rest(sig)) + "sig }"@
}

proof fn lemma_flags_unsupported_prefix(s: Seq<Flag>, n: int)
    requires
        0 <= n <= s.len(),
        flags_unsupported(s.subrange(0, n)) is Some,
    ensures
        flags_unsupported(s) == flags_unsupported(s.subrange(0, n)),
    decreases s.len(),
{
    if n == s.len() {
        assert(s.subrange(0, n) =~= s);
    } else {
        assert(s.drop_last().subrange(0, n) =~= s.subrange(0, n));
        lemma_flags_unsupported_prefix(s.drop_last(), n);
    }
}

proof fn lemma_positionals_unsupported_prefix(s: Seq<PositionalArg>, n: int)
    requires
        0 <= n <= s.len(),
        positionals_unsupported(s.subrange(0, n)) is Some,
    ensures
        positionals_unsupported(s) == positionals_unsupported(s.subrange(0, n)),
    decreases s.len(),
{
    if n == s.len() {
        assert(s.subrange(0, n) =~= s);
    } else {
        assert(s.drop_last().subrange(0, n) =~= s.subrange(0, n));
        lemma_positionals_unsupported_prefix(s.drop_last(), n);
    }
}

fn push_opt_value(out: &mut String, v: &Option<Value>) -> (r: Result<(), UnsupportedKind>)
    ensures
        match opt_unsupported(*v) {
            None => r is Ok && final(out)@ == old(out)@ + opt_value_src(*v),
            Some(k) => r == Err::<(), UnsupportedKind>(k),
        },
{
    match v {
        None => {
            out.append("None");
        },
        Some(inner) => {
            out.append("Some(");
            let res = push_value(out, inner);
            if let Err(k) = res {
                return Err(k);
            }
            out.append(")");
            assert(final(out)@ =~= old(out)@ + opt_value_src(*v));
        },
    }
    Ok(())
}

/// `None`, or `Some(...)` around the text that `f` gives for the value.
pub fn option_to_token<T, F: Fn(&T) -> String>(opt: &Option<T>, f: F) -> (r: String)
    requires
        forall|x: &T| #[trigger] f.requires((x,)),
    ensures
        opt is None ==> r@ == "None"@,
        opt matches Some(x) ==> exists|s: String|
            #[trigger] f.ensures((&x,), s) && r@ == "Some("@ + s@ + ")"@,
{
    match opt {
        None => String::from_str("None"),
        Some(x) => {
            let inner = f(x);
            let mut out = String::from_str("Some(");
            out.append(inner.as_str());
            out.append(")");
            out
        },
    }
}

fn push_opt_shape(out: &mut String, shape: &Option<Shape>)
    ensures
        final(out)@ == old(out)@ + opt_shape_src(*shape),
{
    let text = option_to_token(shape, shape_to_token);
    out.append(text.as_str());
}

fn char_token(c: &char) -> (r: String)
    ensures
        r@ == char_literal_of(*c),
{
    char_literal(*c)
}

fn push_opt_char(out: &mut String, c: Option<char>)
    ensures
        final(out)@ == old(out)@ + opt_char_src(c),
{
    let text = option_to_token(&c, char_token);
    out.append(text.as_str());
}

fn push_flag(out: &mut String, f: &Flag) -> (r: Result<(), UnsupportedKind>)
    ensures
        match opt_unsupported(f.default_value) {
            None => r is Ok && final(out)@ == old(out)@ + flag_src(*f),
            Some(k) => r == Err::<(), UnsupportedKind>(k),
        },
{
    out.append("nu_protocol::Flag { long: ");
    push_owned_string(out, &f.long);
    out.append(", arg: ");
    push_opt_shape(out, &f.arg);
    out.append(", desc: ");
    push_owned_string(out, &f.desc);
    out.append(", short: ");
    push_opt_char(out, f.short);
    out.append(", required: ");
    let ghost head = out@;
    assert(head =~= old(out)@ + "nu_protocol::Flag { long: "@ + owned_string_src(f.long@)
        + ", arg: "@ + opt_shape_src(f.arg) + ", desc: "@ + owned_string_src(f.desc@)
        + ", short: "@ + opt_char_src(f.short) + ", required: "@);
    if f.required {
        out.append("true");
    } else {
        out.append("false");
    }
    out.append(", default_value: ");
    let res = push_opt_value(out, &f.default_value);
    if let Err(k) = res {
        return Err(k);
    }
    out.append(", var_id: None }");
    assert(final(out)@ =~= head + bool_src(f.required) + ", default_value: "@ + opt_value_src(
        f.default_value,
    ) + ", var_id: None }"@);
    assert(final(out)@ =~= old(out)@ + flag_src(*f));
    Ok(())
}

fn push_positional(out: &mut String, p: &PositionalArg) -> (r: Result<(), UnsupportedKind>)
    ensures
        match opt_unsupported(p.default_value) {
            None => r is Ok && final(out)@ == old(out)@ + positional_src(*p),
            Some(k) => r == Err::<(), UnsupportedKind>(k),
        },
{
    out.append("nu_protocol::PositionalArg { name: ");
    push_owned_string(out, &p.name);
    out.append(", shape: ");
    push_shape(out, &p.shape);
    out.append(", desc: ");
    push_owned_string(out, &p.desc);
    out.append(", var_id: None, default_value: ");
    let res = push_opt_value(out, &p.default_value);
    if let Err(k) = res {
        return Err(k);
    }
    out.append(" }");
    assert(final(out)@ =~= old(out)@ + positional_src(*p));
    Ok(())
}

fn push_flags(out: &mut String, flags: &Vec<Flag>) -> (r: Result<(), UnsupportedKind>)
    ensures
        match flags_unsupported(flags@) {
            None => r is Ok && final(out)@ == old(out)@ + flags_src(flags@),
            Some(k) => r == Err::<(), UnsupportedKind>(k),
        },
{
    let ghost start = out@;
    let mut i: usize = 0;
    while i < flags.len()
        invariant
            i <= flags@.len(),
            flags_unsupported(flags@.subrange(0, i as int)) is None,
            out@ == start + flags_src(flags@.subrange(0, i as int)),
        decreases flags@.len() - i,
    {
        let ghost prefix = flags@.subrange(0, i as int);
        assert(flags@.subrange(0, i + 1).drop_last() =~= prefix);
        push_separator(out, i);
        let res = push_flag(out, &flags[i]);
        if let Err(k) = res {
            proof {
                lemma_flags_unsupported_prefix(flags@, i + 1);
            }
            return Err(k);
        }
        proof {
            lemma_joined_step(start, flags_src(prefix), i as int, flag_src(flags@[i as int]));
        }
        i = i + 1;
    }
    assert(flags@.subrange(0, flags@.len() as int) =~= flags@);
    Ok(())
}

fn push_positionals(out: &mut String, args: &Vec<PositionalArg>) -> (r: Result<
    (),
    UnsupportedKind,
>)
    ensures
        match positionals_unsupported(args@) {
            None => r is Ok && final(out)@ == old(out)@ + positionals_src(args@),
            Some(k) => r == Err::<(), UnsupportedKind>(k),
        },
{
    let ghost start = out@;
    let mut i: usize = 0;
    while i < args.len()
        invariant
            i <= args@.len(),
            positionals_unsupported(args@.subrange(0, i as int)) is None,
            out@ == start + positionals_src(args@.subrange(0, i as int)),
        decreases args@.len() - i,
    {
        let ghost prefix = args@.subrange(0, i as int);
        assert(args@.subrange(0, i + 1).drop_last() =~= prefix);
        push_separator(out, i);
        let res = push_positional(out, &args[i]);
        if let Err(k) = res {
            proof {
                lemma_positionals_unsupported_prefix(args@, i + 1);
            }
            return Err(k);
        }
        proof {
            lemma_joined_step(
                start,
                positionals_src(prefix),
                i as int,
                positional_src(args@[i as int]),
            );
        }
        i = i + 1;
    }
    assert(args@.subrange(0, args@.len() as int) =~= args@);
    Ok(())
}

fn push_io_types(out: &mut String, pairs: &Vec<(Type, Type)>)
    ensures
        final(out)@ == old(out)@ + io_types_src(pairs@),
{
    let ghost start = out@;
    let mut i: usize = 0;
    while i < pairs.len()
        invariant
            i <= pairs@.len(),
            out@ == start + io_types_src(pairs@.subrange(0, i as int)),
        decreases pairs@.len() - i,
    {
        let ghost prefix = pairs@.subrange(0, i as int);
        assert(pairs@.subrange(0, i + 1).drop_last() =~= prefix);
        push_separator(out, i);
        let ghost mid = out@;
        out.append("(");
        push_type(out, &pairs[i].0);
        out.append(", ");
        push_type(out, &pairs[i].1);
        out.append(")");
        let ghost item = "("@ + type_src(pairs@[i as int].0) + ", "@ + type_src(
            pairs@[i as int].1,
        ) + ")"@;
        assert(out@ =~= mid + item);
        proof {
            lemma_joined_step(start, io_types_src(prefix), i as int, item);
        }
        i = i + 1;
    }
    assert(pairs@.subrange(0, pairs@.len() as int) =~= pairs@);
}

/// Whether `p` is the rest parameter that the target adds by itself, and so is
/// not written out.
pub fn is_implicit_rest_positional(p: &PositionalArg) -> (r: bool)
    ensures
        r == is_implicit_rest(*p),
{
    let args = String::from_str("args");
    let desc = String::from_str("all other arguments to the command");
    p.name == args && p.desc == desc && matches!(p.shape, Shape::ExternalArgument)
        && p.default_value.is_none()
}

/// Appends `call`, the literal of `text` and `)`, when `text` is not empty.
fn push_text_call(out: &mut String, call: &str, text: &String)
    ensures
        final(out)@ == old(out)@ + when(text@.len() > 0, call@ + string_literal_of(text@) + ")"@),
{
    if text.unicode_len() > 0 {
        out.append(call);
        let lit = string_literal(text.as_str());
        out.append(lit.as_str());
        out.append(")");
    }
    assert(final(out)@ =~= old(out)@ + when(
        text@.len() > 0,
        call@ + string_literal_of(text@) + ")"@,
    ));
}

fn push_io_call(out: &mut String, pairs: &Vec<(Type, Type)>)
    ensures
        final(out)@ == old(out)@ + when(
            pairs@.len() > 0,
            ".input_output_types(vec!["@ + io_types_src(pairs@) + "])"@,
        ),
{
    if pairs.len() > 0 {
        out.append(".input_output_types(vec![");
        push_io_types(out, pairs);
        out.append("])");
    }
    assert(final(out)@ =~= old(out)@ + when(
        pairs@.len() > 0,
        ".input_output_types(vec!["@ + io_types_src(pairs@) + "])"@,
    ));
}

fn push_signature_head(out: &mut String, name: &str, sig: &Signature)
    ensures
        final(out)@ == old(out)@ + signature_head_src(name@, *sig),
{
    out.append("{ let mut sig = nu_protocol::Signature::build(");
    let lit = string_literal(name);
    out.append(lit.as_str());
    out.append(").category(nu_protocol::Category::Experimental)");
    let ghost base = out@;
    assert(base =~= old(out)@ + ("{ let mut sig = nu_protocol::Signature::build("@
        + string_literal_of(name@) + ").category(nu_protocol::Category::Experimental)"@));
    push_text_call(out, ".description(", &sig.description);
    push_text_call(out, ".extra_description(", &sig.extra_description);
    push_io_call(out, &sig.input_output_types);
    out.append("; ");
    assert(final(out)@ =~= old(out)@ + signature_head_src(name@, *sig));
}

fn push_named(out: &mut String, flags: &Vec<Flag>) -> (r: Result<(), UnsupportedKind>)
    ensures
        match flags_unsupported(flags@) {
            None => r is Ok && final(out)@ == old(out)@ + named_src(flags@),
            Some(k) => r == Err::<(), UnsupportedKind>(k),
        },
{
    if flags.len() > 0 {
        out.append("sig.named = vec![");
        let res = push_flags(out, flags);
        if let Err(k) = res {
            return Err(k);
        }
        out.append("]; ");
    }
    assert(final(out)@ =~= old(out)@ + when(
        flags@.len() > 0,
        "sig.named = vec!["@ + flags_src(flags@) + "]; "@,
    ));
    Ok(())
}

/// Appends `assignment`, the positional parameters and `]; `, when there are any.
fn push_positional_list(out: &mut String, assignment: &str, args: &Vec<PositionalArg>) -> (r: Result<
    (),
    UnsupportedKind,
>)
    ensures
        match positionals_unsupported(args@) {
            None => r is Ok && final(out)@ == old(out)@ + positional_list_src(assignment@, args@),
            Some(k) => r == Err::<(), UnsupportedKind>(k),
        },
{
    if args.len() > 0 {
        out.append(assignment);
        let res = push_positionals(out, args);
        if let Err(k) = res {
            return Err(k);
        }
        out.append("]; ");
    }
    assert(final(out)@ =~= old(out)@ + when(
        args@.len() > 0,
        assignment@ + positionals_src(args@) + "]; "@,
    ));
    Ok(())
}

fn push_rest(out: &mut String, rest: &Option<PositionalArg>) -> (r: Result<(), UnsupportedKind>)
    ensures
        match rest {
            Some(p) => if is_implicit_rest(*p) {
                r is Ok && final(out)@ == old(out)@
            } else {
                match opt_unsupported(p.default_value) {
                    None => r is Ok && final(out)@ == old(out)@ + rest_src(Some(*p)),
                    Some(k) => r == Err::<(), UnsupportedKind>(k),
                }
            },
            None => r is Ok && final(out)@ == old(out)@,
        },
{
    if let Some(p) = rest {
        if !is_implicit_rest_positional(p) {
            out.append("sig.rest_positional = Some(");
            let res = push_positional(out, p);
            if let Err(k) = res {
                return Err(k);
            }
            out.append("); ");
            assert(final(out)@ =~= old(out)@ + rest_src(Some(*p)));
        }
    }
    Ok(())
}

/// The source that rebuilds `sig` under the name `name`, as `signature_src`
/// gives it, or the first default value of a kind that has no source form.
pub fn build_signature(name: &str, sig: &Signature) -> (r: Result<String, SignatureError>)
    ensures
        match signature_unsupported(*sig) {
            None => r matches Ok(s) && s@ == signature_src(name@, *sig),
            Some(k) => r matches Err(e) && e == SignatureError::UnsupportedValue(k),
        },
{
    let mut out = String::new();
    push_signature_head(&mut out, name, sig);
    let ghost head = out@;
    if let Err(k) = push_named(&mut out, &sig.named) {
        return Err(SignatureError::UnsupportedValue(k));
    }
    let ghost after_named = out@;
    if let Err(k) = push_positional_list(
        &mut out,
        "sig.required_positional = vec![",
        &sig.required_positional,
    ) {
        return Err(SignatureError::UnsupportedValue(k));
    }
    let ghost after_required = out@;
    if let Err(k) = push_positional_list(
        &mut out,
        "sig.optional_positional = vec![",
        &sig.optional_positional,
    ) {
        return Err(SignatureError::UnsupportedValue(k));
    }
    let ghost after_optional = out@;
    if let Err(k) = push_rest(&mut out, &sig.rest_positional) {
        return Err(SignatureError::UnsupportedValue(k));
    }
    assert(out@ == after_optional + rest_src(emitted_rest(*sig)));
    out.append("sig }");
    Ok(out)
}

/// Whether an optional default value has a source form.
pub open spec fn opt_representable(v: Option<Value>) -> bool {
    match v {
        None => true,
        Some(v) => representable(v),
    }
}

/// Whether every default value of the signature has a source form.
pub open spec fn signature_representable(sig: Signature) -> bool {
    &&& forall|i: int|
        0 <= i < sig.named@.len() ==> opt_representable(#[trigger] sig.named@[i].default_value)
    &&& forall|i: int|
        0 <= i < sig.required_positional@.len() ==> opt_representable(
            #[trigger] sig.required_positional@[i].default_value,
        )
    &&& forall|i: int|
        0 <= i < sig.optional_positional@.len() ==> opt_representable(
            #[trigger] sig.optional_positional@[i].default_value,
        )
    &&& match sig.rest_positional {
        Some(p) => opt_representable(p.default_value),
        None => true,
    }
}

proof fn lemma_opt_unsupported_none(v: Option<Value>)
    ensures
        opt_unsupported(v) is None <==> opt_representable(v),
{
    if let Some(v) = v {
        lemma_first_unsupported_none(v);
    }
}

proof fn lemma_flags_unsupported_none(s: Seq<Flag>)
    ensures
        flags_unsupported(s) is None <==> forall|i: int|
            0 <= i < s.len() ==> opt_representable(#[trigger] s[i].default_value),
    decreases s.len(),
{
    if s.len() > 0 {
        let d = s.drop_last();
        lemma_flags_unsupported_none(d);
        lemma_opt_unsupported_none(s.last().default_value);
        if flags_unsupported(s) is None {
            assert forall|i: int| 0 <= i < s.len() implies opt_representable(
                #[trigger] s[i].default_value,
            ) by {
                if i < s.len() - 1 {
                    assert(d[i] == s[i]);
                }
            }
        }
        if forall|i: int| 0 <= i < s.len() ==> opt_representable(#[trigger] s[i].default_value) {
            assert forall|i: int| 0 <= i < d.len() implies opt_representable(
                #[trigger] d[i].default_value,
            ) by {
                assert(d[i] == s[i]);
                assert(opt_representable(s[i].default_value));
            }
            assert(opt_representable(s[s.len() - 1].default_value));
        }
    }
}

proof fn lemma_positionals_unsupported_none(s: Seq<PositionalArg>)
    ensures
        positionals_unsupported(s) is None <==> forall|i: int|
            0 <= i < s.len() ==> opt_representable(#[trigger] s[i].default_value),
    decreases s.len(),
{
    if s.len() > 0 {
        let d = s.drop_last();
        lemma_positionals_unsupported_none(d);
        lemma_opt_unsupported_none(s.last().default_value);
        if positionals_unsupported(s) is None {
            assert forall|i: int| 0 <= i < s.len() implies opt_representable(
                #[trigger] s[i].default_value,
            ) by {
                if i < s.len() - 1 {
                    assert(d[i] == s[i]);
                }
            }
        }
        if forall|i: int| 0 <= i < s.len() ==> opt_representable(#[trigger] s[i].default_value) {
            assert forall|i: int| 0 <= i < d.len() implies opt_representable(
                #[trigger] d[i].default_value,
            ) by {
                assert(d[i] == s[i]);
                assert(opt_representable(s[i].default_value));
            }
            assert(opt_representable(s[s.len() - 1].default_value));
        }
    }
}

/// A signature has no unsupported default value exactly when every default
/// value in it is representable.
pub proof fn lemma_signature_unsupported_none(sig: Signature)
    ensures
        signature_unsupported(sig) is None <==> signature_representable(sig),
{
    lemma_flags_unsupported_none(sig.named@);
    lemma_positionals_unsupported_none(sig.required_positional@);
    lemma_positionals_unsupported_none(sig.optional_positional@);
    if let Some(p) = sig.rest_positional {
        lemma_opt_unsupported_none(p.default_value);
    }
}

} // verus!
