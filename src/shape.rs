//! Lowering of shapes and types to the source that rebuilds them.
use vstd::prelude::*;
use crate::model::{Shape, Type};
use crate::text::{
    bytes_src, joined, lemma_joined_step, push_bytes, push_separator, string_literal,
    string_literal_of,
};

verus! {

/// `String::from("name")` for a field or column name.
pub open spec fn owned_string_src(name: Seq<char>) -> Seq<char> {
    "String::from("@ + string_literal_of(name) + ")"@
}

/// The source of a shape.
pub open spec fn shape_src(s: Shape) -> Seq<char>
    decreases s,
{
    match s {
        Shape::Any => "nu_protocol::SyntaxShape::Any"@,
        Shape::Binary => "nu_protocol::SyntaxShape::Binary"@,
        Shape::Block => "nu_protocol::SyntaxShape::Block"@,
        Shape::Boolean => "nu_protocol::SyntaxShape::Boolean"@,
        Shape::CellPath => "nu_protocol::SyntaxShape::CellPath"@,
        Shape::Closure(None) => "nu_protocol::SyntaxShape::Closure(None)"@,
        Shape::Closure(Some(args)) => "nu_protocol::SyntaxShape::Closure(Some(vec!["@
            + shapes_src(args@) + "]))"@,
        Shape::CompleterWrapper(inner) => "nu_protocol::SyntaxShape::CompleterWrapper(Box::new("@
            + shape_src(*inner) + "), Default::default())"@,
        Shape::DateTime => "nu_protocol::SyntaxShape::DateTime"@,
        Shape::Directory => "nu_protocol::SyntaxShape::Directory"@,
        Shape::Duration => "nu_protocol::SyntaxShape::Duration"@,
        Shape::Error => "nu_protocol::SyntaxShape::Error"@,
        Shape::Expression => "nu_protocol::SyntaxShape::Expression"@,
        Shape::ExternalArgument => "nu_protocol::SyntaxShape::ExternalArgument"@,
        Shape::Filepath => "nu_protocol::SyntaxShape::Filepath"@,
        Shape::Filesize => "nu_protocol::SyntaxShape::Filesize"@,
        Shape::Float => "nu_protocol::SyntaxShape::Float"@,
        Shape::FullCellPath => "nu_protocol::SyntaxShape::FullCellPath"@,
        Shape::GlobPattern => "nu_protocol::SyntaxShape::GlobPattern"@,
        Shape::Int => "nu_protocol::SyntaxShape::Int"@,
        Shape::ImportPattern => "nu_protocol::SyntaxShape::ImportPattern"@,
        Shape::Keyword(kw, inner) => "nu_protocol::SyntaxShape::Keyword(vec!["@ + bytes_src(kw@)
            + "], Box::new("@ + shape_src(*inner) + "))"@,
        Shape::List(inner) => "nu_protocol::SyntaxShape::List(Box::new("@ + shape_src(*inner)
            + "))"@,
        Shape::MathExpression => "nu_protocol::SyntaxShape::MathExpression"@,
        Shape::MatchBlock => "nu_protocol::SyntaxShape::MatchBlock"@,
        Shape::Nothing => "nu_protocol::SyntaxShape::Nothing"@,
        Shape::Number => "nu_protocol::SyntaxShape::Number"@,
        Shape::OneOf(alts) => "nu_protocol::SyntaxShape::OneOf(vec!["@ + shapes_src(alts@)
            + "])"@,
        Shape::Operator => "nu_protocol::SyntaxShape::Operator"@,
        Shape::Range => "nu_protocol::SyntaxShape::Range"@,
        Shape::Record(fields) => "nu_protocol::SyntaxShape::Record(vec!["@ + shape_fields_src(
            fields@,
        ) + "])"@,
        Shape::RowCondition => "nu_protocol::SyntaxShape::RowCondition"@,
        Shape::Signature => "nu_protocol::SyntaxShape::Signature"@,
        Shape::String => "nu_protocol::SyntaxShape::String"@,
        Shape::Table(columns) => "nu_protocol::SyntaxShape::Table(vec!["@ + shape_fields_src(
            columns@,
        ) + "])"@,
        Shape::VarWithOptType => "nu_protocol::SyntaxShape::VarWithOptType"@,
    }
}

/// The sources of shapes in order, separated by `", "`.
pub open spec fn shapes_src(s: Seq<Shape>) -> Seq<char>
    decreases s,
{
    if s.len() == 0 {
        Seq::empty()
    } else {
        joined(shapes_src(s.drop_last()), s.len() - 1, shape_src(s.last()))
    }
}

/// The sources of named shapes in order, each as `(String::from("name"), shape)`,
/// separated by `", "`.
pub open spec fn shape_fields_src(s: Seq<(String, Shape)>) -> Seq<char>
    decreases s,
{
    if s.len() == 0 {
        Seq::empty()
    } else {
        joined(
            shape_fields_src(s.drop_last()),
            s.len() - 1,
            "("@ + owned_string_src(s.last().0@) + ", "@ + shape_src(s.last().1) + ")"@,
        )
    }
}

/// The source of a type.
pub open spec fn type_src(t: Type) -> Seq<char>
    decreases t,
{
    match t {
        Type::Any => "nu_protocol::Type::Any"@,
        Type::Binary => "nu_protocol::Type::Binary"@,
        Type::Block => "nu_protocol::Type::Block"@,
        Type::Bool => "nu_protocol::Type::Bool"@,
        Type::CellPath => "nu_protocol::Type::CellPath"@,
        Type::Closure => "nu_protocol::Type::Closure"@,
        Type::Custom(name) => "nu_protocol::Type::Custom("@ + owned_string_src(name@)
            + ".into_boxed_str())"@,
        Type::Date => "nu_protocol::Type::Date"@,
        Type::Duration => "nu_protocol::Type::Duration"@,
        Type::Error => "nu_protocol::Type::Error"@,
        Type::Filesize => "nu_protocol::Type::Filesize"@,
        Type::Float => "nu_protocol::Type::Float"@,
        Type::Int => "nu_protocol::Type::Int"@,
        Type::List(inner) => "nu_protocol::Type::List(Box::new("@ + type_src(*inner) + "))"@,
        Type::ListStream => "nu_protocol::Type::ListStream"@,
        Type::Nothing => "nu_protocol::Type::Nothing"@,
        Type::Number => "nu_protocol::Type::Number"@,
        Type::Range => "nu_protocol::Type::Range"@,
        Type::Record(fields) => "nu_protocol::Type::Record(vec!["@ + type_fields_src(fields@)
            + "].into_boxed_slice())"@,
        Type::Signature => "nu_protocol::Type::Signature"@,
        Type::String => "nu_protocol::Type::String"@,
        Type::Table(columns) => "nu_protocol::Type::Table(vec!["@ + type_fields_src(columns@)
            + "].into_boxed_slice())"@,
        Type::Glob => "nu_protocol::Type::Glob"@,
    }
}

/// The sources of named types in order, each as `(String::from("name"), type)`,
/// separated by `", "`.
pub open spec fn type_fields_src(s: Seq<(String, Type)>) -> Seq<char>
    decreases s,
{
    if s.len() == 0 {
        Seq::empty()
    } else {
        joined(
            type_fields_src(s.drop_last()),
            s.len() - 1,
            "("@ + owned_string_src(s.last().0@) + ", "@ + type_src(s.last().1) + ")"@,
        )
    }
}

/// Appends `String::from("name")`.
pub(crate) fn push_owned_string(out: &mut String, name: &String)
    ensures
        final(out)@ == old(out)@ + owned_string_src(name@),
{
    out.append("String::from(");
    let lit = string_literal(name.as_str());
    out.append(lit.as_str());
    out.append(")");
    assert(final(out)@ =~= old(out)@ + owned_string_src(name@));
}

/// Appends the sources of `shapes`, separated by `", "`.
fn push_shapes(out: &mut String, shapes: &Vec<Shape>)
    ensures
        final(out)@ == old(out)@ + shapes_src(shapes@),
    decreases shapes, 0nat,
{
    let ghost start = out@;
    let mut i: usize = 0;
    while i < shapes.len()
        invariant
            i <= shapes@.len(),
            out@ == start + shapes_src(shapes@.subrange(0, i as int)),
        decreases shapes@.len() - i,
    {
        let ghost before = out@;
        let ghost prefix = shapes@.subrange(0, i as int);
        let ghost next = shapes@.subrange(0, i + 1);
        assert(next.drop_last() =~= prefix);
        push_separator(out, i);
        proof {
            assert(decreases_to!(shapes => shapes@[i as int]));
        }
        push_shape(out, &shapes[i]);
        proof {
            lemma_joined_step(start, shapes_src(prefix), i as int, shape_src(shapes@[i as int]));
        }
        i = i + 1;
    }
    assert(shapes@.subrange(0, shapes@.len() as int) =~= shapes@);
}

/// Appends the sources of named shapes, each as `(String::from("name"), shape)`.
fn push_shape_fields(out: &mut String, fields: &Vec<(String, Shape)>)
    ensures
        final(out)@ == old(out)@ + shape_fields_src(fields@),
    decreases fields, 0nat,
{
    let ghost start = out@;
    let mut i: usize = 0;
    while i < fields.len()
        invariant
            i <= fields@.len(),
            out@ == start + shape_fields_src(fields@.subrange(0, i as int)),
        decreases fields@.len() - i,
    {
        let ghost prefix = fields@.subrange(0, i as int);
        let ghost next = fields@.subrange(0, i + 1);
        assert(next.drop_last() =~= prefix);
        push_separator(out, i);
        let ghost mid = out@;
        out.append("(");
        push_owned_string(out, &fields[i].0);
        out.append(", ");
        proof {
            assert(decreases_to!(fields => fields@[i as int].1));
        }
        push_shape(out, &fields[i].1);
        out.append(")");
        let ghost item = "("@ + owned_string_src(fields@[i as int].0@) + ", "@ + shape_src(
            fields@[i as int].1,
        ) + ")"@;
        assert(out@ =~= mid + item);
        proof {
            lemma_joined_step(start, shape_fields_src(prefix), i as int, item);
        }
        i = i + 1;
    }
    assert(fields@.subrange(0, fields@.len() as int) =~= fields@);
}

/// Appends the source of `shape`.
pub(crate) fn push_shape(out: &mut String, shape: &Shape)
    ensures
        final(out)@ == old(out)@ + shape_src(*shape),
    decreases shape, 1nat,
{
    let ghost start = out@;
    match shape {
        Shape::Any => out.append("nu_protocol::SyntaxShape::Any"),
        Shape::Binary => out.append("nu_protocol::SyntaxShape::Binary"),
        Shape::Block => out.append("nu_protocol::SyntaxShape::Block"),
        Shape::Boolean => out.append("nu_protocol::SyntaxShape::Boolean"),
        Shape::CellPath => out.append("nu_protocol::SyntaxShape::CellPath"),
        Shape::Closure(None) => out.append("nu_protocol::SyntaxShape::Closure(None)"),
        Shape::Closure(Some(args)) => {
            out.append("nu_protocol::SyntaxShape::Closure(Some(vec![");
            push_shapes(out, args);
            out.append("]))");
            assert(out@ =~= start + shape_src(*shape));
        },
        Shape::CompleterWrapper(inner) => {
            out.append("nu_protocol::SyntaxShape::CompleterWrapper(Box::new(");
            push_shape(out, inner);
            out.append("), Default::default())");
            assert(out@ =~= start + shape_src(*shape));
        },
        Shape::DateTime => out.append("nu_protocol::SyntaxShape::DateTime"),
        Shape::Directory => out.append("nu_protocol::SyntaxShape::Directory"),
        Shape::Duration => out.append("nu_protocol::SyntaxShape::Duration"),
        Shape::Error => out.append("nu_protocol::SyntaxShape::Error"),
        Shape::Expression => out.append("nu_protocol::SyntaxShape::Expression"),
        Shape::ExternalArgument => out.append("nu_protocol::SyntaxShape::ExternalArgument"),
        Shape::Filepath => out.append("nu_protocol::SyntaxShape::Filepath"),
        Shape::Filesize => out.append("nu_protocol::SyntaxShape::Filesize"),
        Shape::Float => out.append("nu_protocol::SyntaxShape::Float"),
        Shape::FullCellPath => out.append("nu_protocol::SyntaxShape::FullCellPath"),
        Shape::GlobPattern => out.append("nu_protocol::SyntaxShape::GlobPattern"),
        Shape::Int => out.append("nu_protocol::SyntaxShape::Int"),
        Shape::ImportPattern => out.append("nu_protocol::SyntaxShape::ImportPattern"),
        Shape::Keyword(kw, inner) => {
            out.append("nu_protocol::SyntaxShape::Keyword(vec![");
            push_bytes(out, kw);
            out.append("], Box::new(");
            push_shape(out, inner);
            out.append("))");
            assert(out@ =~= start + shape_src(*shape));
        },
        Shape::List(inner) => {
            out.append("nu_protocol::SyntaxShape::List(Box::new(");
            push_shape(out, inner);
            out.append("))");
            assert(out@ =~= start + shape_src(*shape));
        },
        Shape::MathExpression => out.append("nu_protocol::SyntaxShape::MathExpression"),
        Shape::MatchBlock => out.append("nu_protocol::SyntaxShape::MatchBlock"),
        Shape::Nothing => out.append("nu_protocol::SyntaxShape::Nothing"),
        Shape::Number => out.append("nu_protocol::SyntaxShape::Number"),
        Shape::OneOf(alts) => {
            out.append("nu_protocol::SyntaxShape::OneOf(vec![");
            push_shapes(out, alts);
            out.append("])");
            assert(out@ =~= start + shape_src(*shape));
        },
        Shape::Operator => out.append("nu_protocol::SyntaxShape::Operator"),
        Shape::Range => out.append("nu_protocol::SyntaxShape::Range"),
        Shape::Record(fields) => {
            out.append("nu_protocol::SyntaxShape::Record(vec![");
            push_shape_fields(out, fields);
            out.append("])");
            assert(out@ =~= start + shape_src(*shape));
        },
        Shape::RowCondition => out.append("nu_protocol::SyntaxShape::RowCondition"),
        Shape::Signature => out.append("nu_protocol::SyntaxShape::Signature"),
        Shape::String => out.append("nu_protocol::SyntaxShape::String"),
        Shape::Table(columns) => {
            out.append("nu_protocol::SyntaxShape::Table(vec![");
            push_shape_fields(out, columns);
            out.append("])");
            assert(out@ =~= start + shape_src(*shape));
        },
        Shape::VarWithOptType => out.append("nu_protocol::SyntaxShape::VarWithOptType"),
    }
}

/// Appends the sources of named types, each as `(String::from("name"), type)`.
fn push_type_fields(out: &mut String, fields: &Vec<(String, Type)>)
    ensures
        final(out)@ == old(out)@ + type_fields_src(fields@),
    decreases fields, 0nat,
{
    let ghost start = out@;
    let mut i: usize = 0;
    while i < fields.len()
        invariant
            i <= fields@.len(),
            out@ == start + type_fields_src(fields@.subrange(0, i as int)),
        decreases fields@.len() - i,
    {
        let ghost prefix = fields@.subrange(0, i as int);
        let ghost next = fields@.subrange(0, i + 1);
        assert(next.drop_last() =~= prefix);
        push_separator(out, i);
        let ghost mid = out@;
        out.append("(");
        push_owned_string(out, &fields[i].0);
        out.append(", ");
        proof {
            assert(decreases_to!(fields => fields@[i as int].1));
        }
        push_type(out, &fields[i].1);
        out.append(")");
        let ghost item = "("@ + owned_string_src(fields@[i as int].0@) + ", "@ + type_src(
            fields@[i as int].1,
        ) + ")"@;
        assert(out@ =~= mid + item);
        proof {
            lemma_joined_step(start, type_fields_src(prefix), i as int, item);
        }
        i = i + 1;
    }
    assert(fields@.subrange(0, fields@.len() as int) =~= fields@);
}

/// Appends the source of `ty`.
pub(crate) fn push_type(out: &mut String, ty: &Type)
    ensures
        final(out)@ == old(out)@ + type_src(*ty),
    decreases ty, 1nat,
{
    let ghost start = out@;
    match ty {
        Type::Any => out.append("nu_protocol::Type::Any"),
        Type::Binary => out.append("nu_protocol::Type::Binary"),
        Type::Block => out.append("nu_protocol::Type::Block"),
        Type::Bool => out.append("nu_protocol::Type::Bool"),
        Type::CellPath => out.append("nu_protocol::Type::CellPath"),
        Type::Closure => out.append("nu_protocol::Type::Closure"),
        Type::Custom(name) => {
            out.append("nu_protocol::Type::Custom(");
            push_owned_string(out, name);
            out.append(".into_boxed_str())");
            assert(out@ =~= start + type_src(*ty));
        },
        Type::Date => out.append("nu_protocol::Type::Date"),
        Type::Duration => out.append("nu_protocol::Type::Duration"),
        Type::Error => out.append("nu_protocol::Type::Error"),
        Type::Filesize => out.append("nu_protocol::Type::Filesize"),
        Type::Float => out.append("nu_protocol::Type::Float"),
        Type::Int => out.append("nu_protocol::Type::Int"),
        Type::List(inner) => {
            out.append("nu_protocol::Type::List(Box::new(");
            push_type(out, inner);
            out.append("))");
            assert(out@ =~= start + type_src(*ty));
        },
        Type::ListStream => out.append("nu_protocol::Type::ListStream"),
        Type::Nothing => out.append("nu_protocol::Type::Nothing"),
        Type::Number => out.append("nu_protocol::Type::Number"),
        Type::Range => out.append("nu_protocol::Type::Range"),
        Type::Record(fields) => {
            out.append("nu_protocol::Type::Record(vec![");
            push_type_fields(out, fields);
            out.append("].into_boxed_slice())");
            assert(out@ =~= start + type_src(*ty));
        },
        Type::Signature => out.append("nu_protocol::Type::Signature"),
        Type::String => out.append("nu_protocol::Type::String"),
        Type::Table(columns) => {
            out.append("nu_protocol::Type::Table(vec![");
            push_type_fields(out, columns);
            out.append("].into_boxed_slice())");
            assert(out@ =~= start + type_src(*ty));
        },
        Type::Glob => out.append("nu_protocol::Type::Glob"),
    }
}

/// The source that rebuilds `shape` as a `nu_protocol::SyntaxShape`.
pub fn shape_to_token(shape: &Shape) -> (r: String)
    ensures
        r@ == shape_src(*shape),
{
    let mut out = String::new();
    push_shape(&mut out, shape);
    assert(out@ =~= shape_src(*shape));
    out
}

/// The source that rebuilds `ty` as a `nu_protocol::Type`.
pub fn type_to_token(ty: &Type) -> (r: String)
    ensures
        r@ == type_src(*ty),
{
    let mut out = String::new();
    push_type(&mut out, ty);
    assert(out@ =~= type_src(*ty));
    out
}

} // verus!
