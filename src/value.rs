//! Lowering of values to the source that rebuilds them.
use vstd::prelude::*;
use crate::error::UnsupportedKind;
use crate::model::{CalendarFields, DateParts, PathMember, RangeEnd, RangeValue, Value};
use crate::shape::{owned_string_src, push_owned_string};
use crate::text::{
    bytes_src, decimal, joined, lemma_joined_step, push_bytes, push_decimal, push_separator,
    push_signed_decimal, signed_decimal,
};

verus! {

/// `nu_protocol::Span::unknown()`, the span of every rebuilt value.
pub open spec fn span_src() -> Seq<char> {
    "nu_protocol::Span::unknown()"@
}

pub open spec fn bool_src(b: bool) -> Seq<char> {
    if b {
        "true"@
    } else {
        "false"@
    }
}

/// An `i64` literal with its suffix.
pub open spec fn i64_src(i: i64) -> Seq<char> {
    signed_decimal(i as int) + "i64"@
}

/// `nu_protocol::Value::int(i, span)`.
pub open spec fn int_value_src(i: i64) -> Seq<char> {
    "nu_protocol::Value::int("@ + i64_src(i) + ", "@ + span_src() + ")"@
}

/// `nu_protocol::Value::float(f, span)`, with the float rebuilt from its exact bits.
pub open spec fn float_value_src(bits: u64) -> Seq<char> {
    "nu_protocol::Value::float(f64::from_bits("@ + decimal(bits as nat) + "u64), "@ + span_src()
        + ")"@
}

/// The end value and inclusion of an integer range; an unbounded end is
/// written as nothing, inclusive.
pub open spec fn int_end_src(end: RangeEnd<i64>) -> Seq<char> {
    match end {
        RangeEnd::Included(e) => int_value_src(e) + ", nu_protocol::ast::RangeInclusion::Inclusive"@,
        RangeEnd::Excluded(e) => int_value_src(e)
            + ", nu_protocol::ast::RangeInclusion::RightExclusive"@,
        RangeEnd::Unbounded => "nu_protocol::Value::nothing("@ + span_src()
            + "), nu_protocol::ast::RangeInclusion::Inclusive"@,
    }
}

/// The end value and inclusion of a float range; an unbounded end is written
/// as nothing, inclusive.
pub open spec fn float_end_src(end: RangeEnd<u64>) -> Seq<char> {
    match end {
        RangeEnd::Included(e) => float_value_src(e)
            + ", nu_protocol::ast::RangeInclusion::Inclusive"@,
        RangeEnd::Excluded(e) => float_value_src(e)
            + ", nu_protocol::ast::RangeInclusion::RightExclusive"@,
        RangeEnd::Unbounded => "nu_protocol::Value::nothing("@ + span_src()
            + "), nu_protocol::ast::RangeInclusion::Inclusive"@,
    }
}

pub open spec fn range_src(r: RangeValue) -> Seq<char> {
    match r {
        RangeValue::Int { start, step, end } =>
            "nu_protocol::Value::range(nu_protocol::Range::IntRange(nu_protocol::IntRange::new("@
                + int_value_src(start) + ", "@ + int_value_src(step) + ", "@ + int_end_src(end)
                + ", "@ + span_src() + ").unwrap()), "@ + span_src() + ")"@,
        RangeValue::Float { start, step, end } =>
            "nu_protocol::Value::range(nu_protocol::Range::FloatRange(nu_protocol::FloatRange::new("@
                + float_value_src(start) + ", "@ + float_value_src(step) + ", "@ + float_end_src(
                end,
            ) + ", "@ + span_src() + ").unwrap()), "@ + span_src() + ")"@,
    }
}

/// A date rebuilt in two steps: the naive calendar timestamp, then its fixed offset.
pub open spec fn date_src(d: CalendarFields) -> Seq<char> {
    "nu_protocol::Value::date(chrono::NaiveDate::from_ymd_opt("@ + signed_decimal(d.year as int)
        + ", "@ + decimal(d.month as nat) + ", "@ + decimal(d.day as nat)
        + ").unwrap().and_hms_nano_opt("@ + decimal(d.hour as nat) + ", "@ + decimal(
        d.minute as nat,
    ) + ", "@ + decimal(d.second as nat) + ", "@ + decimal(d.nanosecond as nat)
        + ").unwrap().and_local_timezone(chrono::FixedOffset::east_opt("@ + signed_decimal(
        d.offset_seconds as int,
    ) + ").unwrap()).unwrap(), "@ + span_src() + ")"@
}

pub open spec fn member_src(m: PathMember) -> Seq<char> {
    match m {
        PathMember::String { val, optional } => "nu_protocol::ast::PathMember::string("@
            + owned_string_src(val@) + ", "@ + bool_src(optional) + ", "@ + span_src() + ")"@,
        PathMember::Int { val, optional } => "nu_protocol::ast::PathMember::int("@ + decimal(
            val as nat,
        ) + "usize, "@ + bool_src(optional) + ", "@ + span_src() + ")"@,
    }
}

/// The members of a cell path in order, separated by `", "`.
pub open spec fn members_src(s: Seq<PathMember>) -> Seq<char>
    decreases s.len(),
{
    if s.len() == 0 {
        Seq::empty()
    } else {
        joined(members_src(s.drop_last()), s.len() - 1, member_src(s.last()))
    }
}

/// The column names of a record as `String::from("name")`, separated by `", "`.
pub open spec fn column_names_src(s: Seq<(String, Value)>) -> Seq<char>
    decreases s.len(),
{
    if s.len() == 0 {
        Seq::empty()
    } else {
        joined(column_names_src(s.drop_last()), s.len() - 1, owned_string_src(s.last().0@))
    }
}

/// The source of a value; the three unsupported kinds have none and give the
/// empty text here, which is never emitted.
pub open spec fn value_src(v: Value) -> Seq<char>
    decreases v,
{
    match v {
        Value::Bool(b) => "nu_protocol::Value::bool("@ + bool_src(b) + ", "@ + span_src() + ")"@,
        Value::Int(i) => int_value_src(i),
        Value::Float(bits) => float_value_src(bits),
        Value::Filesize(i) => "nu_protocol::Value::filesize("@ + i64_src(i) + ", "@ + span_src()
            + ")"@,
        Value::Duration(i) => "nu_protocol::Value::duration("@ + i64_src(i) + ", "@ + span_src()
            + ")"@,
        Value::Date(d) => date_src(d@),
        Value::Range(r) => range_src(r),
        Value::String(s) => "nu_protocol::Value::string("@ + owned_string_src(s@) + ", "@
            + span_src() + ")"@,
        Value::Glob(s, no_expand) => "nu_protocol::Value::glob("@ + owned_string_src(s@) + ", "@
            + bool_src(no_expand) + ", "@ + span_src() + ")"@,
        Value::Record(columns) =>
            "nu_protocol::Value::record(nu_protocol::Record::from_raw_cols_vals(vec!["@
                + column_names_src(columns@) + "], vec!["@ + column_values_src(columns@) + "], "@
                + span_src() + ", "@ + span_src() + ").unwrap(), "@ + span_src() + ")"@,
        Value::List(vals) => "nu_protocol::Value::list(vec!["@ + values_src(vals@) + "], "@
            + span_src() + ")"@,
        Value::Nothing => "nu_protocol::Value::nothing("@ + span_src() + ")"@,
        Value::Binary(bytes) => "nu_protocol::Value::binary(vec!["@ + bytes_src(bytes@) + "], "@
            + span_src() + ")"@,
        Value::CellPath(members) =>
            "nu_protocol::Value::cell_path(nu_protocol::ast::CellPath { members: vec!["@
                + members_src(members@) + "] }, "@ + span_src() + ")"@,
        Value::Closure | Value::Error | Value::Custom => Seq::empty(),
    }
}

/// The sources of values in order, separated by `", "`.
pub open spec fn values_src(s: Seq<Value>) -> Seq<char>
    decreases s,
{
    if s.len() == 0 {
        Seq::empty()
    } else {
        joined(values_src(s.drop_last()), s.len() - 1, value_src(s.last()))
    }
}

/// The sources of the values of record columns in order, separated by `", "`.
pub open spec fn column_values_src(s: Seq<(String, Value)>) -> Seq<char>
    decreases s,
{
    if s.len() == 0 {
        Seq::empty()
    } else {
        joined(column_values_src(s.drop_last()), s.len() - 1, value_src(s.last().1))
    }
}

/// The first value of an unsupported kind met when `v` is written out, if any.
pub open spec fn first_unsupported(v: Value) -> Option<UnsupportedKind>
    decreases v,
{
    match v {
        Value::Closure => Some(UnsupportedKind::Closure),
        Value::Error => Some(UnsupportedKind::Error),
        Value::Custom => Some(UnsupportedKind::Custom),
        Value::Record(columns) => first_unsupported_in_columns(columns@),
        Value::List(vals) => first_unsupported_in(vals@),
        _ => None,
    }
}

/// The first value of an unsupported kind met in `s`, left to right.
pub open spec fn first_unsupported_in(s: Seq<Value>) -> Option<UnsupportedKind>
    decreases s,
{
    if s.len() == 0 {
        None
    } else {
        match first_unsupported_in(s.drop_last()) {
            Some(k) => Some(k),
            None => first_unsupported(s.last()),
        }
    }
}

/// The first value of an unsupported kind met in the values of `s`, left to right.
pub open spec fn first_unsupported_in_columns(s: Seq<(String, Value)>) -> Option<UnsupportedKind>
    decreases s,
{
    if s.len() == 0 {
        None
    } else {
        match first_unsupported_in_columns(s.drop_last()) {
            Some(k) => Some(k),
            None => first_unsupported(s.last().1),
        }
    }
}

/// Whether `v` and every value nested in it has a source form: no closure,
/// error or custom value anywhere in it.
pub open spec fn representable(v: Value) -> bool
    decreases v,
{
    match v {
        Value::Closure | Value::Error | Value::Custom => false,
        Value::Record(columns) => all_columns_representable(columns@),
        Value::List(vals) => all_representable(vals@),
        _ => true,
    }
}

/// Whether every value of `s` is representable.
pub open spec fn all_representable(s: Seq<Value>) -> bool
    decreases s,
{
    s.len() == 0 || (all_representable(s.drop_last()) && representable(s.last()))
}

/// Whether the value of every column of `s` is representable.
pub open spec fn all_columns_representable(s: Seq<(String, Value)>) -> bool
    decreases s,
{
    s.len() == 0 || (all_columns_representable(s.drop_last()) && representable(s.last().1))
}

/// Once an unsupported value is met in a prefix, it is the first one of the whole.
proof fn lemma_first_unsupported_prefix(s: Seq<Value>, n: int)
    requires
        0 <= n <= s.len(),
        first_unsupported_in(s.subrange(0, n)) is Some,
    ensures
        first_unsupported_in(s) == first_unsupported_in(s.subrange(0, n)),
    decreases s.len(),
{
    if n == s.len() {
        assert(s.subrange(0, n) =~= s);
    } else {
        assert(s.drop_last().subrange(0, n) =~= s.subrange(0, n));
        lemma_first_unsupported_prefix(s.drop_last(), n);
    }
}

/// Once an unsupported value is met in a prefix of columns, it is the first one
/// of the whole.
proof fn lemma_first_unsupported_columns_prefix(s: Seq<(String, Value)>, n: int)
    requires
        0 <= n <= s.len(),
        first_unsupported_in_columns(s.subrange(0, n)) is Some,
    ensures
        first_unsupported_in_columns(s) == first_unsupported_in_columns(s.subrange(0, n)),
    decreases s.len(),
{
    if n == s.len() {
        assert(s.subrange(0, n) =~= s);
    } else {
        assert(s.drop_last().subrange(0, n) =~= s.subrange(0, n));
        lemma_first_unsupported_columns_prefix(s.drop_last(), n);
    }
}

fn push_span(out: &mut String)
    ensures
        final(out)@ == old(out)@ + span_src(),
{
    out.append("nu_protocol::Span::unknown()");
}

fn push_bool(out: &mut String, b: bool)
    ensures
        final(out)@ == old(out)@ + bool_src(b),
{
    if b {
        out.append("true");
    } else {
        out.append("false");
    }
}

fn push_i64(out: &mut String, i: i64)
    ensures
        final(out)@ == old(out)@ + i64_src(i),
{
    push_signed_decimal(out, i);
    out.append("i64");
    assert(final(out)@ =~= old(out)@ + i64_src(i));
}

fn push_int_value(out: &mut String, i: i64)
    ensures
        final(out)@ == old(out)@ + int_value_src(i),
{
    out.append("nu_protocol::Value::int(");
    push_i64(out, i);
    out.append(", ");
    push_span(out);
    out.append(")");
    assert(final(out)@ =~= old(out)@ + int_value_src(i));
}

fn push_float_value(out: &mut String, bits: u64)
    ensures
        final(out)@ == old(out)@ + float_value_src(bits),
{
    out.append("nu_protocol::Value::float(f64::from_bits(");
    push_decimal(out, bits);
    out.append("u64), ");
    push_span(out);
    out.append(")");
    assert(final(out)@ =~= old(out)@ + float_value_src(bits));
}

fn push_int_end(out: &mut String, end: &RangeEnd<i64>)
    ensures
        final(out)@ == old(out)@ + int_end_src(*end),
{
    match end {
        RangeEnd::Included(e) => {
            push_int_value(out, *e);
            out.append(", nu_protocol::ast::RangeInclusion::Inclusive");
        },
        RangeEnd::Excluded(e) => {
            push_int_value(out, *e);
            out.append(", nu_protocol::ast::RangeInclusion::RightExclusive");
        },
        RangeEnd::Unbounded => {
            out.append("nu_protocol::Value::nothing(");
            push_span(out);
            out.append("), nu_protocol::ast::RangeInclusion::Inclusive");
        },
    }
    assert(final(out)@ =~= old(out)@ + int_end_src(*end));
}

fn push_float_end(out: &mut String, end: &RangeEnd<u64>)
    ensures
        final(out)@ == old(out)@ + float_end_src(*end),
{
    match end {
        RangeEnd::Included(e) => {
            push_float_value(out, *e);
            out.append(", nu_protocol::ast::RangeInclusion::Inclusive");
        },
        RangeEnd::Excluded(e) => {
            push_float_value(out, *e);
            out.append(", nu_protocol::ast::RangeInclusion::RightExclusive");
        },
        RangeEnd::Unbounded => {
            out.append("nu_protocol::Value::nothing(");
            push_span(out);
            out.append("), nu_protocol::ast::RangeInclusion::Inclusive");
        },
    }
    assert(final(out)@ =~= old(out)@ + float_end_src(*end));
}

fn push_range(out: &mut String, r: &RangeValue)
    ensures
        final(out)@ == old(out)@ + range_src(*r),
{
    match r {
        RangeValue::Int { start, step, end } => {
            out.append(
                "nu_protocol::Value::range(nu_protocol::Range::IntRange(nu_protocol::IntRange::new(",
            );
            push_int_value(out, *start);
            out.append(", ");
            push_int_value(out, *step);
            out.append(", ");
            push_int_end(out, end);
        },
        RangeValue::Float { start, step, end } => {
            out.append(
                "nu_protocol::Value::range(nu_protocol::Range::FloatRange(nu_protocol::FloatRange::new(",
            );
            push_float_value(out, *start);
            out.append(", ");
            push_float_value(out, *step);
            out.append(", ");
            push_float_end(out, end);
        },
    }
    out.append(", ");
    push_span(out);
    out.append(").unwrap()), ");
    push_span(out);
    out.append(")");
    assert(final(out)@ =~= old(out)@ + range_src(*r));
}

fn push_date(out: &mut String, date: &DateParts)
    ensures
        final(out)@ == old(out)@ + date_src(date@),
{
    push_calendar_fields(out, date.fields());
}

fn push_calendar_fields(out: &mut String, d: CalendarFields)
    ensures
        final(out)@ == old(out)@ + date_src(d),
{
    out.append("nu_protocol::Value::date(chrono::NaiveDate::from_ymd_opt(");
    push_signed_decimal(out, d.year as i64);
    out.append(", ");
    push_decimal(out, d.month as u64);
    out.append(", ");
    push_decimal(out, d.day as u64);
    out.append(").unwrap().and_hms_nano_opt(");
    push_decimal(out, d.hour as u64);
    out.append(", ");
    push_decimal(out, d.minute as u64);
    out.append(", ");
    push_decimal(out, d.second as u64);
    out.append(", ");
    push_decimal(out, d.nanosecond as u64);
    out.append(").unwrap().and_local_timezone(chrono::FixedOffset::east_opt(");
    push_signed_decimal(out, d.offset_seconds as i64);
    out.append(").unwrap()).unwrap(), ");
    push_span(out);
    out.append(")");
    assert(final(out)@ =~= old(out)@ + date_src(d));
}

fn push_member(out: &mut String, m: &PathMember)
    ensures
        final(out)@ == old(out)@ + member_src(*m),
{
    match m {
        PathMember::String { val, optional } => {
            out.append("nu_protocol::ast::PathMember::string(");
            push_owned_string(out, val);
            out.append(", ");
            push_bool(out, *optional);
        },
        PathMember::Int { val, optional } => {
            out.append("nu_protocol::ast::PathMember::int(");
            push_decimal(out, *val as u64);
            out.append("usize, ");
            push_bool(out, *optional);
        },
    }
    out.append(", ");
    push_span(out);
    out.append(")");
    assert(final(out)@ =~= old(out)@ + member_src(*m));
}

fn push_members(out: &mut String, members: &Vec<PathMember>)
    ensures
        final(out)@ == old(out)@ + members_src(members@),
{
    let ghost start = out@;
    let mut i: usize = 0;
    while i < members.len()
        invariant
            i <= members@.len(),
            out@ == start + members_src(members@.subrange(0, i as int)),
        decreases members@.len() - i,
    {
        let ghost prefix = members@.subrange(0, i as int);
        assert(members@.subrange(0, i + 1).drop_last() =~= prefix);
        push_separator(out, i);
        push_member(out, &members[i]);
        proof {
            lemma_joined_step(start, members_src(prefix), i as int, member_src(members@[i as int]));
        }
        i = i + 1;
    }
    assert(members@.subrange(0, members@.len() as int) =~= members@);
}

fn push_column_names(out: &mut String, columns: &Vec<(String, Value)>)
    ensures
        final(out)@ == old(out)@ + column_names_src(columns@),
{
    let ghost start = out@;
    let mut i: usize = 0;
    while i < columns.len()
        invariant
            i <= columns@.len(),
            out@ == start + column_names_src(columns@.subrange(0, i as int)),
        decreases columns@.len() - i,
    {
        let ghost prefix = columns@.subrange(0, i as int);
        assert(columns@.subrange(0, i + 1).drop_last() =~= prefix);
        push_separator(out, i);
        push_owned_string(out, &columns[i].0);
        proof {
            lemma_joined_step(
                start,
                column_names_src(prefix),
                i as int,
                owned_string_src(columns@[i as int].0@),
            );
        }
        i = i + 1;
    }
    assert(columns@.subrange(0, columns@.len() as int) =~= columns@);
}

/// Appends the sources of `vals`, or stops at the first unsupported value.
fn push_values(out: &mut String, vals: &Vec<Value>) -> (r: Result<(), UnsupportedKind>)
    ensures
        match first_unsupported_in(vals@) {
            None => r is Ok && final(out)@ == old(out)@ + values_src(vals@),
            Some(k) => r == Err::<(), UnsupportedKind>(k),
        },
    decreases vals, 0nat,
{
    let ghost start = out@;
    let mut i: usize = 0;
    while i < vals.len()
        invariant
            i <= vals@.len(),
            first_unsupported_in(vals@.subrange(0, i as int)) is None,
            out@ == start + values_src(vals@.subrange(0, i as int)),
        decreases vals@.len() - i,
    {
        let ghost prefix = vals@.subrange(0, i as int);
        let ghost next = vals@.subrange(0, i + 1);
        assert(next.drop_last() =~= prefix);
        push_separator(out, i);
        proof {
            assert(decreases_to!(vals => vals@[i as int]));
        }
        match push_value(out, &vals[i]) {
            Err(k) => {
                proof {
                    lemma_first_unsupported_prefix(vals@, i + 1);
                }
                return Err(k);
            },
            Ok(()) => {},
        }
        proof {
            lemma_joined_step(start, values_src(prefix), i as int, value_src(vals@[i as int]));
        }
        i = i + 1;
    }
    assert(vals@.subrange(0, vals@.len() as int) =~= vals@);
    Ok(())
}

/// Appends the sources of the column values, or stops at the first unsupported value.
fn push_column_values(out: &mut String, columns: &Vec<(String, Value)>) -> (r: Result<
    (),
    UnsupportedKind,
>)
    ensures
        match first_unsupported_in_columns(columns@) {
            None => r is Ok && final(out)@ == old(out)@ + column_values_src(columns@),
            Some(k) => r == Err::<(), UnsupportedKind>(k),
        },
    decreases columns, 0nat,
{
    let ghost start = out@;
    let mut i: usize = 0;
    while i < columns.len()
        invariant
            i <= columns@.len(),
            first_unsupported_in_columns(columns@.subrange(0, i as int)) is None,
            out@ == start + column_values_src(columns@.subrange(0, i as int)),
        decreases columns@.len() - i,
    {
        let ghost prefix = columns@.subrange(0, i as int);
        let ghost next = columns@.subrange(0, i + 1);
        assert(next.drop_last() =~= prefix);
        push_separator(out, i);
        proof {
            assert(decreases_to!(columns => columns@[i as int].1));
        }
        match push_value(out, &columns[i].1) {
            Err(k) => {
                proof {
                    lemma_first_unsupported_columns_prefix(columns@, i + 1);
                }
                return Err(k);
            },
            Ok(()) => {},
        }
        proof {
            lemma_joined_step(
                start,
                column_values_src(prefix),
                i as int,
                value_src(columns@[i as int].1),
            );
        }
        i = i + 1;
    }
    assert(columns@.subrange(0, columns@.len() as int) =~= columns@);
    Ok(())
}

/// Appends the source of `v`, or reports the first unsupported value in it.
#[verifier::rlimit(50)]
pub(crate) fn push_value(out: &mut String, v: &Value) -> (r: Result<(), UnsupportedKind>)
    ensures
        match first_unsupported(*v) {
            None => r is Ok && final(out)@ == old(out)@ + value_src(*v),
            Some(k) => r == Err::<(), UnsupportedKind>(k),
        },
    decreases v, 1nat,
{
    let ghost start = out@;
    match v {
        Value::Bool(b) => {
            out.append("nu_protocol::Value::bool(");
            push_bool(out, *b);
            out.append(", ");
            push_span(out);
            out.append(")");
        },
        Value::Int(i) => push_int_value(out, *i),
        Value::Float(bits) => push_float_value(out, *bits),
        Value::Filesize(i) => {
            out.append("nu_protocol::Value::filesize(");
            push_i64(out, *i);
            out.append(", ");
            push_span(out);
            out.append(")");
        },
        Value::Duration(i) => {
            out.append("nu_protocol::Value::duration(");
            push_i64(out, *i);
            out.append(", ");
            push_span(out);
            out.append(")");
        },
        Value::Date(d) => push_date(out, d),
        Value::Range(r) => push_range(out, r),
        Value::String(s) => {
            out.append("nu_protocol::Value::string(");
            push_owned_string(out, s);
            out.append(", ");
            push_span(out);
            out.append(")");
        },
        Value::Glob(s, no_expand) => {
            out.append("nu_protocol::Value::glob(");
            push_owned_string(out, s);
            out.append(", ");
            push_bool(out, *no_expand);
            out.append(", ");
            push_span(out);
            out.append(")");
        },
        Value::Record(columns) => {
            out.append("nu_protocol::Value::record(nu_protocol::Record::from_raw_cols_vals(vec![");
            push_column_names(out, columns);
            out.append("], vec![");
            let res = push_column_values(out, columns);
            if let Err(k) = res {
                return Err(k);
            }
            out.append("], ");
            push_span(out);
            out.append(", ");
            push_span(out);
            out.append(").unwrap(), ");
            push_span(out);
            out.append(")");
        },
        Value::List(vals) => {
            out.append("nu_protocol::Value::list(vec![");
            let res = push_values(out, vals);
            if let Err(k) = res {
                return Err(k);
            }
            out.append("], ");
            push_span(out);
            out.append(")");
        },
        Value::Nothing => {
            out.append("nu_protocol::Value::nothing(");
            push_span(out);
            out.append(")");
        },
        Value::Binary(bytes) => {
            out.append("nu_protocol::Value::binary(vec![");
            push_bytes(out, bytes);
            out.append("], ");
            push_span(out);
            out.append(")");
        },
        Value::CellPath(members) => {
            out.append(
                "nu_protocol::Value::cell_path(nu_protocol::ast::CellPath { members: vec![",
            );
            push_members(out, members);
            out.append("] }, ");
            push_span(out);
            out.append(")");
        },
        Value::Closure => return Err(UnsupportedKind::Closure),
        Value::Error => return Err(UnsupportedKind::Error),
        Value::Custom => return Err(UnsupportedKind::Custom),
    }
    assert(out@ =~= start + value_src(*v));
    Ok(())
}

/// The source that rebuilds `value` as a `nu_protocol::Value`, or the first
/// closure, error or custom value in it, which have no source form.
pub fn value_to_token(value: &Value) -> (r: Result<String, UnsupportedKind>)
    ensures
        match first_unsupported(*value) {
            None => r matches Ok(s) && s@ == value_src(*value),
            Some(k) => r == Err::<String, UnsupportedKind>(k),
        },
{
    let mut out = String::new();
    match push_value(&mut out, value) {
        Ok(()) => {
            assert(out@ =~= value_src(*value));
            Ok(out)
        },
        Err(k) => Err(k),
    }
}

/// A value has no unsupported value in it exactly when it is representable.
pub proof fn lemma_first_unsupported_none(v: Value)
    ensures
        first_unsupported(v) is None <==> representable(v),
    decreases v,
{
    match v {
        Value::Record(columns) => {
            lemma_columns_first_unsupported_none(columns@);
        },
        Value::List(vals) => {
            lemma_values_first_unsupported_none(vals@);
        },
        _ => {},
    }
}

/// A sequence of values has no unsupported value in it exactly when each of
/// them is representable.
pub proof fn lemma_values_first_unsupported_none(s: Seq<Value>)
    ensures
        first_unsupported_in(s) is None <==> all_representable(s),
    decreases s,
{
    if s.len() > 0 {
        lemma_values_first_unsupported_none(s.drop_last());
        lemma_first_unsupported_none(s.last());
    }
}

/// Record columns have no unsupported value in them exactly when each of their
/// values is representable.
pub proof fn lemma_columns_first_unsupported_none(s: Seq<(String, Value)>)
    ensures
        first_unsupported_in_columns(s) is None <==> all_columns_representable(s),
    decreases s,
{
    if s.len() > 0 {
        lemma_columns_first_unsupported_none(s.drop_last());
        lemma_first_unsupported_none(s.last().1);
    }
}

} // verus!
