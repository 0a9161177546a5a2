//! The signature model: what the parser hands over and the generator lowers.
use vstd::prelude::*;

verus! {

/// The syntactic shape of a parameter, as nushell's `SyntaxShape` has it.
#[derive(Debug)]
pub enum Shape {
    Any,
    Binary,
    Block,
    Boolean,
    CellPath,
    /// A closure, with the shapes of its parameters when they are declared.
    Closure(Option<Vec<Shape>>),
    /// A shape with a custom completer; the completer itself is not kept.
    CompleterWrapper(Box<Shape>),
    DateTime,
    Directory,
    Duration,
    Error,
    Expression,
    ExternalArgument,
    Filepath,
    Filesize,
    Float,
    FullCellPath,
    GlobPattern,
    Int,
    ImportPattern,
    /// A keyword, given as its bytes, followed by a value of the inner shape.
    Keyword(Vec<u8>, Box<Shape>),
    List(Box<Shape>),
    MathExpression,
    MatchBlock,
    Nothing,
    Number,
    OneOf(Vec<Shape>),
    Operator,
    Range,
    /// A record, with its fields in order.
    Record(Vec<(String, Shape)>),
    RowCondition,
    Signature,
    String,
    /// A table, with its columns in order.
    Table(Vec<(String, Shape)>),
    VarWithOptType,
}

/// The type of a value, as nushell's `Type` has it.
#[derive(Debug)]
pub enum Type {
    Any,
    Binary,
    Block,
    Bool,
    CellPath,
    Closure,
    Custom(String),
    Date,
    Duration,
    Error,
    Filesize,
    Float,
    Int,
    List(Box<Type>),
    ListStream,
    Nothing,
    Number,
    Range,
    /// A record, with its fields in order.
    Record(Vec<(String, Type)>),
    Signature,
    String,
    /// A table, with its columns in order.
    Table(Vec<(String, Type)>),
    Glob,
}

/// The first year that a calendar date can have.
pub const MIN_YEAR: i32 = -262143;

/// The last year that a calendar date can have.
pub const MAX_YEAR: i32 = 262142;

/// Whether `year` of the proleptic Gregorian calendar has a 29th of February.
pub open spec fn is_leap_year(year: int) -> bool {
    year % 4 == 0 && (year % 100 != 0 || year % 400 == 0)
}

/// The number of days of `month` (1 to 12) in `year`.
pub open spec fn days_in_month(year: int, month: int) -> int {
    if month == 2 {
        if is_leap_year(year) {
            29
        } else {
            28
        }
    } else if month == 4 || month == 6 || month == 9 || month == 11 {
        30
    } else {
        31
    }
}

/// The calendar fields of a date and time with a fixed UTC offset.
#[derive(Clone, Copy, Debug)]
pub struct CalendarFields {
    pub year: i32,
    pub month: u32,
    pub day: u32,
    pub hour: u32,
    pub minute: u32,
    pub second: u32,
    /// Nanoseconds within the second; from one second on, a leap second.
    pub nanosecond: u32,
    /// Seconds east of UTC.
    pub offset_seconds: i32,
}

impl CalendarFields {
    /// Seconds since local midnight.
    pub open spec fn seconds_of_day(self) -> int {
        self.hour * 3600 + self.minute * 60 + self.second
    }

    /// Whether the fields name an instant that can be rebuilt: a day of the
    /// calendar between the first and the last year, a time of day (a leap
    /// second only after second 59), an offset of less than a day, and a UTC
    /// time that stays within those years.
    pub open spec fn valid(self) -> bool {
        &&& MIN_YEAR <= self.year <= MAX_YEAR
        &&& 1 <= self.month <= 12
        &&& 1 <= self.day <= days_in_month(self.year as int, self.month as int)
        &&& self.hour < 24
        &&& self.minute < 60
        &&& self.second < 60
        &&& self.nanosecond < 2_000_000_000
        &&& (self.nanosecond >= 1_000_000_000 ==> self.second == 59)
        &&& -86_400 < self.offset_seconds < 86_400
        &&& !(self.year == MIN_YEAR && self.month == 1 && self.day == 1 && self.seconds_of_day()
            < self.offset_seconds)
        &&& !(self.year == MAX_YEAR && self.month == 12 && self.day == 31 && self.seconds_of_day()
            - self.offset_seconds >= 86_400)
    }
}

fn month_days(year: i32, month: u32) -> (r: u32)
    requires
        MIN_YEAR <= year <= MAX_YEAR,
    ensures
        r == days_in_month(year as int, month as int),
{
    if month == 2 {
        let shifted: u32 = (year as i64 + 262_400) as u32;
        assert(shifted as int == year as int + 656 * 400);
        assert(shifted as int % 4 == year as int % 4);
        assert(shifted as int % 100 == year as int % 100);
        assert(shifted as int % 400 == year as int % 400);
        if shifted % 4 == 0 && (shifted % 100 != 0 || shifted % 400 == 0) {
            29
        } else {
            28
        }
    } else if month == 4 || month == 6 || month == 9 || month == 11 {
        30
    } else {
        31
    }
}

/// A valid date and time with a fixed UTC offset, split into its calendar fields.
#[derive(Clone, Copy, Debug)]
pub struct DateParts {
    fields: CalendarFields,
}

impl View for DateParts {
    type V = CalendarFields;

    closed spec fn view(&self) -> CalendarFields {
        self.fields
    }
}

impl DateParts {
    #[verifier::type_invariant]
    spec fn wf(self) -> bool {
        self.fields.valid()
    }

    /// The date with these fields, when they are valid.
    pub fn new(fields: CalendarFields) -> (r: Option<DateParts>)
        ensures
            r is Some <==> fields.valid(),
            r matches Some(d) ==> d@ == fields,
    {
        if fields.year < MIN_YEAR || fields.year > MAX_YEAR || fields.month < 1 || fields.month
            > 12 || fields.day < 1 || fields.day > month_days(fields.year, fields.month)
            || fields.hour >= 24 || fields.minute >= 60 || fields.second >= 60
            || fields.nanosecond >= 2_000_000_000 || (fields.nanosecond >= 1_000_000_000
            && fields.second != 59) || fields.offset_seconds <= -86_400 || fields.offset_seconds
            >= 86_400 {
            return None;
        }
        let seconds: i64 = fields.hour as i64 * 3600 + fields.minute as i64 * 60
            + fields.second as i64;
        let offset = fields.offset_seconds as i64;
        if fields.year == MIN_YEAR && fields.month == 1 && fields.day == 1 && seconds < offset {
            return None;
        }
        if fields.year == MAX_YEAR && fields.month == 12 && fields.day == 31 && seconds - offset
            >= 86_400 {
            return None;
        }
        Some(DateParts { fields })
    }

    /// The calendar fields, which are always valid.
    pub fn fields(&self) -> (r: CalendarFields)
        ensures
            r == self@,
            r.valid(),
    {
        proof {
            use_type_invariant(self);
        }
        self.fields
    }
}

/// The end of a range.
#[derive(Clone, Copy, Debug)]
pub enum RangeEnd<T> {
    Included(T),
    Excluded(T),
    Unbounded,
}

/// A range of integers, or of floats held as the bits of their binary64 form.
#[derive(Clone, Copy, Debug)]
#[allow(inconsistent_fields)]
pub enum RangeValue {
    Int { start: i64, step: i64, end: RangeEnd<i64> },
    Float { start: u64, step: u64, end: RangeEnd<u64> },
}

/// One member of a cell path.
#[derive(Debug)]
#[allow(inconsistent_fields)]
pub enum PathMember {
    String { val: String, optional: bool },
    Int { val: usize, optional: bool },
}

/// A value, as nushell's `Value` has it, without spans.
#[derive(Debug)]
pub enum Value {
    Bool(bool),
    Int(i64),
    /// A float, held as the bits of its binary64 form.
    Float(u64),
    Filesize(i64),
    Duration(i64),
    Date(DateParts),
    Range(RangeValue),
    String(String),
    /// A glob pattern, and whether it is kept from expansion.
    Glob(String, bool),
    /// A record, with its columns in order.
    Record(Vec<(String, Value)>),
    List(Vec<Value>),
    Closure,
    Nothing,
    Error,
    Binary(Vec<u8>),
    CellPath(Vec<PathMember>),
    Custom,
}

/// A named parameter: `--long(-s): shape = default`.
#[derive(Debug)]
pub struct Flag {
    pub long: String,
    pub short: Option<char>,
    /// The shape of the flag's value; a flag without one is a switch.
    pub arg: Option<Shape>,
    pub required: bool,
    pub desc: String,
    pub default_value: Option<Value>,
}

/// A positional parameter, required, optional or rest.
#[derive(Debug)]
pub struct PositionalArg {
    pub name: String,
    pub desc: String,
    pub shape: Shape,
    pub default_value: Option<Value>,
}

/// A command signature as the parser builds it.
#[derive(Debug)]
pub struct Signature {
    pub name: String,
    pub description: String,
    pub extra_description: String,
    /// Pairs of input and output types, in order.
    pub input_output_types: Vec<(Type, Type)>,
    pub required_positional: Vec<PositionalArg>,
    pub optional_positional: Vec<PositionalArg>,
    pub rest_positional: Option<PositionalArg>,
    pub named: Vec<Flag>,
}

} // verus!
