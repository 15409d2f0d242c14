//! Why a trigger expression was refused.

use crate::number::{decimal, push_decimal};
use crate::text::{push_str, string_of};
use vstd::prelude::*;

verus! {

/// The six kinds of failure.
#[derive(Clone, Copy, Debug, PartialEq, Eq, Structural)]
pub enum ErrorKind {
    /// The five-field form does not have five fields.
    Structure,
    /// A token that should be a number is none.
    NumericParse,
    /// A number lies outside the bounds of what it stands for.
    Range,
    /// A weekday token that is no number names no weekday.
    UnknownWeekday,
    /// A shorthand form has the wrong number of arguments.
    ExtendedSyntaxArity,
    /// A weekday or ordinal keyword stands without a time.
    IncompleteSyntax,
}

/// What a number stands for, and with it the bounds it has to keep.
#[derive(Clone, Copy, Debug, PartialEq, Eq, Structural)]
pub enum Quantity {
    Minute,
    Hour,
    DayOfMonth,
    Month,
    Weekday,
    Step,
}

impl Quantity {
    /// The least value allowed.
    pub open spec fn min(self) -> u32 {
        match self {
            Quantity::Minute | Quantity::Hour | Quantity::Weekday => 0,
            Quantity::DayOfMonth | Quantity::Month | Quantity::Step => 1,
        }
    }

    /// The greatest value allowed.
    pub open spec fn max(self) -> u32 {
        match self {
            Quantity::Minute => 59,
            Quantity::Hour => 23,
            Quantity::DayOfMonth => 31,
            Quantity::Month => 12,
            Quantity::Weekday => 7,
            Quantity::Step => u32::MAX,
        }
    }

    /// Whether `n` keeps the bounds.
    pub open spec fn admits(self, n: u32) -> bool {
        self.min() <= n <= self.max()
    }

    /// The name by which a message calls the quantity.
    pub open spec fn label(self) -> Seq<char> {
        match self {
            Quantity::Minute => "Minute"@,
            Quantity::Hour => "Hour"@,
            Quantity::DayOfMonth => "Day"@,
            Quantity::Month => "Month"@,
            Quantity::Weekday => "Day of week"@,
            Quantity::Step => "Step"@,
        }
    }

    /// The least and the greatest value allowed.
    pub fn bounds(self) -> (r: (u32, u32))
        ensures
            r == (self.min(), self.max()),
    {
        match self {
            Quantity::Minute => (0, 59),
            Quantity::Hour => (0, 23),
            Quantity::DayOfMonth => (1, 31),
            Quantity::Month => (1, 12),
            Quantity::Weekday => (0, 7),
            Quantity::Step => (1, u32::MAX),
        }
    }

    /// Whether `n` keeps the bounds.
    pub fn contains(self, n: u32) -> (r: bool)
        ensures
            r == self.admits(n),
    {
        let (lo, hi) = self.bounds();
        lo <= n && n <= hi
    }

    fn name(self) -> (r: &'static str)
        ensures
            r@ == self.label(),
    {
        match self {
            Quantity::Minute => "Minute",
            Quantity::Hour => "Hour",
            Quantity::DayOfMonth => "Day",
            Quantity::Month => "Month",
            Quantity::Weekday => "Day of week",
            Quantity::Step => "Step",
        }
    }
}

/// What a token was expected to be when it turned out to be no number.
#[derive(Clone, Copy, Debug, PartialEq, Eq, Structural)]
pub enum Role {
    /// A number in one of the five fields.
    Field,
    /// The hour of a time.
    Hour,
    /// The minute of a time.
    Minute,
    /// The day of the month in `@monthly/<day>/<time>`.
    Day,
}

impl Role {
    /// The words with which a message names the token.
    pub open spec fn label(self) -> Seq<char> {
        match self {
            Role::Field => "Invalid number: "@,
            Role::Hour => "Invalid hour: "@,
            Role::Minute => "Invalid minute: "@,
            Role::Day => "Invalid day: "@,
        }
    }

    fn name(self) -> (r: &'static str)
        ensures
            r@ == self.label(),
    {
        match self {
            Role::Field => "Invalid number: ",
            Role::Hour => "Invalid hour: ",
            Role::Minute => "Invalid minute: ",
            Role::Day => "Invalid day: ",
        }
    }
}

/// The shorthand forms that take arguments after a slash.
#[derive(Clone, Copy, Debug, PartialEq, Eq, Structural)]
pub enum Form {
    /// `@daily/<time>`
    Daily,
    /// `@weekly/<dow>/<time>`
    Weekly,
    /// `@monthly/<day>/<time>`
    Monthly,
    /// `@<weekday>/<time>`
    Weekday,
    /// `@<ordinal>/<time>`
    Ordinal,
}

impl Form {
    /// How many arguments the form takes.
    pub open spec fn arity(self) -> nat {
        match self {
            Form::Weekly | Form::Monthly => 2,
            Form::Daily | Form::Weekday | Form::Ordinal => 1,
        }
    }

    /// The message for a wrong number of arguments.
    pub open spec fn usage(self) -> Seq<char> {
        match self {
            Form::Daily => "Invalid @daily syntax. Use: @daily/9 or @daily/9:30"@,
            Form::Weekly => "Invalid @weekly syntax. Use: @weekly/mon/9 or @weekly/mon/9:30"@,
            Form::Monthly => "Invalid @monthly syntax. Use: @monthly/1/9 or @monthly/15/9:30"@,
            Form::Weekday => "Invalid weekday syntax. Use: @monday/9 or @mon/9:30"@,
            Form::Ordinal => "Invalid ordinal syntax. Use: @1st/9 or @15th/9:30"@,
        }
    }

    /// How many arguments the form takes.
    pub fn arguments(self) -> (r: usize)
        ensures
            r == self.arity(),
    {
        match self {
            Form::Weekly | Form::Monthly => 2,
            Form::Daily | Form::Weekday | Form::Ordinal => 1,
        }
    }

    fn help(self) -> (r: &'static str)
        ensures
            r@ == self.usage(),
    {
        match self {
            Form::Daily => "Invalid @daily syntax. Use: @daily/9 or @daily/9:30",
            Form::Weekly => "Invalid @weekly syntax. Use: @weekly/mon/9 or @weekly/mon/9:30",
            Form::Monthly => "Invalid @monthly syntax. Use: @monthly/1/9 or @monthly/15/9:30",
            Form::Weekday => "Invalid weekday syntax. Use: @monday/9 or @mon/9:30",
            Form::Ordinal => "Invalid ordinal syntax. Use: @1st/9 or @15th/9:30",
        }
    }
}

/// A refused expression, with the token or number that caused the refusal.
#[derive(Debug, PartialEq, Eq)]
pub enum ParseError {
    /// The five-field form has `found` fields.
    FieldCount { found: usize },
    /// `token` should be a number and is none.
    InvalidNumber { role: Role, token: String },
    /// `got` is outside the bounds of `quantity`.
    OutOfRange { quantity: Quantity, got: u32 },
    /// `token` is no number and names no weekday.
    UnknownWeekday { token: String },
    /// The shorthand `form` was given `found` arguments.
    WrongArity { form: Form, found: usize },
    /// `keyword` is a weekday or ordinal keyword without a time.
    MissingTime { keyword: String },
}

/// A refused expression as contracts speak of it: `ParseError` with
/// character sequences in place of strings.
pub enum ErrorModel {
    FieldCount { found: nat },
    InvalidNumber { role: Role, token: Seq<char> },
    OutOfRange { quantity: Quantity, got: u32 },
    UnknownWeekday { token: Seq<char> },
    WrongArity { form: Form, found: nat },
    MissingTime { keyword: Seq<char> },
}

impl ErrorModel {
    /// The kind of failure.
    pub open spec fn kind(self) -> ErrorKind {
        match self {
            ErrorModel::FieldCount { .. } => ErrorKind::Structure,
            ErrorModel::InvalidNumber { .. } => ErrorKind::NumericParse,
            ErrorModel::OutOfRange { .. } => ErrorKind::Range,
            ErrorModel::UnknownWeekday { .. } => ErrorKind::UnknownWeekday,
            ErrorModel::WrongArity { .. } => ErrorKind::ExtendedSyntaxArity,
            ErrorModel::MissingTime { .. } => ErrorKind::IncompleteSyntax,
        }
    }

    /// The text that describes the failure to a person.
    pub open spec fn message(self) -> Seq<char> {
        match self {
            ErrorModel::FieldCount { found } => "Invalid cron expression: expected 5 fields, got "@
                + decimal(found),
            ErrorModel::InvalidNumber { role, token } => role.label() + token,
            ErrorModel::OutOfRange { quantity, got } => quantity.label() + " must be "@ + decimal(
                quantity.min() as nat,
            ) + "-"@ + decimal(quantity.max() as nat) + ", got "@ + decimal(got as nat),
            ErrorModel::UnknownWeekday { token } => "Invalid day of week: "@ + token,
            ErrorModel::WrongArity { form, found } => form.usage(),
            ErrorModel::MissingTime { keyword } => "Missing time for '"@ + keyword + "'. Use: "@
                + keyword + "/9 or "@ + keyword + "/9:30"@,
        }
    }
}

impl View for ParseError {
    type V = ErrorModel;

    open spec fn view(&self) -> ErrorModel {
        match self {
            ParseError::FieldCount { found } => ErrorModel::FieldCount { found: *found as nat },
            ParseError::InvalidNumber { role, token } => ErrorModel::InvalidNumber {
                role: *role,
                token: token@,
            },
            ParseError::OutOfRange { quantity, got } => ErrorModel::OutOfRange {
                quantity: *quantity,
                got: *got,
            },
            ParseError::UnknownWeekday { token } => ErrorModel::UnknownWeekday { token: token@ },
            ParseError::WrongArity { form, found } => ErrorModel::WrongArity {
                form: *form,
                found: *found as nat,
            },
            ParseError::MissingTime { keyword } => ErrorModel::MissingTime { keyword: keyword@ },
        }
    }
}

impl ParseError {
    /// The kind of failure.
    pub fn kind(&self) -> (k: ErrorKind)
        ensures
            k == self@.kind(),
    {
        match self {
            ParseError::FieldCount { .. } => ErrorKind::Structure,
            ParseError::InvalidNumber { .. } => ErrorKind::NumericParse,
            ParseError::OutOfRange { .. } => ErrorKind::Range,
            ParseError::UnknownWeekday { .. } => ErrorKind::UnknownWeekday,
            ParseError::WrongArity { .. } => ErrorKind::ExtendedSyntaxArity,
            ParseError::MissingTime { .. } => ErrorKind::IncompleteSyntax,
        }
    }

    /// The text that describes the failure to a person.
    pub fn message(&self) -> (text: String)
        ensures
            text@ == self@.message(),
    {
        let mut out: Vec<char> = Vec::new();
        match self {
            ParseError::FieldCount { found } => {
                push_str(&mut out, "Invalid cron expression: expected 5 fields, got ");
                push_decimal(&mut out, *found as u64);
            },
            ParseError::InvalidNumber { role, token } => {
                push_str(&mut out, role.name());
                push_str(&mut out, token.as_str());
            },
            ParseError::OutOfRange { quantity, got } => {
                let (lo, hi) = quantity.bounds();
                push_str(&mut out, quantity.name());
                push_str(&mut out, " must be ");
                push_decimal(&mut out, lo as u64);
                push_str(&mut out, "-");
                push_decimal(&mut out, hi as u64);
                push_str(&mut out, ", got ");
                push_decimal(&mut out, *got as u64);
            },
            ParseError::UnknownWeekday { token } => {
                push_str(&mut out, "Invalid day of week: ");
                push_str(&mut out, token.as_str());
            },
            ParseError::WrongArity { form, found } => {
                push_str(&mut out, form.help());
            },
            ParseError::MissingTime { keyword } => {
                push_str(&mut out, "Missing time for '");
                push_str(&mut out, keyword.as_str());
                push_str(&mut out, "'. Use: ");
                push_str(&mut out, keyword.as_str());
                push_str(&mut out, "/9 or ");
                push_str(&mut out, keyword.as_str());
                push_str(&mut out, "/9:30");
            },
        }
        string_of(out.as_slice())
    }
}

/// The failure for a number outside the bounds of `quantity`.
pub open spec fn out_of_range(quantity: Quantity, got: u32) -> ErrorModel {
    ErrorModel::OutOfRange { quantity, got }
}

/// The failure for a token that should be a number in the role `role`.
pub open spec fn not_a_number(role: Role, token: Seq<char>) -> ErrorModel {
    ErrorModel::InvalidNumber { role, token }
}

/// A `ParseError::InvalidNumber` for the token `token`.
pub fn invalid_number(role: Role, token: &[char]) -> (e: ParseError)
    ensures
        e@ == not_a_number(role, token@),
{
    ParseError::InvalidNumber { role, token: string_of(token) }
}

} // verus!
