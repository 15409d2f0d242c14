//! The `@` forms: the classic keywords, and the extended forms that take a
//! time, and for some a day, after a slash.

use crate::cron::error::{
    invalid_number, not_a_number, out_of_range, ErrorModel, Form, ParseError, Quantity, Role,
};
use crate::cron::schedule::{CronSchedule, ScheduleModel, Trigger, TriggerModel};
use crate::cron::weekday::{
    is_bare_weekday, is_weekday_keyword, keyword_day, parse_dow_name, resolved,
    try_parse_dow_keyword, Weekday,
};
use crate::number::{decimal, number, padded, parse_u32, push_decimal, push_padded};
use crate::split::{pieces, split, views};
use crate::text::{
    chars_of, equals_str, find_char, halves, has_suffix, lowercase, lowered, push_all, push_str,
    split_once, string_of, strip_suffix,
};
use vstd::prelude::*;

verus! {

/// The classic keywords, each with a fixed meaning.
#[derive(Clone, Copy, Debug, PartialEq, Eq, Structural)]
pub enum Classic {
    Yearly,
    Monthly,
    Weekly,
    Daily,
    Hourly,
    Reboot,
    Service,
}

impl Classic {
    /// The keyword under which the form is displayed.
    pub open spec fn keyword(self) -> Seq<char> {
        match self {
            Classic::Yearly => "@yearly"@,
            Classic::Monthly => "@monthly"@,
            Classic::Weekly => "@weekly"@,
            Classic::Daily => "@daily"@,
            Classic::Hourly => "@hourly"@,
            Classic::Reboot => "@reboot"@,
            Classic::Service => "@service"@,
        }
    }

    /// What the keyword triggers.
    pub open spec fn trigger(self) -> TriggerModel {
        match self {
            Classic::Yearly => TriggerModel::Calendar("*-01-01 00:00:00"@),
            Classic::Monthly => TriggerModel::Calendar("*-*-01 00:00:00"@),
            Classic::Weekly => TriggerModel::Calendar("Mon *-*-* 00:00:00"@),
            Classic::Daily => TriggerModel::Calendar("*-*-* 00:00:00"@),
            Classic::Hourly => TriggerModel::Calendar("*-*-* *:00:00"@),
            Classic::Reboot => TriggerModel::BootDelay("1min"@),
            Classic::Service => TriggerModel::ServiceMarker,
        }
    }

    fn name(self) -> (r: &'static str)
        ensures
            r@ == self.keyword(),
    {
        match self {
            Classic::Yearly => "@yearly",
            Classic::Monthly => "@monthly",
            Classic::Weekly => "@weekly",
            Classic::Daily => "@daily",
            Classic::Hourly => "@hourly",
            Classic::Reboot => "@reboot",
            Classic::Service => "@service",
        }
    }

    fn to_trigger(self) -> (r: Trigger)
        ensures
            r@ == self.trigger(),
    {
        match self {
            Classic::Yearly => Trigger::Calendar(String::from_str("*-01-01 00:00:00")),
            Classic::Monthly => Trigger::Calendar(String::from_str("*-*-01 00:00:00")),
            Classic::Weekly => Trigger::Calendar(String::from_str("Mon *-*-* 00:00:00")),
            Classic::Daily => Trigger::Calendar(String::from_str("*-*-* 00:00:00")),
            Classic::Hourly => Trigger::Calendar(String::from_str("*-*-* *:00:00")),
            Classic::Reboot => Trigger::BootDelay(String::from_str("1min")),
            Classic::Service => Trigger::ServiceMarker,
        }
    }
}

/// The classic form that the whole of `t` spells, letter for letter.
pub open spec fn classic_of(t: Seq<char>) -> Option<Classic> {
    if t == "@yearly"@ || t == "@annually"@ {
        Some(Classic::Yearly)
    } else if t == "@monthly"@ {
        Some(Classic::Monthly)
    } else if t == "@weekly"@ {
        Some(Classic::Weekly)
    } else if t == "@daily"@ || t == "@midnight"@ {
        Some(Classic::Daily)
    } else if t == "@hourly"@ {
        Some(Classic::Hourly)
    } else if t == "@reboot"@ {
        Some(Classic::Reboot)
    } else if t == "@service"@ {
        Some(Classic::Service)
    } else {
        None
    }
}

/// The classic form that the whole of `expr` spells.
pub fn parse_special(expr: &[char]) -> (r: Option<Classic>)
    ensures
        r == classic_of(expr@),
{
    if equals_str(expr, "@yearly") || equals_str(expr, "@annually") {
        Some(Classic::Yearly)
    } else if equals_str(expr, "@monthly") {
        Some(Classic::Monthly)
    } else if equals_str(expr, "@weekly") {
        Some(Classic::Weekly)
    } else if equals_str(expr, "@daily") || equals_str(expr, "@midnight") {
        Some(Classic::Daily)
    } else if equals_str(expr, "@hourly") {
        Some(Classic::Hourly)
    } else if equals_str(expr, "@reboot") {
        Some(Classic::Reboot)
    } else if equals_str(expr, "@service") {
        Some(Classic::Service)
    } else {
        None
    }
}

/// A recognised `@` form with what it was given.
#[derive(Clone, Copy, Debug, PartialEq, Eq, Structural)]
pub enum Shorthand {
    /// One of the classic keywords.
    Classic(Classic),
    /// Every day at the time.
    Daily { hour: u32, minute: u32 },
    /// Every week on the day at the time.
    Weekly { weekday: Weekday, hour: u32, minute: u32 },
    /// Every month on the day at the time.
    Monthly { day: u32, hour: u32, minute: u32 },
}

/// The ending of the English ordinal of `n`.
pub open spec fn ordinal_suffix(n: u32) -> Seq<char> {
    if n % 10 == 1 && n % 100 != 11 {
        "st"@
    } else if n % 10 == 2 && n % 100 != 12 {
        "nd"@
    } else if n % 10 == 3 && n % 100 != 13 {
        "rd"@
    } else {
        "th"@
    }
}

/// The English ordinal of `n` in digits: `1st`, `2nd`, `3rd`, `4th`, `11th`.
pub open spec fn ordinal_text(n: u32) -> Seq<char> {
    decimal(n as nat) + ordinal_suffix(n)
}

/// The time as a display form writes it: the hour alone on the full hour,
/// else hour, colon and the minute with two digits.
pub open spec fn time_text(hour: u32, minute: u32) -> Seq<char> {
    if minute == 0 {
        decimal(hour as nat)
    } else {
        decimal(hour as nat) + ":"@ + padded(minute as nat)
    }
}

/// The time as a calendar expression writes it: hour and minute with two
/// digits each, and zero seconds.
pub open spec fn clock_text(hour: u32, minute: u32) -> Seq<char> {
    padded(hour as nat) + ":"@ + padded(minute as nat) + ":00"@
}

impl Shorthand {
    /// Whether hour, minute and day of the month keep their bounds.
    pub open spec fn valid(self) -> bool {
        match self {
            Shorthand::Classic(_) => true,
            Shorthand::Daily { hour, minute } => hour <= 23 && minute <= 59,
            Shorthand::Weekly { weekday: day, hour, minute } => hour <= 23 && minute <= 59,
            Shorthand::Monthly { day, hour, minute } => 1 <= day <= 31 && hour <= 23 && minute
                <= 59,
        }
    }

    /// The shortest way to write the form. A classic form is its keyword; a
    /// daily form is `@daily/<time>`; a weekly form is `@`, the lowercase
    /// name of the day, a slash and the time; a monthly form is `@`, the
    /// ordinal of the day, a slash and the time.
    pub open spec fn display(self) -> Seq<char> {
        match self {
            Shorthand::Classic(c) => c.keyword(),
            Shorthand::Daily { hour, minute } => "@daily/"@ + time_text(hour, minute),
            Shorthand::Weekly { weekday: day, hour, minute } => "@"@ + day.lower_name() + "/"@ + time_text(
                hour,
                minute,
            ),
            Shorthand::Monthly { day, hour, minute } => "@"@ + ordinal_text(day) + "/"@
                + time_text(hour, minute),
        }
    }

    /// What the form triggers.
    pub open spec fn trigger(self) -> TriggerModel {
        match self {
            Shorthand::Classic(c) => c.trigger(),
            Shorthand::Daily { hour, minute } => TriggerModel::Calendar(
                "*-*-* "@ + clock_text(hour, minute),
            ),
            Shorthand::Weekly { weekday: day, hour, minute } => TriggerModel::Calendar(
                day.name() + " *-*-* "@ + clock_text(hour, minute),
            ),
            Shorthand::Monthly { day, hour, minute } => TriggerModel::Calendar(
                "*-*-"@ + padded(day as nat) + " "@ + clock_text(hour, minute),
            ),
        }
    }

    /// The schedule of the form: its trigger and its display form.
    pub open spec fn schedule(self) -> ScheduleModel {
        ScheduleModel { trigger: self.trigger(), display: Some(self.display()) }
    }
}

/// The English ordinal of `n` in digits.
pub fn ordinal(n: u32) -> (text: Vec<char>)
    ensures
        text@ == ordinal_text(n),
{
    let mut out: Vec<char> = Vec::new();
    push_decimal(&mut out, n as u64);
    let suffix = if n % 10 == 1 && n % 100 != 11 {
        "st"
    } else if n % 10 == 2 && n % 100 != 12 {
        "nd"
    } else if n % 10 == 3 && n % 100 != 13 {
        "rd"
    } else {
        "th"
    };
    push_str(&mut out, suffix);
    out
}

/// The time as a display form writes it.
pub fn format_time(hour: u32, minute: u32) -> (text: Vec<char>)
    ensures
        text@ == time_text(hour, minute),
{
    let mut out: Vec<char> = Vec::new();
    push_decimal(&mut out, hour as u64);
    if minute != 0 {
        push_str(&mut out, ":");
        push_padded(&mut out, minute);
    }
    out
}

/// `prefix`, a slash and the time as a display form writes it.
pub fn format_time_display(prefix: &[char], hour: u32, minute: u32) -> (text: Vec<char>)
    ensures
        text@ == prefix@ + "/"@ + time_text(hour, minute),
{
    let mut out: Vec<char> = Vec::new();
    push_all(&mut out, prefix);
    push_str(&mut out, "/");
    let time = format_time(hour, minute);
    push_all(&mut out, time.as_slice());
    out
}

fn push_clock(out: &mut Vec<char>, hour: u32, minute: u32)
    ensures
        final(out)@ == old(out)@ + clock_text(hour, minute),
{
    push_padded(out, hour);
    push_str(out, ":");
    push_padded(out, minute);
    push_str(out, ":00");
}

impl Shorthand {
    /// The shortest way to write the form.
    pub fn to_display(self) -> (text: Vec<char>)
        ensures
            text@ == self.display(),
    {
        match self {
            Shorthand::Classic(c) => chars_of(c.name()),
            Shorthand::Daily { hour, minute } => {
                proof {
                    reveal_strlit("@daily");
                    reveal_strlit("@daily/");
                    reveal_strlit("/");
                    assert("@daily"@ + "/"@ == "@daily/"@);
                }
                let prefix = chars_of("@daily");
                format_time_display(prefix.as_slice(), hour, minute)
            },
            Shorthand::Weekly { weekday: day, hour, minute } => {
                let mut prefix: Vec<char> = Vec::new();
                push_str(&mut prefix, "@");
                push_str(&mut prefix, day.lower());
                format_time_display(prefix.as_slice(), hour, minute)
            },
            Shorthand::Monthly { day, hour, minute } => {
                let mut prefix: Vec<char> = Vec::new();
                push_str(&mut prefix, "@");
                let nth = ordinal(day);
                push_all(&mut prefix, nth.as_slice());
                format_time_display(prefix.as_slice(), hour, minute)
            },
        }
    }

    /// What the form triggers.
    pub fn to_trigger(self) -> (r: Trigger)
        ensures
            r@ == self.trigger(),
    {
        match self {
            Shorthand::Classic(c) => c.to_trigger(),
            Shorthand::Daily { hour, minute } => {
                let mut out: Vec<char> = Vec::new();
                push_str(&mut out, "*-*-* ");
                push_clock(&mut out, hour, minute);
                Trigger::Calendar(string_of(out.as_slice()))
            },
            Shorthand::Weekly { weekday: day, hour, minute } => {
                let mut out: Vec<char> = Vec::new();
                push_str(&mut out, day.short());
                push_str(&mut out, " *-*-* ");
                push_clock(&mut out, hour, minute);
                Trigger::Calendar(string_of(out.as_slice()))
            },
            Shorthand::Monthly { day, hour, minute } => {
                let mut out: Vec<char> = Vec::new();
                push_str(&mut out, "*-*-");
                push_padded(&mut out, day);
                push_str(&mut out, " ");
                push_clock(&mut out, hour, minute);
                Trigger::Calendar(string_of(out.as_slice()))
            },
        }
    }

    /// The schedule of the form: its trigger and its display form.
    pub fn to_schedule(self) -> (r: CronSchedule)
        ensures
            r@ == self.schedule(),
    {
        let display = self.to_display();
        CronSchedule { trigger: self.to_trigger(), display: Some(string_of(display.as_slice())) }
    }
}

/// The hour and minute that a time stands for: `<hour>` alone, with the
/// minute zero, or `<hour>:<minute>`, cut at the first colon. Hour and minute
/// must be numbers, which is looked at first, and the hour at most 23 and the
/// minute at most 59.
pub open spec fn time_of(s: Seq<char>) -> Result<(u32, u32), ErrorModel> {
    match halves(s, ':') {
        Some((h, m)) => match number(h) {
            None => Err(not_a_number(Role::Hour, h)),
            Some(hour) => match number(m) {
                None => Err(not_a_number(Role::Minute, m)),
                Some(minute) => if hour > 23 {
                    Err(out_of_range(Quantity::Hour, hour))
                } else if minute > 59 {
                    Err(out_of_range(Quantity::Minute, minute))
                } else {
                    Ok((hour, minute))
                },
            },
        },
        None => match number(s) {
            None => Err(not_a_number(Role::Hour, s)),
            Some(hour) => if hour > 23 {
                Err(out_of_range(Quantity::Hour, hour))
            } else {
                Ok((hour, 0u32))
            },
        },
    }
}

/// The hour and minute that a time stands for.
pub fn parse_time_spec(s: &[char]) -> (r: Result<(u32, u32), ParseError>)
    ensures
        r matches Ok(time) ==> time_of(s@) == Ok::<(u32, u32), ErrorModel>(time),
        r matches Err(e) ==> time_of(s@) == Err::<(u32, u32), ErrorModel>(e@),
{
    match split_once(s, ':') {
        Some((h, m)) => {
            let hour = match parse_u32(h) {
                Some(n) => n,
                None => {
                    return Err(invalid_number(Role::Hour, h));
                },
            };
            let minute = match parse_u32(m) {
                Some(n) => n,
                None => {
                    return Err(invalid_number(Role::Minute, m));
                },
            };
            if hour > 23 {
                return Err(ParseError::OutOfRange { quantity: Quantity::Hour, got: hour });
            }
            if minute > 59 {
                return Err(ParseError::OutOfRange { quantity: Quantity::Minute, got: minute });
            }
            Ok((hour, minute))
        },
        None => {
            let hour = match parse_u32(s) {
                Some(n) => n,
                None => {
                    return Err(invalid_number(Role::Hour, s));
                },
            };
            if hour > 23 {
                return Err(ParseError::OutOfRange { quantity: Quantity::Hour, got: hour });
            }
            Ok((hour, 0))
        },
    }
}

/// What stands before the ordinal ending of `name`: `st`, `nd`, `rd` or
/// `th`, whichever the name ends with.
pub open spec fn ordinal_stem(name: Seq<char>) -> Option<Seq<char>> {
    if has_suffix(name, "st"@) || has_suffix(name, "nd"@) || has_suffix(name, "rd"@) || has_suffix(
        name,
        "th"@,
    ) {
        Some(name.take(name.len() - 2))
    } else {
        None
    }
}

/// The number of the ordinal keyword `keyword`: an `@`, a number and an
/// ordinal ending. The ending need not be the one that belongs to the
/// number, and the number need not be a day of the month.
pub open spec fn keyword_ordinal(keyword: Seq<char>) -> Option<u32> {
    if keyword.len() > 0 && keyword[0] == '@' {
        match ordinal_stem(keyword.skip(1)) {
            Some(stem) => number(stem),
            None => None,
        }
    } else {
        None
    }
}

/// The number of the ordinal keyword `keyword`, whatever the number is.
pub fn try_parse_ordinal_any(keyword: &[char]) -> (r: Option<u32>)
    ensures
        r == keyword_ordinal(keyword@),
{
    if !(keyword.len() > 0 && keyword[0] == '@') {
        return None;
    }
    proof {
        reveal_strlit("st");
        reveal_strlit("nd");
        reveal_strlit("rd");
        reveal_strlit("th");
    }
    let name = &keyword[1..keyword.len()];
    let stem = match strip_suffix(name, "st") {
        Some(stem) => stem,
        None => match strip_suffix(name, "nd") {
            Some(stem) => stem,
            None => match strip_suffix(name, "rd") {
                Some(stem) => stem,
                None => match strip_suffix(name, "th") {
                    Some(stem) => stem,
                    None => {
                        return None;
                    },
                },
            },
        },
    };
    parse_u32(stem)
}

/// The day of the month of the ordinal keyword `keyword`, if its number is
/// one.
pub fn try_parse_ordinal(keyword: &[char]) -> (r: Option<u32>)
    ensures
        r == match keyword_ordinal(keyword@) {
            Some(n) => if 1 <= n <= 31 {
                Some(n)
            } else {
                None
            },
            None => None,
        },
{
    match try_parse_ordinal_any(keyword) {
        Some(n) => if 1 <= n && n <= 31 {
            Some(n)
        } else {
            None
        },
        None => None,
    }
}

/// The failure for the form `form` with `parts` pieces, the keyword among
/// them.
pub open spec fn wrong_arity(form: Form, parts: nat) -> ErrorModel {
    ErrorModel::WrongArity { form, found: (parts - 1) as nat }
}

/// The form with a time as its only argument, built by `make` from hour and
/// minute.
pub open spec fn with_time(
    form: Form,
    parts: Seq<Seq<char>>,
    make: spec_fn(u32, u32) -> Shorthand,
) -> Result<Option<Shorthand>, ErrorModel> {
    if parts.len() != 2 {
        Err(wrong_arity(form, parts.len()))
    } else {
        match time_of(parts[1]) {
            Err(e) => Err(e),
            Ok((hour, minute)) => Ok(Some(make(hour, minute))),
        }
    }
}

/// What `@weekly/<dow>/<time>` stands for.
pub open spec fn weekly_of(parts: Seq<Seq<char>>) -> Result<Option<Shorthand>, ErrorModel> {
    if parts.len() != 3 {
        Err(wrong_arity(Form::Weekly, parts.len()))
    } else {
        match resolved(parts[1]) {
            Err(e) => Err(e),
            Ok(day) => match time_of(parts[2]) {
                Err(e) => Err(e),
                Ok((hour, minute)) => Ok(Some(Shorthand::Weekly { weekday: day, hour, minute })),
            },
        }
    }
}

/// What `@monthly/<day>/<time>` stands for.
pub open spec fn monthly_of(parts: Seq<Seq<char>>) -> Result<Option<Shorthand>, ErrorModel> {
    if parts.len() != 3 {
        Err(wrong_arity(Form::Monthly, parts.len()))
    } else {
        match number(parts[1]) {
            None => Err(not_a_number(Role::Day, parts[1])),
            Some(day) => if !(1 <= day <= 31) {
                Err(out_of_range(Quantity::DayOfMonth, day))
            } else {
                match time_of(parts[2]) {
                    Err(e) => Err(e),
                    Ok((hour, minute)) => Ok(Some(Shorthand::Monthly { day, hour, minute })),
                }
            },
        }
    }
}

/// What the pieces `parts` of an expression stand for under the keyword
/// `keyword`, which is the first piece in lowercase; `Ok(None)` where the
/// keyword is that of no extended form.
///
/// `@daily` takes a time. `@weekly` takes a weekday token and a time.
/// `@monthly` takes a day of the month, 1 to 31, and a time. A weekday
/// keyword takes a time; so does an ordinal keyword whose number is a day of
/// the month, while one with another number is out of range whatever
/// follows.
pub open spec fn extended_for(keyword: Seq<char>, parts: Seq<Seq<char>>) -> Result<
    Option<Shorthand>,
    ErrorModel,
> {
    if keyword == "@daily"@ {
        with_time(Form::Daily, parts, |hour: u32, minute: u32| Shorthand::Daily { hour, minute })
    } else if keyword == "@weekly"@ {
        weekly_of(parts)
    } else if keyword == "@monthly"@ {
        monthly_of(parts)
    } else {
        match keyword_day(keyword) {
            Some(day) => with_time(
                Form::Weekday,
                parts,
                |hour: u32, minute: u32| Shorthand::Weekly { weekday: day, hour, minute },
            ),
            None => match keyword_ordinal(keyword) {
                Some(day) => if 1 <= day <= 31 {
                    with_time(
                        Form::Ordinal,
                        parts,
                        |hour: u32, minute: u32| Shorthand::Monthly { day, hour, minute },
                    )
                } else {
                    Err(out_of_range(Quantity::DayOfMonth, day))
                },
                None => Ok(None),
            },
        }
    }
}

/// What the extended form `t` stands for, `Ok(None)` where `t` is none.
/// Only an expression that begins with `@` and holds a slash is looked at.
/// It is cut at its slashes, and the first piece in lowercase, the keyword,
/// decides what the pieces stand for.
pub open spec fn extended_of(t: Seq<char>) -> Result<Option<Shorthand>, ErrorModel> {
    if !(t.len() > 0 && t[0] == '@' && t.contains('/')) {
        Ok(None)
    } else {
        extended_for(lowered(pieces(t, '/')[0]), pieces(t, '/'))
    }
}

/// The time that is the only argument of the form `form`.
fn only_time(form: Form, parts: &Vec<&[char]>) -> (r: Result<(u32, u32), ParseError>)
    requires
        parts@.len() >= 1,
    ensures
        r matches Ok(time) ==> parts@.len() == 2 && time_of(parts@[1]@) == Ok::<
            (u32, u32),
            ErrorModel,
        >(time),
        r matches Err(e) ==> if parts@.len() != 2 {
            e@ == wrong_arity(form, parts@.len())
        } else {
            time_of(parts@[1]@) == Err::<(u32, u32), ErrorModel>(e@)
        },
{
    if parts.len() != 2 {
        return Err(ParseError::WrongArity { form, found: parts.len() - 1 });
    }
    parse_time_spec(parts[1])
}

/// What the pieces `parts` of an expression stand for under the keyword
/// `keyword`, which is the first piece in lowercase.
pub fn parse_keyword(keyword: &[char], parts: &Vec<&[char]>) -> (r: Result<
    Option<Shorthand>,
    ParseError,
>)
    requires
        parts@.len() >= 1,
    ensures
        r matches Ok(form) ==> extended_for(keyword@, views(parts@)) == Ok::<
            Option<Shorthand>,
            ErrorModel,
        >(form),
        r matches Err(e) ==> extended_for(keyword@, views(parts@)) == Err::<
            Option<Shorthand>,
            ErrorModel,
        >(e@),
{
    if equals_str(keyword, "@daily") {
        let (hour, minute) = only_time(Form::Daily, parts)?;
        assert(views(parts@)[1] == parts@[1]@);
        return Ok(Some(Shorthand::Daily { hour, minute }));
    }
    if equals_str(keyword, "@weekly") {
        if parts.len() != 3 {
            return Err(ParseError::WrongArity { form: Form::Weekly, found: parts.len() - 1 });
        }
        assert(views(parts@)[1] == parts@[1]@);
        assert(views(parts@)[2] == parts@[2]@);
        let day = parse_dow_name(parts[1])?;
        let (hour, minute) = parse_time_spec(parts[2])?;
        return Ok(Some(Shorthand::Weekly { weekday: day, hour, minute }));
    }
    if equals_str(keyword, "@monthly") {
        if parts.len() != 3 {
            return Err(ParseError::WrongArity { form: Form::Monthly, found: parts.len() - 1 });
        }
        assert(views(parts@)[1] == parts@[1]@);
        assert(views(parts@)[2] == parts@[2]@);
        let day = match parse_u32(parts[1]) {
            Some(n) => n,
            None => {
                return Err(invalid_number(Role::Day, parts[1]));
            },
        };
        if !(1 <= day && day <= 31) {
            return Err(ParseError::OutOfRange { quantity: Quantity::DayOfMonth, got: day });
        }
        let (hour, minute) = parse_time_spec(parts[2])?;
        return Ok(Some(Shorthand::Monthly { day, hour, minute }));
    }
    if let Some(day) = try_parse_dow_keyword(keyword) {
        let (hour, minute) = only_time(Form::Weekday, parts)?;
        assert(views(parts@)[1] == parts@[1]@);
        return Ok(Some(Shorthand::Weekly { weekday: day, hour, minute }));
    }
    if let Some(day) = try_parse_ordinal(keyword) {
        let (hour, minute) = only_time(Form::Ordinal, parts)?;
        assert(views(parts@)[1] == parts@[1]@);
        return Ok(Some(Shorthand::Monthly { day, hour, minute }));
    }
    if let Some(day) = try_parse_ordinal_any(keyword) {
        return Err(ParseError::OutOfRange { quantity: Quantity::DayOfMonth, got: day });
    }
    Ok(None)
}

/// What the extended form `expr` stands for, `Ok(None)` where `expr` is
/// none.
pub fn parse_extended(expr: &[char]) -> (r: Result<Option<Shorthand>, ParseError>)
    ensures
        r matches Ok(form) ==> extended_of(expr@) == Ok::<Option<Shorthand>, ErrorModel>(form),
        r matches Err(e) ==> extended_of(expr@) == Err::<Option<Shorthand>, ErrorModel>(e@),
{
    proof {
        crate::text::lemma_position(expr@, '/');
    }
    if !(expr.len() > 0 && expr[0] == '@' && find_char(expr, '/').is_some()) {
        return Ok(None);
    }
    let parts = split(expr, '/');
    assert(views(parts@)[0] == parts@[0]@);
    let keyword = lowercase(parts[0]);
    parse_keyword(keyword.as_slice(), &parts)
}

/// Why an expression is refused as an incomplete shorthand, where `lower`
/// is the expression in lowercase and `keyword` the expression as it was
/// written: `lower` is a weekday keyword of at least three letters or an
/// ordinal keyword for a day of the month, and lacks its time; or it is an
/// ordinal keyword whose number is no day of the month.
pub open spec fn incomplete_for(lower: Seq<char>, keyword: Seq<char>) -> Option<ErrorModel> {
    if is_bare_weekday(lower) {
        Some(ErrorModel::MissingTime { keyword })
    } else {
        match keyword_ordinal(lower) {
            Some(day) => if 1 <= day <= 31 {
                Some(ErrorModel::MissingTime { keyword })
            } else {
                Some(out_of_range(Quantity::DayOfMonth, day))
            },
            None => None,
        }
    }
}

/// Why the expression `t`, which begins with `@` and is no classic or
/// extended form, is refused before it is read as five fields.
pub open spec fn incomplete(t: Seq<char>) -> Option<ErrorModel> {
    incomplete_for(lowered(t), t)
}

/// Refuses the expression `expr`, whose lowercase form is `lower`, where it
/// is a weekday or ordinal keyword that stands without a time, or an ordinal
/// keyword whose number is no day of the month.
pub fn check_keyword(lower: &[char], expr: &[char]) -> (r: Result<(), ParseError>)
    ensures
        r is Ok == incomplete_for(lower@, expr@) is None,
        r matches Err(e) ==> incomplete_for(lower@, expr@) == Some(e@),
{
    if is_weekday_keyword(lower) {
        return Err(ParseError::MissingTime { keyword: string_of(expr) });
    }
    if let Some(day) = try_parse_ordinal_any(lower) {
        if !(1 <= day && day <= 31) {
            return Err(ParseError::OutOfRange { quantity: Quantity::DayOfMonth, got: day });
        }
        return Err(ParseError::MissingTime { keyword: string_of(expr) });
    }
    Ok(())
}

/// Refuses a weekday or ordinal keyword that stands without a time, and an
/// ordinal keyword whose number is no day of the month.
pub fn check_incomplete_syntax(expr: &[char]) -> (r: Result<(), ParseError>)
    ensures
        r is Ok == incomplete(expr@) is None,
        r matches Err(e) ==> incomplete(expr@) == Some(e@),
{
    let lower = lowercase(expr);
    check_keyword(lower.as_slice(), expr)
}

} // verus!
