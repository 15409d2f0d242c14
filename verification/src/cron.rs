//! Translation of a trigger expression into a schedule.
//!
//! An expression is one of the `@` forms or five fields: minute, hour, day of
//! the month, month and day of the week. `parse` reads it; `parsed` says
//! what `parse` returns for each input.

use crate::cron::error::{ErrorModel, ParseError};
use crate::cron::field::{field_of, parse_field, FieldModel, FieldType};
use crate::cron::schedule::{CronSchedule, ScheduleModel, Trigger, TriggerModel};
use crate::cron::shorthand::{
    check_incomplete_syntax, classic_of, extended_of, incomplete, parse_extended, parse_special,
    Shorthand,
};
use crate::cron::weekday::{dow_field_of, parse_dow_field, DowModel};
use crate::split::{split_whitespace, views, words};
use crate::text::{chars_of, push_all, push_str, string_of, trim, trimmed};
use vstd::prelude::*;

pub mod error;
pub mod field;
pub mod laws;
pub mod schedule;
pub mod shorthand;
pub mod weekday;

verus! {

/// The date part of a calendar expression: any year, the month and the day.
pub open spec fn date_part(month: FieldModel, day: FieldModel) -> Seq<char> {
    "*-"@ + month.text() + "-"@ + day.text()
}

/// The time part of a calendar expression: hour, minute and zero seconds.
pub open spec fn time_part(hour: FieldModel, minute: FieldModel) -> Seq<char> {
    hour.text() + ":"@ + minute.text() + ":00"@
}

/// The calendar expression made of a weekday part, if there is one, a date
/// part and a time part, with one space between each two.
pub open spec fn assembled(weekday: Option<Seq<char>>, date: Seq<char>, time: Seq<char>) -> Seq<
    char,
> {
    match weekday {
        Some(days) => days + " "@ + date + " "@ + time,
        None => date + " "@ + time,
    }
}

/// Puts a weekday part, if there is one, a date part and a time part
/// together with one space between each two.
pub fn assemble(weekday: Option<&[char]>, date: &[char], time: &[char]) -> (out: Vec<char>)
    ensures
        out@ == assembled(
            match weekday {
                Some(days) => Some(days@),
                None => None,
            },
            date@,
            time@,
        ),
{
    let mut out: Vec<char> = Vec::new();
    if let Some(days) = weekday {
        push_all(&mut out, days);
        push_str(&mut out, " ");
    }
    push_all(&mut out, date);
    push_str(&mut out, " ");
    push_all(&mut out, time);
    out
}

/// The schedule with the calendar expression of the five fields and no
/// display form.
pub open spec fn calendar_of(
    minute: FieldModel,
    hour: FieldModel,
    day: FieldModel,
    month: FieldModel,
    weekday: DowModel,
) -> ScheduleModel {
    ScheduleModel {
        trigger: TriggerModel::Calendar(
            assembled(weekday.text(), date_part(month, day), time_part(hour, minute)),
        ),
        display: None,
    }
}

/// What the five-field expression `t` stands for. Its fields are the runs of
/// characters between whitespace; there must be five of them. They are read
/// in their order, minute, hour, day of the month, month, day of the week,
/// and the first that cannot be read decides the failure.
pub open spec fn five_fields(t: Seq<char>) -> Result<ScheduleModel, ErrorModel> {
    let fields = words(t);
    if fields.len() != 5 {
        Err(ErrorModel::FieldCount { found: fields.len() })
    } else {
        match field_of(fields[0], FieldType::Minute) {
            Err(e) => Err(e),
            Ok(minute) => match field_of(fields[1], FieldType::Hour) {
                Err(e) => Err(e),
                Ok(hour) => match field_of(fields[2], FieldType::DayOfMonth) {
                    Err(e) => Err(e),
                    Ok(day) => match field_of(fields[3], FieldType::Month) {
                        Err(e) => Err(e),
                        Ok(month) => match dow_field_of(fields[4]) {
                            Err(e) => Err(e),
                            Ok(weekday) => Ok(calendar_of(minute, hour, day, month, weekday)),
                        },
                    },
                },
            },
        }
    }
}

/// Reads an expression in the five-field form.
pub fn parse_fields(expr: &[char]) -> (r: Result<CronSchedule, ParseError>)
    ensures
        r matches Ok(schedule) ==> five_fields(expr@) == Ok::<ScheduleModel, ErrorModel>(
            schedule@,
        ),
        r matches Err(e) ==> five_fields(expr@) == Err::<ScheduleModel, ErrorModel>(e@),
{
    let fields = split_whitespace(expr);
    if fields.len() != 5 {
        return Err(ParseError::FieldCount { found: fields.len() });
    }
    let ghost all = views(fields@);
    assert(all[0] == fields@[0]@ && all[1] == fields@[1]@ && all[2] == fields@[2]@ && all[3]
        == fields@[3]@ && all[4] == fields@[4]@);
    let minute = parse_field(fields[0], FieldType::Minute)?;
    let hour = parse_field(fields[1], FieldType::Hour)?;
    let day = parse_field(fields[2], FieldType::DayOfMonth)?;
    let month = parse_field(fields[3], FieldType::Month)?;
    let weekday = parse_dow_field(fields[4])?;

    let mut date: Vec<char> = Vec::new();
    push_str(&mut date, "*-");
    push_all(&mut date, month.render().as_slice());
    push_str(&mut date, "-");
    push_all(&mut date, day.render().as_slice());

    let mut time: Vec<char> = Vec::new();
    push_all(&mut time, hour.render().as_slice());
    push_str(&mut time, ":");
    push_all(&mut time, minute.render().as_slice());
    push_str(&mut time, ":00");

    let days = weekday.render();
    let calendar = match &days {
        Some(text) => assemble(Some(text.as_slice()), date.as_slice(), time.as_slice()),
        None => assemble(None, date.as_slice(), time.as_slice()),
    };
    Ok(CronSchedule { trigger: Trigger::Calendar(string_of(calendar.as_slice())), display: None })
}

/// Whether `t` begins with the character that marks a shorthand.
pub open spec fn is_marked(t: Seq<char>) -> bool {
    t.len() > 0 && t[0] == '@'
}

/// What the expression `input` is translated into.
///
/// Whitespace before and after the expression does not count. An extended
/// form is tried first, and its failure is the failure of the expression.
/// Then comes the table of classic keywords. An expression that is neither
/// and begins with `@` may be refused as incomplete. Whatever is left is
/// read as five fields.
#[verifier::opaque]
pub open spec fn parsed(input: Seq<char>) -> Result<ScheduleModel, ErrorModel> {
    let t = trimmed(input);
    match extended_of(t) {
        Err(e) => Err(e),
        Ok(Some(form)) => Ok(form.schedule()),
        Ok(None) => match classic_of(t) {
            Some(c) => Ok(Shorthand::Classic(c).schedule()),
            None => if is_marked(t) && incomplete(t) is Some {
                Err(incomplete(t)->0)
            } else {
                five_fields(t)
            },
        },
    }
}

/// Translates a trigger expression into a schedule.
pub fn parse(expr: &str) -> (r: Result<CronSchedule, ParseError>)
    ensures
        r matches Ok(schedule) ==> parsed(expr@) == Ok::<ScheduleModel, ErrorModel>(schedule@),
        r matches Err(e) ==> parsed(expr@) == Err::<ScheduleModel, ErrorModel>(e@),
{
    proof {
        reveal(parsed);
    }
    let chars = chars_of(expr);
    let t = trim(chars.as_slice());
    if let Some(form) = parse_extended(t)? {
        return Ok(form.to_schedule());
    }
    if let Some(c) = parse_special(t) {
        return Ok(Shorthand::Classic(c).to_schedule());
    }
    if t.len() > 0 && t[0] == '@' {
        check_incomplete_syntax(t)?;
    }
    parse_fields(t)
}

} // verus!
