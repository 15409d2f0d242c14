//! The day-of-week field: weekday names and numbers, and ranges and lists of
//! them.

use crate::cron::error::{ErrorModel, ParseError, Quantity};
use crate::number::{number, parse_u32};
use crate::split::{joined, pieces, split, views};
use crate::text::{
    chars_of, equals_str, halves, has_prefix, lowercase, lowered, push_str, split_once,
    starts_with, string_of,
};
use vstd::prelude::*;

verus! {

/// A day of the week.
#[derive(Clone, Copy, Debug, PartialEq, Eq, Structural)]
pub enum Weekday {
    Sun,
    Mon,
    Tue,
    Wed,
    Thu,
    Fri,
    Sat,
}

impl Weekday {
    /// The canonical name of the day: three letters, the first a capital.
    pub open spec fn name(self) -> Seq<char> {
        match self {
            Weekday::Sun => "Sun"@,
            Weekday::Mon => "Mon"@,
            Weekday::Tue => "Tue"@,
            Weekday::Wed => "Wed"@,
            Weekday::Thu => "Thu"@,
            Weekday::Fri => "Fri"@,
            Weekday::Sat => "Sat"@,
        }
    }

    /// The canonical name in lowercase.
    pub open spec fn lower_name(self) -> Seq<char> {
        match self {
            Weekday::Sun => "sun"@,
            Weekday::Mon => "mon"@,
            Weekday::Tue => "tue"@,
            Weekday::Wed => "wed"@,
            Weekday::Thu => "thu"@,
            Weekday::Fri => "fri"@,
            Weekday::Sat => "sat"@,
        }
    }

    /// The full English name of the day in lowercase.
    pub open spec fn full_name(self) -> Seq<char> {
        match self {
            Weekday::Sun => "sunday"@,
            Weekday::Mon => "monday"@,
            Weekday::Tue => "tuesday"@,
            Weekday::Wed => "wednesday"@,
            Weekday::Thu => "thursday"@,
            Weekday::Fri => "friday"@,
            Weekday::Sat => "saturday"@,
        }
    }

    /// The day with the number `n`, where 0 and 7 both stand for Sunday.
    pub open spec fn numbered(n: u32) -> Weekday {
        if n == 1 {
            Weekday::Mon
        } else if n == 2 {
            Weekday::Tue
        } else if n == 3 {
            Weekday::Wed
        } else if n == 4 {
            Weekday::Thu
        } else if n == 5 {
            Weekday::Fri
        } else if n == 6 {
            Weekday::Sat
        } else {
            Weekday::Sun
        }
    }

    /// The day with the number `n`, where 0 and 7 both stand for Sunday.
    pub fn from_number(n: u32) -> (day: Weekday)
        requires
            n <= 7,
        ensures
            day == Weekday::numbered(n),
    {
        if n == 1 {
            Weekday::Mon
        } else if n == 2 {
            Weekday::Tue
        } else if n == 3 {
            Weekday::Wed
        } else if n == 4 {
            Weekday::Thu
        } else if n == 5 {
            Weekday::Fri
        } else if n == 6 {
            Weekday::Sat
        } else {
            Weekday::Sun
        }
    }

    /// The canonical name of the day.
    pub fn short(self) -> (r: &'static str)
        ensures
            r@ == self.name(),
    {
        match self {
            Weekday::Sun => "Sun",
            Weekday::Mon => "Mon",
            Weekday::Tue => "Tue",
            Weekday::Wed => "Wed",
            Weekday::Thu => "Thu",
            Weekday::Fri => "Fri",
            Weekday::Sat => "Sat",
        }
    }

    /// The canonical name in lowercase.
    pub fn lower(self) -> (r: &'static str)
        ensures
            r@ == self.lower_name(),
    {
        match self {
            Weekday::Sun => "sun",
            Weekday::Mon => "mon",
            Weekday::Tue => "tue",
            Weekday::Wed => "wed",
            Weekday::Thu => "thu",
            Weekday::Fri => "fri",
            Weekday::Sat => "sat",
        }
    }

    /// The full English name of the day in lowercase.
    pub fn full(self) -> (r: &'static str)
        ensures
            r@ == self.full_name(),
    {
        match self {
            Weekday::Sun => "sunday",
            Weekday::Mon => "monday",
            Weekday::Tue => "tuesday",
            Weekday::Wed => "wednesday",
            Weekday::Thu => "thursday",
            Weekday::Fri => "friday",
            Weekday::Sat => "saturday",
        }
    }
}

/// Whether `lower` names `day`: it is not empty and the full name of the day
/// begins with it. The three-letter name and the full name are such
/// beginnings, and so is any shorter one.
pub open spec fn names(lower: Seq<char>, day: Weekday) -> bool {
    lower.len() > 0 && has_prefix(day.full_name(), lower)
}

/// The day that the lowercase token `lower` names: the first from Sunday to
/// Saturday whose full name begins with it. A token that several names begin
/// with goes to the earliest of them, so `s` is Sunday and `t` is Tuesday.
pub open spec fn day_named(lower: Seq<char>) -> Option<Weekday> {
    if names(lower, Weekday::Sun) {
        Some(Weekday::Sun)
    } else if names(lower, Weekday::Mon) {
        Some(Weekday::Mon)
    } else if names(lower, Weekday::Tue) {
        Some(Weekday::Tue)
    } else if names(lower, Weekday::Wed) {
        Some(Weekday::Wed)
    } else if names(lower, Weekday::Thu) {
        Some(Weekday::Thu)
    } else if names(lower, Weekday::Fri) {
        Some(Weekday::Fri)
    } else if names(lower, Weekday::Sat) {
        Some(Weekday::Sat)
    } else {
        None
    }
}

/// The day that a weekday token stands for. A token that is a number stands
/// for the day of that number, 0 and 7 both for Sunday, and is out of range
/// above 7. Any other token stands, whatever its case, for the day it names.
pub open spec fn resolved(token: Seq<char>) -> Result<Weekday, ErrorModel> {
    match number(token) {
        Some(n) => if n <= 7 {
            Ok(Weekday::numbered(n))
        } else {
            Err(ErrorModel::OutOfRange { quantity: Quantity::Weekday, got: n })
        },
        None => match day_named(lowered(token)) {
            Some(day) => Ok(day),
            None => Err(ErrorModel::UnknownWeekday { token }),
        },
    }
}

/// The day that the weekday keyword `keyword` stands for: an `@` and a
/// lowercase token that names a day.
pub open spec fn keyword_day(keyword: Seq<char>) -> Option<Weekday> {
    if keyword.len() > 0 && keyword[0] == '@' {
        day_named(keyword.skip(1))
    } else {
        None
    }
}

/// Whether `keyword` is a weekday keyword that is taken for one even when it
/// stands alone: an `@` and at least three letters that name a day.
pub open spec fn is_bare_weekday(keyword: Seq<char>) -> bool {
    keyword.len() >= 4 && keyword_day(keyword) is Some
}

fn begins(day: Weekday, lower: &[char]) -> (r: bool)
    ensures
        r == names(lower@, day),
{
    let full = chars_of(day.full());
    lower.len() > 0 && starts_with(full.as_slice(), lower)
}

/// The day that the lowercase token `lower` names.
pub fn name_to_day(lower: &[char]) -> (r: Option<Weekday>)
    ensures
        r == day_named(lower@),
{
    if begins(Weekday::Sun, lower) {
        Some(Weekday::Sun)
    } else if begins(Weekday::Mon, lower) {
        Some(Weekday::Mon)
    } else if begins(Weekday::Tue, lower) {
        Some(Weekday::Tue)
    } else if begins(Weekday::Wed, lower) {
        Some(Weekday::Wed)
    } else if begins(Weekday::Thu, lower) {
        Some(Weekday::Thu)
    } else if begins(Weekday::Fri, lower) {
        Some(Weekday::Fri)
    } else if begins(Weekday::Sat, lower) {
        Some(Weekday::Sat)
    } else {
        None
    }
}

/// The day that a weekday token of the five-field form stands for: a
/// number from 0 to 7, or a name in any case.
pub fn dow_to_name(token: &[char]) -> (r: Result<Weekday, ParseError>)
    ensures
        r matches Ok(day) ==> resolved(token@) == Ok::<Weekday, ErrorModel>(day),
        r matches Err(e) ==> resolved(token@) == Err::<Weekday, ErrorModel>(e@),
{
    match parse_u32(token) {
        Some(n) => {
            if n <= 7 {
                Ok(Weekday::from_number(n))
            } else {
                Err(ParseError::OutOfRange { quantity: Quantity::Weekday, got: n })
            }
        },
        None => {
            let lower = lowercase(token);
            match name_to_day(lower.as_slice()) {
                Some(day) => Ok(day),
                None => Err(ParseError::UnknownWeekday { token: string_of(token) }),
            }
        },
    }
}

/// The day that the weekday argument of `@weekly/<dow>/<time>` stands for.
/// It is read by the rule for a single weekday token: a number from 0 to 7,
/// or a name in any case.
pub fn parse_dow_name(token: &[char]) -> (r: Result<Weekday, ParseError>)
    ensures
        r matches Ok(day) ==> resolved(token@) == Ok::<Weekday, ErrorModel>(day),
        r matches Err(e) ==> resolved(token@) == Err::<Weekday, ErrorModel>(e@),
{
    dow_to_name(token)
}

/// The day of the weekday keyword `keyword`, which is in lowercase.
pub fn try_parse_dow_keyword(keyword: &[char]) -> (r: Option<Weekday>)
    ensures
        r == keyword_day(keyword@),
{
    if keyword.len() > 0 && keyword[0] == '@' {
        name_to_day(&keyword[1..keyword.len()])
    } else {
        None
    }
}

/// Whether the lowercase `keyword` is a weekday keyword of at least three
/// letters.
pub fn is_weekday_keyword(keyword: &[char]) -> (r: bool)
    ensures
        r == is_bare_weekday(keyword@),
{
    keyword.len() >= 4 && try_parse_dow_keyword(keyword).is_some()
}

/// One member of a day-of-week list: a day or a range of days.
#[derive(Clone, Copy, Debug, PartialEq, Eq, Structural)]
pub enum DowItem {
    /// One day.
    Single(Weekday),
    /// The days from the first to the second.
    Range(Weekday, Weekday),
}

impl DowItem {
    /// The text of the member: the canonical names, with two dots between
    /// the ends of a range.
    pub open spec fn text(self) -> Seq<char> {
        match self {
            DowItem::Single(day) => day.name(),
            DowItem::Range(first, last) => first.name() + ".."@ + last.name(),
        }
    }

    fn push_to(self, out: &mut Vec<char>)
        ensures
            final(out)@ == old(out)@ + self.text(),
    {
        match self {
            DowItem::Single(day) => {
                push_str(out, day.short());
            },
            DowItem::Range(first, last) => {
                push_str(out, first.short());
                push_str(out, "..");
                push_str(out, last.short());
            },
        }
    }
}

/// The day-of-week field of a five-field expression.
#[derive(Debug, PartialEq, Eq)]
pub enum DowField {
    /// `*`: no constraint on the weekday.
    Any,
    /// One day.
    Single(Weekday),
    /// The days from the first to the second.
    Range(Weekday, Weekday),
    /// Several days and ranges, in the order in which they were written.
    List(Vec<DowItem>),
}

/// The day-of-week field as contracts speak of it.
pub enum DowModel {
    Any,
    Single(Weekday),
    Range(Weekday, Weekday),
    List(Seq<DowItem>),
}

impl View for DowField {
    type V = DowModel;

    open spec fn view(&self) -> DowModel {
        match self {
            DowField::Any => DowModel::Any,
            DowField::Single(day) => DowModel::Single(*day),
            DowField::Range(first, last) => DowModel::Range(*first, *last),
            DowField::List(items) => DowModel::List(items@),
        }
    }
}

/// The texts of the members of a list.
pub open spec fn item_texts(items: Seq<DowItem>) -> Seq<Seq<char>> {
    Seq::new(items.len(), |i: int| items[i].text())
}

impl DowModel {
    /// The field that is the single member `item`.
    pub open spec fn of_item(item: DowItem) -> DowModel {
        match item {
            DowItem::Single(day) => DowModel::Single(day),
            DowItem::Range(first, last) => DowModel::Range(first, last),
        }
    }

    /// The weekday part of a calendar expression, or nothing where the field
    /// puts no constraint on the weekday. The members of a list stand in
    /// their order with commas between them.
    pub open spec fn text(self) -> Option<Seq<char>> {
        match self {
            DowModel::Any => None,
            DowModel::Single(day) => Some(DowItem::Single(day).text()),
            DowModel::Range(first, last) => Some(DowItem::Range(first, last).text()),
            DowModel::List(items) => Some(joined(item_texts(items), ","@)),
        }
    }
}

/// What one member of a day-of-week list stands for: a range where it holds
/// a hyphen, with the tokens before and after the first hyphen as its ends,
/// else one day.
pub open spec fn dow_item_of(token: Seq<char>) -> Result<DowItem, ErrorModel> {
    match halves(token, '-') {
        Some((first, last)) => match resolved(first) {
            Err(e) => Err(e),
            Ok(a) => match resolved(last) {
                Err(e) => Err(e),
                Ok(b) => Ok(DowItem::Range(a, b)),
            },
        },
        None => match resolved(token) {
            Err(e) => Err(e),
            Ok(day) => Ok(DowItem::Single(day)),
        },
    }
}

/// What the members `parts` of a list stand for, or the failure of the first
/// of them that stands for nothing.
pub open spec fn dow_items_of(parts: Seq<Seq<char>>) -> Result<Seq<DowItem>, ErrorModel>
    decreases parts.len(),
{
    if parts.len() == 0 {
        Ok(Seq::empty())
    } else {
        match dow_items_of(parts.drop_last()) {
            Err(e) => Err(e),
            Ok(items) => match dow_item_of(parts.last()) {
                Err(e) => Err(e),
                Ok(item) => Ok(items.push(item)),
            },
        }
    }
}

/// What the day-of-week field `token` stands for. `*` is no constraint; a
/// token with a comma is a list of its pieces between the commas; any other
/// token is one day or one range.
pub open spec fn dow_field_of(token: Seq<char>) -> Result<DowModel, ErrorModel> {
    if token == "*"@ {
        Ok(DowModel::Any)
    } else if pieces(token, ',').len() > 1 {
        match dow_items_of(pieces(token, ',')) {
            Err(e) => Err(e),
            Ok(items) => Ok(DowModel::List(items)),
        }
    } else {
        match dow_item_of(token) {
            Err(e) => Err(e),
            Ok(item) => Ok(DowModel::of_item(item)),
        }
    }
}

/// A failure among the first members is the failure of the whole list.
pub proof fn lemma_dow_items_stop(parts: Seq<Seq<char>>, k: int)
    requires
        0 <= k <= parts.len(),
        dow_items_of(parts.take(k)) is Err,
    ensures
        dow_items_of(parts) == dow_items_of(parts.take(k)),
    decreases parts.len() - k,
{
    if k == parts.len() {
        assert(parts.take(k) == parts);
    } else {
        assert(parts.drop_last().take(k) == parts.take(k));
        lemma_dow_items_stop(parts.drop_last(), k);
    }
}

/// One day or one range of the day-of-week field.
pub fn parse_single_dow(token: &[char]) -> (r: Result<DowItem, ParseError>)
    ensures
        r matches Ok(item) ==> dow_item_of(token@) == Ok::<DowItem, ErrorModel>(item),
        r matches Err(e) ==> dow_item_of(token@) == Err::<DowItem, ErrorModel>(e@),
{
    match split_once(token, '-') {
        Some((first, last)) => {
            let a = dow_to_name(first)?;
            let b = dow_to_name(last)?;
            Ok(DowItem::Range(a, b))
        },
        None => {
            let day = dow_to_name(token)?;
            Ok(DowItem::Single(day))
        },
    }
}

/// The day-of-week field of a five-field expression.
pub fn parse_dow_field(field: &[char]) -> (r: Result<DowField, ParseError>)
    ensures
        r matches Ok(f) ==> dow_field_of(field@) == Ok::<DowModel, ErrorModel>(f@),
        r matches Err(e) ==> dow_field_of(field@) == Err::<DowModel, ErrorModel>(e@),
{
    if equals_str(field, "*") {
        return Ok(DowField::Any);
    }
    let parts = split(field, ',');
    if parts.len() > 1 {
        let ghost all = views(parts@);
        let mut items: Vec<DowItem> = Vec::new();
        let mut i: usize = 0;
        assert(all.take(0) == Seq::<Seq<char>>::empty());
        while i < parts.len()
            invariant
                i <= parts@.len(),
                all == views(parts@),
                all == pieces(field@, ','),
                all.len() > 1,
                field@ != "*"@,
                dow_items_of(all.take(i as int)) == Ok::<Seq<DowItem>, ErrorModel>(items@),
            decreases parts@.len() - i,
        {
            assert(all.take(i as int + 1).drop_last() == all.take(i as int));
            assert(all.take(i as int + 1).last() == parts@[i as int]@);
            match parse_single_dow(parts[i]) {
                Err(e) => {
                    proof {
                        lemma_dow_items_stop(all, i as int + 1);
                    }
                    return Err(e);
                },
                Ok(item) => {
                    items.push(item);
                },
            }
            i += 1;
        }
        assert(all.take(parts@.len() as int) == all);
        return Ok(DowField::List(items));
    }
    match parse_single_dow(field)? {
        DowItem::Single(day) => Ok(DowField::Single(day)),
        DowItem::Range(first, last) => Ok(DowField::Range(first, last)),
    }
}

impl DowField {
    /// The weekday part of a calendar expression, or nothing where the field
    /// puts no constraint on the weekday.
    pub fn render(&self) -> (r: Option<Vec<char>>)
        ensures
            r is Some == self@.text() is Some,
            r matches Some(text) ==> self@.text() == Some(text@),
    {
        match self {
            DowField::Any => None,
            DowField::Single(day) => {
                let mut out: Vec<char> = Vec::new();
                DowItem::Single(*day).push_to(&mut out);
                Some(out)
            },
            DowField::Range(first, last) => {
                let mut out: Vec<char> = Vec::new();
                DowItem::Range(*first, *last).push_to(&mut out);
                Some(out)
            },
            DowField::List(items) => {
                let mut out: Vec<char> = Vec::new();
                let ghost texts = item_texts(items@);
                let mut i: usize = 0;
                assert(texts.take(0) == Seq::<Seq<char>>::empty());
                while i < items.len()
                    invariant
                        i <= items@.len(),
                        texts == item_texts(items@),
                        out@ == joined(texts.take(i as int), ","@),
                    decreases items@.len() - i,
                {
                    assert(texts.take(i as int + 1).drop_last() == texts.take(i as int));
                    assert(texts.take(i as int + 1).last() == items@[i as int].text());
                    if i > 0 {
                        push_str(&mut out, ",");
                    }
                    items[i].push_to(&mut out);
                    i += 1;
                }
                assert(texts.take(items@.len() as int) == texts);
                Some(out)
            },
        }
    }
}

} // verus!
