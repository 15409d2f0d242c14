//! What holds of the translation for every input.

use crate::cron::error::{ErrorKind, ErrorModel};
use crate::cron::field::{
    element_of, elements_of, field_of, padded_all, stepped, ElementModel, FieldType,
};
use crate::cron::schedule::{ScheduleModel, TriggerModel};
use crate::cron::shorthand::{
    classic_of, extended_for, extended_of, incomplete, keyword_ordinal, ordinal_stem, ordinal_suffix,
    ordinal_text, time_of, time_text, Classic, Shorthand,
};
use crate::cron::weekday::{day_named, dow_field_of, keyword_day, names, resolved, Weekday};
use crate::cron::{five_fields, is_marked, parsed};
use crate::number::{
    all_digits, decimal, digits_value, is_digit, lemma_decimal, lemma_number_decimal, number,
    padded,
};
use crate::split::{joined, lemma_pieces_cons, lemma_pieces_single, pieces, words};
use crate::text::{
    halves, has_prefix, has_suffix, is_ascii_char, is_whitespace, lemma_lowered_unchanged,
    lemma_position, lemma_position_is, lemma_trimmed_unchanged, lowered, position, trimmed,
};
use vstd::prelude::*;

verus! {

/// An expression that is no shorthand and does not have five fields fails
/// with the number of fields it has.
///
/// "No shorthand" means that the expression, without the whitespace around
/// it, is no extended form, fails as none, is no classic keyword, and is not
/// refused as an incomplete shorthand.
pub proof fn law_field_count(input: Seq<char>)
    requires
        extended_of(trimmed(input)) == Ok::<Option<Shorthand>, ErrorModel>(None),
        classic_of(trimmed(input)) is None,
        !(is_marked(trimmed(input)) && incomplete(trimmed(input)) is Some),
        words(trimmed(input)).len() != 5,
    ensures
        parsed(input) == Err::<ScheduleModel, ErrorModel>(
            ErrorModel::FieldCount { found: words(trimmed(input)).len() },
        ),
        parsed(input)->Err_0.kind() == ErrorKind::Structure,
{
    reveal(parsed);
}

/// An expression that does not begin with `@` fails for its number of fields
/// exactly where it does not have five.
pub proof fn law_field_count_unmarked(input: Seq<char>)
    requires
        !is_marked(trimmed(input)),
    ensures
        words(trimmed(input)).len() != 5 <==> parsed(input) == Err::<ScheduleModel, ErrorModel>(
            ErrorModel::FieldCount { found: words(trimmed(input)).len() },
        ),
        words(trimmed(input)).len() != 5 <==> (parsed(input) is Err && parsed(input)->Err_0.kind()
            == ErrorKind::Structure),
{
    reveal(parsed);
    let t = trimmed(input);
    reveal_strlit("@yearly");
    reveal_strlit("@annually");
    reveal_strlit("@monthly");
    reveal_strlit("@weekly");
    reveal_strlit("@daily");
    reveal_strlit("@midnight");
    reveal_strlit("@hourly");
    reveal_strlit("@reboot");
    reveal_strlit("@service");
    assert(classic_of(t) is None) by {
        if classic_of(t) is Some {
            assert(t[0] == '@');
        }
    }
    lemma_field_failures(t);
}

/// No failure of a field or of the day of the week is of the structural
/// kind.
proof fn lemma_field_failures(t: Seq<char>)
    ensures
        five_fields(t) is Err && five_fields(t)->Err_0.kind() == ErrorKind::Structure ==> words(
            t,
        ).len() != 5,
{
    let fields = words(t);
    if fields.len() == 5 {
        lemma_field_kind(fields[0], FieldType::Minute);
        lemma_field_kind(fields[1], FieldType::Hour);
        lemma_field_kind(fields[2], FieldType::DayOfMonth);
        lemma_field_kind(fields[3], FieldType::Month);
        lemma_dow_kind(fields[4]);
    }
}

proof fn lemma_element_kind(token: Seq<char>, ft: FieldType)
    ensures
        element_of(token, ft) is Err ==> element_of(token, ft)->Err_0.kind()
            != ErrorKind::Structure,
{
}

proof fn lemma_elements_kind(parts: Seq<Seq<char>>, ft: FieldType)
    ensures
        crate::cron::field::elements_of(parts, ft) is Err ==> crate::cron::field::elements_of(
            parts,
            ft,
        )->Err_0.kind() != ErrorKind::Structure,
    decreases parts.len(),
{
    if parts.len() > 0 {
        lemma_elements_kind(parts.drop_last(), ft);
        lemma_element_kind(parts.last(), ft);
    }
}

proof fn lemma_field_kind(token: Seq<char>, ft: FieldType)
    ensures
        crate::cron::field::field_of(token, ft) is Err ==> crate::cron::field::field_of(
            token,
            ft,
        )->Err_0.kind() != ErrorKind::Structure,
{
    lemma_elements_kind(pieces(token, ','), ft);
    lemma_element_kind(token, ft);
}

proof fn lemma_dow_items_kind(parts: Seq<Seq<char>>)
    ensures
        crate::cron::weekday::dow_items_of(parts) is Err ==> crate::cron::weekday::dow_items_of(
            parts,
        )->Err_0.kind() != ErrorKind::Structure,
    decreases parts.len(),
{
    if parts.len() > 0 {
        lemma_dow_items_kind(parts.drop_last());
    }
}

proof fn lemma_dow_kind(token: Seq<char>)
    ensures
        dow_field_of(token) is Err ==> dow_field_of(token)->Err_0.kind() != ErrorKind::Structure,
{
    lemma_dow_items_kind(pieces(token, ','));
}

/// The weekday numbers 0 and 7 stand for the same day, Sunday, however they
/// are written.
pub proof fn law_sunday_twice(zero: Seq<char>, seven: Seq<char>)
    requires
        number(zero) == Some(0u32),
        number(seven) == Some(7u32),
    ensures
        resolved(zero) == Ok::<Weekday, ErrorModel>(Weekday::Sun),
        resolved(seven) == resolved(zero),
        resolved(seven)->Ok_0.name() == resolved(zero)->Ok_0.name(),
{
}

/// The weekly form takes its day as a number as well as by name: a day
/// token that is a number from 0 to 7 stands for the day of that number.
pub proof fn law_weekly_day_number(parts: Seq<Seq<char>>, n: u32, hour: u32, minute: u32)
    requires
        parts.len() == 3,
        number(parts[1]) == Some(n),
        n <= 7,
        time_of(parts[2]) == Ok::<(u32, u32), ErrorModel>((hour, minute)),
    ensures
        resolved(parts[1]) == Ok::<Weekday, ErrorModel>(Weekday::numbered(n)),
        extended_for("@weekly"@, parts) == Ok::<Option<Shorthand>, ErrorModel>(
            Some(Shorthand::Weekly { weekday: Weekday::numbered(n), hour, minute }),
        ),
{
    reveal_strlit("@weekly");
    reveal_strlit("@daily");
    assert("@weekly"@ != "@daily"@) by {
        assert("@weekly"@.len() != "@daily"@.len());
    }
}

/// The tokens `0` and `7` are the numbers 0 and 7, and as day-of-week
/// fields they are the same field.
pub proof fn law_zero_and_seven()
    ensures
        number("0"@) == Some(0u32),
        number("7"@) == Some(7u32),
        dow_field_of("0"@) == dow_field_of("7"@),
        dow_field_of("0"@)->Ok_0.text() == Some("Sun"@),
{
    reveal_strlit("0");
    reveal_strlit("7");
    reveal_strlit("*");
    let z = "0"@;
    let s = "7"@;
    assert(z.drop_last().len() == 0);
    assert(s.drop_last().len() == 0);
    assert(digits_value(z) == digits_value(z.drop_last()) * 10 + 0);
    assert(digits_value(s) == digits_value(s.drop_last()) * 10 + 7);
    assert(digits_value(z.drop_last()) == 0);
    assert(digits_value(s.drop_last()) == 0);
    assert(!z.contains(',')) by {
        if z.contains(',') {
            let i = choose|i: int| 0 <= i < z.len() && z[i] == ',';
        }
    }
    assert(!s.contains(',')) by {
        if s.contains(',') {
            let i = choose|i: int| 0 <= i < s.len() && s[i] == ',';
        }
    }
    assert(!z.contains('-')) by {
        if z.contains('-') {
            let i = choose|i: int| 0 <= i < z.len() && z[i] == '-';
        }
    }
    assert(!s.contains('-')) by {
        if s.contains('-') {
            let i = choose|i: int| 0 <= i < s.len() && s[i] == '-';
        }
    }
    lemma_pieces_single(z, ',');
    lemma_pieces_single(s, ',');
    lemma_position(z, '-');
    lemma_position(s, '-');
}

/// A range with a step expands into the values from its first end in steps
/// of the step, as far as they do not exceed its last end: one more than the
/// whole number of steps that fit between the ends. Each value is written
/// with two digits, with commas between the values.
pub proof fn law_stepped_range(
    token: Seq<char>,
    range: Seq<char>,
    first: Seq<char>,
    last: Seq<char>,
    step: Seq<char>,
    ft: FieldType,
    a: u32,
    b: u32,
    s: u32,
)
    requires
        !has_prefix(token, "*/"@),
        halves(token, '/') == Some((range, step)),
        halves(range, '-') == Some((first, last)),
        number(first) == Some(a),
        number(last) == Some(b),
        number(step) == Some(s),
        ft.quantity().admits(a),
        ft.quantity().admits(b),
        a <= b,
        s >= 1,
    ensures
        element_of(token, ft) == Ok::<ElementModel, ErrorModel>(
            ElementModel::SteppedRangeExpanded(stepped(a, b, s)),
        ),
        stepped(a, b, s).len() == (b - a) / (s as int) + 1,
        forall|k: int| 0 <= k < stepped(a, b, s).len() ==> #[trigger] stepped(a, b, s)[k] == a + k * s,
        forall|k: int| 0 <= k < stepped(a, b, s).len() ==> a <= #[trigger] stepped(a, b, s)[k] <= b,
        forall|i: int, j: int|
            0 <= i < j < stepped(a, b, s).len() ==> stepped(a, b, s)[i] < stepped(a, b, s)[j],
        element_of(token, ft)->Ok_0.text() == joined(padded_all(stepped(a, b, s)), ","@),
{
    lemma_stepped_ascends(a, b, s);
    lemma_position(token, '/');
    lemma_position(range, '-');
    let j = position(range, '-');
    assert(token.contains('/'));
    assert(range[j] == '-');
    assert(token[j] == '-');
    assert(token.contains('-'));
    lemma_stepped_values(a, b, s);
}

/// The expanded values lie between the ends of the range.
proof fn lemma_stepped_values(a: u32, b: u32, s: u32)
    requires
        a <= b,
        s >= 1,
    ensures
        stepped(a, b, s).len() == (b - a) / (s as int) + 1,
        forall|k: int| 0 <= k < stepped(a, b, s).len() ==> #[trigger] stepped(a, b, s)[k] == a + k * s,
        forall|k: int| 0 <= k < stepped(a, b, s).len() ==> a <= #[trigger] stepped(a, b, s)[k] <= b,
{
    let n = (b - a) / (s as int);
    assert(0 <= n && n * s <= b - a) by (nonlinear_arith)
        requires
            n == (b - a) / (s as int),
            s >= 1,
            b - a >= 0,
    ;
    assert forall|k: int| 0 <= k < stepped(a, b, s).len() implies #[trigger] stepped(a, b, s)[k]
        == a + k * s && a <= stepped(a, b, s)[k] <= b by {
        assert(0 <= k * s <= n * s) by (nonlinear_arith)
            requires
                0 <= k <= n,
                s >= 1,
        ;
    }
}

/// A classic keyword is found in the table under its own name. It begins
/// with `@`, holds no slash and no whitespace.
proof fn lemma_classic_keyword(c: Classic)
    ensures
        classic_of(c.keyword()) == Some(c),
        is_marked(c.keyword()),
        !c.keyword().contains('/'),
        trimmed(c.keyword()) == c.keyword(),
{
    reveal_strlit("@service");
    reveal_strlit("@yearly");
    reveal_strlit("@annually");
    reveal_strlit("@monthly");
    reveal_strlit("@weekly");
    reveal_strlit("@daily");
    reveal_strlit("@midnight");
    reveal_strlit("@hourly");
    reveal_strlit("@reboot");
    let k = c.keyword();
    assert("@yearly"@[1] == 'y');
    assert("@weekly"@[1] == 'w');
    assert("@hourly"@[1] == 'h');
    assert("@reboot"@[1] == 'r');
    assert("@monthly"@[1] == 'm');
    assert("@service"@[1] == 's');
    assert("@annually"@[1] == 'a');
    assert("@midnight"@[1] == 'm');
    assert(!k.contains('/')) by {
        if k.contains('/') {
            let i = choose|i: int| 0 <= i < k.len() && k[i] == '/';
        }
    }
    assert(!is_whitespace(k[0]) && !is_whitespace(k.last()));
    lemma_trimmed_unchanged(k);
}

/// `@service`, with or without whitespace around it, is the service marker
/// and neither a calendar expression nor a delay after boot.
pub proof fn law_service(input: Seq<char>)
    requires
        trimmed(input) == "@service"@,
    ensures
        parsed(input) == Ok::<ScheduleModel, ErrorModel>(
            ScheduleModel { trigger: TriggerModel::ServiceMarker, display: Some("@service"@) },
        ),
        parsed(input)->Ok_0.trigger.calendar() is None,
        parsed(input)->Ok_0.trigger.boot_delay() is None,
{
    reveal(parsed);
    lemma_classic_keyword(Classic::Service);
    assert(extended_of(trimmed(input)) == Ok::<Option<Shorthand>, ErrorModel>(None));
}

/// Only `@service` gives the service marker: a schedule with the service
/// marker has the display form `@service`.
pub proof fn law_service_only(input: Seq<char>)
    requires
        parsed(input) is Ok,
        parsed(input)->Ok_0.trigger is ServiceMarker,
    ensures
        trimmed(input) == "@service"@,
{
    reveal(parsed);
    let t = trimmed(input);
    match extended_of(t) {
        Ok(Some(form)) => {
            lemma_extended_is_timed(t);
        },
        _ => {},
    }
}

/// An extended form is a daily, weekly or monthly form whose numbers keep
/// their bounds.
proof fn lemma_extended_is_timed(t: Seq<char>)
    requires
        extended_of(t) is Ok,
        extended_of(t)->Ok_0 is Some,
    ensures
        !(extended_of(t)->Ok_0->0 is Classic),
        extended_of(t)->Ok_0->0.valid(),
{
}

/// A sequence of digits holds no character that is no digit.
proof fn lemma_digits_exclude(s: Seq<char>, c: char)
    requires
        all_digits(s),
        !is_digit(c),
    ensures
        !s.contains(c),
{
    if s.contains(c) {
        let i = choose|i: int| 0 <= i < s.len() && s[i] == c;
        assert(is_digit(s[i]));
    }
}

/// The display form of a time is read back as the same hour and minute. It
/// begins and ends with a digit and holds nothing but digits and one colon
/// at most.
proof fn lemma_time_text(hour: u32, minute: u32)
    requires
        hour <= 23,
        minute <= 59,
    ensures
        time_of(time_text(hour, minute)) == Ok::<(u32, u32), ErrorModel>((hour, minute)),
        time_text(hour, minute).len() > 0,
        is_digit(time_text(hour, minute)[0]),
        is_digit(time_text(hour, minute).last()),
        forall|i: int|
            0 <= i < time_text(hour, minute).len() ==> is_digit(#[trigger] time_text(hour, minute)[i])
                || time_text(hour, minute)[i] == ':',
{
    let h = decimal(hour as nat);
    let m = padded(minute as nat);
    let t = time_text(hour, minute);
    lemma_decimal(hour as nat);
    lemma_decimal(minute as nat);
    lemma_number_decimal(hour);
    lemma_number_decimal(minute);
    reveal_strlit(":");
    assert(":"@ == seq![':']);
    if minute == 0 {
        lemma_digits_exclude(h, ':');
        lemma_position(h, ':');
    } else {
        assert(all_digits(m)) by {
            assert forall|i: int| 0 <= i < m.len() implies is_digit(#[trigger] m[i]) by {
                if minute < 10 {
                    if i > 0 {
                        assert(m[i] == decimal(minute as nat)[i - 1]);
                    }
                }
            }
        }
        assert(t == h + seq![':'] + m);
        assert forall|j: int| 0 <= j < h.len() implies t[j] != ':' by {
            assert(t[j] == h[j]);
            assert(is_digit(h[j]));
        }
        assert(t[h.len() as int] == ':');
        lemma_position_is(t, ':', h.len() as int);
        assert(t.take(h.len() as int) == h);
        assert(t.skip(h.len() as int + 1) == m);
        assert(is_digit(m.last()));
        assert(t.last() == m.last());
        assert(t[0] == h[0]);
        assert forall|i: int| 0 <= i < t.len() implies is_digit(#[trigger] t[i]) || t[i] == ':' by {
            if i < h.len() {
                assert(t[i] == h[i]);
            } else if i > h.len() {
                assert(t[i] == m[i - h.len() - 1]);
            }
        }
    }
}

/// A keyword, a slash and an argument without a slash: the pieces at the
/// slashes are the keyword and the argument, and there is no whitespace
/// around to trim where the argument does not end with any.
proof fn lemma_keyword_and_argument(keyword: Seq<char>, argument: Seq<char>)
    requires
        is_marked(keyword),
        !keyword.contains('/'),
        argument.len() > 0,
        !argument.contains('/'),
        !is_whitespace(argument.last()),
    ensures
        ({
            let d = keyword + seq!['/'] + argument;
            &&& trimmed(d) == d
            &&& is_marked(d)
            &&& d.contains('/')
            &&& pieces(d, '/') == seq![keyword, argument]
        }),
{
    let d = keyword + seq!['/'] + argument;
    assert(d[0] == keyword[0]);
    assert(d.last() == argument.last());
    lemma_trimmed_unchanged(d);
    assert(d[keyword.len() as int] == '/');
    lemma_pieces_cons(keyword, '/', argument);
    lemma_pieces_single(argument, '/');
    assert(seq![keyword] + seq![argument] == seq![keyword, argument]);
}

/// A keyword, a slash and a time: the pieces at the slashes are the keyword
/// and the time, and there is no whitespace around to trim.
proof fn lemma_keyword_and_time(keyword: Seq<char>, hour: u32, minute: u32)
    requires
        is_marked(keyword),
        !keyword.contains('/'),
        hour <= 23,
        minute <= 59,
    ensures
        ({
            let d = keyword + seq!['/'] + time_text(hour, minute);
            &&& trimmed(d) == d
            &&& is_marked(d)
            &&& d.contains('/')
            &&& pieces(d, '/') == seq![keyword, time_text(hour, minute)]
        }),
{
    let t = time_text(hour, minute);
    lemma_time_text(hour, minute);
    assert(!t.contains('/')) by {
        if t.contains('/') {
            let i = choose|i: int| 0 <= i < t.len() && t[i] == '/';
            assert(is_digit(t[i]) || t[i] == ':');
        }
    }
    lemma_keyword_and_argument(keyword, t);
}

/// A sequence that differs from the full name of a day at a place within
/// both does not name that day.
proof fn lemma_not_named(lower: Seq<char>, day: Weekday, i: int)
    requires
        0 <= i < lower.len(),
        i < day.full_name().len(),
        lower[i] != day.full_name()[i],
    ensures
        !names(lower, day),
{
    let full = day.full_name();
    if has_prefix(full, lower) {
        assert(full.take(lower.len() as int)[i] == lower[i]);
    }
}

/// Three letters that are the first three of the full name of a day name
/// that day.
proof fn lemma_named(lower: Seq<char>, day: Weekday)
    requires
        lower.len() == 3,
        day.full_name().len() >= 3,
        lower[0] == day.full_name()[0],
        lower[1] == day.full_name()[1],
        lower[2] == day.full_name()[2],
    ensures
        names(lower, day),
{
    assert(day.full_name().take(3) =~= lower);
}

/// The lowercase name of a day names that day, and is written in lowercase
/// ASCII letters.
proof fn lemma_day_named(day: Weekday)
    ensures
        day_named(day.lower_name()) == Some(day),
        day.lower_name().len() == 3,
        forall|i: int|
            0 <= i < 3 ==> 'a' <= #[trigger] day.lower_name()[i] <= 'z',
{
    reveal_strlit("sun");
    reveal_strlit("mon");
    reveal_strlit("tue");
    reveal_strlit("wed");
    reveal_strlit("thu");
    reveal_strlit("fri");
    reveal_strlit("sat");
    reveal_strlit("sunday");
    reveal_strlit("monday");
    reveal_strlit("tuesday");
    reveal_strlit("wednesday");
    reveal_strlit("thursday");
    reveal_strlit("friday");
    reveal_strlit("saturday");
    let l = day.lower_name();
    lemma_named(l, day);
    match day {
        Weekday::Sun => {},
        Weekday::Mon => {
            lemma_not_named(l, Weekday::Sun, 0);
        },
        Weekday::Tue => {
            lemma_not_named(l, Weekday::Sun, 0);
            lemma_not_named(l, Weekday::Mon, 0);
        },
        Weekday::Wed => {
            lemma_not_named(l, Weekday::Sun, 0);
            lemma_not_named(l, Weekday::Mon, 0);
            lemma_not_named(l, Weekday::Tue, 0);
        },
        Weekday::Thu => {
            lemma_not_named(l, Weekday::Sun, 0);
            lemma_not_named(l, Weekday::Mon, 0);
            lemma_not_named(l, Weekday::Tue, 1);
            lemma_not_named(l, Weekday::Wed, 0);
        },
        Weekday::Fri => {
            lemma_not_named(l, Weekday::Sun, 0);
            lemma_not_named(l, Weekday::Mon, 0);
            lemma_not_named(l, Weekday::Tue, 0);
            lemma_not_named(l, Weekday::Wed, 0);
            lemma_not_named(l, Weekday::Thu, 0);
        },
        Weekday::Sat => {
            lemma_not_named(l, Weekday::Sun, 1);
            lemma_not_named(l, Weekday::Mon, 0);
            lemma_not_named(l, Weekday::Tue, 0);
            lemma_not_named(l, Weekday::Wed, 0);
            lemma_not_named(l, Weekday::Thu, 0);
            lemma_not_named(l, Weekday::Fri, 0);
        },
    }
}

/// A sequence that begins with a digit names no day.
proof fn lemma_digit_names_no_day(name: Seq<char>)
    requires
        name.len() > 0,
        is_digit(name[0]),
    ensures
        day_named(name) is None,
{
    reveal_strlit("sunday");
    reveal_strlit("monday");
    reveal_strlit("tuesday");
    reveal_strlit("wednesday");
    reveal_strlit("thursday");
    reveal_strlit("friday");
    reveal_strlit("saturday");
    lemma_not_named(name, Weekday::Sun, 0);
    lemma_not_named(name, Weekday::Mon, 0);
    lemma_not_named(name, Weekday::Tue, 0);
    lemma_not_named(name, Weekday::Wed, 0);
    lemma_not_named(name, Weekday::Thu, 0);
    lemma_not_named(name, Weekday::Fri, 0);
    lemma_not_named(name, Weekday::Sat, 0);
}

/// The ordinal of a number is read back as that number. It begins with a
/// digit and is written in digits and lowercase ASCII letters.
proof fn lemma_ordinal_text(n: u32)
    ensures
        keyword_ordinal(seq!['@'] + ordinal_text(n)) == Some(n),
        ordinal_text(n).len() >= 3,
        is_digit(ordinal_text(n)[0]),
        forall|i: int|
            0 <= i < ordinal_text(n).len() ==> is_digit(#[trigger] ordinal_text(n)[i]) || 'a'
                <= ordinal_text(n)[i] <= 'z',
{
    reveal_strlit("st");
    reveal_strlit("nd");
    reveal_strlit("rd");
    reveal_strlit("th");
    let digits = decimal(n as nat);
    let suffix = ordinal_suffix(n);
    let name = ordinal_text(n);
    let keyword = seq!['@'] + name;
    lemma_decimal(n as nat);
    lemma_number_decimal(n);
    assert(suffix.len() == 2);
    assert(keyword.skip(1) == name);
    assert(name.skip(name.len() - 2) == suffix);
    assert(name.take(name.len() - 2) == digits);
    assert(has_suffix(name, suffix));
    assert(ordinal_stem(name) == Some(digits));
    assert(name[0] == digits[0]);
    assert forall|i: int| 0 <= i < name.len() implies is_digit(#[trigger] name[i]) || 'a'
        <= name[i] <= 'z' by {
        if i < digits.len() {
            assert(name[i] == digits[i]);
        } else {
            assert(name[i] == suffix[i - digits.len()]);
        }
    }
}

/// The keyword of the daily form is its own lowercase form and holds no
/// slash.
proof fn lemma_daily_keyword()
    ensures
        lowered("@daily"@) == "@daily"@,
        is_marked("@daily"@),
        !"@daily"@.contains('/'),
        "@daily/"@ == "@daily"@ + seq!['/'],
{
    reveal_strlit("@daily");
    reveal_strlit("@daily/");
    let keyword = "@daily"@;
    assert(!keyword.contains('/')) by {
        if keyword.contains('/') {
            let i = choose|i: int| 0 <= i < keyword.len() && keyword[i] == '/';
        }
    }
    assert("@daily/"@ =~= keyword + seq!['/']);
    lemma_lowered_unchanged(keyword);
}

/// The display form of a daily form is read back as that form.
proof fn lemma_daily_display(hour: u32, minute: u32)
    requires
        hour <= 23,
        minute <= 59,
    ensures
        ({
            let form = Shorthand::Daily { hour, minute };
            &&& trimmed(form.display()) == form.display()
            &&& extended_of(form.display()) == Ok::<Option<Shorthand>, ErrorModel>(Some(form))
        }),
{
    let keyword = "@daily"@;
    let time = time_text(hour, minute);
    let form = Shorthand::Daily { hour, minute };
    let d = keyword + seq!['/'] + time;
    lemma_daily_keyword();
    assert(form.display() == d);
    lemma_keyword_and_time(keyword, hour, minute);
    lemma_time_text(hour, minute);
    let parts = pieces(d, '/');
    assert(parts[0] == keyword);
    assert(parts[1] == time);
    assert(extended_for(keyword, parts) == Ok::<Option<Shorthand>, ErrorModel>(Some(form)));
}

/// The keyword of a weekly form, `@` and the lowercase name of the day, is
/// its own lowercase form, holds no slash, is none of the three words that
/// take arguments, and is the weekday keyword of its day.
proof fn lemma_weekday_keyword(day: Weekday)
    ensures
        ({
            let keyword = seq!['@'] + day.lower_name();
            &&& lowered(keyword) == keyword
            &&& is_marked(keyword)
            &&& !keyword.contains('/')
            &&& keyword != "@daily"@
            &&& keyword != "@weekly"@
            &&& keyword != "@monthly"@
            &&& keyword_day(keyword) == Some(day)
        }),
{
    reveal_strlit("@daily");
    reveal_strlit("@weekly");
    reveal_strlit("@monthly");
    let name = day.lower_name();
    let keyword = seq!['@'] + name;
    lemma_day_named(day);
    assert(keyword.len() == 4);
    assert forall|i: int| 0 <= i < keyword.len() implies is_ascii_char(#[trigger] keyword[i]) && !(
    'A' <= keyword[i] <= 'Z') && keyword[i] != '/' by {
        if i > 0 {
            assert(keyword[i] == name[i - 1]);
        }
    }
    assert(!keyword.contains('/')) by {
        if keyword.contains('/') {
            let i = choose|i: int| 0 <= i < keyword.len() && keyword[i] == '/';
        }
    }
    lemma_lowered_unchanged(keyword);
    assert(keyword.skip(1) == name);
}

/// The display form of a weekly form is read back as that form.
proof fn lemma_weekly_display(day: Weekday, hour: u32, minute: u32)
    requires
        hour <= 23,
        minute <= 59,
    ensures
        ({
            let form = Shorthand::Weekly { weekday: day, hour, minute };
            &&& trimmed(form.display()) == form.display()
            &&& extended_of(form.display()) == Ok::<Option<Shorthand>, ErrorModel>(Some(form))
        }),
{
    let keyword = seq!['@'] + day.lower_name();
    let time = time_text(hour, minute);
    let form = Shorthand::Weekly { weekday: day, hour, minute };
    let d = keyword + seq!['/'] + time;
    assert(form.display() == d) by {
        reveal_strlit("@");
        reveal_strlit("/");
        assert("@"@ =~= seq!['@']);
        assert("/"@ =~= seq!['/']);
    }
    lemma_weekday_keyword(day);
    lemma_keyword_and_time(keyword, hour, minute);
    lemma_time_text(hour, minute);
    let parts = pieces(d, '/');
    assert(parts[0] == keyword);
    assert(parts[1] == time);
    assert(extended_for(keyword, parts) == Ok::<Option<Shorthand>, ErrorModel>(Some(form)));
}

/// The keyword of a monthly form, `@` and the ordinal of the day, is its
/// own lowercase form, holds no slash, is none of the three words that take
/// arguments, is no weekday keyword, and is the ordinal keyword of its day.
proof fn lemma_ordinal_keyword(day: u32)
    ensures
        ({
            let keyword = seq!['@'] + ordinal_text(day);
            &&& lowered(keyword) == keyword
            &&& is_marked(keyword)
            &&& !keyword.contains('/')
            &&& keyword != "@daily"@
            &&& keyword != "@weekly"@
            &&& keyword != "@monthly"@
            &&& keyword_day(keyword) is None
            &&& keyword_ordinal(keyword) == Some(day)
        }),
{
    reveal_strlit("@daily");
    reveal_strlit("@weekly");
    reveal_strlit("@monthly");
    let name = ordinal_text(day);
    let keyword = seq!['@'] + name;
    lemma_ordinal_text(day);
    assert forall|i: int| 0 <= i < keyword.len() implies is_ascii_char(#[trigger] keyword[i]) && !(
    'A' <= keyword[i] <= 'Z') && keyword[i] != '/' by {
        if i > 0 {
            assert(keyword[i] == name[i - 1]);
        }
    }
    assert(!keyword.contains('/')) by {
        if keyword.contains('/') {
            let i = choose|i: int| 0 <= i < keyword.len() && keyword[i] == '/';
        }
    }
    lemma_lowered_unchanged(keyword);
    assert(keyword.skip(1) == name);
    assert(keyword[1] == name[0]);
    assert("@daily"@[1] == 'd');
    assert("@weekly"@[1] == 'w');
    assert("@monthly"@[1] == 'm');
    lemma_digit_names_no_day(name);
}

/// The display form of a monthly form is read back as that form.
proof fn lemma_monthly_display(day: u32, hour: u32, minute: u32)
    requires
        1 <= day <= 31,
        hour <= 23,
        minute <= 59,
    ensures
        ({
            let form = Shorthand::Monthly { day, hour, minute };
            &&& trimmed(form.display()) == form.display()
            &&& extended_of(form.display()) == Ok::<Option<Shorthand>, ErrorModel>(Some(form))
        }),
{
    let keyword = seq!['@'] + ordinal_text(day);
    let time = time_text(hour, minute);
    let form = Shorthand::Monthly { day, hour, minute };
    let d = keyword + seq!['/'] + time;
    assert(form.display() == d) by {
        reveal_strlit("@");
        reveal_strlit("/");
        assert("@"@ =~= seq!['@']);
        assert("/"@ =~= seq!['/']);
    }
    lemma_ordinal_keyword(day);
    lemma_keyword_and_time(keyword, hour, minute);
    lemma_time_text(hour, minute);
    let parts = pieces(d, '/');
    assert(parts[0] == keyword);
    assert(parts[1] == time);
    assert(extended_for(keyword, parts) == Ok::<Option<Shorthand>, ErrorModel>(Some(form)));
}

/// The display form of a shorthand whose numbers keep their bounds is
/// translated into the schedule of that shorthand.
pub proof fn law_display_parses(form: Shorthand)
    requires
        form.valid(),
    ensures
        parsed(form.display()) == Ok::<ScheduleModel, ErrorModel>(form.schedule()),
{
    reveal(parsed);
    match form {
        Shorthand::Classic(c) => {
            lemma_classic_keyword(c);
            assert(extended_of(c.keyword()) == Ok::<Option<Shorthand>, ErrorModel>(None));
        },
        Shorthand::Daily { hour, minute } => {
            lemma_daily_display(hour, minute);
        },
        Shorthand::Weekly { weekday, hour, minute } => {
            lemma_weekly_display(weekday, hour, minute);
        },
        Shorthand::Monthly { day, hour, minute } => {
            lemma_monthly_display(day, hour, minute);
        },
    }
}

/// Translating the display form of a schedule gives the same schedule
/// again: the same trigger, and with it the same calendar expression, and
/// the same display form.
pub proof fn law_display_round_trip(input: Seq<char>, display: Seq<char>)
    requires
        parsed(input) is Ok,
        parsed(input)->Ok_0.display == Some(display),
    ensures
        parsed(display) == parsed(input),
        parsed(display)->Ok_0.trigger.calendar() == parsed(input)->Ok_0.trigger.calendar(),
{
    reveal(parsed);
    let t = trimmed(input);
    match extended_of(t) {
        Ok(Some(form)) => {
            lemma_extended_is_timed(t);
            law_display_parses(form);
        },
        Ok(None) => {
            match classic_of(t) {
                Some(c) => {
                    law_display_parses(Shorthand::Classic(c));
                },
                None => {},
            }
        },
        Err(_) => {},
    }
}

/// A token that is a number is not empty, ends with a digit and holds
/// nothing but digits, but for a plus sign at its beginning.
proof fn lemma_number_shape(s: Seq<char>)
    requires
        number(s) is Some,
    ensures
        s.len() > 0,
        is_digit(s.last()),
        forall|i: int| 0 <= i < s.len() ==> is_digit(#[trigger] s[i]) || (i == 0 && s[i] == '+'),
{
    let body = if s.len() > 0 && s[0] == '+' {
        s.drop_first()
    } else {
        s
    };
    assert(is_digit(body.last()));
    assert forall|i: int| 0 <= i < s.len() implies is_digit(#[trigger] s[i]) || (i == 0 && s[i]
        == '+') by {
        if s[0] == '+' {
            if i > 0 {
                assert(s[i] == body[i - 1]);
            }
        } else {
            assert(s[i] == body[i]);
        }
    }
}

/// An hour written alone is a time on the full hour. It holds no slash and
/// does not end with whitespace.
proof fn lemma_hour_alone(h: Seq<char>, hour: u32)
    requires
        number(h) == Some(hour),
        hour <= 23,
    ensures
        time_of(h) == Ok::<(u32, u32), ErrorModel>((hour, 0u32)),
        h.len() > 0,
        !h.contains('/'),
        !h.contains(':'),
        !is_whitespace(h.last()),
{
    lemma_number_shape(h);
    assert(!h.contains('/') && !h.contains(':')) by {
        if h.contains('/') {
            let i = choose|i: int| 0 <= i < h.len() && h[i] == '/';
            assert(is_digit(h[i]) || h[i] == '+');
        }
        if h.contains(':') {
            let i = choose|i: int| 0 <= i < h.len() && h[i] == ':';
            assert(is_digit(h[i]) || h[i] == '+');
        }
    }
    lemma_position(h, ':');
}

/// The token `00` is the number zero.
proof fn lemma_double_zero()
    ensures
        number(seq!['0', '0']) == Some(0u32),
{
    let zeros = seq!['0', '0'];
    assert(zeros.drop_last() == seq!['0']);
    assert(seq!['0'].drop_last().len() == 0);
    assert(digits_value(seq!['0'].drop_last()) == 0);
    assert(digits_value(seq!['0']) == digits_value(seq!['0'].drop_last()) * 10 + 0);
    assert(digits_value(zeros) == digits_value(zeros.drop_last()) * 10 + 0);
}

/// An hour with the minute `00` after it is a time on the full hour. It
/// holds no slash and does not end with whitespace.
proof fn lemma_hour_and_zero(h: Seq<char>, hour: u32)
    requires
        number(h) == Some(hour),
        hour <= 23,
    ensures
        time_of(h + seq![':', '0', '0']) == Ok::<(u32, u32), ErrorModel>((hour, 0u32)),
        !(h + seq![':', '0', '0']).contains('/'),
        !is_whitespace((h + seq![':', '0', '0']).last()),
{
    let long = h + seq![':', '0', '0'];
    lemma_hour_alone(h, hour);
    lemma_double_zero();
    assert forall|j: int| 0 <= j < h.len() implies long[j] != ':' by {
        assert(long[j] == h[j]);
        assert(h.contains(h[j]));
    }
    assert(long[h.len() as int] == ':');
    lemma_position_is(long, ':', h.len() as int);
    assert(long.take(h.len() as int) == h);
    assert(long.skip(h.len() as int + 1) == seq!['0', '0']);
    assert(!long.contains('/')) by {
        if long.contains('/') {
            let i = choose|i: int| 0 <= i < long.len() && long[i] == '/';
            if i < h.len() {
                assert(long[i] == h[i]);
                assert(h.contains(h[i]));
            }
        }
    }
    assert(long.last() == '0');
}

/// `@daily/` before a time is the daily form at that time.
proof fn lemma_daily_with(argument: Seq<char>, hour: u32, minute: u32)
    requires
        time_of(argument) == Ok::<(u32, u32), ErrorModel>((hour, minute)),
        argument.len() > 0,
        !argument.contains('/'),
        !is_whitespace(argument.last()),
    ensures
        trimmed("@daily/"@ + argument) == "@daily/"@ + argument,
        extended_of("@daily/"@ + argument) == Ok::<Option<Shorthand>, ErrorModel>(
            Some(Shorthand::Daily { hour, minute }),
        ),
{
    let keyword = "@daily"@;
    let form = Shorthand::Daily { hour, minute };
    let d = keyword + seq!['/'] + argument;
    lemma_daily_keyword();
    lemma_keyword_and_argument(keyword, argument);
    let parts = pieces(d, '/');
    assert(parts[0] == keyword);
    assert(parts[1] == argument);
    assert(extended_for(keyword, parts) == Ok::<Option<Shorthand>, ErrorModel>(Some(form)));
    assert("@daily/"@ + argument == d);
}

/// An expression that is an extended form is translated into the schedule
/// of that form.
proof fn lemma_parsed_extended(d: Seq<char>, form: Shorthand)
    requires
        trimmed(d) == d,
        extended_of(d) == Ok::<Option<Shorthand>, ErrorModel>(Some(form)),
    ensures
        parsed(d) == Ok::<ScheduleModel, ErrorModel>(form.schedule()),
{
    reveal(parsed);
}

/// `@daily/` before an hour written alone is the daily form on that full
/// hour.
proof fn lemma_daily_hour(hour_text: Seq<char>, hour: u32)
    requires
        number(hour_text) == Some(hour),
        hour <= 23,
    ensures
        parsed("@daily/"@ + hour_text) == Ok::<ScheduleModel, ErrorModel>(
            (Shorthand::Daily { hour, minute: 0 }).schedule(),
        ),
{
    lemma_hour_alone(hour_text, hour);
    lemma_daily_with(hour_text, hour, 0);
    lemma_parsed_extended("@daily/"@ + hour_text, Shorthand::Daily { hour, minute: 0 });
}

/// `@daily/` before an hour with the minute `00` is the daily form on that
/// full hour.
proof fn lemma_daily_hour_zero(hour_text: Seq<char>, hour: u32)
    requires
        number(hour_text) == Some(hour),
        hour <= 23,
    ensures
        parsed("@daily/"@ + hour_text + ":00"@) == Ok::<ScheduleModel, ErrorModel>(
            (Shorthand::Daily { hour, minute: 0 }).schedule(),
        ),
{
    let long = hour_text + seq![':', '0', '0'];
    lemma_hour_and_zero(hour_text, hour);
    lemma_daily_with(long, hour, 0);
    lemma_parsed_extended("@daily/"@ + long, Shorthand::Daily { hour, minute: 0 });
    assert("@daily/"@ + hour_text + ":00"@ == "@daily/"@ + long) by {
        reveal_strlit(":00");
        assert(":00"@ =~= seq![':', '0', '0']);
    }
}

/// A daily time on the full hour is the same schedule whether the minute
/// is written as `:00` or left out, and its display form leaves it out.
pub proof fn law_daily_full_hour(hour_text: Seq<char>, hour: u32)
    requires
        number(hour_text) == Some(hour),
        hour <= 23,
    ensures
        parsed("@daily/"@ + hour_text + ":00"@) == parsed("@daily/"@ + hour_text),
        parsed("@daily/"@ + hour_text) == Ok::<ScheduleModel, ErrorModel>(
            (Shorthand::Daily { hour, minute: 0 }).schedule(),
        ),
        (Shorthand::Daily { hour, minute: 0 }).display() == "@daily/"@ + decimal(hour as nat),
{
    lemma_daily_hour(hour_text, hour);
    lemma_daily_hour_zero(hour_text, hour);
}

/// The values that a range with a step expands into ascend.
proof fn lemma_stepped_ascends(a: u32, b: u32, s: u32)
    ensures
        forall|i: int, j: int|
            0 <= i < j < stepped(a, b, s).len() ==> stepped(a, b, s)[i] < stepped(a, b, s)[j],
{
    if a <= b && s >= 1 {
        lemma_stepped_values(a, b, s);
        assert forall|i: int, j: int| 0 <= i < j < stepped(a, b, s).len() implies stepped(
            a,
            b,
            s,
        )[i] < stepped(a, b, s)[j] by {
            assert(i * s < j * s) by (nonlinear_arith)
                requires
                    0 <= i < j,
                    s >= 1,
            ;
        }
    }
}

/// Every number of a member that was read lies within the bounds of its
/// field.
proof fn lemma_element_within(token: Seq<char>, ft: FieldType)
    requires
        element_of(token, ft) is Ok,
    ensures
        element_of(token, ft)->Ok_0.within(ft),
{
    match element_of(token, ft)->Ok_0 {
        ElementModel::SteppedRangeExpanded(values) => {
            match halves(token, '/') {
                Some((range, step_text)) => match halves(range, '-') {
                    Some((first, last)) => {
                        let a = number(first)->0;
                        let b = number(last)->0;
                        let s = number(step_text)->0;
                        assert(values == stepped(a, b, s));
                        lemma_stepped_ascends(a, b, s);
                        if a <= b {
                            lemma_stepped_values(a, b, s);
                        }
                    },
                    None => {},
                },
                None => {},
            }
        },
        _ => {},
    }
}

proof fn lemma_elements_within(parts: Seq<Seq<char>>, ft: FieldType)
    requires
        elements_of(parts, ft) is Ok,
    ensures
        forall|i: int|
            0 <= i < elements_of(parts, ft)->Ok_0.len() ==> (#[trigger] elements_of(
                parts,
                ft,
            )->Ok_0[i]).within(ft),
    decreases parts.len(),
{
    if parts.len() > 0 {
        lemma_elements_within(parts.drop_last(), ft);
        lemma_element_within(parts.last(), ft);
    }
}

/// A numeric field that was read holds no number outside the bounds of the
/// field: minute 0 to 59, hour 0 to 23, day of the month 1 to 31, month 1
/// to 12. The step of a stepped wildcard is no value of the field and is
/// not bounded.
pub proof fn law_field_within(token: Seq<char>, ft: FieldType)
    requires
        field_of(token, ft) is Ok,
    ensures
        field_of(token, ft)->Ok_0.within(ft),
{
    if token == "*"@ {
    } else if pieces(token, ',').len() > 1 {
        lemma_elements_within(pieces(token, ','), ft);
    } else {
        lemma_element_within(token, ft);
    }
}

} // verus!
