use sdtab::cron::assemble;
use sdtab::cron::error::{ParseError, Quantity, Role};
use sdtab::cron::field::{parse_field, parse_single_element, Element, FieldElement, FieldType};
use sdtab::cron::shorthand::{
    check_incomplete_syntax, format_time, format_time_display, parse_extended, parse_special,
    parse_time_spec, try_parse_ordinal, try_parse_ordinal_any, Classic, Shorthand,
};
use sdtab::cron::weekday::{
    dow_to_name, is_weekday_keyword, name_to_day, parse_dow_field, parse_dow_name,
    parse_single_dow,
    try_parse_dow_keyword, DowField, DowItem, Weekday,
};

fn chars(s: &str) -> Vec<char> {
    s.chars().collect()
}

fn text(s: &[char]) -> String {
    s.iter().collect()
}

#[test]
fn field_bounds() {
    assert_eq!(FieldType::Minute.range(), (0, 59));
    assert_eq!(FieldType::Hour.range(), (0, 23));
    assert_eq!(FieldType::DayOfMonth.range(), (1, 31));
    assert_eq!(FieldType::Month.range(), (1, 12));
    assert_eq!(FieldType::Minute.start(), 0);
    assert_eq!(FieldType::Hour.start(), 0);
    assert_eq!(FieldType::DayOfMonth.start(), 1);
    assert_eq!(FieldType::Month.start(), 1);
    assert_eq!(Quantity::Weekday.bounds(), (0, 7));
    assert!(Quantity::Month.contains(12) && !Quantity::Month.contains(0));
}

#[test]
fn field_elements() {
    let cases = [
        ("*", FieldElement::Any, "*"),
        ("7", FieldElement::Single(7), "07"),
        ("*/15", FieldElement::SteppedAny { start: 0, step: 15 }, "0/15"),
        ("3-9", FieldElement::Range { lo: 3, hi: 9 }, "3..9"),
        ("1-10/3", FieldElement::SteppedRangeExpanded(vec![1, 4, 7, 10]), "01,04,07,10"),
        ("9-1/3", FieldElement::SteppedRangeExpanded(vec![]), ""),
        (
            "0,*/20,5-6,7-9/2",
            FieldElement::List(vec![
                Element::Single(0),
                Element::SteppedAny { start: 0, step: 20 },
                Element::Range { lo: 5, hi: 6 },
                Element::SteppedRangeExpanded(vec![7, 9]),
            ]),
            "00,0/20,5..6,07,09",
        ),
    ];
    for (token, element, rendered) in cases {
        let got = parse_field(&chars(token), FieldType::Minute).unwrap();
        assert_eq!(got, element);
        assert_eq!(text(&got.render()), rendered);
    }
    assert_eq!(
        parse_field(&chars("*/3"), FieldType::DayOfMonth).unwrap(),
        FieldElement::SteppedAny { start: 1, step: 3 }
    );
    assert_eq!(
        parse_single_element(&chars("5-3/1/2"), FieldType::Minute).unwrap_err(),
        ParseError::InvalidNumber { role: Role::Field, token: "1/2".to_string() }
    );
    assert_eq!(
        parse_single_element(&chars("5/3-4"), FieldType::Minute).unwrap_err(),
        ParseError::InvalidNumber { role: Role::Field, token: "3-4".to_string() }
    );
    assert_eq!(
        parse_single_element(&chars("1-2-3"), FieldType::Minute).unwrap_err(),
        ParseError::InvalidNumber { role: Role::Field, token: "2-3".to_string() }
    );
    assert_eq!(
        parse_field(&chars("1,,2"), FieldType::Minute).unwrap_err(),
        ParseError::InvalidNumber { role: Role::Field, token: "".to_string() }
    );
    assert_eq!(
        parse_field(&chars("1,99,x"), FieldType::Minute).unwrap_err(),
        ParseError::OutOfRange { quantity: Quantity::Minute, got: 99 }
    );
    assert_eq!(
        parse_field(&chars("3-24"), FieldType::Hour).unwrap_err(),
        ParseError::OutOfRange { quantity: Quantity::Hour, got: 24 }
    );
    let mut out = chars("x=");
    Element::Range { lo: 1, hi: 2 }.push_to(&mut out);
    assert_eq!(text(&out), "x=1..2");
}

#[test]
fn weekday_fields() {
    assert_eq!(parse_dow_field(&chars("*")).unwrap(), DowField::Any);
    assert_eq!(parse_dow_field(&chars("*")).unwrap().render(), None);
    let cases = [
        ("0", DowField::Single(Weekday::Sun), "Sun"),
        ("7", DowField::Single(Weekday::Sun), "Sun"),
        ("fri", DowField::Single(Weekday::Fri), "Fri"),
        ("1-5", DowField::Range(Weekday::Mon, Weekday::Fri), "Mon..Fri"),
        (
            "sat,1-wed,0",
            DowField::List(vec![
                DowItem::Single(Weekday::Sat),
                DowItem::Range(Weekday::Mon, Weekday::Wed),
                DowItem::Single(Weekday::Sun),
            ]),
            "Sat,Mon..Wed,Sun",
        ),
    ];
    for (token, field, rendered) in cases {
        let got = parse_dow_field(&chars(token)).unwrap();
        assert_eq!(got, field);
        assert_eq!(got.render().map(|r| text(&r)), Some(rendered.to_string()));
    }
    assert_eq!(parse_single_dow(&chars("2")).unwrap(), DowItem::Single(Weekday::Tue));
    assert_eq!(
        parse_single_dow(&chars("1-9")).unwrap_err(),
        ParseError::OutOfRange { quantity: Quantity::Weekday, got: 9 }
    );
    assert_eq!(
        parse_dow_field(&chars("1,x-2,9")).unwrap_err(),
        ParseError::UnknownWeekday { token: "x".to_string() }
    );
}

#[test]
fn weekday_names_and_numbers() {
    let days = [
        Weekday::Sun,
        Weekday::Mon,
        Weekday::Tue,
        Weekday::Wed,
        Weekday::Thu,
        Weekday::Fri,
        Weekday::Sat,
    ];
    for (n, day) in days.iter().enumerate() {
        assert_eq!(Weekday::from_number(n as u32), *day);
        assert_eq!(dow_to_name(&chars(&n.to_string())).unwrap(), *day);
        assert_eq!(day.lower(), day.short().to_lowercase());
        assert!(day.full().starts_with(day.lower()));
        assert_eq!(parse_dow_name(&chars(&n.to_string())), Ok(*day));
        assert_eq!(parse_dow_name(&chars(day.short())), Ok(*day));
        assert_eq!(parse_dow_name(&chars(&day.full().to_uppercase())), Ok(*day));
        assert_eq!(dow_to_name(&chars(day.full())), Ok(*day));
        assert_eq!(name_to_day(&chars(day.lower())), Some(*day));
        assert_eq!(name_to_day(&chars(&n.to_string())), None);
        let keyword = format!("@{}", day.lower());
        assert_eq!(try_parse_dow_keyword(&chars(&keyword)), Some(*day));
        assert!(is_weekday_keyword(&chars(&keyword)));
        assert!(is_weekday_keyword(&chars(&format!("@{}", day.full()))));
    }
    assert_eq!(Weekday::from_number(7), Weekday::Sun);
    assert_eq!(parse_dow_name(&chars("1")), Ok(Weekday::Mon));
    assert_eq!(parse_dow_name(&chars("7")), Ok(Weekday::Sun));
    assert_eq!(
        parse_dow_name(&chars("8")),
        Err(ParseError::OutOfRange { quantity: Quantity::Weekday, got: 8 })
    );
    assert_eq!(
        parse_dow_name(&chars("")),
        Err(ParseError::UnknownWeekday { token: "".to_string() })
    );
    assert_eq!(parse_dow_name(&chars("su")), Ok(Weekday::Sun));
    assert_eq!(parse_dow_name(&chars("sa")), Ok(Weekday::Sat));
    assert_eq!(parse_dow_name(&chars("thurs")), Ok(Weekday::Thu));
    assert_eq!(
        parse_dow_name(&chars("sunn")),
        Err(ParseError::UnknownWeekday { token: "sunn".to_string() })
    );
    assert_eq!(name_to_day(&chars("")), None);
    assert_eq!(name_to_day(&chars("thurs")), Some(Weekday::Thu));
    assert_eq!(name_to_day(&chars("Mon")), None);
    assert_eq!(try_parse_dow_keyword(&chars("mon")), None);
    assert_eq!(try_parse_dow_keyword(&chars("@")), None);
    assert!(!is_weekday_keyword(&chars("@mo")));
    assert!(!is_weekday_keyword(&chars("@monx")));
}

#[test]
fn times() {
    assert_eq!(parse_time_spec(&chars("9")), Ok((9, 0)));
    assert_eq!(parse_time_spec(&chars("09:05")), Ok((9, 5)));
    assert_eq!(parse_time_spec(&chars("23:59")), Ok((23, 59)));
    assert_eq!(
        parse_time_spec(&chars("24:70")),
        Err(ParseError::OutOfRange { quantity: Quantity::Hour, got: 24 })
    );
    assert_eq!(
        parse_time_spec(&chars("x:70")),
        Err(ParseError::InvalidNumber { role: Role::Hour, token: "x".to_string() })
    );
    assert_eq!(
        parse_time_spec(&chars("24:x")),
        Err(ParseError::InvalidNumber { role: Role::Minute, token: "x".to_string() })
    );
    assert_eq!(
        parse_time_spec(&chars("1:2:3")),
        Err(ParseError::InvalidNumber { role: Role::Minute, token: "2:3".to_string() })
    );
    assert_eq!(
        parse_time_spec(&chars("")),
        Err(ParseError::InvalidNumber { role: Role::Hour, token: "".to_string() })
    );
    assert_eq!(text(&format_time(9, 0)), "9");
    assert_eq!(text(&format_time(9, 5)), "9:05");
    assert_eq!(text(&format_time(0, 30)), "0:30");
    assert_eq!(text(&format_time_display(&chars("@daily"), 9, 30)), "@daily/9:30");
}

#[test]
fn ordinal_keywords() {
    assert_eq!(try_parse_ordinal_any(&chars("@1st")), Some(1));
    assert_eq!(try_parse_ordinal_any(&chars("@32nd")), Some(32));
    assert_eq!(try_parse_ordinal_any(&chars("@0rd")), Some(0));
    assert_eq!(try_parse_ordinal_any(&chars("@7th")), Some(7));
    assert_eq!(try_parse_ordinal_any(&chars("@7")), None);
    assert_eq!(try_parse_ordinal_any(&chars("@th")), None);
    assert_eq!(try_parse_ordinal_any(&chars("7th")), None);
    assert_eq!(try_parse_ordinal_any(&chars("@1stst")), None);
    assert_eq!(try_parse_ordinal(&chars("@31st")), Some(31));
    assert_eq!(try_parse_ordinal(&chars("@32nd")), None);
    assert_eq!(try_parse_ordinal(&chars("@0th")), None);
}

#[test]
fn shorthand_forms() {
    assert_eq!(parse_special(&chars("@annually")), Some(Classic::Yearly));
    assert_eq!(parse_special(&chars("@midnight")), Some(Classic::Daily));
    assert_eq!(parse_special(&chars("@daily ")), None);
    assert_eq!(parse_extended(&chars("@daily")), Ok(None));
    assert_eq!(parse_extended(&chars("daily/9")), Ok(None));
    assert_eq!(parse_extended(&chars("@yearly/9")), Ok(None));
    assert_eq!(
        parse_extended(&chars("@DAILY/9")),
        Ok(Some(Shorthand::Daily { hour: 9, minute: 0 }))
    );
    assert_eq!(
        parse_extended(&chars("@Weekly/SAT/7:30")),
        Ok(Some(Shorthand::Weekly { weekday: Weekday::Sat, hour: 7, minute: 30 }))
    );
    assert_eq!(
        parse_extended(&chars("@monthly/31/0")),
        Ok(Some(Shorthand::Monthly { day: 31, hour: 0, minute: 0 }))
    );
    let form = Shorthand::Monthly { day: 2, hour: 7, minute: 5 };
    assert_eq!(text(&form.to_display()), "@2nd/7:05");
    assert_eq!(form.to_schedule().on_calendar(), Some("*-*-02 07:05:00"));
    assert_eq!(check_incomplete_syntax(&chars("@foo")), Ok(()));
    assert_eq!(
        check_incomplete_syntax(&chars("@Friday")),
        Err(ParseError::MissingTime { keyword: "@Friday".to_string() })
    );
    assert_eq!(
        check_incomplete_syntax(&chars("@99th")),
        Err(ParseError::OutOfRange { quantity: Quantity::DayOfMonth, got: 99 })
    );
}

#[test]
fn assembling_a_calendar_expression() {
    assert_eq!(
        text(&assemble(Some(&chars("Mon..Fri")), &chars("*-*-*"), &chars("09:00:00"))),
        "Mon..Fri *-*-* 09:00:00"
    );
    assert_eq!(text(&assemble(None, &chars("*-01-01"), &chars("*:*:00"))), "*-01-01 *:*:00");
}
