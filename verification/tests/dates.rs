use sieve::compiler::predicates::{DatePart, TestCurrentDate, TestDate, Zone};
use sieve::compiler::state::Test;
use sieve::compiler::tokens::StringItem;
use sieve::mailto::HeaderName;
use sieve::runtime::comparator::{Comparator, MatchType, NumericOrder, Order, RelationalMatch};
use sieve::runtime::context::{Context, Runtime, Variables};
use sieve::runtime::date::DateTime;
use sieve::runtime::evaluate::TestResult;
use sieve::runtime::matching::Numbers;
use sieve::runtime::message::{Header, HeaderValue, Message, MessagePart};

fn constant(s: &str) -> StringItem {
    StringItem::Text(s.to_string())
}

fn date() -> DateTime {
    DateTime {
        year: 2021,
        month: 3,
        day: 7,
        hour: 9,
        minute: 5,
        second: 4,
        tz_before_gmt: true,
        tz_hour: 5,
        tz_minute: 30,
    }
}

fn raw() -> Vec<u8> {
    b"Date: Sat, 20 Nov 2021 14:22:01 -0800\nX: y\n\n".to_vec()
}

fn context() -> Context {
    let text = String::from_utf8(raw()).unwrap();
    let start = text.find(" Sat").unwrap();
    let end = text.find("X:").unwrap();
    let headers = vec![
        Header {
            name: HeaderName::Rfc("Date".to_string()),
            value: HeaderValue::Empty,
            offset_start: start,
            offset_end: end,
        },
        Header {
            name: HeaderName::Rfc("Date".to_string()),
            value: HeaderValue::DateTime(date()),
            offset_start: 1,
            offset_end: 2,
        },
        Header {
            name: HeaderName::Rfc("Date".to_string()),
            value: HeaderValue::DateTime(DateTime { month: 13, ..date() }),
            offset_start: start,
            offset_end: end,
        },
        Header {
            name: HeaderName::Rfc("Date".to_string()),
            value: HeaderValue::Text("Tue, 1 Feb 2022 01:02:03 +0100".to_string()),
            offset_start: 0,
            offset_end: 0,
        },
        Header {
            name: HeaderName::Rfc("Date".to_string()),
            value: HeaderValue::Text("no date at all".to_string()),
            offset_start: 0,
            offset_end: 0,
        },
    ];
    Context {
        message: Message {
            parts: vec![MessagePart { headers, sub_parts: Vec::new() }],
            raw_message: raw(),
        },
        part: 0,
        vars: Variables { named: Vec::new(), matched: Vec::new() },
        runtime: Runtime {
            max_redirects: 1,
            hostname: "localhost".to_string(),
            allowed_capabilities: Vec::new(),
        },
        user_address: String::new(),
        user_full_name: String::new(),
        current_time: 1_000_000_000,
        actions: Vec::new(),
        messages: Vec::new(),
        has_changes: false,
        edited_message: Vec::new(),
    }
}

fn date_test(part: DatePart, zone: Zone, keys: &[&str], match_type: MatchType) -> TestDate {
    TestDate {
        header_name: constant("date"),
        key_list: keys.iter().map(|k| constant(k)).collect(),
        match_type,
        comparator: Comparator::AsciiCaseMap,
        index: None,
        zone,
        date_part: part,
        mime_anychild: false,
        is_not: false,
    }
}

#[test]
fn date_parts_are_zero_padded() {
    let d = date();
    assert_eq!(DatePart::Year.eval(&d), "2021");
    assert_eq!(DatePart::Month.eval(&d), "03");
    assert_eq!(DatePart::Day.eval(&d), "07");
    assert_eq!(DatePart::Date.eval(&d), "2021-03-07");
    assert_eq!(DatePart::Hour.eval(&d), "09");
    assert_eq!(DatePart::Minute.eval(&d), "05");
    assert_eq!(DatePart::Second.eval(&d), "04");
    assert_eq!(DatePart::Time.eval(&d), "09:05:04");
    assert_eq!(DatePart::Zone.eval(&d), "-0530");
    assert_eq!(DatePart::Zone.eval(&DateTime { tz_before_gmt: false, ..d }), "+0530");
    assert_eq!(DatePart::Zone.eval(&DateTime { tz_hour: 0, tz_minute: 0, ..d }), "+0000");
    assert_eq!(DatePart::Year.eval(&DateTime { year: 12345, ..d }), "12345");
    assert_eq!(DatePart::Year.eval(&DateTime { year: 7, ..d }), "0007");
    assert_eq!(DatePart::Day.eval(&DateTime { day: 255, ..d }), "255");
}

#[test]
fn date_parts_from_the_parser() {
    let d = date();
    assert_eq!(DatePart::Iso8601.eval(&d), "2021-03-07T09:05:04-05:30");
    assert_eq!(
        DatePart::Iso8601.eval(&DateTime { tz_hour: 0, tz_minute: 0, ..d }),
        "2021-03-07T09:05:04Z"
    );
    assert_eq!(
        DatePart::Iso8601.eval(&DateTime { tz_before_gmt: false, tz_hour: 0, tz_minute: 15, ..d }),
        "2021-03-07T09:05:04+00:15"
    );
    assert_eq!(DatePart::Std11.eval(&d), "Sun, 7 Mar 2021 09:05:04 -0530");
    assert_eq!(DatePart::Weekday.eval(&d), "0");
    assert_eq!(DatePart::Weekday.eval(&DateTime { day: 13, ..d }), "6");
}

#[test]
fn julian_part_is_modified_julian_day() {
    let d = date();
    assert_eq!(d.julian_day(), 2459281);
    assert_eq!(DatePart::Julian.eval(&d), "59280");
    let epoch = DateTime { year: 1858, month: 11, day: 17, ..d };
    assert_eq!(epoch.julian_day(), 2400001);
    assert_eq!(DatePart::Julian.eval(&epoch), "0");
    assert_eq!(DatePart::Julian.eval(&DateTime { day: 16, ..epoch }), "0");
    assert_eq!(DatePart::Julian.eval(&DateTime { day: 15, ..epoch }), "-1");
    let new_year = DateTime { year: 2000, month: 1, day: 1, ..d };
    assert_eq!(new_year.julian_day(), 2451545);
    assert_eq!(DatePart::Julian.eval(&new_year), "51544");
}

#[test]
fn zones_rebase_dates() {
    let d = date();
    assert_eq!(Zone::Original.eval(&d), d);
    let local = Zone::Local.eval(&d);
    assert_eq!(
        local,
        DateTime { hour: 14, minute: 35, tz_before_gmt: false, tz_hour: 0, tz_minute: 0, ..d }
    );
    let moved = Zone::Time(3600).eval(&d);
    assert_eq!((moved.hour, moved.minute, moved.tz_before_gmt, moved.tz_hour), (15, 35, false, 1));
    let back = Zone::Time(-7200).eval(&d);
    assert_eq!((back.hour, back.minute, back.tz_before_gmt, back.tz_hour), (12, 35, true, 2));
}

#[test]
fn dates_are_found_in_priority_order() {
    let ctx = context();
    let headers = &ctx.message.parts[0].headers;
    let from_raw = ctx.message.find_dates(&headers[0]).unwrap();
    assert_eq!((from_raw.year, from_raw.month, from_raw.day), (2021, 11, 20));
    assert_eq!((from_raw.hour, from_raw.tz_before_gmt, from_raw.tz_hour), (14, true, 8));
    assert_eq!(ctx.message.find_dates(&headers[1]), Some(date()));
    assert_eq!(ctx.message.find_dates(&headers[2]), None);
    let from_text = ctx.message.find_dates(&headers[3]).unwrap();
    assert_eq!((from_text.year, from_text.month, from_text.day, from_text.tz_hour), (2022, 2, 1, 1));
    assert_eq!(ctx.message.find_dates(&headers[4]), None);
    let outside = Header {
        name: HeaderName::Rfc("Date".to_string()),
        value: HeaderValue::Empty,
        offset_start: 4,
        offset_end: 4000,
    };
    assert_eq!(ctx.message.find_dates(&outside), None);
}

#[test]
fn date_test_looks_at_every_valid_date() {
    let mut ctx = context();
    let numbers = Numbers::new();
    let test = date_test(DatePart::Year, Zone::Original, &["2022"], MatchType::Is);
    assert_eq!(test.subjects(&ctx), vec!["2021".to_string(), "2021".to_string(), "2022".to_string()]);
    assert!(test.exec(&mut ctx, &numbers));
    let mut first = date_test(DatePart::Year, Zone::Original, &["2022"], MatchType::Is);
    first.index = Some(1);
    assert!(!first.exec(&mut ctx, &numbers));
    first.is_not = true;
    assert!(first.exec(&mut ctx, &numbers));
    let test = date_test(DatePart::Time, Zone::Local, &["22:22:*"], MatchType::Matches(0b10));
    assert!(test.exec(&mut ctx, &numbers));
    assert_eq!(ctx.vars.matched, vec!["".to_string(), "01".to_string()]);
    let test = date_test(DatePart::Date, Zone::Original, &["3"], MatchType::Count(RelationalMatch::Eq));
    assert!(!test.exec(&mut ctx, &numbers));
    let numbers = Numbers { pairs: Vec::new(), counts: vec![NumericOrder::Ordered(Order::Equal)] };
    assert!(test.exec(&mut ctx, &numbers));
}

#[test]
fn current_date_test_looks_at_the_time_of_the_run() {
    let mut ctx = context();
    let numbers = Numbers::new();
    let test = |part: DatePart, zone: Option<i32>, key: &str| TestCurrentDate {
        zone,
        match_type: MatchType::Is,
        comparator: Comparator::Octet,
        date_part: part,
        key_list: vec![constant(key)],
        is_not: false,
    };
    assert_eq!(test(DatePart::Date, None, "").subject(&ctx), "2001-09-09");
    assert_eq!(test(DatePart::Time, None, "").subject(&ctx), "01:46:40");
    assert_eq!(test(DatePart::Time, Some(-7200), "").subject(&ctx), "23:46:40");
    assert_eq!(test(DatePart::Date, Some(-7200), "").subject(&ctx), "2001-09-08");
    assert!(test(DatePart::Date, None, "2001-09-09").exec(&mut ctx, &numbers));
    assert!(!test(DatePart::Date, None, "2001-09-10").exec(&mut ctx, &numbers));
    let wrapped = Test::CurrentDate(test(DatePart::Year, None, "2001"));
    assert!(matches!(wrapped.exec(&mut ctx, &numbers), TestResult::Bool(true)));
    let wrapped = Test::Date(date_test(DatePart::Month, Zone::Original, &["11"], MatchType::Is));
    assert!(matches!(wrapped.exec(&mut ctx, &numbers), TestResult::Bool(true)));
}
