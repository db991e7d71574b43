use markdown_extract::date::Date;
use markdown_extract::repeater::Repeater;
use markdown_extract::repeater::RepeaterType;
use markdown_extract::repeater::RepeaterUnit;
use markdown_extract::timestamp::normalize_weekdays;
use markdown_extract::timestamp::parse_org_timestamp;
use markdown_extract::timestamp::ClockTime;
use markdown_extract::timestamp::ParsedTimestamp;
use markdown_extract::timestamp::TimestampKind;

fn ymd(year: i32, month: u32, day: u32) -> Date {
    Date::from_ymd_opt(year, month, day).unwrap()
}

fn read(text: &str) -> Option<ParsedTimestamp> {
    parse_org_timestamp(text, None)
}

fn clock(hour: u8, minute: u8) -> Option<ClockTime> {
    Some(ClockTime { hour, minute })
}

#[test]
fn the_keyword_before_the_bracket_gives_the_kind() {
    assert_eq!(read("SCHEDULED: <2024-12-01>").unwrap().kind, TimestampKind::Scheduled);
    assert_eq!(read("DEADLINE: <2024-12-01>").unwrap().kind, TimestampKind::Deadline);
    assert_eq!(read("CLOSED: <2024-12-01>").unwrap().kind, TimestampKind::Closed);
    assert_eq!(read("<2024-12-01>").unwrap().kind, TimestampKind::Plain);
    assert_eq!(read("DEADLINE:<2024-12-01>").unwrap().kind, TimestampKind::Deadline);
    assert_eq!(read("DEADLINE: \t <2024-12-01>").unwrap().kind, TimestampKind::Deadline);
    assert_eq!(read("note DEADLINE: <2024-12-01>").unwrap().kind, TimestampKind::Deadline);
    assert_eq!(read("DEADLINE <2024-12-01>").unwrap().kind, TimestampKind::Plain);
    assert_eq!(read("deadline: <2024-12-01>").unwrap().kind, TimestampKind::Plain);
    assert_eq!(read("DEADLINE: x <2024-12-01>").unwrap().kind, TimestampKind::Plain);
    assert_eq!(read("UNSCHEDULED: <2024-12-01>").unwrap().kind, TimestampKind::Scheduled);
}

#[test]
fn a_bracket_holds_time_repeater_and_warning() {
    let p = read("DEADLINE: <2024-12-10 Tue 9:05-17:30 ++2w -3d>").unwrap();
    assert_eq!(p.date, ymd(2024, 12, 10));
    assert_eq!(p.time, clock(9, 5));
    assert_eq!(p.end_time, clock(17, 30));
    assert_eq!(
        p.repeater,
        Some(Repeater { repeater_type: RepeaterType::CatchUp, value: 2, unit: RepeaterUnit::Week })
    );
    assert_eq!(p.deadline_warning_days, Some(3));
    assert_eq!(p.end_date, None);

    let p = read("<2024-12-10 10:00>").unwrap();
    assert_eq!(p.time, clock(10, 0));
    assert_eq!(p.end_time, None);
    let p = read("<2024-12-10 99:99>").unwrap();
    assert_eq!(p.time, clock(99, 99));
    let p = read("<2024-12-10+1d>").unwrap();
    assert_eq!(p.repeater.unwrap().value, 1);
    let p = read("<2024-12-10 Wednesday   .+3m>").unwrap();
    assert_eq!(
        p.repeater,
        Some(Repeater { repeater_type: RepeaterType::Restart, value: 3, unit: RepeaterUnit::Month })
    );
    let p = read("<2024-12-10 -7d>").unwrap();
    assert_eq!(p.deadline_warning_days, Some(7));
    assert_eq!(p.repeater, None);
}

#[test]
fn a_repeater_or_warning_that_cannot_be_used_counts_as_absent() {
    let p = read("<2024-12-10 +.+1d>").unwrap();
    assert_eq!(p.repeater, None);
    let p = read("<2024-12-10 +0d>").unwrap();
    assert_eq!(p.repeater, None);
    let p = read("<2024-12-10 +++1d>").unwrap();
    assert_eq!(p.date, ymd(2024, 12, 10));
    assert_eq!(p.repeater, None);
    let p = read("<2024-12-10 Tue 10:00 .++2w -3d>").unwrap();
    assert_eq!(p.repeater, None);
    assert_eq!(p.deadline_warning_days, Some(3));
    let p = read("<2024-12-10 +4294967296d>").unwrap();
    assert_eq!(p.repeater, None);
    let p = read("<2024-12-10 +1d -4294967296d>").unwrap();
    assert_eq!(p.deadline_warning_days, None);
    assert!(p.repeater.is_some());
}

#[test]
fn a_range_gives_an_end_date() {
    let p = read("<2024-12-01 Sun 10:00>--<2024-12-03 Tue 12:00-13:00>").unwrap();
    assert_eq!(p.date, ymd(2024, 12, 1));
    assert_eq!(p.end_date, Some(ymd(2024, 12, 3)));
    assert_eq!(p.time, clock(10, 0));
    assert_eq!(p.end_time, None);
    let p = read("<2024-12-01>--<2024-02-30>").unwrap();
    assert_eq!(p.end_date, None);
    // The second bracket of a range holds no repeater: the first is read alone.
    let p = read("<2024-12-01>--<2024-12-03 +1d>").unwrap();
    assert_eq!(p.date, ymd(2024, 12, 1));
    assert_eq!(p.end_date, None);
    // A range anywhere wins over a single bracket before it.
    let p = read("<2024-01-01> <2024-12-01>--<2024-12-03>").unwrap();
    assert_eq!(p.date, ymd(2024, 12, 1));
    assert_eq!(p.end_date, Some(ymd(2024, 12, 3)));
}

#[test]
fn what_is_no_bracket_of_the_grammar_gives_nothing() {
    assert!(read("").is_none());
    assert!(read("2024-12-01").is_none());
    assert!(read("<2024-12-01").is_none());
    assert!(read("<2024-12-1>").is_none());
    assert!(read("<24-12-01>").is_none());
    assert!(read("<2024/12/01>").is_none());
    assert!(read("[2024-12-01]").is_none());
    assert!(read("<2024-12-01 Mo>").is_none());
    assert!(read("<2024-12-01  Mon>").is_none());
    assert!(read("<2024-12-01 Mond>").is_none());
    assert!(read("<2024-12-01 Пн>").is_none());
    assert!(read("<2024-12-01 10:0>").is_none());
    assert!(read("<2024-12-01 10:00-11>").is_none());
    assert!(read("<2024-12-01 100:00>").is_none());
    assert!(read("<2024-12-01 +1x>").is_none());
    assert!(read("<2024-12-01 +d>").is_none());
    assert!(read("<2024-12-01 -3d +1d>").is_none());
    assert!(read("<2024-12-01-3d>").is_none());
    assert!(read("<2024-12-01 -d>").is_none());
    assert!(read("<2024-12-01 >").is_none());
    assert!(read("<２０２４-12-01>").is_none());
}

#[test]
fn the_first_bracket_decides() {
    // The first bracket holds no date: nothing is read, whatever follows.
    assert!(read("<2024-13-01> <2024-12-01>").is_none());
    assert!(read("<2023-02-29>").is_none());
    assert_eq!(read("<2024-02-29>").unwrap().date, ymd(2024, 2, 29));
    assert_eq!(read("<0000-01-01>").unwrap().date, ymd(0, 1, 1));
    assert_eq!(read("<<2024-12-01> <2025-01-01>").unwrap().date, ymd(2024, 12, 1));
    assert_eq!(read("<2024-12-0> <2025-01-01>").unwrap().date, ymd(2025, 1, 1));
}

#[test]
fn weekday_names_are_replaced_before_reading() {
    let mappings = [("Пн", "Mon"), ("Понедельник", "Monday")];
    let p = parse_org_timestamp("SCHEDULED: <2024-12-02 Пн 10:00>", Some(&mappings)).unwrap();
    assert_eq!(p.date, ymd(2024, 12, 2));
    assert_eq!(p.time, clock(10, 0));
    assert!(parse_org_timestamp("<2024-12-02 Пн>", Some(&[])).is_none());
    let p = parse_org_timestamp("<2024-12-02 Понедельник>", Some(&mappings));
    assert!(p.is_some());
    let text: String = normalize_weekdays("Пн, Вт, Пн", &[("Пн", "Mon"), ("Mon", "M")])
        .iter()
        .collect();
    assert_eq!(text, "M, Вт, M");
    let text: String = normalize_weekdays("aaa", &[("aa", "b")]).iter().collect();
    assert_eq!(text, "ba");
    let text: String = normalize_weekdays("abc", &[("", "-")]).iter().collect();
    assert_eq!(text, "abc".replace("", "-"));
    let text: String = normalize_weekdays("", &[("", "-")]).iter().collect();
    assert_eq!(text, "".replace("", "-"));
}
