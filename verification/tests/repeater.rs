use markdown_extract::date::Date;
use markdown_extract::repeater::add_months;
use markdown_extract::repeater::next_occurrence;
use markdown_extract::repeater::parse_repeater;
use markdown_extract::repeater::Repeater;
use markdown_extract::repeater::RepeaterType;
use markdown_extract::repeater::RepeaterUnit;

fn ymd(year: i32, month: u32, day: u32) -> Date {
    Date::from_ymd_opt(year, month, day).unwrap()
}

fn rule(repeater_type: RepeaterType, value: u32, unit: RepeaterUnit) -> Repeater {
    Repeater { repeater_type, value, unit }
}

#[test]
fn test_parse_workday_repeater() {
    let r = parse_repeater("+1wd").unwrap();
    assert_eq!(r.repeater_type, RepeaterType::Cumulative);
    assert_eq!(r.value, 1);
    assert_eq!(r.unit, RepeaterUnit::Workday);
}

#[test]
fn test_parse_workday_repeater_multiple() {
    let r = parse_repeater("+2wd").unwrap();
    assert_eq!(r.value, 2);
    assert_eq!(r.unit, RepeaterUnit::Workday);
}

#[test]
fn test_parse_workday_catchup() {
    let r = parse_repeater("++1wd").unwrap();
    assert_eq!(r.repeater_type, RepeaterType::CatchUp);
    assert_eq!(r.unit, RepeaterUnit::Workday);
}

#[test]
fn test_parse_workday_restart() {
    let r = parse_repeater(".+1wd").unwrap();
    assert_eq!(r.repeater_type, RepeaterType::Restart);
    assert_eq!(r.unit, RepeaterUnit::Workday);
}

#[test]
fn test_parse_regular_day() {
    let r = parse_repeater("+1d").unwrap();
    assert_eq!(r.unit, RepeaterUnit::Day);
}

#[test]
fn test_next_occurrence_workday() {
    let base = ymd(2025, 12, 5); // Friday
    let repeater = Repeater {
        repeater_type: RepeaterType::Cumulative,
        value: 1,
        unit: RepeaterUnit::Workday,
    };
    let from = ymd(2025, 12, 5);
    let next = next_occurrence(base, &repeater, from).unwrap();
    let expected = ymd(2025, 12, 8); // Monday
    assert_eq!(next, expected);
}

#[test]
fn test_next_occurrence_workday_skip_holidays() {
    let base = ymd(2026, 1, 5); // Monday in holidays
    let repeater = Repeater {
        repeater_type: RepeaterType::Cumulative,
        value: 1,
        unit: RepeaterUnit::Workday,
    };
    let from = ymd(2026, 1, 5);
    let next = next_occurrence(base, &repeater, from).unwrap();
    let expected = ymd(2026, 1, 12); // First workday after holidays
    assert_eq!(next, expected);
}

#[test]
fn parse_repeater_reads_every_marker_and_unit() {
    assert_eq!(parse_repeater("+3d"), Some(rule(RepeaterType::Cumulative, 3, RepeaterUnit::Day)));
    assert_eq!(parse_repeater("++2w"), Some(rule(RepeaterType::CatchUp, 2, RepeaterUnit::Week)));
    assert_eq!(parse_repeater(".+1m"), Some(rule(RepeaterType::Restart, 1, RepeaterUnit::Month)));
    assert_eq!(parse_repeater("+10y"), Some(rule(RepeaterType::Cumulative, 10, RepeaterUnit::Year)));
    assert_eq!(parse_repeater("+4h"), Some(rule(RepeaterType::Cumulative, 4, RepeaterUnit::Hour)));
    assert_eq!(parse_repeater("  +1w \t"), Some(rule(RepeaterType::Cumulative, 1, RepeaterUnit::Week)));
    assert_eq!(
        parse_repeater("+4294967295d"),
        Some(rule(RepeaterType::Cumulative, u32::MAX, RepeaterUnit::Day))
    );
    assert_eq!(parse_repeater("+007d"), Some(rule(RepeaterType::Cumulative, 7, RepeaterUnit::Day)));
    assert_eq!(parse_repeater("+1wd"), Some(rule(RepeaterType::Cumulative, 1, RepeaterUnit::Workday)));
    assert_eq!(parse_repeater("++12wd"), Some(rule(RepeaterType::CatchUp, 12, RepeaterUnit::Workday)));
}

#[test]
fn parse_repeater_takes_no_sign_before_the_interval() {
    assert_eq!(parse_repeater("+++1d"), None);
    assert_eq!(parse_repeater("+++5d"), None);
    assert_eq!(parse_repeater("++++1d"), None);
    assert_eq!(parse_repeater(".++1d"), None);
    assert_eq!(parse_repeater(".+++1w"), None);
    assert_eq!(parse_repeater("+++1wd"), None);
    assert_eq!(parse_repeater("+.+1d"), None);
    assert_eq!(parse_repeater("++-1d"), None);
    assert_eq!(parse_repeater("  +++2m  "), None);
}

#[test]
fn parse_repeater_rejects_malformed_tokens() {
    assert_eq!(parse_repeater(""), None);
    assert_eq!(parse_repeater("1d"), None);
    assert_eq!(parse_repeater("+"), None);
    assert_eq!(parse_repeater("++"), None);
    assert_eq!(parse_repeater("+d"), None);
    assert_eq!(parse_repeater("+wd"), None);
    assert_eq!(parse_repeater("+1"), None);
    assert_eq!(parse_repeater("+1x"), None);
    assert_eq!(parse_repeater("+1xd"), None);
    assert_eq!(parse_repeater("+xwd"), None);
    assert_eq!(parse_repeater("+1 d"), None);
    assert_eq!(parse_repeater("+-1d"), None);
    assert_eq!(parse_repeater("+4294967296d"), None);
    assert_eq!(parse_repeater("+0d"), None);
    assert_eq!(parse_repeater("+0wd"), None);
    assert_eq!(parse_repeater("+1д"), None);
}

#[test]
fn add_months_keeps_the_day_or_cuts_it_to_the_month_end() {
    assert_eq!(add_months(ymd(2024, 1, 31), 1), Some(ymd(2024, 2, 29)));
    assert_eq!(add_months(ymd(2025, 1, 31), 1), Some(ymd(2025, 2, 28)));
    assert_eq!(add_months(ymd(2024, 1, 31), 2), Some(ymd(2024, 3, 31)));
    assert_eq!(add_months(ymd(2024, 1, 31), 3), Some(ymd(2024, 4, 30)));
    assert_eq!(add_months(ymd(2024, 2, 29), 12), Some(ymd(2025, 2, 28)));
    assert_eq!(add_months(ymd(2024, 2, 29), 48), Some(ymd(2028, 2, 29)));
    assert_eq!(add_months(ymd(2024, 12, 5), 1), Some(ymd(2025, 1, 5)));
    assert_eq!(add_months(ymd(2024, 3, 31), -1), Some(ymd(2024, 2, 29)));
    assert_eq!(add_months(ymd(2024, 1, 15), -1), Some(ymd(2023, 12, 15)));
    assert_eq!(add_months(ymd(2024, 1, 15), 0), Some(ymd(2024, 1, 15)));
    assert_eq!(add_months(ymd(9999, 12, 1), 1), None);
    assert_eq!(add_months(ymd(0, 1, 1), -1), None);
    assert_eq!(add_months(ymd(2024, 1, 15), i64::MAX), None);
    assert_eq!(add_months(ymd(2024, 1, 15), i64::MIN), None);
}

#[test]
fn next_occurrence_cumulative_steps_from_the_anchor() {
    let every_2_days = rule(RepeaterType::Cumulative, 2, RepeaterUnit::Day);
    let base = ymd(2024, 12, 1);
    assert_eq!(next_occurrence(base, &every_2_days, ymd(2024, 11, 1)), Some(ymd(2024, 12, 1)));
    assert_eq!(next_occurrence(base, &every_2_days, ymd(2024, 12, 1)), Some(ymd(2024, 12, 1)));
    assert_eq!(next_occurrence(base, &every_2_days, ymd(2024, 12, 2)), Some(ymd(2024, 12, 3)));
    assert_eq!(next_occurrence(base, &every_2_days, ymd(2024, 12, 3)), Some(ymd(2024, 12, 3)));
    assert_eq!(next_occurrence(base, &every_2_days, ymd(2024, 12, 4)), Some(ymd(2024, 12, 5)));
    let weekly = rule(RepeaterType::Cumulative, 1, RepeaterUnit::Week);
    assert_eq!(next_occurrence(base, &weekly, ymd(2024, 12, 2)), Some(ymd(2024, 12, 8)));
    let hourly = rule(RepeaterType::Cumulative, 6, RepeaterUnit::Hour);
    assert_eq!(next_occurrence(base, &hourly, ymd(2024, 12, 4)), Some(ymd(2024, 12, 4)));
}

#[test]
fn next_occurrence_cumulative_steps_by_calendar_months() {
    let monthly = rule(RepeaterType::Cumulative, 1, RepeaterUnit::Month);
    let base = ymd(2024, 1, 31);
    assert_eq!(next_occurrence(base, &monthly, ymd(2024, 1, 1)), Some(ymd(2024, 1, 31)));
    assert_eq!(next_occurrence(base, &monthly, ymd(2024, 2, 1)), Some(ymd(2024, 2, 29)));
    assert_eq!(next_occurrence(base, &monthly, ymd(2024, 2, 29)), Some(ymd(2024, 2, 29)));
    assert_eq!(next_occurrence(base, &monthly, ymd(2024, 3, 1)), Some(ymd(2024, 3, 31)));
    assert_eq!(next_occurrence(base, &monthly, ymd(2024, 4, 30)), Some(ymd(2024, 4, 30)));
    assert_eq!(next_occurrence(base, &monthly, ymd(2025, 2, 10)), Some(ymd(2025, 2, 28)));
    let yearly = rule(RepeaterType::Cumulative, 1, RepeaterUnit::Year);
    assert_eq!(
        next_occurrence(ymd(2024, 2, 29), &yearly, ymd(2024, 3, 1)),
        Some(ymd(2025, 2, 28))
    );
    assert_eq!(
        next_occurrence(ymd(2024, 2, 29), &yearly, ymd(2027, 3, 1)),
        Some(ymd(2028, 2, 29))
    );
    let every_5_months = rule(RepeaterType::Cumulative, 5, RepeaterUnit::Month);
    assert_eq!(
        next_occurrence(ymd(2024, 1, 10), &every_5_months, ymd(2024, 6, 11)),
        Some(ymd(2024, 11, 10))
    );
    assert_eq!(next_occurrence(ymd(9999, 6, 1), &yearly, ymd(9999, 7, 1)), None);
}

#[test]
fn next_occurrence_catch_up_and_restart_go_on_from_the_given_day() {
    let base = ymd(2024, 12, 1); // Sunday
    let from = ymd(2024, 12, 10); // Tuesday
    let catch_up = |value, unit| rule(RepeaterType::CatchUp, value, unit);
    let restart = |value, unit| rule(RepeaterType::Restart, value, unit);
    assert_eq!(next_occurrence(base, &catch_up(3, RepeaterUnit::Day), from), Some(ymd(2024, 12, 13)));
    assert_eq!(next_occurrence(base, &catch_up(3, RepeaterUnit::Hour), from), Some(ymd(2024, 12, 11)));
    assert_eq!(next_occurrence(base, &catch_up(2, RepeaterUnit::Week), from), Some(ymd(2024, 12, 15)));
    assert_eq!(
        next_occurrence(base, &catch_up(1, RepeaterUnit::Week), ymd(2024, 12, 15)),
        Some(ymd(2024, 12, 15))
    );
    assert_eq!(
        next_occurrence(base, &catch_up(1, RepeaterUnit::Week), ymd(2024, 11, 1)),
        Some(ymd(2024, 12, 8))
    );
    assert_eq!(next_occurrence(base, &catch_up(1, RepeaterUnit::Month), from), Some(ymd(2025, 1, 10)));
    assert_eq!(next_occurrence(base, &catch_up(1, RepeaterUnit::Year), from), Some(ymd(2025, 12, 10)));
    assert_eq!(next_occurrence(base, &restart(3, RepeaterUnit::Day), from), Some(ymd(2024, 12, 13)));
    assert_eq!(next_occurrence(base, &restart(2, RepeaterUnit::Week), from), Some(ymd(2024, 12, 24)));
    assert_eq!(next_occurrence(base, &restart(2, RepeaterUnit::Month), from), Some(ymd(2025, 2, 10)));
    assert_eq!(next_occurrence(base, &restart(1, RepeaterUnit::Hour), from), Some(ymd(2024, 12, 11)));
    assert_eq!(
        next_occurrence(base, &restart(1, RepeaterUnit::Day), ymd(9999, 12, 31)),
        None
    );
}

#[test]
fn next_occurrence_by_workdays() {
    let friday = ymd(2025, 12, 5);
    let cumulative = |value| rule(RepeaterType::Cumulative, value, RepeaterUnit::Workday);
    // Saturday is reached with one step, to Monday; the interval after it ends on Tuesday.
    assert_eq!(next_occurrence(friday, &cumulative(1), ymd(2025, 12, 6)), Some(ymd(2025, 12, 9)));
    assert_eq!(next_occurrence(friday, &cumulative(2), friday), Some(ymd(2025, 12, 9)));
    assert_eq!(next_occurrence(friday, &cumulative(2), ymd(2025, 12, 9)), Some(ymd(2025, 12, 11)));
    assert_eq!(next_occurrence(friday, &cumulative(3), ymd(2025, 12, 9)), Some(ymd(2025, 12, 10)));
    let catch_up = rule(RepeaterType::CatchUp, 2, RepeaterUnit::Workday);
    assert_eq!(next_occurrence(friday, &catch_up, ymd(2025, 12, 30)), Some(ymd(2026, 1, 13)));
    let restart = rule(RepeaterType::Restart, 1, RepeaterUnit::Workday);
    assert_eq!(next_occurrence(friday, &restart, ymd(2025, 10, 31)), Some(ymd(2025, 11, 1)));
}

#[test]
fn next_occurrence_needs_an_interval() {
    let none = rule(RepeaterType::Cumulative, 0, RepeaterUnit::Day);
    assert_eq!(next_occurrence(ymd(2024, 12, 1), &none, ymd(2024, 12, 4)), None);
    let none = rule(RepeaterType::Restart, 0, RepeaterUnit::Workday);
    assert_eq!(next_occurrence(ymd(2024, 12, 1), &none, ymd(2024, 12, 4)), None);
}
