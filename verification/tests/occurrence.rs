use markdown_extract::date::Date;
use markdown_extract::holidays::HolidayCalendar;
use markdown_extract::occurrence::closest_on_or_before;
use markdown_extract::occurrence::find_last_occurrence_before;
use markdown_extract::occurrence::is_occurrence_day;
use markdown_extract::occurrence::last_occurrence_upto;
use markdown_extract::repeater::Repeater;
use markdown_extract::repeater::RepeaterType;
use markdown_extract::repeater::RepeaterUnit;

fn ymd(year: i32, month: u32, day: u32) -> Date {
    Date::from_ymd_opt(year, month, day).unwrap()
}

fn every(value: u32, unit: RepeaterUnit) -> Repeater {
    Repeater { repeater_type: RepeaterType::Cumulative, value, unit }
}

fn calendar() -> HolidayCalendar {
    HolidayCalendar::load().unwrap()
}

#[test]
fn every_second_day_falls_on_every_second_day() {
    let cal = calendar();
    let base = ymd(2024, 12, 1);
    let rule = every(2, RepeaterUnit::Day);
    assert!(is_occurrence_day(&cal, base, &rule, ymd(2024, 12, 1)));
    assert!(!is_occurrence_day(&cal, base, &rule, ymd(2024, 12, 2)));
    assert!(is_occurrence_day(&cal, base, &rule, ymd(2024, 12, 3)));
    assert!(!is_occurrence_day(&cal, base, &rule, ymd(2024, 12, 4)));
    assert!(is_occurrence_day(&cal, base, &rule, ymd(2024, 12, 5)));
    assert!(is_occurrence_day(&cal, base, &rule, ymd(2025, 1, 2)));
    assert!(!is_occurrence_day(&cal, base, &rule, ymd(2024, 11, 29)));
}

#[test]
fn no_day_before_the_anchor_and_none_without_an_interval() {
    let cal = calendar();
    let base = ymd(2024, 12, 1);
    for unit in [
        RepeaterUnit::Day,
        RepeaterUnit::Week,
        RepeaterUnit::Month,
        RepeaterUnit::Year,
        RepeaterUnit::Hour,
        RepeaterUnit::Workday,
    ] {
        assert!(!is_occurrence_day(&cal, base, &every(1, unit), ymd(2024, 11, 30)));
        assert!(!is_occurrence_day(&cal, base, &every(0, unit), base));
        assert!(!is_occurrence_day(&cal, base, &every(0, unit), ymd(2024, 12, 8)));
    }
}

#[test]
fn weeks_months_years_and_hours() {
    let cal = calendar();
    let base = ymd(2024, 1, 31);
    assert!(is_occurrence_day(&cal, base, &every(2, RepeaterUnit::Week), ymd(2024, 2, 14)));
    assert!(!is_occurrence_day(&cal, base, &every(2, RepeaterUnit::Week), ymd(2024, 2, 7)));
    assert!(is_occurrence_day(&cal, base, &every(1, RepeaterUnit::Month), ymd(2024, 3, 31)));
    assert!(!is_occurrence_day(&cal, base, &every(1, RepeaterUnit::Month), ymd(2024, 2, 29)));
    assert!(!is_occurrence_day(&cal, base, &every(2, RepeaterUnit::Month), ymd(2024, 8, 31)));
    assert!(is_occurrence_day(&cal, base, &every(2, RepeaterUnit::Month), ymd(2025, 1, 31)));
    assert!(is_occurrence_day(&cal, base, &every(1, RepeaterUnit::Year), ymd(2030, 1, 31)));
    assert!(!is_occurrence_day(&cal, base, &every(2, RepeaterUnit::Year), ymd(2025, 1, 31)));
    assert!(!is_occurrence_day(&cal, base, &every(1, RepeaterUnit::Year), ymd(2025, 3, 31)));
    assert!(is_occurrence_day(&cal, base, &every(5, RepeaterUnit::Hour), base));
    assert!(!is_occurrence_day(&cal, base, &every(5, RepeaterUnit::Hour), ymd(2024, 2, 1)));
    let leap = ymd(2024, 2, 29);
    assert!(!is_occurrence_day(&cal, leap, &every(1, RepeaterUnit::Year), ymd(2025, 2, 28)));
    assert!(is_occurrence_day(&cal, leap, &every(1, RepeaterUnit::Year), ymd(2028, 2, 29)));
}

#[test]
fn workdays_count_the_workdays_since_the_anchor() {
    let cal = calendar();
    let friday = ymd(2025, 12, 5);
    let daily = every(1, RepeaterUnit::Workday);
    assert!(is_occurrence_day(&cal, friday, &daily, friday));
    assert!(!is_occurrence_day(&cal, friday, &daily, ymd(2025, 12, 6)));
    assert!(!is_occurrence_day(&cal, friday, &daily, ymd(2025, 12, 7)));
    assert!(is_occurrence_day(&cal, friday, &daily, ymd(2025, 12, 8)));
    let third = every(3, RepeaterUnit::Workday);
    assert!(!is_occurrence_day(&cal, friday, &third, ymd(2025, 12, 8)));
    assert!(!is_occurrence_day(&cal, friday, &third, ymd(2025, 12, 9)));
    assert!(is_occurrence_day(&cal, friday, &third, ymd(2025, 12, 10)));
    // The last day of 2025 and the holidays at the start of 2026 are no workdays.
    let before = ymd(2025, 12, 30);
    let second = every(2, RepeaterUnit::Workday);
    assert!(!is_occurrence_day(&cal, before, &second, ymd(2025, 12, 31)));
    assert!(!is_occurrence_day(&cal, before, &second, ymd(2026, 1, 5)));
    assert!(!is_occurrence_day(&cal, before, &second, ymd(2026, 1, 12)));
    assert!(is_occurrence_day(&cal, before, &second, ymd(2026, 1, 13)));
    assert!(is_occurrence_day(&cal, before, &daily, ymd(2026, 1, 12)));
    // An anchor on a weekend is no occurrence day itself.
    let saturday = ymd(2025, 12, 6);
    assert!(!is_occurrence_day(&cal, saturday, &daily, saturday));
    assert!(is_occurrence_day(&cal, saturday, &daily, ymd(2025, 12, 8)));
}

#[test]
fn the_last_occurrence_before_a_day() {
    let cal = calendar();
    let base = ymd(2024, 12, 1);
    let two_days = every(2, RepeaterUnit::Day);
    assert_eq!(find_last_occurrence_before(&cal, base, &two_days, ymd(2024, 12, 1)), None);
    assert_eq!(
        find_last_occurrence_before(&cal, base, &two_days, ymd(2024, 12, 2)),
        Some(ymd(2024, 12, 1))
    );
    assert_eq!(
        find_last_occurrence_before(&cal, base, &two_days, ymd(2024, 12, 5)),
        Some(ymd(2024, 12, 3))
    );
    assert_eq!(
        find_last_occurrence_before(&cal, base, &two_days, ymd(2024, 12, 6)),
        Some(ymd(2024, 12, 5))
    );
    let monthly = every(1, RepeaterUnit::Month);
    assert_eq!(
        find_last_occurrence_before(&cal, ymd(2024, 1, 31), &monthly, ymd(2024, 3, 31)),
        Some(ymd(2024, 1, 31))
    );
    assert_eq!(
        find_last_occurrence_before(&cal, ymd(2024, 1, 5), &monthly, ymd(2024, 3, 5)),
        Some(ymd(2024, 2, 5))
    );
    let yearly = every(1, RepeaterUnit::Year);
    assert_eq!(
        find_last_occurrence_before(&cal, ymd(2020, 2, 29), &yearly, ymd(2027, 6, 1)),
        Some(ymd(2024, 2, 29))
    );
    let workdays = every(2, RepeaterUnit::Workday);
    assert_eq!(
        find_last_occurrence_before(&cal, ymd(2025, 12, 5), &workdays, ymd(2025, 12, 9)),
        Some(ymd(2025, 12, 5))
    );
    assert_eq!(
        find_last_occurrence_before(&cal, ymd(2025, 12, 5), &workdays, ymd(2025, 12, 10)),
        Some(ymd(2025, 12, 9))
    );
    assert_eq!(find_last_occurrence_before(&cal, ymd(0, 1, 1), &two_days, ymd(0, 1, 1)), None);
    assert_eq!(
        last_occurrence_upto(&cal, ymd(9999, 12, 30), &two_days, ymd(9999, 12, 31)),
        Some(ymd(9999, 12, 30))
    );
    assert_eq!(last_occurrence_upto(&cal, base, &every(0, RepeaterUnit::Day), base), None);
}

#[test]
fn the_closest_occurrence_at_or_before_a_day() {
    let cal = calendar();
    let base = ymd(2024, 12, 10);
    let weekly = every(1, RepeaterUnit::Week);
    assert_eq!(closest_on_or_before(&cal, base, &weekly, ymd(2024, 12, 5)), base);
    assert_eq!(closest_on_or_before(&cal, base, &weekly, base), base);
    assert_eq!(closest_on_or_before(&cal, base, &weekly, ymd(2024, 12, 16)), base);
    assert_eq!(closest_on_or_before(&cal, base, &weekly, ymd(2024, 12, 17)), ymd(2024, 12, 17));
    assert_eq!(closest_on_or_before(&cal, base, &weekly, ymd(2025, 1, 1)), ymd(2024, 12, 31));
    let hourly = every(1, RepeaterUnit::Hour);
    assert_eq!(closest_on_or_before(&cal, base, &hourly, ymd(2025, 1, 1)), base);
    // A workday rule anchored on a weekend: the anchor until the first workday.
    let saturday = ymd(2025, 12, 6);
    let daily = every(1, RepeaterUnit::Workday);
    assert_eq!(closest_on_or_before(&cal, saturday, &daily, ymd(2025, 12, 7)), saturday);
    assert_eq!(closest_on_or_before(&cal, saturday, &daily, ymd(2025, 12, 9)), ymd(2025, 12, 9));
    assert_eq!(
        closest_on_or_before(&cal, saturday, &every(0, RepeaterUnit::Day), ymd(2025, 12, 9)),
        saturday
    );
}
