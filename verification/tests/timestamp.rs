use markdown_extract::date::Date;
use markdown_extract::repeater::RepeaterUnit;
use markdown_extract::timestamp::parse_org_timestamp;

#[test]
fn test_parse_timestamp_with_workday_repeater() {
    let ts = "<2025-12-05 Thu +1wd>";
    let parsed = parse_org_timestamp(ts, None).unwrap();
    assert_eq!(parsed.date, Date::from_ymd_opt(2025, 12, 5).unwrap());
    assert!(parsed.repeater.is_some());
    let repeater = parsed.repeater.unwrap();
    assert_eq!(repeater.value, 1);
    assert_eq!(repeater.unit, RepeaterUnit::Workday);
}

#[test]
fn test_parse_timestamp_with_workday_repeater_multiple() {
    let ts = "<2025-12-09 Mon +2wd>";
    let parsed = parse_org_timestamp(ts, None).unwrap();
    let repeater = parsed.repeater.unwrap();
    assert_eq!(repeater.value, 2);
    assert_eq!(repeater.unit, RepeaterUnit::Workday);
}

#[test]
fn test_parse_timestamp_with_regular_repeater() {
    let ts = "<2025-12-05 Thu +1d>";
    let parsed = parse_org_timestamp(ts, None).unwrap();
    let repeater = parsed.repeater.unwrap();
    assert_eq!(repeater.unit, RepeaterUnit::Day);
}
