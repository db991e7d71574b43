use markdown_extract::date::Date;
use markdown_extract::dispatch::agenda_for;
use markdown_extract::dispatch::day_in_zone;
use markdown_extract::dispatch::filter_agenda;
use markdown_extract::dispatch::get_current_month;
use markdown_extract::dispatch::get_current_week;
use markdown_extract::dispatch::month_at;
use markdown_extract::dispatch::parse_date;
use markdown_extract::dispatch::parse_date_or_reason;
use markdown_extract::dispatch::sort_todo_tasks;
use markdown_extract::dispatch::today_at;
use markdown_extract::dispatch::today_in_zone;
use markdown_extract::dispatch::week_at;
use markdown_extract::dispatch::AgendaOutput;
use markdown_extract::error::AppError;
use markdown_extract::types::DayAgenda;
use markdown_extract::types::Priority;
use markdown_extract::types::Task;
use markdown_extract::types::TaskType;

fn ymd(year: i32, month: u32, day: u32) -> Date {
    Date::from_ymd_opt(year, month, day).unwrap()
}

fn task(heading: &str, state: Option<TaskType>, priority: Option<Priority>, ts: Option<&str>) -> Task {
    Task {
        file: "test.md".to_string(),
        line: 1,
        heading: heading.to_string(),
        content: String::new(),
        task_type: state,
        priority,
        created: None,
        timestamp: ts.map(|t| t.to_string()),
        timestamp_type: None,
        timestamp_date: None,
        timestamp_time: None,
        timestamp_end_time: None,
        clocks: None,
        total_clock_time: None,
    }
}

fn scheduled(date: &str) -> Task {
    task(date, Some(TaskType::Todo), None, Some(&format!("SCHEDULED: <{date}>")))
}

fn days(output: Result<AgendaOutput, AppError>) -> Vec<DayAgenda> {
    match output {
        Ok(AgendaOutput::Days(days)) => days,
        other => panic!("no days: {other:?}"),
    }
}

fn dates(days: &[DayAgenda]) -> Vec<String> {
    days.iter().map(|d| d.date.clone()).collect()
}

#[test]
fn day_mode_gives_the_day_asked_for_or_today() {
    let today = ymd(2024, 12, 5);
    let tasks = vec![scheduled("2024-12-10"), scheduled("2024-12-20")];
    let found = days(agenda_for(tasks.clone(), "day", None, None, None, today));
    assert_eq!(dates(&found), vec!["2024-12-05"]);
    assert!(found[0].overdue.is_empty() && found[0].upcoming.is_empty());
    assert!(found[0].scheduled_timed.is_empty() && found[0].scheduled_no_time.is_empty());
    let found = days(agenda_for(tasks.clone(), "day", Some("2024-12-10"), None, None, today));
    assert_eq!(dates(&found), vec!["2024-12-10"]);
    assert_eq!(found[0].scheduled_no_time.len(), 1);
    // The range is not looked at in day mode.
    let found = days(agenda_for(tasks, "day", None, Some("x"), Some("y"), today));
    assert_eq!(dates(&found), vec!["2024-12-05"]);
}

#[test]
fn week_mode_runs_from_monday_to_sunday() {
    let today = ymd(2024, 12, 5);
    let found = days(agenda_for(vec![], "week", None, None, None, today));
    assert_eq!(found.len(), 7);
    assert_eq!(found[0].date, "2024-12-02");
    assert_eq!(found[6].date, "2024-12-08");
    let found = days(agenda_for(vec![], "week", Some("2025-01-01"), None, None, today));
    assert_eq!(found[0].date, "2024-12-30");
    assert_eq!(found[6].date, "2025-01-05");
    let found = days(agenda_for(vec![], "week", Some("2024-12-08"), None, None, today));
    assert_eq!(found[0].date, "2024-12-02");
    let found =
        days(agenda_for(vec![], "week", None, Some("2024-12-10"), Some("2024-12-12"), today));
    assert_eq!(dates(&found), vec!["2024-12-10", "2024-12-11", "2024-12-12"]);
    let found =
        days(agenda_for(vec![], "week", None, Some("2024-12-10"), Some("2024-12-10"), today));
    assert_eq!(found.len(), 1);
    // One end of a range alone is not a range.
    let found = days(agenda_for(vec![], "week", None, Some("2024-12-10"), None, today));
    assert_eq!(found[0].date, "2024-12-02");
}

#[test]
fn month_mode_has_as_many_days_as_the_month() {
    let today = ymd(2024, 12, 5);
    for (date, count) in [
        ("2024-01-15", 31),
        ("2024-02-15", 29),
        ("2025-02-01", 28),
        ("2024-04-30", 30),
        ("2024-12-31", 31),
        ("1900-02-10", 28),
        ("2000-02-10", 29),
    ] {
        let found = days(agenda_for(vec![], "month", Some(date), None, None, today));
        assert_eq!(found.len(), count, "{date}");
        assert_eq!(found[0].date[8..], *"01");
        assert_eq!(found[0].date[..8], date[..8]);
        assert_eq!(found[count - 1].date, format!("{}{count}", &date[..8]));
    }
    let found = days(agenda_for(vec![], "month", None, None, None, today));
    assert_eq!(found.len(), 31);
    assert_eq!(found[0].date, "2024-12-01");
}

#[test]
fn tasks_mode_sorts_the_open_tasks_by_priority() {
    let tasks = vec![
        task("none 1", Some(TaskType::Todo), None, None),
        task("c", Some(TaskType::Todo), Some(Priority::C), None),
        task("done", Some(TaskType::Done), Some(Priority::A), None),
        task("a 1", Some(TaskType::Todo), Some(Priority::A), Some("SCHEDULED: <2024-12-10>")),
        task("z", Some(TaskType::Todo), Some(Priority::Other('Z')), None),
        task("plain", None, Some(Priority::A), None),
        task("d", Some(TaskType::Todo), Some(Priority::Other('D')), None),
        task("a 2", Some(TaskType::Todo), Some(Priority::A), None),
        task("b", Some(TaskType::Todo), Some(Priority::B), None),
        task("none 2", Some(TaskType::Todo), None, None),
    ];
    let sorted = match agenda_for(tasks.clone(), "tasks", Some("x"), None, None, ymd(2024, 12, 5)) {
        Ok(AgendaOutput::Tasks(sorted)) => sorted,
        other => panic!("no tasks: {other:?}"),
    };
    let headings: Vec<&str> = sorted.iter().map(|t| t.heading.as_str()).collect();
    assert_eq!(headings, vec!["a 1", "a 2", "b", "c", "d", "z", "none 1", "none 2"]);
    assert_eq!(sorted[0].timestamp, Some("SCHEDULED: <2024-12-10>".to_string()));
    assert_eq!(sort_todo_tasks(&tasks).len(), 8);
    assert_eq!(sort_todo_tasks(&vec![]).len(), 0);
}

fn error(output: Result<AgendaOutput, AppError>) -> AppError {
    match output {
        Err(e) => e,
        Ok(_) => panic!("no error"),
    }
}

#[test]
fn what_cannot_be_read_is_an_error() {
    let today = ymd(2024, 12, 5);
    assert_eq!(
        error(agenda_for(vec![], "year", None, None, None, today)),
        AppError::InvalidDate("Invalid agenda mode 'year'".to_string())
    );
    assert_eq!(
        error(agenda_for(vec![], "", None, None, None, today)),
        AppError::InvalidDate("Invalid agenda mode ''".to_string())
    );
    assert_eq!(
        error(agenda_for(vec![], "day", Some("2024-13-01"), None, None, today)),
        AppError::InvalidDate("date '2024-13-01': input is out of range".to_string())
    );
    assert_eq!(
        error(agenda_for(vec![], "week", None, Some("nope"), Some("2024-12-10"), today)),
        AppError::InvalidDate("from 'nope': input contains invalid characters".to_string())
    );
    assert_eq!(
        error(agenda_for(vec![], "month", None, Some("2024-12-10"), Some("2024-02-30"), today)),
        AppError::InvalidDate("to '2024-02-30': input is out of range".to_string())
    );
    assert_eq!(
        error(agenda_for(vec![], "week", None, Some("2024-12-10"), Some("2024-12-09"), today)),
        AppError::DateRange("Start date 2024-12-10 is after end date 2024-12-09".to_string())
    );
    assert_eq!(
        error(agenda_for(vec![], "week", Some("0000-01-01"), None, None, today)),
        AppError::DateRange("The week of 0000-01-01 is out of range".to_string())
    );
    assert_eq!(
        error(agenda_for(vec![], "week", Some("9999-12-31"), None, None, today)),
        AppError::DateRange("The week of 9999-12-31 is out of range".to_string())
    );
    assert_eq!(
        error(agenda_for(vec![], "day", Some("+10000-01-01"), None, None, today)),
        AppError::InvalidDate("date '+10000-01-01': input is out of range".to_string())
    );
}

#[test]
fn filter_agenda_takes_today_from_the_override() {
    let tasks = vec![scheduled("2024-12-01")];
    let found =
        days(filter_agenda(tasks.clone(), "day", None, None, None, "UTC", Some("2024-12-05")));
    assert_eq!(dates(&found), vec!["2024-12-05"]);
    assert_eq!(found[0].overdue.len(), 1);
    assert_eq!(found[0].overdue[0].days_offset, Some(-4));
    let found = days(filter_agenda(
        tasks.clone(),
        "day",
        Some("2024-12-04"),
        None,
        None,
        "Europe/Moscow",
        Some("2024-12-05"),
    ));
    assert!(found[0].overdue.is_empty());
    assert_eq!(
        error(filter_agenda(tasks.clone(), "day", None, None, None, "Mars/Olympus", None)),
        AppError::InvalidTimezone("Mars/Olympus".to_string())
    );
    assert_eq!(
        error(filter_agenda(tasks.clone(), "day", None, None, None, "UTC", Some("today"))),
        AppError::InvalidDate(
            "current-date 'today': input contains invalid characters".to_string()
        )
    );
    // The time zone is looked at before anything else.
    assert_eq!(
        error(filter_agenda(tasks.clone(), "nope", Some("x"), None, None, "", Some("y"))),
        AppError::InvalidTimezone(String::new())
    );
    let found = days(filter_agenda(tasks, "week", None, None, None, "Asia/Tokyo", None));
    assert_eq!(found.len(), 7);
}

#[test]
fn dates_are_read_as_year_month_and_day() {
    assert_eq!(parse_date("2024-12-05"), Some(ymd(2024, 12, 5)));
    assert_eq!(parse_date("2024-02-29"), Some(ymd(2024, 2, 29)));
    assert_eq!(parse_date("0000-01-01"), Some(ymd(0, 1, 1)));
    assert_eq!(parse_date("2023-02-29"), None);
    assert_eq!(parse_date("2024-12-05 "), None);
    assert_eq!(parse_date("05.12.2024"), None);
    assert_eq!(parse_date(""), None);
    assert_eq!(parse_date("-0001-01-01"), None);
    assert!(today_in_zone("UTC").is_some());
    assert!(today_in_zone("Nowhere").is_none());
}

#[test]
fn a_text_that_is_no_date_comes_with_the_reason() {
    assert_eq!(parse_date_or_reason("2024-12-05"), Ok(ymd(2024, 12, 5)));
    assert_eq!(parse_date_or_reason("9999-12-31"), Ok(ymd(9999, 12, 31)));
    assert_eq!(parse_date_or_reason(""), Err("premature end of input".to_string()));
    assert_eq!(parse_date_or_reason("2024-12"), Err("premature end of input".to_string()));
    assert_eq!(parse_date_or_reason("2024-12-05 "), Err("trailing input".to_string()));
    assert_eq!(parse_date_or_reason("2024-12-05x"), Err("trailing input".to_string()));
    assert_eq!(
        parse_date_or_reason("05.12.2024"),
        Err("input contains invalid characters".to_string())
    );
    assert_eq!(parse_date_or_reason("today"), Err("input contains invalid characters".to_string()));
    assert_eq!(parse_date_or_reason("2024-13-01"), Err("input is out of range".to_string()));
    assert_eq!(parse_date_or_reason("2023-02-29"), Err("input is out of range".to_string()));
    // Dates that lie outside the years 0 to 9999.
    assert_eq!(parse_date_or_reason("-0001-01-01"), Err("input is out of range".to_string()));
    assert_eq!(parse_date_or_reason("+10000-01-01"), Err("input is out of range".to_string()));
}

#[test]
fn a_moment_falls_on_the_day_of_its_zone() {
    assert_eq!(day_in_zone("UTC", 0), Some(ymd(1970, 1, 1)));
    assert_eq!(day_in_zone("America/New_York", 0), Some(ymd(1969, 12, 31)));
    assert_eq!(day_in_zone("Asia/Tokyo", 0), Some(ymd(1970, 1, 1)));
    // 2024-12-05 21:00:00 in universal time is midnight in Moscow.
    assert_eq!(day_in_zone("UTC", 1733432399), Some(ymd(2024, 12, 5)));
    assert_eq!(day_in_zone("Europe/Moscow", 1733432399), Some(ymd(2024, 12, 5)));
    assert_eq!(day_in_zone("Europe/Moscow", 1733432400), Some(ymd(2024, 12, 6)));
    assert_eq!(day_in_zone("UTC", 1733432400), Some(ymd(2024, 12, 5)));
    assert_eq!(day_in_zone("UTC", 1733443199), Some(ymd(2024, 12, 5)));
    assert_eq!(day_in_zone("UTC", 1733443200), Some(ymd(2024, 12, 6)));
    assert_eq!(day_in_zone("Nowhere", 0), None);
    assert_eq!(day_in_zone("", 0), None);
}

#[test]
fn a_moment_outside_the_calendar_has_no_day() {
    assert_eq!(day_in_zone("UTC", 253402300799), Some(ymd(9999, 12, 31)));
    assert_eq!(day_in_zone("UTC", 253402300800), None);
    assert_eq!(day_in_zone("UTC", -62167219200), Some(ymd(0, 1, 1)));
    assert_eq!(day_in_zone("UTC", -62167219201), None);
    assert_eq!(day_in_zone("UTC", 1000000000001), None);
    assert_eq!(day_in_zone("UTC", -1000000000001), None);
    assert_eq!(day_in_zone("UTC", i64::MAX), None);
    assert_eq!(day_in_zone("UTC", i64::MIN), None);
}

#[test]
fn today_is_the_day_that_the_clock_shows() {
    // 2024-12-05 21:00:00 in universal time is midnight in Moscow.
    assert_eq!(today_at("UTC", Some(1733432400)), Some(ymd(2024, 12, 5)));
    assert_eq!(today_at("Europe/Moscow", Some(1733432400)), Some(ymd(2024, 12, 6)));
    assert_eq!(today_at("Europe/Moscow", Some(1733432399)), Some(ymd(2024, 12, 5)));
    assert_eq!(today_at("America/New_York", Some(0)), Some(ymd(1969, 12, 31)));
    assert_eq!(today_at("UTC", Some(253402300799)), Some(ymd(9999, 12, 31)));
    assert_eq!(today_at("UTC", Some(253402300800)), None);
    assert_eq!(today_at("UTC", Some(1000000000001)), None);
    assert_eq!(today_at("UTC", Some(u64::MAX)), None);
    assert_eq!(today_at("UTC", None), None);
    assert_eq!(today_at("Nowhere", Some(1733432400)), None);
    assert_eq!(today_at("Nowhere", None), None);
}

#[test]
fn this_week_and_month_are_those_of_today() {
    // 2024-12-05 is a Thursday.
    assert_eq!(week_at("UTC", Some(1733432400)), Some((ymd(2024, 12, 2), ymd(2024, 12, 8))));
    assert_eq!(month_at("UTC", Some(1733432400)), Some((ymd(2024, 12, 1), ymd(2024, 12, 31))));
    // 2024-12-01 is a Sunday; in Moscow the same moment is Monday the 2nd.
    assert_eq!(week_at("UTC", Some(1733086800)), Some((ymd(2024, 11, 25), ymd(2024, 12, 1))));
    assert_eq!(week_at("Europe/Moscow", Some(1733086800)), Some((ymd(2024, 12, 2), ymd(2024, 12, 8))));
    // 2024-02-29 21:00:00 in universal time is the first of March in Moscow.
    assert_eq!(month_at("UTC", Some(1709240400)), Some((ymd(2024, 2, 1), ymd(2024, 2, 29))));
    assert_eq!(month_at("Europe/Moscow", Some(1709240400)), Some((ymd(2024, 3, 1), ymd(2024, 3, 31))));
    // The week of the last day of the calendar ends outside of it.
    assert_eq!(week_at("UTC", Some(253402300799)), None);
    assert_eq!(month_at("UTC", Some(253402300799)), Some((ymd(9999, 12, 1), ymd(9999, 12, 31))));
    assert_eq!(week_at("UTC", None), None);
    assert_eq!(month_at("UTC", None), None);
    assert_eq!(week_at("Nowhere", Some(0)), None);
    assert_eq!(month_at("Nowhere", Some(0)), None);
}

#[test]
fn an_unknown_zone_has_no_current_week_or_month() {
    assert!(get_current_week("Nowhere").is_none());
    assert!(get_current_month("Nowhere").is_none());
    assert!(get_current_week("Europe/Moscow").is_some());
    assert!(get_current_month("Asia/Tokyo").is_some());
}

#[test]
fn errors_say_what_they_are() {
    assert_eq!(AppError::InvalidTimezone("X".to_string()).message(), "Invalid timezone: X");
    assert_eq!(AppError::InvalidDate("date 'x'".to_string()).message(), "Invalid date: date 'x'");
    assert_eq!(AppError::DateRange("r".to_string()).message(), "Invalid date range: r");
    assert_eq!(AppError::InvalidGlob("g".to_string()).message(), "Invalid glob pattern: g");
}
