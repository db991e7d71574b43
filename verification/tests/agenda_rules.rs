use markdown_extract::agenda::build_day_agenda;
use markdown_extract::agenda::build_day_agenda_in;
use markdown_extract::agenda::build_week_agenda;
use markdown_extract::agenda::create_task_without_time;
use markdown_extract::agenda::get_month_for_date;
use markdown_extract::agenda::get_week_for_date;
use markdown_extract::agenda::handle_non_repeating_task;
use markdown_extract::agenda::handle_repeating_task;
use markdown_extract::agenda::Bucket;
use markdown_extract::date::Date;
use markdown_extract::holidays::HolidayCalendar;
use markdown_extract::timestamp::parse_org_timestamp;
use markdown_extract::types::Task;
use markdown_extract::types::TaskType;

fn ymd(year: i32, month: u32, day: u32) -> Date {
    Date::from_ymd_opt(year, month, day).unwrap()
}

fn task(directive: &str, state: TaskType) -> Task {
    let keyword = directive.split(':').next().filter(|k| !k.contains('<'));
    Task {
        file: "test.md".to_string(),
        line: 1,
        heading: directive.to_string(),
        content: String::new(),
        task_type: Some(state),
        priority: None,
        created: None,
        timestamp: Some(directive.to_string()),
        timestamp_type: keyword.map(|k| k.to_string()),
        timestamp_date: None,
        timestamp_time: Some("10:00".to_string()),
        timestamp_end_time: Some("11:00".to_string()),
        clocks: None,
        total_clock_time: None,
    }
}

fn todo(directive: &str) -> Task {
    task(directive, TaskType::Todo)
}

fn counts(tasks: &[Task], day: Date, current: Date) -> (usize, usize, usize, usize) {
    let agenda = build_day_agenda(tasks, day, current);
    (
        agenda.overdue.len(),
        agenda.scheduled_timed.len(),
        agenda.scheduled_no_time.len(),
        agenda.upcoming.len(),
    )
}

#[test]
fn a_task_without_repeater_is_overdue_on_the_current_day_only() {
    let tasks = vec![todo("SCHEDULED: <2024-12-03>")];
    let current = ymd(2024, 12, 5);
    for day in 1..=9 {
        let (overdue, _, untimed, upcoming) = counts(&tasks, ymd(2024, 12, day), current);
        assert_eq!(overdue, usize::from(day == 5), "day {day}");
        assert_eq!(untimed, usize::from(day == 3), "day {day}");
        assert_eq!(upcoming, 0);
    }
    // Not before its date, and not on it.
    assert_eq!(counts(&tasks, ymd(2024, 12, 2), ymd(2024, 12, 2)), (0, 0, 0, 0));
    assert_eq!(counts(&tasks, ymd(2024, 12, 3), ymd(2024, 12, 3)), (0, 0, 1, 0));
    assert_eq!(counts(&tasks, ymd(2024, 12, 4), ymd(2024, 12, 4)), (1, 0, 0, 0));
}

#[test]
fn a_deadline_is_upcoming_within_its_warning_period() {
    let current = ymd(2024, 12, 5);
    for (directive, shown) in [
        ("DEADLINE: <2024-12-06>", true),
        ("DEADLINE: <2024-12-19>", true),
        ("DEADLINE: <2024-12-20>", false),
        ("DEADLINE: <2024-12-08 -3d>", true),
        ("DEADLINE: <2024-12-09 -3d>", false),
        ("DEADLINE: <2024-12-20 -15d>", true),
        ("DEADLINE: <2025-12-05 -365d>", true),
        ("DEADLINE: <2024-12-06 -0d>", false),
        ("SCHEDULED: <2024-12-06 -3d>", false),
        ("CLOSED: <2024-12-06>", false),
        ("<2024-12-06>", false),
    ] {
        let tasks = vec![todo(directive)];
        let agenda = build_day_agenda(&tasks, current, current);
        assert_eq!(agenda.upcoming.len(), usize::from(shown), "{directive}");
        assert_eq!(agenda.overdue.len() + agenda.scheduled_no_time.len(), 0);
        // Only the agenda of the current day shows what is upcoming.
        let other = build_day_agenda(&tasks, ymd(2024, 12, 4), current);
        assert_eq!(other.upcoming.len(), 0, "{directive}");
    }
    let tasks = vec![todo("DEADLINE: <2024-12-08 10:00-11:00 -3d>")];
    let agenda = build_day_agenda(&tasks, current, current);
    assert_eq!(agenda.upcoming[0].days_offset, Some(3));
    assert_eq!(agenda.upcoming[0].task.timestamp_time, None);
    assert_eq!(agenda.upcoming[0].task.timestamp_end_time, None);
    assert_eq!(
        agenda.upcoming[0].task.timestamp,
        Some("DEADLINE: <2024-12-08 10:00-11:00 -3d>".to_string())
    );
}

#[test]
fn done_tasks_are_never_overdue_or_upcoming() {
    let directives = [
        "SCHEDULED: <2024-12-01>",
        "DEADLINE: <2024-12-01>",
        "DEADLINE: <2024-12-08>",
        "DEADLINE: <2024-12-01 +2d>",
        "DEADLINE: <2024-12-08 +1w>",
        "SCHEDULED: <2024-11-01 +1m>",
        "SCHEDULED: <2024-12-02 +1wd>",
    ];
    let done: Vec<Task> = directives.iter().map(|d| task(d, TaskType::Done)).collect();
    let open: Vec<Task> = directives.iter().map(|d| todo(d)).collect();
    let current = ymd(2024, 12, 6);
    for day in 1..=12 {
        let agenda = build_day_agenda(&done, ymd(2024, 12, day), current);
        assert!(agenda.overdue.is_empty() && agenda.upcoming.is_empty(), "day {day}");
        let same = build_day_agenda(&open, ymd(2024, 12, day), current);
        assert_eq!(agenda.scheduled_no_time.len(), same.scheduled_no_time.len());
    }
    let agenda = build_day_agenda(&open, current, current);
    assert_eq!(agenda.overdue.len(), 4);
    assert_eq!(agenda.upcoming.len(), 2);
    assert_eq!(agenda.scheduled_no_time.len(), 1);
}

#[test]
fn a_workday_rule_waits_over_the_weekend() {
    let tasks = vec![todo("SCHEDULED: <2025-12-05 Fri +1wd>")];
    for day in [6, 7] {
        let date = ymd(2025, 12, day);
        assert_eq!(counts(&tasks, date, date), (0, 0, 0, 0));
    }
    assert_eq!(counts(&tasks, ymd(2025, 12, 8), ymd(2025, 12, 8)), (0, 0, 1, 0));
    assert_eq!(counts(&tasks, ymd(2025, 12, 5), ymd(2025, 12, 5)), (0, 0, 1, 0));
    // Every second workday: Tuesday is due, on Wednesday it is a day overdue.
    let tasks = vec![todo("SCHEDULED: <2025-12-05 Fri +2wd>")];
    assert_eq!(counts(&tasks, ymd(2025, 12, 8), ymd(2025, 12, 8)), (1, 0, 0, 0));
    assert_eq!(counts(&tasks, ymd(2025, 12, 9), ymd(2025, 12, 9)), (0, 0, 1, 0));
    let agenda = build_day_agenda(&tasks, ymd(2025, 12, 10), ymd(2025, 12, 10));
    assert_eq!(agenda.overdue[0].days_offset, Some(-1));
    // With a calendar of its own.
    let cal = HolidayCalendar::from_tables(&vec![(2025, 12, 8)], &vec![(2025, 12, 6)]);
    let tasks = vec![todo("SCHEDULED: <2025-12-05 Fri +1wd>")];
    let saturday = build_day_agenda_in(&cal, &tasks, ymd(2025, 12, 6), ymd(2025, 12, 6));
    assert_eq!(saturday.scheduled_no_time.len(), 1);
    let monday = build_day_agenda_in(&cal, &tasks, ymd(2025, 12, 8), ymd(2025, 12, 8));
    assert!(monday.scheduled_no_time.is_empty() && monday.overdue.is_empty());
    let tuesday = build_day_agenda_in(&cal, &tasks, ymd(2025, 12, 9), ymd(2025, 12, 9));
    assert_eq!(tuesday.scheduled_no_time.len(), 1);
}

#[test]
fn an_occurrence_is_shown_with_its_own_date() {
    let tasks = vec![todo("DEADLINE: <2024-12-01 Sun 10:00 ++2d>")];
    let agenda = build_day_agenda(&tasks, ymd(2024, 12, 5), ymd(2024, 12, 5));
    let shown = &agenda.scheduled_timed[0].task;
    assert_eq!(shown.timestamp_date, Some("2024-12-05".to_string()));
    assert_eq!(shown.timestamp, Some("DEADLINE: <2024-12-05 Thu 10:00 +2d>".to_string()));
    assert_eq!(shown.timestamp_time, Some("10:00".to_string()));
    assert_eq!(shown.timestamp_end_time, Some("11:00".to_string()));
    assert_eq!(agenda.scheduled_timed[0].days_offset, None);
    let agenda = build_day_agenda(&tasks, ymd(2024, 12, 6), ymd(2024, 12, 6));
    let late = &agenda.overdue[0];
    assert_eq!(late.days_offset, Some(-1));
    assert_eq!(late.task.timestamp_date, Some("2024-12-05".to_string()));
    assert_eq!(late.task.timestamp, Some("DEADLINE: <2024-12-05 Thu +2d>".to_string()));
    assert_eq!(late.task.timestamp_time, None);
    assert_eq!(late.task.timestamp_end_time, None);
    // Without a keyword the directive stays as it is.
    let tasks = vec![todo("<2024-12-01 Sun +1wd>")];
    let agenda = build_day_agenda(&tasks, ymd(2024, 12, 5), ymd(2024, 12, 5));
    let shown = &agenda.scheduled_no_time[0].task;
    assert_eq!(shown.timestamp, Some("<2024-12-01 Sun +1wd>".to_string()));
    assert_eq!(shown.timestamp_date, Some("2024-12-05".to_string()));
}

#[test]
fn a_future_day_shows_what_falls_on_it() {
    let tasks = vec![
        todo("SCHEDULED: <2024-12-01 +1w>"),
        todo("SCHEDULED: <2024-12-20 +1w>"),
        todo("SCHEDULED: <2024-01-31 +1m>"),
    ];
    let current = ymd(2024, 12, 5);
    assert_eq!(counts(&tasks, ymd(2024, 12, 8), current), (0, 0, 1, 0));
    assert_eq!(counts(&tasks, ymd(2024, 12, 9), current), (0, 0, 0, 0));
    assert_eq!(counts(&tasks, ymd(2024, 12, 20), current), (0, 0, 1, 0));
    assert_eq!(counts(&tasks, ymd(2024, 12, 27), current), (0, 0, 1, 0));
    assert_eq!(counts(&tasks, ymd(2024, 12, 31), current), (0, 0, 1, 0));
    assert_eq!(counts(&tasks, ymd(2025, 2, 27), current), (0, 0, 0, 0));
    assert_eq!(counts(&tasks, ymd(2025, 3, 31), current), (0, 0, 1, 0));
    // Past days show the last occurrence only.
    assert_eq!(counts(&tasks, ymd(2024, 11, 24), current), (0, 0, 0, 0));
    assert_eq!(counts(&tasks, ymd(2024, 12, 1), current), (0, 0, 1, 0));
    assert_eq!(counts(&tasks, ymd(2024, 10, 31), current), (0, 0, 1, 0));
}

#[test]
fn the_lists_are_sorted_and_keep_the_order_of_equals() {
    let mut tasks = vec![
        todo("SCHEDULED: <2024-12-03>"),
        todo("SCHEDULED: <2024-12-01>"),
        todo("SCHEDULED: <2024-12-03 08:00>"),
        todo("DEADLINE: <2024-12-09>"),
        todo("DEADLINE: <2024-12-07>"),
        todo("DEADLINE: <2024-12-09 07:00>"),
        todo("SCHEDULED: <2024-12-05 14:00>"),
        todo("SCHEDULED: <2024-12-05 9:30>"),
        todo("SCHEDULED: <2024-12-05 14:00-15:00>"),
        todo("SCHEDULED: <2024-12-05 00:00>"),
        todo("SCHEDULED: <2024-12-05>"),
        todo("DEADLINE: <2024-12-05>"),
    ];
    for (index, task) in tasks.iter_mut().enumerate() {
        task.line = index as u32;
    }
    let day = ymd(2024, 12, 5);
    let agenda = build_day_agenda(&tasks, day, day);
    let lines = |list: &Vec<markdown_extract::types::TaskWithOffset>| -> Vec<u32> {
        list.iter().map(|e| e.task.line).collect()
    };
    assert_eq!(lines(&agenda.overdue), vec![1, 0, 2]);
    assert_eq!(lines(&agenda.upcoming), vec![4, 3, 5]);
    assert_eq!(lines(&agenda.scheduled_timed), vec![9, 7, 6, 8]);
    assert_eq!(lines(&agenda.scheduled_no_time), vec![10, 11]);
}

#[test]
fn tasks_without_a_timestamp_are_left_out() {
    let mut bare = todo("SCHEDULED: <2024-12-05>");
    bare.timestamp = None;
    let tasks = vec![bare, todo("no bracket"), todo("SCHEDULED: <2024-02-30>")];
    let day = ymd(2024, 12, 5);
    assert_eq!(counts(&tasks, day, day), (0, 0, 0, 0));
    assert_eq!(counts(&[], day, day), (0, 0, 0, 0));
}

#[test]
fn the_place_of_one_task() {
    let cal = HolidayCalendar::load().unwrap();
    let t = todo("DEADLINE: <2024-12-10 Tue 10:00 -2d>");
    let parsed = parse_org_timestamp("DEADLINE: <2024-12-10 Tue 10:00 -2d>", None).unwrap();
    let on_day = handle_non_repeating_task(&t, &parsed, ymd(2024, 12, 10), false).unwrap();
    assert_eq!(on_day.bucket, Bucket::ScheduledTimed);
    assert_eq!(on_day.key, 600);
    assert_eq!(on_day.entry.days_offset, None);
    let late = handle_non_repeating_task(&t, &parsed, ymd(2024, 12, 12), true).unwrap();
    assert_eq!((late.bucket, late.key, late.entry.days_offset), (Bucket::Overdue, -2, Some(-2)));
    let soon = handle_non_repeating_task(&t, &parsed, ymd(2024, 12, 8), true).unwrap();
    assert_eq!((soon.bucket, soon.key), (Bucket::Upcoming, 2));
    assert!(handle_non_repeating_task(&t, &parsed, ymd(2024, 12, 7), true).is_none());
    assert!(handle_non_repeating_task(&t, &parsed, ymd(2024, 12, 12), false).is_none());

    let r = todo("SCHEDULED: <2024-12-01 Sun +1w>");
    let parsed = parse_org_timestamp("SCHEDULED: <2024-12-01 Sun +1w>", None).unwrap();
    let rule = parsed.repeater.unwrap();
    let place = |day: Date, current: Date| -> Option<Bucket> {
        handle_repeating_task(&cal, &r, &parsed, &rule, day, current).map(|p| p.bucket)
    };
    assert_eq!(place(ymd(2024, 12, 8), ymd(2024, 12, 8)), Some(Bucket::ScheduledUntimed));
    assert_eq!(place(ymd(2024, 12, 9), ymd(2024, 12, 9)), Some(Bucket::Overdue));
    assert_eq!(place(ymd(2024, 12, 8), ymd(2024, 12, 9)), Some(Bucket::ScheduledUntimed));
    assert_eq!(place(ymd(2024, 12, 1), ymd(2024, 12, 9)), None);
    assert_eq!(place(ymd(2024, 11, 20), ymd(2024, 11, 20)), None);
    let mut none = rule;
    none.value = 0;
    assert!(handle_repeating_task(&cal, &r, &parsed, &none, ymd(2024, 12, 1), ymd(2024, 12, 1))
        .is_none());

    let stripped = create_task_without_time(&t, Some(7));
    assert_eq!(stripped.days_offset, Some(7));
    assert_eq!(stripped.task.timestamp_time, None);
    assert_eq!(stripped.task.timestamp_end_time, None);
    assert_eq!(stripped.task.timestamp, t.timestamp);
}

#[test]
fn weeks_and_months_of_a_date() {
    assert_eq!(
        get_week_for_date(ymd(2024, 12, 5)),
        Some((ymd(2024, 12, 2), ymd(2024, 12, 8)))
    );
    assert_eq!(
        get_week_for_date(ymd(2024, 12, 2)),
        Some((ymd(2024, 12, 2), ymd(2024, 12, 8)))
    );
    assert_eq!(
        get_week_for_date(ymd(2025, 1, 5)),
        Some((ymd(2024, 12, 30), ymd(2025, 1, 5)))
    );
    assert_eq!(get_week_for_date(ymd(0, 1, 2)), None);
    assert_eq!(get_week_for_date(ymd(0, 1, 3)), Some((ymd(0, 1, 3), ymd(0, 1, 9))));
    assert_eq!(get_week_for_date(ymd(9999, 12, 27)), None);
    assert_eq!(
        get_week_for_date(ymd(9999, 12, 26)),
        Some((ymd(9999, 12, 20), ymd(9999, 12, 26)))
    );
    assert_eq!(get_month_for_date(ymd(2024, 2, 10)), (ymd(2024, 2, 1), ymd(2024, 2, 29)));
    assert_eq!(get_month_for_date(ymd(2023, 2, 28)), (ymd(2023, 2, 1), ymd(2023, 2, 28)));
    assert_eq!(get_month_for_date(ymd(2024, 4, 30)), (ymd(2024, 4, 1), ymd(2024, 4, 30)));
    assert_eq!(get_month_for_date(ymd(9999, 12, 1)), (ymd(9999, 12, 1), ymd(9999, 12, 31)));
    let tasks = vec![todo("SCHEDULED: <2024-12-05>")];
    assert!(build_week_agenda(&tasks, ymd(2024, 12, 8), ymd(2024, 12, 2), ymd(2024, 12, 5))
        .is_empty());
    let end = build_week_agenda(&tasks, ymd(9999, 12, 30), ymd(9999, 12, 31), ymd(2024, 12, 5));
    assert_eq!(end.len(), 2);
}
