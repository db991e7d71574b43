use markdown_extract::date::Date;
use markdown_extract::types::copy_task;
use markdown_extract::types::ClockEntry;
use markdown_extract::types::DayAgenda;
use markdown_extract::types::Priority;
use markdown_extract::types::ProcessingStats;
use markdown_extract::types::Task;
use markdown_extract::types::TaskType;
use markdown_extract::types::MAX_FILE_SIZE;
use markdown_extract::types::MAX_TASKS;

#[test]
fn only_todo_and_done_name_a_state() {
    assert_eq!(TaskType::from_str("TODO"), Some(TaskType::Todo));
    assert_eq!(TaskType::from_str("DONE"), Some(TaskType::Done));
    assert_eq!(TaskType::from_str("todo"), None);
    assert_eq!(TaskType::from_str("TODO "), None);
    assert_eq!(TaskType::from_str(""), None);
}

#[test]
fn priorities_are_upper_case_letters() {
    assert_eq!(Priority::from_char('A'), Some(Priority::A));
    assert_eq!(Priority::from_char('B'), Some(Priority::B));
    assert_eq!(Priority::from_char('C'), Some(Priority::C));
    assert_eq!(Priority::from_char('D'), Some(Priority::Other('D')));
    assert_eq!(Priority::from_char('Z'), Some(Priority::Other('Z')));
    assert_eq!(Priority::from_char('a'), None);
    assert_eq!(Priority::from_char('1'), None);
    assert_eq!(Priority::from_char('['), None);
    assert_eq!(Priority::from_char('@'), None);
    assert_eq!(Priority::from_char('Я'), None);
}

#[test]
fn the_rank_of_a_priority_follows_the_alphabet() {
    assert_eq!(Priority::A.order(), 0);
    assert_eq!(Priority::B.order(), 1);
    assert_eq!(Priority::C.order(), 2);
    assert_eq!(Priority::Other('D').order(), 3);
    assert_eq!(Priority::Other('Z').order(), 25);
    assert_eq!(Priority::Other('a').order(), 32);
    assert_eq!(Priority::Other('0').order(), 0);
    assert_eq!(Priority::Other('A').order(), 0);
}

#[test]
fn warnings_are_skipped_and_failed_files() {
    let mut stats = ProcessingStats::default();
    assert_eq!(stats.files_processed, 0);
    assert!(!stats.has_warnings());
    assert_eq!(stats.summary(), "");
    stats.files_processed = 12;
    assert!(!stats.has_warnings());
    assert_eq!(stats.summary(), "");
    stats.files_failed_read = 1;
    assert!(stats.has_warnings());
    assert_eq!(
        stats.summary(),
        "\nProcessing summary:\n  Files processed: 12\n  Files failed to read: 1\n"
    );
    stats.files_skipped_size = 3;
    stats.files_failed_search = 20;
    assert_eq!(
        stats.summary(),
        "\nProcessing summary:\n  Files processed: 12\n  Files skipped (too large): 3\n  \
Files failed to search: 20\n  Files failed to read: 1\n"
    );
    let only_search = ProcessingStats {
        files_processed: 0,
        files_skipped_size: 0,
        files_failed_search: 1,
        files_failed_read: 0,
    };
    assert!(only_search.has_warnings());
    assert_eq!(MAX_FILE_SIZE, 10 * 1024 * 1024);
    assert_eq!(MAX_TASKS, 10_000);
}

#[test]
fn a_new_agenda_is_empty_and_dated() {
    let agenda = DayAgenda::new(Date::from_ymd_opt(2024, 2, 9).unwrap());
    assert_eq!(agenda.date, "2024-02-09");
    assert!(agenda.overdue.is_empty());
    assert!(agenda.scheduled_timed.is_empty());
    assert!(agenda.scheduled_no_time.is_empty());
    assert!(agenda.upcoming.is_empty());
}

#[test]
fn a_copy_of_a_task_holds_what_the_task_holds() {
    let task = Task {
        file: "a.md".to_string(),
        line: 4,
        heading: "H".to_string(),
        content: "C".to_string(),
        task_type: Some(TaskType::Todo),
        priority: Some(Priority::Other('F')),
        created: Some("CREATED: <2024-12-01>".to_string()),
        timestamp: Some("<2024-12-02>".to_string()),
        timestamp_type: Some("T".to_string()),
        timestamp_date: Some("2024-12-02".to_string()),
        timestamp_time: Some("10:00".to_string()),
        timestamp_end_time: Some("11:00".to_string()),
        clocks: Some(vec![ClockEntry {
            start: "s".to_string(),
            end: Some("e".to_string()),
            duration: None,
        }]),
        total_clock_time: Some("1:00".to_string()),
    };
    let copy = copy_task(&task);
    assert_eq!(format!("{copy:?}"), format!("{task:?}"));
}
