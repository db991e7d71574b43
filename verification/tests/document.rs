use markdown_extract::document::extract_paragraph_text;
use markdown_extract::document::extract_tasks;
use markdown_extract::document::extract_text;
use markdown_extract::document::extract_timestamps_from_node;
use markdown_extract::document::finalize_task;
use markdown_extract::document::process_node;
use markdown_extract::document::Block;
use markdown_extract::document::HeadingInfo;
use markdown_extract::document::Inline;
use markdown_extract::extract::extract_created;
use markdown_extract::extract::extract_timestamp;
use markdown_extract::extract::parse_timestamp_fields;
use markdown_extract::types::Priority;
use markdown_extract::types::TaskType;

fn text(s: &str) -> Inline {
    Inline::Text(s.to_string())
}

fn code(s: &str) -> Inline {
    Inline::Code(s.to_string())
}

fn heading(s: &str, line: u32) -> Block {
    Block::Heading { children: vec![text(s)], line }
}

fn paragraph(children: Vec<Inline>) -> Block {
    Block::Paragraph { children }
}

fn some(s: &str) -> Option<String> {
    Some(s.to_string())
}

#[test]
fn a_directive_is_found_with_its_keyword() {
    assert_eq!(
        extract_timestamp("x SCHEDULED: <2024-12-10 Tue 10:00> y", &[]),
        some("SCHEDULED: <2024-12-10 Tue 10:00>")
    );
    assert_eq!(extract_timestamp("DEADLINE:<2024-12-10>", &[]), some("DEADLINE:<2024-12-10>"));
    assert_eq!(extract_timestamp("at <2024-12-10 +1w>.", &[]), some("<2024-12-10 +1w>"));
    assert_eq!(
        extract_timestamp("CLOSED: <2024-12-10>--<2024-12-12 Thu> etc", &[]),
        some("CLOSED: <2024-12-10>--<2024-12-12 Thu>")
    );
    assert_eq!(
        extract_timestamp("<2024-01-01> then <2024-12-10>--<2024-12-12>", &[]),
        some("<2024-12-10>--<2024-12-12>")
    );
    assert_eq!(extract_timestamp("no date here", &[]), None);
    assert_eq!(extract_timestamp("", &[]), None);
    assert_eq!(
        extract_timestamp("SCHEDULED: <2024-12-09 Пн>", &[("Пн", "Mon")]),
        some("SCHEDULED: <2024-12-09 Mon>")
    );
    assert_eq!(extract_timestamp("SCHEDULED: <2024-12-09 Пн>", &[]), None);
}

#[test]
fn a_created_stamp_is_no_directive() {
    assert_eq!(extract_timestamp("CREATED: <2024-12-01 Sun>", &[]), None);
    assert_eq!(extract_timestamp("CREATED:<2024-12-01>", &[]), None);
    assert_eq!(
        extract_timestamp("CREATED: <2024-12-01 Sun>\nSCHEDULED: <2024-12-10 Tue>", &[]),
        some("SCHEDULED: <2024-12-10 Tue>")
    );
    assert_eq!(extract_created("CREATED: <2024-12-01 Sun>", &[]), some("CREATED: <2024-12-01 Sun>"));
    assert_eq!(
        extract_created("x CREATED:  <any text> <more>", &[]),
        some("CREATED:  <any text>")
    );
    assert_eq!(
        extract_created("CREATED: <2024-12-01 Вс>", &[("Вс", "Sun")]),
        some("CREATED: <2024-12-01 Sun>")
    );
    assert_eq!(extract_created("CREATED: <>", &[]), None);
    assert_eq!(extract_created("CREATED: <2024-12-01", &[]), None);
    assert_eq!(extract_created("CREATED: 2024-12-01", &[]), None);
    assert_eq!(extract_created("created: <2024-12-01>", &[]), None);
    assert_eq!(extract_created("CREATED: <> CREATED: <x>", &[]), some("CREATED: <x>"));
    assert_eq!(extract_created("SCHEDULED: <2024-12-01>", &[]), None);
}

#[test]
fn the_fields_of_a_directive() {
    assert_eq!(
        parse_timestamp_fields("DEADLINE: <2024-12-10 Tue 9:05-17:30 +1w>", &[]),
        (some("DEADLINE"), some("2024-12-10"), some("09:05"), some("17:30"))
    );
    assert_eq!(
        parse_timestamp_fields("SCHEDULED: <2024-12-10>", &[]),
        (some("SCHEDULED"), some("2024-12-10"), None, None)
    );
    assert_eq!(
        parse_timestamp_fields("CLOSED: <2024-12-10 10:00>", &[]),
        (some("CLOSED"), some("2024-12-10"), some("10:00"), None)
    );
    assert_eq!(
        parse_timestamp_fields("<2024-12-10 Вт>", &[("Вт", "Tue")]),
        (None, some("2024-12-10"), None, None)
    );
    assert_eq!(parse_timestamp_fields("nothing", &[]), (None, None, None, None));
    assert_eq!(parse_timestamp_fields("<2024-02-30>", &[]), (None, None, None, None));
}

#[test]
fn texts_of_headings_and_paragraphs() {
    let children = vec![text("  TODO "), code("x"), Inline::Other, text("title \n")];
    assert_eq!(extract_text(&children), "  TODO title \n");
    assert_eq!(extract_paragraph_text(&children), "TODO title");
    assert_eq!(extract_text(&vec![]), "");
    assert_eq!(extract_paragraph_text(&vec![text(" \t")]), "");
    let children = vec![
        text("SCHEDULED: <2024-01-01>"),
        code("nothing"),
        code("CREATED: <a> DEADLINE: <2024-12-10>"),
        code("CREATED: <b> SCHEDULED: <2024-12-11>"),
    ];
    assert_eq!(
        extract_timestamps_from_node(&children, &[]),
        (some("CREATED: <a>"), some("DEADLINE: <2024-12-10>"))
    );
    let children = vec![code("SCHEDULED: <2024-12-11>"), code("CREATED: <b>")];
    assert_eq!(
        extract_timestamps_from_node(&children, &[]),
        (some("CREATED: <b>"), some("SCHEDULED: <2024-12-11>"))
    );
    assert_eq!(extract_timestamps_from_node(&vec![], &[]), (None, None));
}

fn info(heading: &str) -> HeadingInfo {
    HeadingInfo {
        heading: heading.to_string(),
        task_type: None,
        priority: None,
        line: 3,
        content: String::new(),
        created: None,
        timestamp: None,
        clocks: Vec::new(),
    }
}

#[test]
fn a_heading_without_state_and_stamps_is_no_task() {
    assert!(finalize_task("a.md", info("Just a heading")).is_none());
    let mut with_content = info("Just a heading");
    with_content.content = "text".to_string();
    assert!(finalize_task("a.md", with_content).is_none());
    let mut created = info("Note");
    created.created = some("CREATED: <2024-12-01>");
    let task = finalize_task("a.md", created).unwrap();
    assert_eq!(task.file, "a.md");
    assert_eq!(task.line, 3);
    assert_eq!(task.heading, "Note");
    assert_eq!(task.created, some("CREATED: <2024-12-01>"));
    assert_eq!(task.timestamp, None);
    assert_eq!(task.timestamp_type, None);
    assert_eq!(task.timestamp_date, None);
    assert_eq!(task.clocks.map(|c| c.len()), None);
    assert_eq!(task.total_clock_time, None);
    let mut state = info("Do");
    state.task_type = Some(TaskType::Done);
    assert!(finalize_task("a.md", state).is_some());
}

#[test]
fn a_task_shows_what_its_directive_says() {
    let mut timed = info("Meet");
    timed.timestamp = some("SCHEDULED: <2024-12-10 Tue 9:00-10:30 +1w>");
    timed.priority = Some(Priority::B);
    let task = finalize_task("dir/a.md", timed).unwrap();
    assert_eq!(task.timestamp, some("SCHEDULED: <2024-12-10 Tue 9:00-10:30 +1w>"));
    assert_eq!(task.timestamp_type, some("SCHEDULED"));
    assert_eq!(task.timestamp_date, some("2024-12-10"));
    assert_eq!(task.timestamp_time, some("09:00"));
    assert_eq!(task.timestamp_end_time, some("10:30"));
    assert_eq!(task.priority, Some(Priority::B));
    assert_eq!(task.file, "dir/a.md");
}

#[test]
fn tasks_are_taken_from_the_blocks_of_a_document() {
    let blocks = vec![
        paragraph(vec![code("SCHEDULED: <2024-01-01>"), text("before any heading")]),
        heading("Notes", 1),
        paragraph(vec![text("just text")]),
        heading("TODO [#A] Write report", 5),
        paragraph(vec![
            code("CREATED: <2024-12-01 Sun>"),
            text(" "),
            code("DEADLINE: <2024-12-10 Tue 10:00>"),
        ]),
        paragraph(vec![text(" First paragraph. ")]),
        Block::Other,
        paragraph(vec![text("Second paragraph."), code("CLOCK: [a]--[b] => 1:30")]),
        Block::CodeBlock {
            literal: " ```CLOCK: [c]--[d] => 0:45\nSCHEDULED: <2024-12-11 Wed>``\n".to_string(),
        },
        heading("DONE Old thing", 20),
        heading("Dated note", 22),
        Block::CodeBlock { literal: "<2024-12-24 Tue>".to_string() },
    ];
    let tasks = extract_tasks("notes.md", &blocks, &[]);
    assert_eq!(tasks.len(), 3);

    let report = &tasks[0];
    assert_eq!(report.file, "notes.md");
    assert_eq!(report.line, 5);
    assert_eq!(report.heading, "Write report");
    assert_eq!(report.task_type, Some(TaskType::Todo));
    assert_eq!(report.priority, Some(Priority::A));
    assert_eq!(report.content, "First paragraph.");
    assert_eq!(report.created, some("CREATED: <2024-12-01 Sun>"));
    assert_eq!(report.timestamp, some("SCHEDULED: <2024-12-11 Wed>"));
    assert_eq!(report.timestamp_type, some("SCHEDULED"));
    assert_eq!(report.timestamp_date, some("2024-12-11"));
    assert_eq!(report.timestamp_time, None);
    let clocks = report.clocks.as_ref().unwrap();
    assert_eq!(clocks.len(), 2);
    assert_eq!(clocks[0].start, "a");
    assert_eq!(clocks[1].start, "c");
    assert_eq!(clocks[1].end, some("d"));
    assert_eq!(report.total_clock_time, some("2:15"));

    assert_eq!(tasks[1].heading, "Old thing");
    assert_eq!(tasks[1].task_type, Some(TaskType::Done));
    assert_eq!(tasks[1].line, 20);
    assert_eq!(tasks[1].timestamp, None);

    assert_eq!(tasks[2].heading, "Dated note");
    assert_eq!(tasks[2].task_type, None);
    assert_eq!(tasks[2].timestamp, some("<2024-12-24 Tue>"));
    assert_eq!(tasks[2].timestamp_type, None);
    assert_eq!(tasks[2].timestamp_date, some("2024-12-24"));

    assert!(extract_tasks("notes.md", &vec![], &[]).is_empty());
}

#[test]
fn localized_weekdays_are_replaced_in_the_stamps_of_a_document() {
    let blocks = vec![
        heading("TODO Позвонить", 1),
        paragraph(vec![code("SCHEDULED: <2024-12-09 Пн 10:00>")]),
    ];
    let tasks = extract_tasks("a.md", &blocks, &[("Пн", "Mon")]);
    assert_eq!(tasks[0].heading, "Позвонить");
    assert_eq!(tasks[0].timestamp, some("SCHEDULED: <2024-12-09 Mon 10:00>"));
    assert_eq!(tasks[0].timestamp_time, some("10:00"));
    let tasks = extract_tasks("a.md", &blocks, &[]);
    assert_eq!(tasks[0].timestamp, None);
}

#[test]
fn a_block_at_a_time() {
    let mut tasks = Vec::new();
    let mut current = None;
    process_node(&paragraph(vec![text("lost")]), "a.md", &mut tasks, &mut current, &[]);
    assert!(current.is_none());
    process_node(&heading("TODO One", 1), "a.md", &mut tasks, &mut current, &[]);
    assert!(tasks.is_empty());
    assert_eq!(current.as_ref().unwrap().heading, "One");
    process_node(&paragraph(vec![text(" kept ")]), "a.md", &mut tasks, &mut current, &[]);
    process_node(&paragraph(vec![text("not kept")]), "a.md", &mut tasks, &mut current, &[]);
    assert_eq!(current.as_ref().unwrap().content, "kept");
    process_node(&Block::Other, "a.md", &mut tasks, &mut current, &[]);
    assert_eq!(current.as_ref().unwrap().content, "kept");
    process_node(&heading("Two", 9), "a.md", &mut tasks, &mut current, &[]);
    assert_eq!(tasks.len(), 1);
    assert_eq!(tasks[0].heading, "One");
    assert_eq!(tasks[0].content, "kept");
    assert_eq!(current.as_ref().unwrap().line, 9);
    process_node(&heading("Three", 12), "a.md", &mut tasks, &mut current, &[]);
    assert_eq!(tasks.len(), 1);
}

#[test]
fn reading_stops_at_the_largest_number_of_tasks() {
    let mut blocks = Vec::new();
    for line in 0..10_050u32 {
        blocks.push(heading("TODO x", line));
    }
    let tasks = extract_tasks("a.md", &blocks, &[]);
    assert_eq!(tasks.len(), 10_001);
    assert_eq!(tasks[10_000].line, 10_000);
}
