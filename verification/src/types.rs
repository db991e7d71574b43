use crate::date::Date;
use crate::date::Ymd;
use crate::text::decimal_text;
use crate::text::push_decimal;
use crate::text::push_str_chars;
use crate::text::str_equal;
use crate::text::string_of;
use vstd::prelude::*;

verus! {

/// Completion state of a task: `TODO` or `DONE`.
#[derive(Debug, Clone, Copy, PartialEq, Eq, Structural)]
pub enum TaskType {
    Todo,
    Done,
}

impl TaskType {
    /// `TODO` and `DONE` name a state; nothing else does.
    pub fn from_str(s: &str) -> (r: Option<TaskType>)
        ensures
            r == if s@ == "TODO"@ {
                Some(TaskType::Todo)
            } else if s@ == "DONE"@ {
                Some(TaskType::Done)
            } else {
                None
            },
    {
        if str_equal(s, "TODO") {
            Some(TaskType::Todo)
        } else if str_equal(s, "DONE") {
            Some(TaskType::Done)
        } else {
            None
        }
    }
}

/// Priority of a task: `A` is the highest, letters after `C` follow in the
/// order of the alphabet.
#[derive(Debug, Clone, Copy, PartialEq, Eq, PartialOrd, Ord, Structural)]
pub enum Priority {
    A,
    B,
    C,
    Other(char),
}

/// The priority that an upper-case letter from `A` to `Z` names.
pub open spec fn priority_of(c: char) -> Option<Priority> {
    if c == 'A' {
        Some(Priority::A)
    } else if c == 'B' {
        Some(Priority::B)
    } else if c == 'C' {
        Some(Priority::C)
    } else if 'D' <= c && c <= 'Z' {
        Some(Priority::Other(c))
    } else {
        None
    }
}

/// The rank of a priority: 0 for `A`, 1 for `B`, 2 for `C`, then the place of
/// the letter in the alphabet; 0 for a character before `A`.
pub open spec fn priority_rank(p: Priority) -> int {
    match p {
        Priority::A => 0,
        Priority::B => 1,
        Priority::C => 2,
        Priority::Other(c) => if c >= 'A' {
            c as int - 'A' as int
        } else {
            0
        },
    }
}

impl Priority {
    /// The priority that `c` names, for the upper-case letters `A` to `Z`.
    pub fn from_char(c: char) -> (r: Option<Priority>)
        ensures
            r == priority_of(c),
    {
        if c == 'A' {
            Some(Priority::A)
        } else if c == 'B' {
            Some(Priority::B)
        } else if c == 'C' {
            Some(Priority::C)
        } else if 'D' <= c && c <= 'Z' {
            Some(Priority::Other(c))
        } else {
            None
        }
    }

    /// The rank to sort by: the lower, the more urgent.
    pub fn order(&self) -> (r: u32)
        ensures
            r == priority_rank(*self),
    {
        match self {
            Priority::A => 0,
            Priority::B => 1,
            Priority::C => 2,
            Priority::Other(c) => {
                let code: u32 = *c as u32;
                if code >= 65 {
                    code - 65
                } else {
                    0
                }
            },
        }
    }
}

/// One `CLOCK:` line of a task.
#[derive(Debug, Clone)]
pub struct ClockEntry {
    pub start: String,
    pub end: Option<String>,
    pub duration: Option<String>,
}

/// The model of a [`ClockEntry`].
pub struct ClockEntryView {
    pub start: Seq<char>,
    pub end: Option<Seq<char>>,
    pub duration: Option<Seq<char>>,
}

impl View for ClockEntry {
    type V = ClockEntryView;

    open spec fn view(&self) -> ClockEntryView {
        ClockEntryView {
            start: self.start@,
            end: self.end.deep_view(),
            duration: self.duration.deep_view(),
        }
    }
}

impl DeepView for ClockEntry {
    type V = ClockEntryView;

    open spec fn deep_view(&self) -> ClockEntryView {
        self@
    }
}

/// A task taken from a document.
#[derive(Debug, Clone)]
pub struct Task {
    pub file: String,
    pub line: u32,
    pub heading: String,
    pub content: String,
    pub task_type: Option<TaskType>,
    pub priority: Option<Priority>,
    pub created: Option<String>,
    pub timestamp: Option<String>,
    pub timestamp_type: Option<String>,
    pub timestamp_date: Option<String>,
    pub timestamp_time: Option<String>,
    pub timestamp_end_time: Option<String>,
    pub clocks: Option<Vec<ClockEntry>>,
    pub total_clock_time: Option<String>,
}

/// The model of a [`Task`].
pub struct TaskView {
    pub file: Seq<char>,
    pub line: u32,
    pub heading: Seq<char>,
    pub content: Seq<char>,
    pub task_type: Option<TaskType>,
    pub priority: Option<Priority>,
    pub created: Option<Seq<char>>,
    pub timestamp: Option<Seq<char>>,
    pub timestamp_type: Option<Seq<char>>,
    pub timestamp_date: Option<Seq<char>>,
    pub timestamp_time: Option<Seq<char>>,
    pub timestamp_end_time: Option<Seq<char>>,
    pub clocks: Option<Seq<ClockEntryView>>,
    pub total_clock_time: Option<Seq<char>>,
}

impl View for Task {
    type V = TaskView;

    open spec fn view(&self) -> TaskView {
        TaskView {
            file: self.file@,
            line: self.line,
            heading: self.heading@,
            content: self.content@,
            task_type: self.task_type,
            priority: self.priority,
            created: self.created.deep_view(),
            timestamp: self.timestamp.deep_view(),
            timestamp_type: self.timestamp_type.deep_view(),
            timestamp_date: self.timestamp_date.deep_view(),
            timestamp_time: self.timestamp_time.deep_view(),
            timestamp_end_time: self.timestamp_end_time.deep_view(),
            clocks: self.clocks.deep_view(),
            total_clock_time: self.total_clock_time.deep_view(),
        }
    }
}

impl DeepView for Task {
    type V = TaskView;

    open spec fn deep_view(&self) -> TaskView {
        self@
    }
}

/// A copy of an optional text.
pub fn copy_text(text: &Option<String>) -> (r: Option<String>)
    ensures
        r.deep_view() == text.deep_view(),
{
    match text {
        Some(s) => Some(s.clone()),
        None => None,
    }
}

/// A copy of a clock entry.
pub fn copy_clock(entry: &ClockEntry) -> (r: ClockEntry)
    ensures
        r@ == entry@,
{
    ClockEntry {
        start: entry.start.clone(),
        end: copy_text(&entry.end),
        duration: copy_text(&entry.duration),
    }
}

/// A copy of a list of clock entries.
pub fn copy_clocks(clocks: &Vec<ClockEntry>) -> (r: Vec<ClockEntry>)
    ensures
        r.deep_view() == clocks.deep_view(),
{
    let mut r: Vec<ClockEntry> = Vec::new();
    let mut i: usize = 0;
    while i < clocks.len()
        invariant
            i <= clocks.len(),
            r.len() == i,
            forall|j: int| 0 <= j < i ==> r@[j]@ == clocks@[j]@,
        decreases clocks.len() - i,
    {
        r.push(copy_clock(&clocks[i]));
        i += 1;
    }
    assert(r.deep_view() =~= clocks.deep_view());
    r
}

/// A copy of a task.
pub fn copy_task(task: &Task) -> (r: Task)
    ensures
        r@ == task@,
{
    Task {
        file: task.file.clone(),
        line: task.line,
        heading: task.heading.clone(),
        content: task.content.clone(),
        task_type: task.task_type,
        priority: task.priority,
        created: copy_text(&task.created),
        timestamp: copy_text(&task.timestamp),
        timestamp_type: copy_text(&task.timestamp_type),
        timestamp_date: copy_text(&task.timestamp_date),
        timestamp_time: copy_text(&task.timestamp_time),
        timestamp_end_time: copy_text(&task.timestamp_end_time),
        clocks: match &task.clocks {
            Some(clocks) => Some(copy_clocks(clocks)),
            None => None,
        },
        total_clock_time: copy_text(&task.total_clock_time),
    }
}

/// Largest file that is read, in bytes.
pub const MAX_FILE_SIZE: u64 = 10485760;

/// Largest number of tasks taken from one document.
pub const MAX_TASKS: usize = 10000;

/// Counts of what happened to the files of one run.
#[derive(Debug)]
pub struct ProcessingStats {
    pub files_processed: usize,
    pub files_skipped_size: usize,
    pub files_failed_search: usize,
    pub files_failed_read: usize,
}

impl Default for ProcessingStats {
    fn default() -> (r: ProcessingStats)
        ensures
            r.files_processed == 0,
            r.files_skipped_size == 0,
            r.files_failed_search == 0,
            r.files_failed_read == 0,
    {
        ProcessingStats {
            files_processed: 0,
            files_skipped_size: 0,
            files_failed_search: 0,
            files_failed_read: 0,
        }
    }
}

/// A line of a summary with a count, if the count is not 0.
pub open spec fn count_line(label: Seq<char>, count: usize) -> Seq<char> {
    if count > 0 {
        label + decimal_text(count as nat) + "\n"@
    } else {
        Seq::empty()
    }
}

/// The summary of a run with warnings: a title, the number of files
/// processed, and a line for each kind of warning that came up.
pub open spec fn summary_text(stats: ProcessingStats) -> Seq<char> {
    "\nProcessing summary:\n"@ + "  Files processed: "@ + decimal_text(stats.files_processed as nat)
        + "\n"@ + count_line("  Files skipped (too large): "@, stats.files_skipped_size)
        + count_line("  Files failed to search: "@, stats.files_failed_search) + count_line(
        "  Files failed to read: "@,
        stats.files_failed_read,
    )
}

/// Appends a line of a summary with a count, if the count is not 0.
fn push_count_line(out: &mut Vec<char>, label: &str, count: usize)
    ensures
        final(out)@ == old(out)@ + count_line(label@, count),
{
    if count > 0 {
        push_str_chars(out, label);
        push_decimal(out, count as u64);
        push_str_chars(out, "\n");
        assert(out@ =~= old(out)@ + (label@ + decimal_text(count as nat) + "\n"@));
    } else {
        assert(out@ =~= old(out)@ + Seq::<char>::empty());
    }
}

impl ProcessingStats {
    /// Whether any file was skipped or failed.
    pub fn has_warnings(&self) -> (r: bool)
        ensures
            r == (self.files_skipped_size > 0 || self.files_failed_search > 0
                || self.files_failed_read > 0),
    {
        self.files_skipped_size > 0 || self.files_failed_search > 0 || self.files_failed_read > 0
    }

    /// The summary to print after a run: nothing for a run without warnings.
    pub fn summary(&self) -> (r: String)
        ensures
            r@ == if self.files_skipped_size > 0 || self.files_failed_search > 0
                || self.files_failed_read > 0 {
                summary_text(*self)
            } else {
                Seq::empty()
            },
    {
        let mut out: Vec<char> = Vec::new();
        if self.has_warnings() {
            push_str_chars(&mut out, "\nProcessing summary:\n");
            push_str_chars(&mut out, "  Files processed: ");
            push_decimal(&mut out, self.files_processed as u64);
            push_str_chars(&mut out, "\n");
            let ghost head = out@;
            push_count_line(&mut out, "  Files skipped (too large): ", self.files_skipped_size);
            push_count_line(&mut out, "  Files failed to search: ", self.files_failed_search);
            push_count_line(&mut out, "  Files failed to read: ", self.files_failed_read);
            assert(out@ =~= summary_text(*self));
        } else {
            assert(out@ =~= Seq::<char>::empty());
        }
        string_of(&out)
    }
}

/// A task with its distance in days from the day of an agenda: positive for
/// days until it is due, negative for days overdue, absent on the day itself.
#[derive(Debug)]
pub struct TaskWithOffset {
    pub task: Task,
    pub days_offset: Option<i64>,
}

/// The model of a [`TaskWithOffset`].
pub struct TaskWithOffsetView {
    pub task: TaskView,
    pub days_offset: Option<i64>,
}

impl View for TaskWithOffset {
    type V = TaskWithOffsetView;

    open spec fn view(&self) -> TaskWithOffsetView {
        TaskWithOffsetView { task: self.task@, days_offset: self.days_offset }
    }
}

impl DeepView for TaskWithOffset {
    type V = TaskWithOffsetView;

    open spec fn deep_view(&self) -> TaskWithOffsetView {
        self@
    }
}

/// The tasks of one day, in four lists.
#[derive(Debug)]
pub struct DayAgenda {
    pub date: String,
    pub overdue: Vec<TaskWithOffset>,
    pub scheduled_timed: Vec<TaskWithOffset>,
    pub scheduled_no_time: Vec<TaskWithOffset>,
    pub upcoming: Vec<TaskWithOffset>,
}

/// The model of a [`DayAgenda`].
pub struct DayAgendaView {
    pub date: Seq<char>,
    pub overdue: Seq<TaskWithOffsetView>,
    pub scheduled_timed: Seq<TaskWithOffsetView>,
    pub scheduled_no_time: Seq<TaskWithOffsetView>,
    pub upcoming: Seq<TaskWithOffsetView>,
}

impl View for DayAgenda {
    type V = DayAgendaView;

    open spec fn view(&self) -> DayAgendaView {
        DayAgendaView {
            date: self.date@,
            overdue: self.overdue.deep_view(),
            scheduled_timed: self.scheduled_timed.deep_view(),
            scheduled_no_time: self.scheduled_no_time.deep_view(),
            upcoming: self.upcoming.deep_view(),
        }
    }
}

impl DeepView for DayAgenda {
    type V = DayAgendaView;

    open spec fn deep_view(&self) -> DayAgendaView {
        self@
    }
}

/// The agenda of `date` with no task in it.
pub open spec fn empty_agenda(date: Ymd) -> DayAgendaView {
    DayAgendaView {
        date: crate::date::iso_text(date),
        overdue: Seq::empty(),
        scheduled_timed: Seq::empty(),
        scheduled_no_time: Seq::empty(),
        upcoming: Seq::empty(),
    }
}

impl DayAgenda {
    /// The agenda of `date` with no task in it; the date is written as
    /// `YYYY-MM-DD`.
    pub fn new(date: Date) -> (r: DayAgenda)
        ensures
            r@ == empty_agenda(date@),
    {
        let r = DayAgenda {
            date: date.to_iso_string(),
            overdue: Vec::new(),
            scheduled_timed: Vec::new(),
            scheduled_no_time: Vec::new(),
            upcoming: Vec::new(),
        };
        assert(r.overdue.deep_view() =~= Seq::empty());
        assert(r.scheduled_timed.deep_view() =~= Seq::empty());
        assert(r.scheduled_no_time.deep_view() =~= Seq::empty());
        assert(r.upcoming.deep_view() =~= Seq::empty());
        r
    }
}

} // verus!
